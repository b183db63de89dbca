//! The meaning of a program, as spec functions over an abstract state.
//!
//! `eval` is a definitional interpreter: it gives, for a state, a node and an
//! amount of fuel, the state afterwards and either the handle of the result
//! or the fatal condition that stopped evaluation. Every recursive step spends
//! one unit of fuel, so the definition is total; running out is reported as
//! `Error::OutOfFuel`.
use vstd::prelude::*;
use crate::ast::Node;
use crate::heap::{HeapModel, Pointer, Value};

verus! {

/// A fatal condition (or, for `VariableMissing`, a lookup miss).
#[derive(Clone, Copy, PartialEq, Eq, Structural, Debug)]
pub enum Error {
    VariableMissing,
    Redeclared,
    NoScope,
    UndefinedFunction,
    WrongArity,
    NestedFunction,
    NotAnArray,
    IndexNotInt,
    IndexOutOfBounds,
    SizeNotInt,
    NegativeSize,
    OperandNotInt,
    UnknownOperator,
    InvalidReceiver,
    DivisionByZero,
    Overflow,
    MissingFormatArgument,
    NotImplemented,
    NotTopLevel,
    OutOfFuel,
}

/// A built-in operator on integers.
#[derive(Clone, Copy, PartialEq, Eq, Structural, Debug)]
pub enum Operator {
    Add,
    Sub,
    Mul,
    Div,
    Rem,
    Or,
    And,
    Eq,
    Ne,
    Lt,
    Gt,
    Le,
    Ge,
}

/// One lexical scope: its bindings in order of declaration.
pub type Scope = Seq<(Seq<char>, Pointer)>;

pub ghost struct FunctionModel {
    pub parameters: Seq<Seq<char>>,
    pub body: Node,
}

/// The abstract state of a run.
///
/// `frames[0]` is the global frame; the last frame is the one of the running
/// function (or the global frame itself outside of any call). Within a frame
/// the last scope is the innermost. Later entries of `functions` take
/// precedence over earlier ones with the same name.
pub ghost struct State {
    pub heap: HeapModel,
    pub frames: Seq<Seq<Scope>>,
    pub functions: Seq<(Seq<char>, FunctionModel)>,
    pub output: Seq<char>,
}

pub open spec fn operator_of(name: Seq<char>) -> Option<Operator> {
    if name == seq!['+'] {
        Some(Operator::Add)
    } else if name == seq!['-'] {
        Some(Operator::Sub)
    } else if name == seq!['*'] {
        Some(Operator::Mul)
    } else if name == seq!['/'] {
        Some(Operator::Div)
    } else if name == seq!['%'] {
        Some(Operator::Rem)
    } else if name == seq!['|'] {
        Some(Operator::Or)
    } else if name == seq!['&'] {
        Some(Operator::And)
    } else if name == seq!['=', '='] {
        Some(Operator::Eq)
    } else if name == seq!['!', '='] {
        Some(Operator::Ne)
    } else if name == seq!['<'] {
        Some(Operator::Lt)
    } else if name == seq!['>'] {
        Some(Operator::Gt)
    } else if name == seq!['<', '='] {
        Some(Operator::Le)
    } else if name == seq!['>', '='] {
        Some(Operator::Ge)
    } else {
        None
    }
}

pub open spec fn abs(a: int) -> nat {
    if a < 0 {
        (-a) as nat
    } else {
        a as nat
    }
}

/// Quotient rounded toward zero.
pub open spec fn trunc_div(a: int, b: int) -> int {
    if (a < 0) == (b < 0) {
        (abs(a) / abs(b)) as int
    } else {
        -(abs(a) / abs(b))
    }
}

/// Remainder with the sign of the dividend: `|a| mod |b|`, negated when `a`
/// is negative.
pub open spec fn trunc_rem(a: int, b: int) -> int {
    if a < 0 {
        -(abs(a) % abs(b))
    } else {
        (abs(a) % abs(b)) as int
    }
}

pub open spec fn fits_i32(a: int) -> bool {
    i32::MIN <= a <= i32::MAX
}

pub open spec fn int_result(a: int) -> Result<Value, Error> {
    if fits_i32(a) {
        Ok(Value::Int(a as i32))
    } else {
        Err(Error::Overflow)
    }
}

/// What an operator gives on two integers. `|` and `&` combine the
/// truthiness of the operands (non-zero is true); they are not bitwise.
pub open spec fn apply_int(op: Operator, l: i32, r: i32) -> Result<Value, Error> {
    match op {
        Operator::Add => int_result(l + r),
        Operator::Sub => int_result(l - r),
        Operator::Mul => int_result(l * r),
        Operator::Div => if r == 0 {
            Err(Error::DivisionByZero)
        } else {
            int_result(trunc_div(l as int, r as int))
        },
        Operator::Rem => if r == 0 {
            Err(Error::DivisionByZero)
        } else if l == i32::MIN && r == -1 {
            Err(Error::Overflow)
        } else {
            Ok(Value::Int(trunc_rem(l as int, r as int) as i32))
        },
        Operator::Or => Ok(Value::Boolean(l != 0 || r != 0)),
        Operator::And => Ok(Value::Boolean(l != 0 && r != 0)),
        Operator::Eq => Ok(Value::Boolean(l == r)),
        Operator::Ne => Ok(Value::Boolean(l != r)),
        Operator::Lt => Ok(Value::Boolean(l < r)),
        Operator::Gt => Ok(Value::Boolean(l > r)),
        Operator::Le => Ok(Value::Boolean(l <= r)),
        Operator::Ge => Ok(Value::Boolean(l >= r)),
    }
}

/// Truthiness of a condition: booleans as they are, `Unit` is false and
/// every other value is true.
pub open spec fn truthy(v: Value) -> bool {
    match v {
        Value::Boolean(b) => b,
        Value::Unit => false,
        _ => true,
    }
}

pub open spec fn digit_char(d: nat) -> char {
    if d == 0 { '0' }
    else if d == 1 { '1' }
    else if d == 2 { '2' }
    else if d == 3 { '3' }
    else if d == 4 { '4' }
    else if d == 5 { '5' }
    else if d == 6 { '6' }
    else if d == 7 { '7' }
    else if d == 8 { '8' }
    else { '9' }
}

/// Decimal digits of `n`, most significant first, without leading zeros.
pub open spec fn digits(n: nat) -> Seq<char>
    decreases n,
{
    if n < 10 {
        seq![digit_char(n)]
    } else {
        digits(n / 10).push(digit_char(n % 10))
    }
}

pub open spec fn int_text(n: i32) -> Seq<char> {
    if n < 0 {
        seq!['-'] + digits(abs(n as int))
    } else {
        digits(n as nat)
    }
}

pub open spec fn bool_text(b: bool) -> Seq<char> {
    if b {
        seq!['t', 'r', 'u', 'e']
    } else {
        seq!['f', 'a', 'l', 's', 'e']
    }
}

pub open spec fn null_text() -> Seq<char> {
    seq!['n', 'u', 'l', 'l']
}

/// The text of the value behind `p`; arrays as `[e0, e1, ...]`.
pub open spec fn value_text(h: HeapModel, p: Pointer, fuel: nat) -> Result<Seq<char>, Error>
    decreases fuel, 0nat,
{
    match h.deref(p) {
        Value::Int(n) => Ok(int_text(n)),
        Value::Boolean(b) => Ok(bool_text(b)),
        Value::Unit => Ok(null_text()),
        Value::Object => Err(Error::NotImplemented),
        Value::Array { .. } => if fuel == 0 {
            Err(Error::OutOfFuel)
        } else {
            match elements_text(h, h.elements(h.deref(p)), 0, seq!['['], (fuel - 1) as nat) {
                Ok(t) => Ok(t.push(']')),
                Err(e) => Err(e),
            }
        },
    }
}

/// `acc` followed by the texts of `elems[i..]`, separated by `", "`.
pub open spec fn elements_text(
    h: HeapModel,
    elems: Seq<Pointer>,
    i: int,
    acc: Seq<char>,
    fuel: nat,
) -> Result<Seq<char>, Error>
    decreases fuel, elems.len() - i + 1,
{
    if i < 0 || i >= elems.len() {
        Ok(acc)
    } else {
        match value_text(h, elems[i], fuel) {
            Ok(t) => {
                let sep = if i + 1 < elems.len() { seq![',', ' '] } else { Seq::empty() };
                elements_text(h, elems, i + 1, acc + t + sep, fuel)
            },
            Err(e) => Err(e),
        }
    }
}

/// The text with each two-character sequence `\n` turned into a newline.
pub open spec fn unescape(s: Seq<char>) -> Seq<char>
    decreases s.len(),
{
    if s.len() == 0 {
        s
    } else if s.len() >= 2 && s[0] == '\\' && s[1] == 'n' {
        seq!['\n'] + unescape(s.skip(2))
    } else {
        seq![s[0]] + unescape(s.skip(1))
    }
}

/// Index of the latest binding of `name` among the first `n` of `sc`.
pub open spec fn find_binding(sc: Scope, name: Seq<char>, n: int) -> Option<int>
    decreases n,
{
    if n <= 0 {
        None
    } else if sc[n - 1].0 == name {
        Some(n - 1)
    } else {
        find_binding(sc, name, n - 1)
    }
}

/// Scope and binding index of `name` in the first `n` scopes of a frame,
/// searching from the innermost.
pub open spec fn find_in_frame(frame: Seq<Scope>, name: Seq<char>, n: int) -> Option<(int, int)>
    decreases n,
{
    if n <= 0 {
        None
    } else {
        match find_binding(frame[n - 1], name, frame[n - 1].len() as int) {
            Some(j) => Some((n - 1, j)),
            None => find_in_frame(frame, name, n - 1),
        }
    }
}

impl State {
    /// A fresh run: a heap that holds only `Unit`, a global frame without
    /// scopes, no functions and no output.
    pub open spec fn initial() -> State {
        State {
            heap: HeapModel {
                values: seq![Value::Unit],
                slots: Seq::empty(),
                ints: Map::empty(),
                bools: Map::empty(),
                unit: Pointer { index: 0 },
            },
            frames: seq![Seq::empty()],
            functions: Seq::empty(),
            output: Seq::empty(),
        }
    }

    pub open spec fn wf(self) -> bool {
        &&& self.heap.wf()
        &&& self.frames.len() >= 1
        &&& forall|f: int, s: int, j: int|
            0 <= f < self.frames.len() && 0 <= s < self.frames[f].len() && 0 <= j
                < self.frames[f][s].len() ==> self.heap.valid(#[trigger] self.frames[f][s][j].1)
    }

    pub open spec fn with_heap(self, h: HeapModel) -> State {
        State { heap: h, ..self }
    }

    pub open spec fn current(self) -> int {
        self.frames.len() - 1
    }

    /// Opens a scope in the current frame.
    pub open spec fn push_scope(self) -> State {
        let c = self.current();
        State { frames: self.frames.update(c, self.frames[c].push(Seq::empty())), ..self }
    }

    /// Closes the innermost scope of the current frame, if it has one.
    pub open spec fn pop_scope(self) -> State {
        let c = self.current();
        if self.frames[c].len() > 0 {
            State { frames: self.frames.update(c, self.frames[c].drop_last()), ..self }
        } else {
            self
        }
    }

    /// Starts a call: a new frame holding one empty scope.
    pub open spec fn enter_call(self) -> State {
        State { frames: self.frames.push(seq![Seq::empty()]), ..self }
    }

    /// Ends a call: drops the current frame. The global frame stays.
    pub open spec fn exit_call(self) -> State {
        if self.frames.len() > 1 {
            State { frames: self.frames.drop_last(), ..self }
        } else {
            self
        }
    }

    /// Where `name` is bound: the current frame, innermost scope first, and
    /// then, inside a call, the global scope (the outermost scope of the
    /// global frame). A callee never sees the scopes of blocks and loops that
    /// its callers opened.
    pub open spec fn locate(self, name: Seq<char>) -> Option<(int, int, int)> {
        let c = self.current();
        match find_in_frame(self.frames[c], name, self.frames[c].len() as int) {
            Some((s, j)) => Some((c, s, j)),
            None => if c > 0 && self.frames[0].len() > 0 {
                match find_binding(self.frames[0][0], name, self.frames[0][0].len() as int) {
                    Some(j) => Some((0, 0, j)),
                    None => None,
                }
            } else {
                None
            },
        }
    }

    pub open spec fn resolve(self, name: Seq<char>) -> Option<Pointer> {
        match self.locate(name) {
            Some((f, s, j)) => Some(self.frames[f][s][j].1),
            None => None,
        }
    }

    /// Rebinds the binding at `(f, s, j)` to `p`.
    pub open spec fn rebind(self, f: int, s: int, j: int, p: Pointer) -> State {
        let b = self.frames[f][s][j];
        State {
            frames: self.frames.update(
                f,
                self.frames[f].update(s, self.frames[f][s].update(j, (b.0, p))),
            ),
            ..self
        }
    }

    /// Declares `name` in the innermost scope of the current frame.
    pub open spec fn declare(self, name: Seq<char>, p: Pointer) -> (State, Result<Pointer, Error>) {
        let c = self.current();
        let fr = self.frames[c];
        if fr.len() == 0 {
            (self, Err(Error::NoScope))
        } else {
            let top = fr.last();
            if find_binding(top, name, top.len() as int) is Some {
                (self, Err(Error::Redeclared))
            } else {
                (
                    State {
                        frames: self.frames.update(c, fr.update(fr.len() - 1, top.push((name, p)))),
                        ..self
                    },
                    Ok(p),
                )
            }
        }
    }

    /// Assigns `p` to the visible binding of `name`.
    pub open spec fn assign(self, name: Seq<char>, p: Pointer) -> (State, Result<Pointer, Error>) {
        match self.locate(name) {
            Some((f, s, j)) => (self.rebind(f, s, j, p), Ok(p)),
            None => (self, Err(Error::VariableMissing)),
        }
    }

    pub open spec fn add_function(self, name: Seq<char>, parameters: Seq<Seq<char>>, body: Node) -> State {
        State {
            functions: self.functions.push((name, FunctionModel { parameters, body })),
            ..self
        }
    }

    pub open spec fn get_int(self, n: i32) -> (State, Pointer) {
        let (h, p) = self.heap.get_int(n);
        (self.with_heap(h), p)
    }

    pub open spec fn get_bool(self, b: bool) -> (State, Pointer) {
        let (h, p) = self.heap.get_bool(b);
        (self.with_heap(h), p)
    }
}

/// `n` follows `o`: well formed, no stored value was dropped, and every
/// interned literal keeps its handle.
pub open spec fn grows(o: State, n: State) -> bool {
    &&& n.wf()
    &&& o.heap.values.len() <= n.heap.values.len()
    &&& o.heap.ints.submap_of(n.heap.ints)
    &&& o.heap.bools.submap_of(n.heap.bools)
}

pub broadcast proof fn lemma_grows_trans(a: State, b: State, c: State)
    requires
        #[trigger] grows(a, b),
        #[trigger] grows(b, c),
    ensures
        grows(a, c),
{
    vstd::map_lib::lemma_submap_of_trans(a.heap.ints, b.heap.ints, c.heap.ints);
    vstd::map_lib::lemma_submap_of_trans(a.heap.bools, b.heap.bools, c.heap.bools);
}

/// The latest function named `name` among the first `n` entries.
pub open spec fn find_function(fs: Seq<(Seq<char>, FunctionModel)>, name: Seq<char>, n: int) -> Option<FunctionModel>
    decreases n,
{
    if n <= 0 {
        None
    } else if fs[n - 1].0 == name {
        Some(fs[n - 1].1)
    } else {
        find_function(fs, name, n - 1)
    }
}

pub open spec fn lookup_function(s: State, name: Seq<char>) -> Option<FunctionModel> {
    find_function(s.functions, name, s.functions.len() as int)
}

/// Registers the function declarations among `exprs[i..]`, in order.
pub open spec fn register(s: State, exprs: Seq<Node>, i: int) -> State
    decreases exprs.len() - i,
{
    if i < 0 || i >= exprs.len() {
        s
    } else {
        let s1 = match exprs[i] {
            Node::Function { name, parameters, body } => s.add_function(name, parameters, *body),
            _ => s,
        };
        register(s1, exprs, i + 1)
    }
}

/// The value of a program with the given fuel.
pub open spec fn eval(s: State, e: Node, fuel: nat) -> (State, Result<Pointer, Error>)
    decreases fuel, 0int,
{
    if fuel == 0 {
        (s, Err(Error::OutOfFuel))
    } else {
        let f = (fuel - 1) as nat;
        match e {
            Node::Integer(n) => {
                let (s1, p) = s.get_int(n);
                (s1, Ok(p))
            },
            Node::Boolean(b) => {
                let (s1, p) = s.get_bool(b);
                (s1, Ok(p))
            },
            Node::Null => (s, Ok(s.heap.unit)),
            Node::Variable { name, value } => {
                let (s1, r) = eval(s, *value, f);
                match r {
                    Ok(p) => s1.declare(name, p),
                    Err(err) => (s1, Err(err)),
                }
            },
            Node::Array { size, value } => {
                let (s1, r) = eval(s, *size, f);
                match r {
                    Ok(p) => match s1.heap.deref(p) {
                        Value::Int(n) => if n < 0 {
                            (s1, Err(Error::NegativeSize))
                        } else {
                            let (s2, r2) = eval_repeat(s1, *value, n as int, Seq::empty(), f);
                            match r2 {
                                Ok(elems) => {
                                    let (h, a) = s2.heap.alloc_array(elems);
                                    (s2.with_heap(h), Ok(a))
                                },
                                Err(err) => (s2, Err(err)),
                            }
                        },
                        _ => (s1, Err(Error::SizeNotInt)),
                    },
                    Err(err) => (s1, Err(err)),
                }
            },
            Node::Object { .. } => (s, Err(Error::NotImplemented)),
            Node::AccessVariable { name } => match s.resolve(name) {
                Some(p) => (s, Ok(p)),
                None => (s, Err(Error::VariableMissing)),
            },
            Node::AccessField { .. } => (s, Err(Error::NotImplemented)),
            Node::AccessArray { array, index } => {
                let (s1, r1) = eval(s, *array, f);
                match r1 {
                    Ok(pa) => {
                        let (s2, r2) = eval(s1, *index, f);
                        match r2 {
                            Ok(pi) => (s2, element_at(s2.heap, pa, pi)),
                            Err(err) => (s2, Err(err)),
                        }
                    },
                    Err(err) => (s1, Err(err)),
                }
            },
            Node::AssignVariable { name, value } => {
                let (s1, r) = eval(s, *value, f);
                match r {
                    Ok(p) => s1.assign(name, p),
                    Err(err) => (s1, Err(err)),
                }
            },
            Node::AssignField { .. } => (s, Err(Error::NotImplemented)),
            Node::AssignArray { array, index, value } => {
                let (s1, r1) = eval(s, *array, f);
                match r1 {
                    Ok(pa) => {
                        let (s2, r2) = eval(s1, *index, f);
                        match r2 {
                            Ok(pi) => {
                                let (s3, r3) = eval(s2, *value, f);
                                match r3 {
                                    Ok(pv) => match slot_of(s3.heap, pa, pi) {
                                        Ok(at) => (s3.with_heap(s3.heap.set_slot(at, pv)), Ok(s3.heap.unit)),
                                        Err(err) => (s3, Err(err)),
                                    },
                                    Err(err) => (s3, Err(err)),
                                }
                            },
                            Err(err) => (s2, Err(err)),
                        }
                    },
                    Err(err) => (s1, Err(err)),
                }
            },
            Node::Function { .. } => (s, Err(Error::NestedFunction)),
            Node::CallFunction { name, arguments } => match lookup_function(s, name) {
                None => (s, Err(Error::UndefinedFunction)),
                Some(func) => if func.parameters.len() != arguments.len() {
                    (s, Err(Error::WrongArity))
                } else {
                    let (s1, r1) = eval_args(s.enter_call(), func.parameters, arguments, 0, f);
                    match r1 {
                        Ok(_) => {
                            let (s2, r2) = eval(s1, func.body, f);
                            match r2 {
                                Ok(p) => (s2.exit_call(), Ok(p)),
                                Err(err) => (s2, Err(err)),
                            }
                        },
                        Err(err) => (s1, Err(err)),
                    }
                },
            },
            Node::CallMethod { object, name, arguments } => {
                let (s1, r1) = eval(s, *object, f);
                match r1 {
                    Ok(po) => match s1.heap.deref(po) {
                        Value::Int(l) => if arguments.len() != 1 {
                            (s1, Err(Error::WrongArity))
                        } else {
                            let (s2, r2) = eval(s1, arguments[0], f);
                            match r2 {
                                Ok(pr) => match s2.heap.deref(pr) {
                                    Value::Int(r) => match operator_of(name) {
                                        Some(op) => match apply_int(op, l, r) {
                                            Ok(Value::Int(n)) => {
                                                let (s3, p) = s2.get_int(n);
                                                (s3, Ok(p))
                                            },
                                            Ok(Value::Boolean(b)) => {
                                                let (s3, p) = s2.get_bool(b);
                                                (s3, Ok(p))
                                            },
                                            Ok(_) => (s2, Err(Error::UnknownOperator)),
                                            Err(err) => (s2, Err(err)),
                                        },
                                        None => (s2, Err(Error::UnknownOperator)),
                                    },
                                    _ => (s2, Err(Error::OperandNotInt)),
                                },
                                Err(err) => (s2, Err(err)),
                            }
                        },
                        Value::Unit => if arguments.len() != 1 {
                            (s1, Err(Error::WrongArity))
                        } else {
                            let (s2, r2) = eval(s1, arguments[0], f);
                            match r2 {
                                Ok(pr) => {
                                    let (s3, p) = s2.get_bool(s2.heap.deref(pr) == Value::Unit);
                                    (s3, Ok(p))
                                },
                                Err(err) => (s2, Err(err)),
                            }
                        },
                        Value::Object => (s1, Err(Error::NotImplemented)),
                        _ => (s1, Err(Error::InvalidReceiver)),
                    },
                    Err(err) => (s1, Err(err)),
                }
            },
            Node::Top(exprs) => {
                let (s1, r) = eval_seq(register(s, exprs, 0), exprs, 0, None, true, f);
                match r {
                    Ok(Some(p)) => (s1, Ok(p)),
                    Ok(None) => {
                        let (s2, p) = s1.get_int(0);
                        (s2, Ok(p))
                    },
                    Err(err) => (s1, Err(err)),
                }
            },
            Node::Block(exprs) => {
                let (s1, r) = eval_seq(s.push_scope(), exprs, 0, None, false, f);
                match r {
                    Ok(Some(p)) => (s1.pop_scope(), Ok(p)),
                    Ok(None) => (s1.pop_scope(), Ok(s1.heap.unit)),
                    Err(err) => (s1, Err(err)),
                }
            },
            Node::Loop { condition, body } => {
                let (s1, r) = eval_loop(s.push_scope(), *condition, *body, f);
                match r {
                    Ok(_) => (s1.pop_scope(), Ok(s1.heap.unit)),
                    Err(err) => (s1, Err(err)),
                }
            },
            Node::Conditional { condition, consequent, alternative } => {
                let (s1, r) = eval(s, *condition, f);
                match r {
                    Ok(pc) => if truthy(s1.heap.deref(pc)) {
                        eval(s1, *consequent, f)
                    } else {
                        eval(s1, *alternative, f)
                    },
                    Err(err) => (s1, Err(err)),
                }
            },
            Node::Print { format, arguments } => {
                let (s1, r) = eval_print(s, format, arguments, 0, 0, Seq::empty(), f);
                match r {
                    Ok(text) => (State { output: s1.output + unescape(text), ..s1 }, Ok(s1.heap.unit)),
                    Err(err) => (s1, Err(err)),
                }
            },
        }
    }
}

/// The element of the array `pa` at the integer `pi`.
pub open spec fn element_at(h: HeapModel, pa: Pointer, pi: Pointer) -> Result<Pointer, Error> {
    match h.deref(pa) {
        Value::Array { size, data } => match h.deref(pi) {
            Value::Int(i) => if 0 <= i < size {
                Ok(h.slots[data + i])
            } else {
                Err(Error::IndexOutOfBounds)
            },
            _ => Err(Error::IndexNotInt),
        },
        _ => Err(Error::NotAnArray),
    }
}

/// The slot that `pa[pi]` names, for an assignment.
pub open spec fn slot_of(h: HeapModel, pa: Pointer, pi: Pointer) -> Result<int, Error> {
    match h.deref(pi) {
        Value::Int(i) => match h.deref(pa) {
            Value::Array { size, data } => if 0 <= i < size {
                Ok(data + i)
            } else {
                Err(Error::IndexOutOfBounds)
            },
            _ => Err(Error::NotAnArray),
        },
        _ => Err(Error::IndexNotInt),
    }
}

/// Evaluates `exprs[i..]` in order. The result is the handle of the last one
/// evaluated, or `last` if there is none. With `skip_functions`, function
/// declarations are passed over.
pub open spec fn eval_seq(
    s: State,
    exprs: Seq<Node>,
    i: int,
    last: Option<Pointer>,
    skip_functions: bool,
    fuel: nat,
) -> (State, Result<Option<Pointer>, Error>)
    decreases fuel, exprs.len() - i + 1,
{
    if i < 0 || i >= exprs.len() {
        (s, Ok(last))
    } else if skip_functions && exprs[i] is Function {
        eval_seq(s, exprs, i + 1, last, skip_functions, fuel)
    } else {
        let (s1, r) = eval(s, exprs[i], fuel);
        match r {
            Ok(p) => eval_seq(s1, exprs, i + 1, Some(p), skip_functions, fuel),
            Err(err) => (s1, Err(err)),
        }
    }
}

/// Evaluates `init` once for each element still missing from `acc`, until
/// it holds `n` handles.
pub open spec fn eval_repeat(s: State, init: Node, n: int, acc: Seq<Pointer>, fuel: nat) -> (
    State,
    Result<Seq<Pointer>, Error>,
)
    decreases fuel, n - acc.len() + 1,
{
    if acc.len() >= n {
        (s, Ok(acc))
    } else {
        let (s1, r) = eval(s, init, fuel);
        match r {
            Ok(p) => eval_repeat(s1, init, n, acc.push(p), fuel),
            Err(err) => (s1, Err(err)),
        }
    }
}

/// The loop runs its body while the condition is false, and stops the first
/// time the condition is true.
pub open spec fn eval_loop(s: State, condition: Node, body: Node, fuel: nat) -> (State, Result<(), Error>)
    decreases fuel, 1int,
{
    if fuel == 0 {
        (s, Err(Error::OutOfFuel))
    } else {
        let f = (fuel - 1) as nat;
        let (s1, r) = eval(s, condition, f);
        match r {
            Ok(pc) => if truthy(s1.heap.deref(pc)) {
                (s1, Ok(()))
            } else {
                let (s2, r2) = eval(s1, body, f);
                match r2 {
                    Ok(_) => eval_loop(s2, condition, body, f),
                    Err(err) => (s2, Err(err)),
                }
            },
            Err(err) => (s1, Err(err)),
        }
    }
}

/// Evaluates `args[i..]` in the callee's frame and binds each to its
/// parameter.
pub open spec fn eval_args(
    s: State,
    parameters: Seq<Seq<char>>,
    args: Seq<Node>,
    i: int,
    fuel: nat,
) -> (State, Result<(), Error>)
    decreases fuel, args.len() - i + 1,
{
    if i < 0 || i >= args.len() {
        (s, Ok(()))
    } else {
        let (s1, r) = eval(s, args[i], fuel);
        match r {
            Ok(p) => {
                let (s2, r2) = s1.declare(parameters[i], p);
                match r2 {
                    Ok(_) => eval_args(s2, parameters, args, i + 1, fuel),
                    Err(err) => (s2, Err(err)),
                }
            },
            Err(err) => (s1, Err(err)),
        }
    }
}

/// Renders `format[i..]` after `acc`: each `~` takes the next argument,
/// starting with `args[k]`, and every other character is copied.
pub open spec fn eval_print(
    s: State,
    format: Seq<char>,
    args: Seq<Node>,
    i: int,
    k: int,
    acc: Seq<char>,
    fuel: nat,
) -> (State, Result<Seq<char>, Error>)
    decreases fuel, format.len() - i + 1,
{
    if i < 0 || i >= format.len() {
        (s, Ok(acc))
    } else if format[i] != '~' {
        eval_print(s, format, args, i + 1, k, acc.push(format[i]), fuel)
    } else if k < 0 || k >= args.len() {
        (s, Err(Error::MissingFormatArgument))
    } else {
        let (s1, r) = eval(s, args[k], fuel);
        match r {
            Ok(p) => match value_text(s1.heap, p, fuel) {
                Ok(t) => eval_print(s1, format, args, i + 1, k + 1, acc + t, fuel),
                Err(err) => (s1, Err(err)),
            },
            Err(err) => (s1, Err(err)),
        }
    }
}

} // verus!
