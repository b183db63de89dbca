//! The evaluator: walks a program tree over a heap and a stack of frames.
//!
//! Each operation is proved to do exactly what the spec functions of
//! `semantics` say, starting from the abstract view of the runtime.
use vstd::prelude::*;
use crate::ast::{AST, copy_ast, copy_names, lemma_nodes_of, names_of, node_of_box, nodes_of};
use crate::heap::{Heap, HeapModel, Pointer};
pub use crate::heap::Value;
use crate::operators::{apply_operator, parse_operator};
use crate::semantics::{
    FunctionModel, Scope, State, elements_text, grows, eval, eval_args, eval_loop, eval_print, eval_repeat,
    eval_seq, find_binding, find_function, find_in_frame, lookup_function, register, truthy,
    value_text,
};
pub use crate::semantics::Error;
use crate::text::{push_int, unescape_newlines};

verus! {

broadcast use crate::semantics::lemma_grows_trans;

/// Fuel handed to the evaluator by `Runtime::eval`: one unit per step of
/// recursion, far more than any program of practical size can spend.
pub const FUEL: u64 = 0xffff_ffff_ffff_ffff;

struct Function {
    parameters: Vec<String>,
    body: AST,
}

pub open spec fn scope_view(sc: Seq<(String, Pointer)>) -> Scope {
    sc.map_values(|b: (String, Pointer)| (b.0@, b.1))
}

pub open spec fn frame_view(fr: Seq<Vec<(String, Pointer)>>) -> Seq<Scope> {
    fr.map_values(|sc: Vec<(String, Pointer)>| scope_view(sc@))
}

pub open spec fn frames_view(fs: Seq<Vec<Vec<(String, Pointer)>>>) -> Seq<Seq<Scope>> {
    fs.map_values(|fr: Vec<Vec<(String, Pointer)>>| frame_view(fr@))
}

spec fn functions_view(fs: Seq<(String, Function)>) -> Seq<(Seq<char>, FunctionModel)> {
    fs.map_values(
        |e: (String, Function)|
            (e.0@, FunctionModel { parameters: names_of(e.1.parameters@), body: e.1.body@ }),
    )
}

/// The state of one run: the heap, the frames of the call stack, the
/// function table and the text printed so far.
pub struct Runtime {
    pub heap: Heap,
    frames: Vec<Vec<Vec<(String, Pointer)>>>,
    functions: Vec<(String, Function)>,
    output: Vec<char>,
}

impl View for Runtime {
    type V = State;

    closed spec fn view(&self) -> State {
        State {
            heap: self.heap@,
            frames: frames_view(self.frames@),
            functions: functions_view(self.functions@),
            output: self.output@,
        }
    }
}

/// A state stays well formed when its heap is replaced by a larger one.
proof fn lemma_wf_heap(s: State, h: HeapModel)
    requires
        s.wf(),
        h.wf(),
        s.heap.values.len() <= h.values.len(),
    ensures
        s.with_heap(h).wf(),
{
    let t = s.with_heap(h);
    assert forall|f: int, c: int, j: int|
        0 <= f < t.frames.len() && 0 <= c < t.frames[f].len() && 0 <= j < t.frames[f][c].len()
            implies t.heap.valid(#[trigger] t.frames[f][c][j].1) by {
        assert(s.heap.valid(s.frames[f][c][j].1));
    }
}

fn find_binding_exec(sc: &Vec<(String, Pointer)>, name: &String) -> (r: Option<usize>)
    ensures
        match r {
            Some(j) => find_binding(scope_view(sc@), name@, sc@.len() as int) == Some(j as int),
            None => find_binding(scope_view(sc@), name@, sc@.len() as int) is None,
        },
{
    let ghost v = scope_view(sc@);
    let mut i: usize = sc.len();
    while i > 0
        invariant
            i <= sc@.len(),
            v == scope_view(sc@),
            find_binding(v, name@, sc@.len() as int) == find_binding(v, name@, i as int),
        decreases i,
    {
        if sc[i - 1].0 == *name {
            return Some(i - 1);
        }
        i = i - 1;
    }
    None
}

fn find_in_frame_exec(fr: &Vec<Vec<(String, Pointer)>>, name: &String) -> (r: Option<(usize, usize)>)
    ensures
        match r {
            Some((c, j)) => find_in_frame(frame_view(fr@), name@, fr@.len() as int) == Some(
                (c as int, j as int),
            ),
            None => find_in_frame(frame_view(fr@), name@, fr@.len() as int) is None,
        },
{
    let ghost v = frame_view(fr@);
    let mut i: usize = fr.len();
    while i > 0
        invariant
            i <= fr@.len(),
            v == frame_view(fr@),
            find_in_frame(v, name@, fr@.len() as int) == find_in_frame(v, name@, i as int),
        decreases i,
    {
        assert(v[i - 1] == scope_view(fr@[i - 1]@));
        match find_binding_exec(&fr[i - 1], name) {
            Some(j) => {
                return Some((i - 1, j));
            },
            None => {},
        }
        i = i - 1;
    }
    None
}

impl Runtime {
    /// The abstract state is well formed.
    pub open spec fn wf(&self) -> bool {
        self@.wf()
    }

    /// A runtime with an empty heap, a global frame without scopes and no
    /// functions.
    pub fn new() -> (r: Runtime)
        ensures
            r.wf(),
            r@ == State::initial(),
    {
        let mut frames: Vec<Vec<Vec<(String, Pointer)>>> = Vec::new();
        frames.push(Vec::new());
        let r = Runtime { heap: Heap::new(), frames, functions: Vec::new(), output: Vec::new() };
        proof {
            assert(r@.frames =~~= seq![Seq::<Scope>::empty()]);
            assert(r@.functions =~= Seq::<(Seq<char>, FunctionModel)>::empty());
            assert(r@.heap == State::initial().heap);
        }
        r
    }

    /// The text printed so far.
    pub fn output(&self) -> (r: &Vec<char>)
        ensures
            r@ == self@.output,
    {
        &self.output
    }

    /// Opens a scope in the current frame.
    pub fn push_env(&mut self)
        requires
            old(self).wf(),
        ensures
            final(self)@ == old(self)@.push_scope(),
            final(self).wf(),
    {
        let c = self.frames.len() - 1;
        self.frames[c].push(Vec::new());
        proof {
            let o = old(self)@;
            assert(frame_view(self.frames@[c as int]@) =~~= o.frames[c as int].push(Seq::empty()));
            assert(self@.frames =~= o.push_scope().frames);
            assert(self@ == o.push_scope());
            let s = self@;
            assert forall|f: int, k: int, j: int|
                0 <= f < s.frames.len() && 0 <= k < s.frames[f].len() && 0 <= j < s.frames[f][k].len()
                    implies s.heap.valid(#[trigger] s.frames[f][k][j].1) by {
                assert(s.frames[f][k][j] == o.frames[f][k][j]);
            }
        }
    }

    /// Closes the innermost scope of the current frame.
    pub fn pop_env(&mut self)
        requires
            old(self).wf(),
        ensures
            final(self)@ == old(self)@.pop_scope(),
            final(self).wf(),
    {
        let c = self.frames.len() - 1;
        if self.frames[c].len() > 0 {
            self.frames[c].pop();
            proof {
                let o = old(self)@;
                assert(frame_view(self.frames@[c as int]@) =~= o.frames[c as int].drop_last());
                assert(self@.frames =~= o.pop_scope().frames);
                let s = self@;
                assert forall|f: int, k: int, j: int|
                    0 <= f < s.frames.len() && 0 <= k < s.frames[f].len() && 0 <= j < s.frames[f][k].len()
                        implies s.heap.valid(#[trigger] s.frames[f][k][j].1) by {
                    assert(s.frames[f][k][j] == o.frames[f][k][j]);
                }
            }
        }
    }

    /// Enters a call: the current scopes are put aside and a frame with one
    /// fresh scope becomes current.
    fn save_env(&mut self)
        requires
            old(self).wf(),
        ensures
            final(self)@ == old(self)@.enter_call(),
            final(self).wf(),
    {
        let mut fr: Vec<Vec<(String, Pointer)>> = Vec::new();
        fr.push(Vec::new());
        self.frames.push(fr);
        proof {
            let o = old(self)@;
            assert(frame_view(fr@) =~~= seq![Seq::<(Seq<char>, Pointer)>::empty()]);
            assert(self@.frames =~= o.enter_call().frames);
            let s = self@;
            assert forall|f: int, k: int, j: int|
                0 <= f < s.frames.len() && 0 <= k < s.frames[f].len() && 0 <= j < s.frames[f][k].len()
                    implies s.heap.valid(#[trigger] s.frames[f][k][j].1) by {
                assert(s.frames[f][k][j] == o.frames[f][k][j]);
            }
        }
    }

    /// Leaves a call: the caller's frame becomes current again.
    fn restore_env(&mut self)
        requires
            old(self).wf(),
        ensures
            final(self)@ == old(self)@.exit_call(),
            final(self).wf(),
    {
        if self.frames.len() > 1 {
            self.frames.pop();
            proof {
                let o = old(self)@;
                assert(self@.frames =~= o.exit_call().frames);
                let s = self@;
                assert forall|f: int, k: int, j: int|
                    0 <= f < s.frames.len() && 0 <= k < s.frames[f].len() && 0 <= j < s.frames[f][k].len()
                        implies s.heap.valid(#[trigger] s.frames[f][k][j].1) by {
                    assert(s.frames[f][k][j] == o.frames[f][k][j]);
                }
            }
        }
    }

    /// Where `name` is bound: frame, scope and binding index.
    fn locate_var(&self, name: &String) -> (r: Option<(usize, usize, usize)>)
        requires
            self.wf(),
        ensures
            match r {
                Some((f, c, j)) => self@.locate(name@) == Some((f as int, c as int, j as int)),
                None => self@.locate(name@) is None,
            },
            r matches Some((f, c, j)) ==> f < self@.frames.len() && c < self@.frames[f as int].len()
                && j < self@.frames[f as int][c as int].len(),
    {
        let top = self.frames.len() - 1;
        proof {
            assert(self@.frames[top as int] == frame_view(self.frames@[top as int]@));
        }
        match find_in_frame_exec(&self.frames[top], name) {
            Some((c, j)) => {
                proof { self.lemma_found(top as int, name@); }
                Some((top, c, j))
            },
            None => {
                if top > 0 && self.frames[0].len() > 0 {
                    proof {
                        assert(self@.frames[0] == frame_view(self.frames@[0]@));
                        assert(self@.frames[0][0] == scope_view(self.frames@[0]@[0]@));
                        lemma_find_binding(self@.frames[0][0], name@, self@.frames[0][0].len() as int);
                    }
                    match find_binding_exec(&self.frames[0][0], name) {
                        Some(j) => Some((0, 0, j)),
                        None => None,
                    }
                } else {
                    None
                }
            },
        }
    }

    proof fn lemma_found(&self, f: int, name: Seq<char>)
        requires
            0 <= f < self@.frames.len(),
        ensures
            find_in_frame(self@.frames[f], name, self@.frames[f].len() as int) matches Some((c, j))
                ==> 0 <= c < self@.frames[f].len() && 0 <= j < self@.frames[f][c].len(),
    {
        lemma_find_in_frame(self@.frames[f], name, self@.frames[f].len() as int);
    }

    /// The handle bound to `name`, or `VariableMissing`.
    pub fn fetch_var(&self, name: &String) -> (r: Result<Pointer, Error>)
        requires
            self.wf(),
        ensures
            r == match self@.resolve(name@) {
                Some(p) => Ok(p),
                None => Err(Error::VariableMissing),
            },
            r matches Ok(p) ==> self@.heap.valid(p),
    {
        match self.locate_var(name) {
            Some((f, c, j)) => Ok(self.frames[f][c][j].1),
            None => Err(Error::VariableMissing),
        }
    }

    /// Rebinds the visible binding of `name`; assignment never declares.
    pub fn assign_to_var(&mut self, name: &String, val: Pointer) -> (r: Result<Pointer, Error>)
        requires
            old(self).wf(),
            old(self)@.heap.valid(val),
        ensures
            (final(self)@, r) == old(self)@.assign(name@, val),
            final(self).wf(),
    {
        match self.locate_var(name) {
            Some((f, c, j)) => {
                let ghost o = self@;
                let n = self.frames[f][c][j].0.clone();
                self.frames[f][c][j] = (n, val);
                proof {
                    let s = self@;
                    let t = o.rebind(f as int, c as int, j as int, val);
                    assert(scope_view(self.frames@[f as int]@[c as int]@) =~= t.frames[f as int][c as int]);
                    assert(frame_view(self.frames@[f as int]@) =~= t.frames[f as int]);
                    assert(s.frames =~= t.frames);
                    assert forall|a: int, k: int, i: int|
                        0 <= a < s.frames.len() && 0 <= k < s.frames[a].len() && 0 <= i < s.frames[a][k].len()
                            implies s.heap.valid(#[trigger] s.frames[a][k][i].1) by {
                        if !(a == f && k == c && i == j) {
                            assert(s.frames[a][k][i] == o.frames[a][k][i]);
                        }
                    }
                }
                Ok(val)
            },
            None => Err(Error::VariableMissing),
        }
    }

    /// Declares `name` in the innermost scope of the current frame.
    pub fn add_var(&mut self, name: String, val: Pointer) -> (r: Result<Pointer, Error>)
        requires
            old(self).wf(),
            old(self)@.heap.valid(val),
        ensures
            (final(self)@, r) == old(self)@.declare(name@, val),
            final(self).wf(),
    {
        let top = self.frames.len() - 1;
        let n = self.frames[top].len();
        if n == 0 {
            return Err(Error::NoScope);
        }
        proof {
            assert(self@.frames[top as int] == frame_view(self.frames@[top as int]@));
            assert(self@.frames[top as int].last() == scope_view(self.frames@[top as int]@[n - 1]@));
        }
        match find_binding_exec(&self.frames[top][n - 1], &name) {
            Some(_) => Err(Error::Redeclared),
            None => {
                let ghost o = self@;
                self.frames[top][n - 1].push((name, val));
                proof {
                    let s = self@;
                    let t = o.declare(name@, val).0;
                    assert(scope_view(self.frames@[top as int]@[n - 1]@) =~= t.frames[top as int][n - 1]);
                    assert(frame_view(self.frames@[top as int]@) =~= t.frames[top as int]);
                    assert(s.frames =~= t.frames);
                    assert forall|a: int, k: int, i: int|
                        0 <= a < s.frames.len() && 0 <= k < s.frames[a].len() && 0 <= i < s.frames[a][k].len()
                            implies s.heap.valid(#[trigger] s.frames[a][k][i].1) by {
                        if !(a == top && k == n - 1 && i == o.frames[a][k].len()) {
                            assert(s.frames[a][k][i] == o.frames[a][k][i]);
                        }
                    }
                }
                Ok(val)
            },
        }
    }
}

pub open spec fn ok_valid<T>(n: State, r: Result<Pointer, T>) -> bool {
    r matches Ok(p) ==> n.heap.valid(p)
}

impl Runtime {
    fn int_ptr(&mut self, n: i32) -> (r: Pointer)
        requires
            old(self).wf(),
        ensures
            (final(self)@, r) == old(self)@.get_int(n),
            grows(old(self)@, final(self)@),
            final(self)@.heap.valid(r),
    {
        let r = self.heap.get_int(n);
        proof {
            lemma_wf_heap(old(self)@, self.heap@);
        }
        r
    }

    fn bool_ptr(&mut self, b: bool) -> (r: Pointer)
        requires
            old(self).wf(),
        ensures
            (final(self)@, r) == old(self)@.get_bool(b),
            grows(old(self)@, final(self)@),
            final(self)@.heap.valid(r),
    {
        let r = self.heap.get_bool(b);
        proof {
            lemma_wf_heap(old(self)@, self.heap@);
        }
        r
    }

    /// Registers a function; a later one with the same name takes precedence.
    fn add_function(&mut self, name: String, parameters: Vec<String>, body: AST)
        requires
            old(self).wf(),
        ensures
            final(self)@ == old(self)@.add_function(name@, names_of(parameters@), body@),
            final(self).wf(),
    {
        let ghost o = self@;
        self.functions.push((name, Function { parameters, body }));
        proof {
            assert(self@.functions =~= o.add_function(name@, names_of(parameters@), body@).functions);
        }
    }

    /// Index of the latest function named `name`.
    #[verifier::loop_isolation(false)]
    fn find_function(&self, name: &String) -> (r: Option<usize>)
        ensures
            match r {
                Some(i) => i < self.functions@.len() && lookup_function(self@, name@) == Some(
                    functions_view(self.functions@)[i as int].1,
                ),
                None => lookup_function(self@, name@) is None,
            },
    {
        let ghost fs = self@.functions;
        let mut i: usize = self.functions.len();
        while i > 0
            invariant
                i <= self.functions@.len(),
                fs == self@.functions,
                find_function(fs, name@, fs.len() as int) == find_function(fs, name@, i as int),
            decreases i,
        {
            if self.functions[i - 1].0 == *name {
                return Some(i - 1);
            }
            i = i - 1;
        }
        None
    }

    /// Appends the text of the value behind `ptr` to `out`.
    #[verifier::loop_isolation(false)]
    fn value_to_str(&self, ptr: Pointer, fuel: u64, out: &mut Vec<char>) -> (r: Result<(), Error>)
        requires
            self.wf(),
            self@.heap.valid(ptr),
        ensures
            match value_text(self@.heap, ptr, fuel as nat) {
                Ok(t) => r is Ok && final(out)@ == old(out)@ + t,
                Err(e) => r == Err::<(), Error>(e),
            },
        decreases fuel,
    {
        let ghost h = self@.heap;
        match *self.heap.deref(ptr) {
            Value::Int(n) => {
                push_int(n, out);
                Ok(())
            },
            Value::Boolean(b) => {
                if b {
                    out.push('t');
                    out.push('r');
                    out.push('u');
                    out.push('e');
                } else {
                    out.push('f');
                    out.push('a');
                    out.push('l');
                    out.push('s');
                    out.push('e');
                }
                proof {
                    assert(final(out)@ =~= old(out)@ + crate::semantics::bool_text(b));
                }
                Ok(())
            },
            Value::Unit => {
                out.push('n');
                out.push('u');
                out.push('l');
                out.push('l');
                proof {
                    assert(final(out)@ =~= old(out)@ + crate::semantics::null_text());
                }
                Ok(())
            },
            Value::Object => Err(Error::NotImplemented),
            Value::Array { size, data } => {
                if fuel == 0 {
                    return Err(Error::OutOfFuel);
                }
                let f = fuel - 1;
                let ghost elems = h.elements(h.deref(ptr));
                proof {
                    assert(h.value_ok(h.values[ptr.index as int]));
                }
                let mut acc: Vec<char> = Vec::new();
                acc.push('[');
                proof {
                    assert(acc@ =~= seq!['[']);
                }
                let mut i: i32 = 0;
                while i < size
                    invariant
                        self.wf(),
                        h == self@.heap,
                        h.deref(ptr) == (Value::Array { size, data }),
                        0 <= size,
                        data + size <= h.slots.len(),
                        elems == h.slots.subrange(data as int, data + size),
                        0 <= i <= size,
                        elements_text(h, elems, 0, seq!['['], f as nat) == elements_text(
                            h,
                            elems,
                            i as int,
                            acc@,
                            f as nat,
                        ),
                    decreases size - i,
                {
                    let e = self.heap.access_array(data, i);
                    assert(e == elems[i as int]);
                    assert(h.valid(h.slots[data + i]));
                    let ghost before = acc@;
                    match self.value_to_str(e, f, &mut acc) {
                        Ok(()) => {},
                        Err(err) => {
                            return Err(err);
                        },
                    }
                    if i + 1 < size {
                        acc.push(',');
                        acc.push(' ');
                    }
                    proof {
                        let t = value_text(h, e, f as nat).unwrap();
                        let sep = if i + 1 < elems.len() { seq![',', ' '] } else { Seq::<char>::empty() };
                        assert(acc@ =~= before + t + sep);
                    }
                    i = i + 1;
                }
                acc.push(']');
                out.append(&mut acc);
                Ok(())
            },
        }
    }

    /// Evaluates a node, spending one unit of fuel per level of recursion;
    /// `OutOfFuel` when it runs out.
    pub fn eval_node(&mut self, ast: &AST, fuel: u64) -> (r: Result<Pointer, Error>)
        requires
            old(self).wf(),
        ensures
            (final(self)@, r) == eval(old(self)@, ast@, fuel as nat),
            grows(old(self)@, final(self)@),
            ok_valid(final(self)@, r),
        decreases fuel, 1int,
    {
        if fuel == 0 {
            return Err(Error::OutOfFuel);
        }
        let f = fuel - 1;
        match ast {
            AST::Integer(n) => Ok(self.int_ptr(*n)),
            AST::Boolean(b) => Ok(self.bool_ptr(*b)),
            AST::Null => Ok(self.heap.get_unit()),
            AST::Variable { name, value } => {
                match self.eval_node(value, f) {
                    Ok(p) => self.add_var(name.clone(), p),
                    Err(e) => Err(e),
                }
            },
            AST::Array { .. } => self.eval_array(ast, fuel),
            AST::Object { .. } => Err(Error::NotImplemented),
            AST::AccessVariable { name } => self.fetch_var(name),
            AST::AccessField { .. } => Err(Error::NotImplemented),
            AST::AccessArray { .. } => self.eval_access_array(ast, fuel),
            AST::AssignVariable { name, value } => {
                match self.eval_node(value, f) {
                    Ok(p) => self.assign_to_var(name, p),
                    Err(e) => Err(e),
                }
            },
            AST::AssignField { .. } => Err(Error::NotImplemented),
            AST::AssignArray { .. } => self.eval_assign_array(ast, fuel),
            AST::Function { .. } => Err(Error::NestedFunction),
            AST::CallFunction { .. } => self.eval_function_call(ast, fuel),
            AST::CallMethod { .. } => self.eval_call_method(ast, fuel),
            AST::Top(_) => self.eval_top(ast, fuel),
            AST::Block(_) => self.eval_block(ast, fuel),
            AST::Loop { .. } => self.eval_loop_node(ast, fuel),
            AST::Conditional { condition, consequent, alternative } => {
                match self.eval_bool(condition, f) {
                    Ok(true) => self.eval_node(consequent, f),
                    Ok(false) => self.eval_node(alternative, f),
                    Err(e) => Err(e),
                }
            },
            AST::Print { .. } => self.eval_print_node(ast, fuel),
        }
    }

    /// Evaluates `expr` as a condition: its truthiness.
    fn eval_bool(&mut self, expr: &AST, fuel: u64) -> (r: Result<bool, Error>)
        requires
            old(self).wf(),
        ensures
            ({
                let (s, res) = eval(old(self)@, expr@, fuel as nat);
                &&& final(self)@ == s
                &&& match res {
                    Ok(p) => r == Ok::<bool, Error>(truthy(s.heap.deref(p))),
                    Err(e) => r == Err::<bool, Error>(e),
                }
            }),
            grows(old(self)@, final(self)@),
        decreases fuel, 2int,
    {
        match self.eval_node(expr, fuel) {
            Ok(p) => {
                let v = *self.heap.deref(p);
                Ok(
                    match v {
                        Value::Boolean(t) => t,
                        Value::Unit => false,
                        _ => true,
                    },
                )
            },
            Err(e) => Err(e),
        }
    }

    fn eval_array(&mut self, ast: &AST, fuel: u64) -> (r: Result<Pointer, Error>)
        requires
            old(self).wf(),
            fuel > 0,
            ast is Array,
        ensures
            (final(self)@, r) == eval(old(self)@, ast@, fuel as nat),
            grows(old(self)@, final(self)@),
            ok_valid(final(self)@, r),
        decreases fuel, 0int,
    {
        let f = fuel - 1;
        match ast {
            AST::Array { size, value } => {
                let p = match self.eval_node(size, f) {
                    Ok(p) => p,
                    Err(e) => {
                        return Err(e);
                    },
                };
                let n = match *self.heap.deref(p) {
                    Value::Int(n) => n,
                    _ => {
                        return Err(Error::SizeNotInt);
                    },
                };
                if n < 0 {
                    return Err(Error::NegativeSize);
                }
                match self.eval_repeat(value, n, f) {
                    Ok(elems) => Ok(self.store_array(n, elems)),
                    Err(e) => Err(e),
                }
            },
            _ => Err(Error::NotImplemented),
        }
    }

    /// Evaluates `init` `n` times, afresh each time, collecting the handles.
    #[verifier::loop_isolation(false)]
    fn eval_repeat(&mut self, init: &AST, n: i32, fuel: u64) -> (r: Result<Vec<Pointer>, Error>)
        requires
            old(self).wf(),
            n >= 0,
        ensures
            ({
                let (s, res) = eval_repeat(old(self)@, init@, n as int, Seq::empty(), fuel as nat);
                &&& final(self)@ == s
                &&& match res {
                    Ok(elems) => r matches Ok(v) && v@ == elems,
                    Err(e) => r matches Err(e2) && e2 == e,
                }
            }),
            grows(old(self)@, final(self)@),
            r matches Ok(v) ==> v@.len() == n && forall|i: int|
                0 <= i < v@.len() ==> final(self)@.heap.valid(#[trigger] v@[i]),
        decreases fuel, 2int,
    {
        let ghost s0 = self@;
        let mut acc: Vec<Pointer> = Vec::new();
        let mut k: i32 = 0;
        while k < n
            invariant
                self.wf(),
                0 <= k <= n,
                acc@.len() == k,
                grows(s0, self@),
                forall|i: int| 0 <= i < acc@.len() ==> self@.heap.valid(#[trigger] acc@[i]),
                eval_repeat(s0, init@, n as int, Seq::empty(), fuel as nat) == eval_repeat(
                    self@,
                    init@,
                    n as int,
                    acc@,
                    fuel as nat,
                ),
            decreases n - k,
        {
            let ghost before = self@;
            match self.eval_node(init, fuel) {
                Ok(p) => {
                    acc.push(p);
                    proof {
                        assert forall|i: int| 0 <= i < acc@.len() implies self@.heap.valid(
                            #[trigger] acc@[i],
                        ) by {
                            if i < k {
                                assert(before.heap.valid(acc@[i]));
                            }
                        }
                    }
                },
                Err(e) => {
                    return Err(e);
                },
            }
            k = k + 1;
        }
        Ok(acc)
    }

    fn store_array(&mut self, n: i32, elems: Vec<Pointer>) -> (r: Pointer)
        requires
            old(self).wf(),
            elems@.len() == n,
            forall|i: int| 0 <= i < elems@.len() ==> old(self)@.heap.valid(#[trigger] elems@[i]),
        ensures
            final(self)@ == old(self)@.with_heap(old(self)@.heap.alloc_array(elems@).0),
            r == old(self)@.heap.alloc_array(elems@).1,
            grows(old(self)@, final(self)@),
            final(self)@.heap.valid(r),
    {
        let r = self.heap.alloc_array(n, elems);
        proof {
            lemma_wf_heap(old(self)@, self.heap@);
        }
        r
    }

    fn eval_access_array(&mut self, ast: &AST, fuel: u64) -> (r: Result<Pointer, Error>)
        requires
            old(self).wf(),
            fuel > 0,
            ast is AccessArray,
        ensures
            (final(self)@, r) == eval(old(self)@, ast@, fuel as nat),
            grows(old(self)@, final(self)@),
            ok_valid(final(self)@, r),
        decreases fuel, 0int,
    {
        let f = fuel - 1;
        match ast {
            AST::AccessArray { array, index } => {
                let pa = match self.eval_node(array, f) {
                    Ok(p) => p,
                    Err(e) => {
                        return Err(e);
                    },
                };
                let pi = match self.eval_node(index, f) {
                    Ok(p) => p,
                    Err(e) => {
                        return Err(e);
                    },
                };
                let ghost h = self@.heap;
                match *self.heap.deref(pa) {
                    Value::Array { size, data } => {
                        match *self.heap.deref(pi) {
                            Value::Int(i) => {
                                if 0 <= i && i < size {
                                    proof {
                                        assert(h.value_ok(h.values[pa.index as int]));
                                        assert(h.valid(h.slots[data + i]));
                                    }
                                    Ok(self.heap.access_array(data, i))
                                } else {
                                    Err(Error::IndexOutOfBounds)
                                }
                            },
                            _ => Err(Error::IndexNotInt),
                        }
                    },
                    _ => Err(Error::NotAnArray),
                }
            },
            _ => Err(Error::NotImplemented),
        }
    }

    fn eval_assign_array(&mut self, ast: &AST, fuel: u64) -> (r: Result<Pointer, Error>)
        requires
            old(self).wf(),
            fuel > 0,
            ast is AssignArray,
        ensures
            (final(self)@, r) == eval(old(self)@, ast@, fuel as nat),
            grows(old(self)@, final(self)@),
            ok_valid(final(self)@, r),
        decreases fuel, 0int,
    {
        let f = fuel - 1;
        match ast {
            AST::AssignArray { array, index, value } => {
                let pa = match self.eval_node(array, f) {
                    Ok(p) => p,
                    Err(e) => {
                        return Err(e);
                    },
                };
                let pi = match self.eval_node(index, f) {
                    Ok(p) => p,
                    Err(e) => {
                        return Err(e);
                    },
                };
                let pv = match self.eval_node(value, f) {
                    Ok(p) => p,
                    Err(e) => {
                        return Err(e);
                    },
                };
                let ghost s3 = self@;
                let i = match *self.heap.deref(pi) {
                    Value::Int(i) => i,
                    _ => {
                        return Err(Error::IndexNotInt);
                    },
                };
                match *self.heap.deref(pa) {
                    Value::Array { size, data } => {
                        if 0 <= i && i < size {
                            proof {
                                assert(s3.heap.value_ok(s3.heap.values[pa.index as int]));
                            }
                            self.heap.assign_array(data, i, pv);
                            proof {
                                lemma_wf_heap(s3, self.heap@);
                                assert(self@ == s3.with_heap(s3.heap.set_slot(data + i, pv)));
                            }
                            Ok(self.heap.get_unit())
                        } else {
                            Err(Error::IndexOutOfBounds)
                        }
                    },
                    _ => Err(Error::NotAnArray),
                }
            },
            _ => Err(Error::NotImplemented),
        }
    }

    fn eval_function_call(&mut self, ast: &AST, fuel: u64) -> (r: Result<Pointer, Error>)
        requires
            old(self).wf(),
            fuel > 0,
            ast is CallFunction,
        ensures
            (final(self)@, r) == eval(old(self)@, ast@, fuel as nat),
            grows(old(self)@, final(self)@),
            ok_valid(final(self)@, r),
        decreases fuel, 0int,
    {
        let f = fuel - 1;
        match ast {
            AST::CallFunction { name, arguments } => {
                let i = match self.find_function(name) {
                    Some(i) => i,
                    None => {
                        return Err(Error::UndefinedFunction);
                    },
                };
                let parameters = copy_names(&self.functions[i].1.parameters);
                let body = copy_ast(&self.functions[i].1.body);
                proof {
                    lemma_nodes_of(arguments@);
                }
                if parameters.len() != arguments.len() {
                    return Err(Error::WrongArity);
                }
                self.save_env();
                match self.eval_args(&parameters, arguments, f) {
                    Ok(()) => {},
                    Err(e) => {
                        return Err(e);
                    },
                }
                match self.eval_node(&body, f) {
                    Ok(p) => {
                        self.restore_env();
                        Ok(p)
                    },
                    Err(e) => Err(e),
                }
            },
            _ => Err(Error::NotImplemented),
        }
    }

    /// Binds each argument, evaluated in the callee's frame, to its
    /// parameter.
    #[verifier::loop_isolation(false)]
    fn eval_args(&mut self, parameters: &Vec<String>, arguments: &Vec<Box<AST>>, fuel: u64) -> (r:
        Result<(), Error>)
        requires
            old(self).wf(),
            parameters@.len() == arguments@.len(),
        ensures
            (final(self)@, r) == eval_args(
                old(self)@,
                names_of(parameters@),
                nodes_of(arguments@),
                0,
                fuel as nat,
            ),
            grows(old(self)@, final(self)@),
        decreases fuel, 2int,
    {
        let ghost s0 = self@;
        let ghost ps = names_of(parameters@);
        let ghost ns = nodes_of(arguments@);
        proof {
            lemma_nodes_of(arguments@);
        }
        let mut i: usize = 0;
        while i < arguments.len()
            invariant
                self.wf(),
                i <= arguments@.len(),
                parameters@.len() == arguments@.len(),
                ps == names_of(parameters@),
                ns == nodes_of(arguments@),
                ns.len() == arguments@.len(),
                forall|j: int| 0 <= j < arguments@.len() ==> #[trigger] ns[j] == node_of_box(arguments@[j]),
                grows(s0, self@),
                eval_args(s0, ps, ns, 0, fuel as nat) == eval_args(self@, ps, ns, i as int, fuel as nat),
            decreases arguments@.len() - i,
        {
            let p = match self.eval_node(&arguments[i], fuel) {
                Ok(p) => p,
                Err(e) => {
                    return Err(e);
                },
            };
            match self.add_var(parameters[i].clone(), p) {
                Ok(_) => {},
                Err(e) => {
                    return Err(e);
                },
            }
            i = i + 1;
        }
        Ok(())
    }

    fn eval_call_method(&mut self, ast: &AST, fuel: u64) -> (r: Result<Pointer, Error>)
        requires
            old(self).wf(),
            fuel > 0,
            ast is CallMethod,
        ensures
            (final(self)@, r) == eval(old(self)@, ast@, fuel as nat),
            grows(old(self)@, final(self)@),
            ok_valid(final(self)@, r),
        decreases fuel, 0int,
    {
        let f = fuel - 1;
        match ast {
            AST::CallMethod { object, name, arguments } => {
                proof {
                    lemma_nodes_of(arguments@);
                }
                let po = match self.eval_node(object, f) {
                    Ok(p) => p,
                    Err(e) => {
                        return Err(e);
                    },
                };
                match *self.heap.deref(po) {
                    Value::Int(l) => {
                        if arguments.len() != 1 {
                            return Err(Error::WrongArity);
                        }
                        let pr = match self.eval_node(&arguments[0], f) {
                            Ok(p) => p,
                            Err(e) => {
                                return Err(e);
                            },
                        };
                        match *self.heap.deref(pr) {
                            Value::Int(r) => {
                                match parse_operator(name) {
                                    Some(op) => {
                                        match apply_operator(op, l, r) {
                                            Ok(Value::Int(n)) => Ok(self.int_ptr(n)),
                                            Ok(Value::Boolean(b)) => Ok(self.bool_ptr(b)),
                                            Ok(_) => Err(Error::UnknownOperator),
                                            Err(e) => Err(e),
                                        }
                                    },
                                    None => Err(Error::UnknownOperator),
                                }
                            },
                            _ => Err(Error::OperandNotInt),
                        }
                    },
                    Value::Unit => {
                        if arguments.len() != 1 {
                            return Err(Error::WrongArity);
                        }
                        let pr = match self.eval_node(&arguments[0], f) {
                            Ok(p) => p,
                            Err(e) => {
                                return Err(e);
                            },
                        };
                        let is_unit = match *self.heap.deref(pr) {
                            Value::Unit => true,
                            _ => false,
                        };
                        Ok(self.bool_ptr(is_unit))
                    },
                    Value::Object => Err(Error::NotImplemented),
                    _ => Err(Error::InvalidReceiver),
                }
            },
            _ => Err(Error::NotImplemented),
        }
    }

    /// Evaluates `exprs` in order; the result is the last handle, if any.
    #[verifier::loop_isolation(false)]
    fn eval_seq(&mut self, exprs: &Vec<Box<AST>>, skip_functions: bool, fuel: u64) -> (r: Result<
        Option<Pointer>,
        Error,
    >)
        requires
            old(self).wf(),
        ensures
            (final(self)@, r) == eval_seq(old(self)@, nodes_of(exprs@), 0, None, skip_functions, fuel as nat),
            grows(old(self)@, final(self)@),
            r matches Ok(Some(p)) ==> final(self)@.heap.valid(p),
        decreases fuel, 2int,
    {
        let ghost s0 = self@;
        let ghost ns = nodes_of(exprs@);
        proof {
            lemma_nodes_of(exprs@);
        }
        let mut last: Option<Pointer> = None;
        let mut i: usize = 0;
        while i < exprs.len()
            invariant
                self.wf(),
                i <= exprs@.len(),
                ns == nodes_of(exprs@),
                ns.len() == exprs@.len(),
                forall|j: int| 0 <= j < exprs@.len() ==> #[trigger] ns[j] == node_of_box(exprs@[j]),
                grows(s0, self@),
                last matches Some(p) ==> self@.heap.valid(p),
                eval_seq(s0, ns, 0, None, skip_functions, fuel as nat) == eval_seq(
                    self@,
                    ns,
                    i as int,
                    last,
                    skip_functions,
                    fuel as nat,
                ),
            decreases exprs@.len() - i,
        {
            let is_function = match &*exprs[i] {
                AST::Function { .. } => true,
                _ => false,
            };
            if !(skip_functions && is_function) {
                match self.eval_node(&exprs[i], fuel) {
                    Ok(p) => {
                        last = Some(p);
                    },
                    Err(e) => {
                        return Err(e);
                    },
                }
            }
            i = i + 1;
        }
        Ok(last)
    }

    #[verifier::loop_isolation(false)]
    fn eval_top(&mut self, ast: &AST, fuel: u64) -> (r: Result<Pointer, Error>)
        requires
            old(self).wf(),
            fuel > 0,
            ast is Top,
        ensures
            (final(self)@, r) == eval(old(self)@, ast@, fuel as nat),
            grows(old(self)@, final(self)@),
            ok_valid(final(self)@, r),
        decreases fuel, 0int,
    {
        let f = fuel - 1;
        match ast {
            AST::Top(stmts) => {
                let ghost s0 = self@;
                let ghost ns = nodes_of(stmts@);
                proof {
                    lemma_nodes_of(stmts@);
                }
                let mut i: usize = 0;
                while i < stmts.len()
                    invariant
                        self.wf(),
                        i <= stmts@.len(),
                        ns == nodes_of(stmts@),
                        ns.len() == stmts@.len(),
                        forall|j: int| 0 <= j < stmts@.len() ==> #[trigger] ns[j] == node_of_box(stmts@[j]),
                        grows(s0, self@),
                        register(s0, ns, 0) == register(self@, ns, i as int),
                    decreases stmts@.len() - i,
                {
                    match &*stmts[i] {
                        AST::Function { name, parameters, body } => {
                            self.add_function(name.clone(), copy_names(parameters), copy_ast(body));
                        },
                        _ => {},
                    }
                    i = i + 1;
                }
                match self.eval_seq(stmts, true, f) {
                    Ok(Some(p)) => Ok(p),
                    Ok(None) => Ok(self.int_ptr(0)),
                    Err(e) => Err(e),
                }
            },
            _ => Err(Error::NotImplemented),
        }
    }

    fn eval_block(&mut self, ast: &AST, fuel: u64) -> (r: Result<Pointer, Error>)
        requires
            old(self).wf(),
            fuel > 0,
            ast is Block,
        ensures
            (final(self)@, r) == eval(old(self)@, ast@, fuel as nat),
            grows(old(self)@, final(self)@),
            ok_valid(final(self)@, r),
        decreases fuel, 0int,
    {
        let f = fuel - 1;
        match ast {
            AST::Block(exprs) => {
                self.push_env();
                match self.eval_seq(exprs, false, f) {
                    Ok(Some(p)) => {
                        self.pop_env();
                        Ok(p)
                    },
                    Ok(None) => {
                        self.pop_env();
                        Ok(self.heap.get_unit())
                    },
                    Err(e) => Err(e),
                }
            },
            _ => Err(Error::NotImplemented),
        }
    }

    fn eval_loop_node(&mut self, ast: &AST, fuel: u64) -> (r: Result<Pointer, Error>)
        requires
            old(self).wf(),
            fuel > 0,
            ast is Loop,
        ensures
            (final(self)@, r) == eval(old(self)@, ast@, fuel as nat),
            grows(old(self)@, final(self)@),
            ok_valid(final(self)@, r),
        decreases fuel, 0int,
    {
        let f = fuel - 1;
        match ast {
            AST::Loop { condition, body } => {
                self.push_env();
                match self.eval_loop(condition, body, f) {
                    Ok(()) => {
                        self.pop_env();
                        Ok(self.heap.get_unit())
                    },
                    Err(e) => Err(e),
                }
            },
            _ => Err(Error::NotImplemented),
        }
    }

    /// Runs the body while the condition is false; stops once it is true.
    #[verifier::loop_isolation(false)]
    fn eval_loop(&mut self, condition: &AST, body: &AST, fuel: u64) -> (r: Result<(), Error>)
        requires
            old(self).wf(),
        ensures
            (final(self)@, r) == eval_loop(old(self)@, condition@, body@, fuel as nat),
            grows(old(self)@, final(self)@),
        decreases fuel, 2int,
    {
        let ghost s0 = self@;
        let mut f = fuel;
        loop
            invariant
                self.wf(),
                f <= fuel,
                grows(s0, self@),
                eval_loop(s0, condition@, body@, fuel as nat) == eval_loop(
                    self@,
                    condition@,
                    body@,
                    f as nat,
                ),
            decreases f,
        {
            if f == 0 {
                return Err(Error::OutOfFuel);
            }
            f = f - 1;
            match self.eval_bool(condition, f) {
                Ok(true) => {
                    return Ok(());
                },
                Ok(false) => {},
                Err(e) => {
                    return Err(e);
                },
            }
            match self.eval_node(body, f) {
                Ok(_) => {},
                Err(e) => {
                    return Err(e);
                },
            }
        }
    }

    fn eval_print_node(&mut self, ast: &AST, fuel: u64) -> (r: Result<Pointer, Error>)
        requires
            old(self).wf(),
            fuel > 0,
            ast is Print,
        ensures
            (final(self)@, r) == eval(old(self)@, ast@, fuel as nat),
            grows(old(self)@, final(self)@),
            ok_valid(final(self)@, r),
        decreases fuel, 0int,
    {
        let f = fuel - 1;
        match ast {
            AST::Print { format, arguments } => {
                match self.eval_print(format, arguments, f) {
                    Ok(text) => {
                        let mut u = unescape_newlines(&text);
                        self.output.append(&mut u);
                        Ok(self.heap.get_unit())
                    },
                    Err(e) => Err(e),
                }
            },
            _ => Err(Error::NotImplemented),
        }
    }

    /// The text of a print: `~` takes the next argument, `\n` is left as it
    /// is here.
    #[verifier::loop_isolation(false)]
    fn eval_print(&mut self, format: &String, arguments: &Vec<Box<AST>>, fuel: u64) -> (r: Result<
        Vec<char>,
        Error,
    >)
        requires
            old(self).wf(),
        ensures
            ({
                let (s, res) = eval_print(
                    old(self)@,
                    format@,
                    nodes_of(arguments@),
                    0,
                    0,
                    Seq::empty(),
                    fuel as nat,
                );
                &&& final(self)@ == s
                &&& match res {
                    Ok(t) => r matches Ok(v) && v@ == t,
                    Err(e) => r matches Err(e2) && e2 == e,
                }
            }),
            grows(old(self)@, final(self)@),
        decreases fuel, 2int,
    {
        let ghost s0 = self@;
        let ghost ns = nodes_of(arguments@);
        proof {
            lemma_nodes_of(arguments@);
        }
        let fmt = format.as_str();
        let n = fmt.unicode_len();
        let mut acc: Vec<char> = Vec::new();
        let mut i: usize = 0;
        let mut k: usize = 0;
        while i < n
            invariant
                self.wf(),
                n == format@.len(),
                fmt@ == format@,
                i <= n,
                ns == nodes_of(arguments@),
                ns.len() == arguments@.len(),
                forall|j: int| 0 <= j < arguments@.len() ==> #[trigger] ns[j] == node_of_box(arguments@[j]),
                grows(s0, self@),
                eval_print(s0, format@, ns, 0, 0, Seq::empty(), fuel as nat) == eval_print(
                    self@,
                    format@,
                    ns,
                    i as int,
                    k as int,
                    acc@,
                    fuel as nat,
                ),
            decreases n - i,
        {
            let c = fmt.get_char(i);
            if c != '~' {
                acc.push(c);
            } else {
                if k >= arguments.len() {
                    return Err(Error::MissingFormatArgument);
                }
                let p = match self.eval_node(&arguments[k], fuel) {
                    Ok(p) => p,
                    Err(e) => {
                        return Err(e);
                    },
                };
                match self.value_to_str(p, fuel, &mut acc) {
                    Ok(()) => {},
                    Err(e) => {
                        return Err(e);
                    },
                }
                k = k + 1;
            }
            i = i + 1;
        }
        Ok(acc)
    }

    /// Evaluates a node with the default fuel.
    pub fn eval(&mut self, ast: AST) -> (r: Result<Pointer, Error>)
        requires
            old(self).wf(),
        ensures
            (final(self)@, r) == eval(old(self)@, ast@, FUEL as nat),
            grows(old(self)@, final(self)@),
            ok_valid(final(self)@, r),
    {
        self.eval_node(&ast, FUEL)
    }
}

/// Runs a whole program: a `Top` node evaluated in a fresh runtime with one
/// global scope. Returns what it printed and how it ended.
pub fn interpret(ast: AST) -> (r: (Vec<char>, Result<(), Error>))
    ensures
        ast is Top ==> ({
            let s0 = State::initial().push_scope();
            let (s, res) = eval(s0, ast@, FUEL as nat);
            &&& r.0@ == s.output
            &&& r.1 == match res {
                Ok(_) => Ok::<(), Error>(()),
                Err(e) => Err(e),
            }
        }),
        !(ast is Top) ==> r.0@.len() == 0 && r.1 == Err::<(), Error>(Error::NotTopLevel),
{
    let mut p = Runtime::new();
    p.push_env();
    match ast {
        AST::Top(_) => {
            let res = p.eval(ast);
            let mut out: Vec<char> = Vec::new();
            out.append(&mut p.output);
            match res {
                Ok(_) => (out, Ok(())),
                Err(e) => (out, Err(e)),
            }
        },
        _ => (Vec::new(), Err(Error::NotTopLevel)),
    }
}

proof fn lemma_find_binding(sc: Scope, name: Seq<char>, n: int)
    requires
        n <= sc.len(),
    ensures
        find_binding(sc, name, n) matches Some(j) ==> 0 <= j < n && sc[j].0 == name,
    decreases n,
{
    if n > 0 {
        lemma_find_binding(sc, name, n - 1);
    }
}

proof fn lemma_find_in_frame(fr: Seq<Scope>, name: Seq<char>, n: int)
    requires
        n <= fr.len(),
    ensures
        find_in_frame(fr, name, n) matches Some((c, j)) ==> 0 <= c < n && 0 <= j < fr[c].len()
            && fr[c][j].0 == name,
    decreases n,
{
    if n > 0 {
        lemma_find_binding(fr[n - 1], name, fr[n - 1].len() as int);
        lemma_find_in_frame(fr, name, n - 1);
    }
}

} // verus!
