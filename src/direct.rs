//! A smaller evaluator that works on values directly, without a heap.
//!
//! It knows literals, variable declaration and assignment, blocks, loops,
//! conditionals and printing; every other node kind is reported as not
//! implemented. Blocks, loops and conditions follow the same rules as the
//! main evaluator: one environment per block or loop, truthiness for
//! conditions, loops that run while the condition is false, and `\n` printed
//! as a newline.
use vstd::prelude::*;
use crate::ast::{AST, Node, lemma_nodes_of, node_of_box, nodes_of};
use crate::interpreter::FUEL;
use crate::semantics::{Error, bool_text, int_text, null_text, unescape};
use crate::text::{push_int, unescape_newlines};

verus! {

/// A value of the direct evaluator.
#[derive(Clone, Copy, PartialEq, Eq, Structural, Debug)]
pub enum Value {
    Int(i32),
    Boolean(bool),
    Unit,
}

/// One environment: its variables in order of declaration.
pub type Env = Seq<(Seq<char>, Value)>;

/// The abstract state: environments, the last one the most recent, and the
/// text printed so far.
pub ghost struct Direct {
    pub envs: Seq<Env>,
    pub output: Seq<char>,
}

/// Truthiness of a condition: booleans as they are, `Unit` is false and
/// integers are true.
pub open spec fn truthy(v: Value) -> bool {
    match v {
        Value::Boolean(b) => b,
        Value::Unit => false,
        Value::Int(_) => true,
    }
}

pub open spec fn value_text(v: Value) -> Seq<char> {
    match v {
        Value::Int(n) => int_text(n),
        Value::Boolean(b) => bool_text(b),
        Value::Unit => null_text(),
    }
}

/// Index of `name` among the first `n` entries of `env`, searching from the
/// latest.
pub open spec fn find_entry(env: Env, name: Seq<char>, n: int) -> Option<int>
    decreases n,
{
    if n <= 0 {
        None
    } else if env[n - 1].0 == name {
        Some(n - 1)
    } else {
        find_entry(env, name, n - 1)
    }
}

/// Environment and entry index of `name` among the first `n` environments,
/// searching from the most recent.
pub open spec fn find_var(envs: Seq<Env>, name: Seq<char>, n: int) -> Option<(int, int)>
    decreases n,
{
    if n <= 0 {
        None
    } else {
        match find_entry(envs[n - 1], name, envs[n - 1].len() as int) {
            Some(j) => Some((n - 1, j)),
            None => find_var(envs, name, n - 1),
        }
    }
}

impl Direct {
    pub open spec fn push_env(self) -> Direct {
        Direct { envs: self.envs.push(Seq::empty()), ..self }
    }

    pub open spec fn pop_env(self) -> Direct {
        if self.envs.len() > 0 {
            Direct { envs: self.envs.drop_last(), ..self }
        } else {
            self
        }
    }

    pub open spec fn locate(self, name: Seq<char>) -> Option<(int, int)> {
        find_var(self.envs, name, self.envs.len() as int)
    }

    pub open spec fn lookup(self, name: Seq<char>) -> Option<Value> {
        match self.locate(name) {
            Some((e, j)) => Some(self.envs[e][j].1),
            None => None,
        }
    }

    /// Declares `name` in the most recent environment.
    pub open spec fn declare(self, name: Seq<char>, v: Value) -> (Direct, Result<Value, Error>) {
        if self.envs.len() == 0 {
            (self, Err(Error::NoScope))
        } else {
            let top = self.envs.last();
            if find_entry(top, name, top.len() as int) is Some {
                (self, Err(Error::Redeclared))
            } else {
                (Direct { envs: self.envs.update(self.envs.len() - 1, top.push((name, v))), ..self }, Ok(v))
            }
        }
    }

    /// Assigns to the most recent variable named `name`.
    pub open spec fn assign(self, name: Seq<char>, v: Value) -> (Direct, Result<Value, Error>) {
        match self.locate(name) {
            Some((e, j)) => (
                Direct {
                    envs: self.envs.update(e, self.envs[e].update(j, (name, v))),
                    ..self
                },
                Ok(v),
            ),
            None => (self, Err(Error::VariableMissing)),
        }
    }
}

/// The value of a node, with the given fuel.
pub open spec fn run(s: Direct, e: Node, fuel: nat) -> (Direct, Result<Value, Error>)
    decreases fuel, 0int,
{
    if fuel == 0 {
        (s, Err(Error::OutOfFuel))
    } else {
        let f = (fuel - 1) as nat;
        match e {
            Node::Integer(n) => (s, Ok(Value::Int(n))),
            Node::Boolean(b) => (s, Ok(Value::Boolean(b))),
            Node::Null => (s, Ok(Value::Unit)),
            Node::Variable { name, value } => {
                let (s1, r) = run(s, *value, f);
                match r {
                    Ok(v) => s1.declare(name, v),
                    Err(err) => (s1, Err(err)),
                }
            },
            Node::AssignVariable { name, value } => {
                let (s1, r) = run(s, *value, f);
                match r {
                    Ok(v) => s1.assign(name, v),
                    Err(err) => (s1, Err(err)),
                }
            },
            Node::Block(exprs) => {
                let (s1, r) = run_block(s.push_env(), exprs, 0, None, f);
                match r {
                    Ok(Some(v)) => (s1.pop_env(), Ok(v)),
                    Ok(None) => (s1.pop_env(), Ok(Value::Unit)),
                    Err(err) => (s1, Err(err)),
                }
            },
            Node::Loop { condition, body } => {
                let (s1, r) = run_loop(s.push_env(), *condition, *body, f);
                match r {
                    Ok(_) => (s1.pop_env(), Ok(Value::Unit)),
                    Err(err) => (s1, Err(err)),
                }
            },
            Node::Conditional { condition, consequent, alternative } => {
                let (s1, r) = run(s, *condition, f);
                match r {
                    Ok(v) => if truthy(v) {
                        run(s1, *consequent, f)
                    } else {
                        run(s1, *alternative, f)
                    },
                    Err(err) => (s1, Err(err)),
                }
            },
            Node::Print { format, arguments } => {
                let (s1, r) = run_print(s, format, arguments, 0, 0, Seq::empty(), f);
                match r {
                    Ok(text) => (Direct { output: s1.output + unescape(text), ..s1 }, Ok(Value::Unit)),
                    Err(err) => (s1, Err(err)),
                }
            },
            _ => (s, Err(Error::NotImplemented)),
        }
    }
}

/// Runs `exprs[i..]` in order; the result is the last value, if any.
pub open spec fn run_block(s: Direct, exprs: Seq<Node>, i: int, last: Option<Value>, fuel: nat) -> (
    Direct,
    Result<Option<Value>, Error>,
)
    decreases fuel, exprs.len() - i + 1,
{
    if i < 0 || i >= exprs.len() {
        (s, Ok(last))
    } else {
        let (s1, r) = run(s, exprs[i], fuel);
        match r {
            Ok(v) => run_block(s1, exprs, i + 1, Some(v), fuel),
            Err(err) => (s1, Err(err)),
        }
    }
}

/// Runs the body while the condition is false; stops once it is true.
pub open spec fn run_loop(s: Direct, condition: Node, body: Node, fuel: nat) -> (Direct, Result<(), Error>)
    decreases fuel, 1int,
{
    if fuel == 0 {
        (s, Err(Error::OutOfFuel))
    } else {
        let f = (fuel - 1) as nat;
        let (s1, r) = run(s, condition, f);
        match r {
            Ok(v) => if truthy(v) {
                (s1, Ok(()))
            } else {
                let (s2, r2) = run(s1, body, f);
                match r2 {
                    Ok(_) => run_loop(s2, condition, body, f),
                    Err(err) => (s2, Err(err)),
                }
            },
            Err(err) => (s1, Err(err)),
        }
    }
}

/// Renders `format[i..]` after `acc`: each `~` takes the next argument,
/// starting with `args[k]`, and every other character is copied.
pub open spec fn run_print(
    s: Direct,
    format: Seq<char>,
    args: Seq<Node>,
    i: int,
    k: int,
    acc: Seq<char>,
    fuel: nat,
) -> (Direct, Result<Seq<char>, Error>)
    decreases fuel, format.len() - i + 1,
{
    if i < 0 || i >= format.len() {
        (s, Ok(acc))
    } else if format[i] != '~' {
        run_print(s, format, args, i + 1, k, acc.push(format[i]), fuel)
    } else if k < 0 || k >= args.len() {
        (s, Err(Error::MissingFormatArgument))
    } else {
        let (s1, r) = run(s, args[k], fuel);
        match r {
            Ok(v) => run_print(s1, format, args, i + 1, k + 1, acc + value_text(v), fuel),
            Err(err) => (s1, Err(err)),
        }
    }
}

pub open spec fn env_view(env: Seq<(String, Value)>) -> Env {
    env.map_values(|b: (String, Value)| (b.0@, b.1))
}

pub open spec fn envs_view(envs: Seq<Vec<(String, Value)>>) -> Seq<Env> {
    envs.map_values(|env: Vec<(String, Value)>| env_view(env@))
}

/// The direct evaluator's state.
pub struct Program {
    envs: Vec<Vec<(String, Value)>>,
    output: Vec<char>,
}

impl View for Program {
    type V = Direct;

    closed spec fn view(&self) -> Direct {
        Direct { envs: envs_view(self.envs@), output: self.output@ }
    }
}

fn push_value(v: Value, out: &mut Vec<char>)
    ensures
        final(out)@ == old(out)@ + value_text(v),
{
    match v {
        Value::Int(n) => push_int(n, out),
        Value::Boolean(true) => {
            out.push('t');
            out.push('r');
            out.push('u');
            out.push('e');
        },
        Value::Boolean(false) => {
            out.push('f');
            out.push('a');
            out.push('l');
            out.push('s');
            out.push('e');
        },
        Value::Unit => {
            out.push('n');
            out.push('u');
            out.push('l');
            out.push('l');
        },
    }
    proof {
        assert(final(out)@ =~= old(out)@ + value_text(v));
    }
}

fn find_entry_exec(env: &Vec<(String, Value)>, name: &String) -> (r: Option<usize>)
    ensures
        match r {
            Some(j) => find_entry(env_view(env@), name@, env@.len() as int) == Some(j as int),
            None => find_entry(env_view(env@), name@, env@.len() as int) is None,
        },
{
    let ghost v = env_view(env@);
    let mut i: usize = env.len();
    while i > 0
        invariant
            i <= env@.len(),
            v == env_view(env@),
            find_entry(v, name@, env@.len() as int) == find_entry(v, name@, i as int),
        decreases i,
    {
        if env[i - 1].0 == *name {
            return Some(i - 1);
        }
        i = i - 1;
    }
    None
}

proof fn lemma_find_entry(env: Env, name: Seq<char>, n: int)
    requires
        n <= env.len(),
    ensures
        find_entry(env, name, n) matches Some(j) ==> 0 <= j < n && env[j].0 == name,
    decreases n,
{
    if n > 0 {
        lemma_find_entry(env, name, n - 1);
    }
}

proof fn lemma_find_var(envs: Seq<Env>, name: Seq<char>, n: int)
    requires
        n <= envs.len(),
    ensures
        find_var(envs, name, n) matches Some((e, j)) ==> 0 <= e < n && 0 <= j < envs[e].len()
            && envs[e][j].0 == name,
    decreases n,
{
    if n > 0 {
        lemma_find_entry(envs[n - 1], name, envs[n - 1].len() as int);
        lemma_find_var(envs, name, n - 1);
    }
}

impl Program {
    /// A program state without environments and with no output.
    pub fn new() -> (r: Program)
        ensures
            r@.envs == Seq::<Env>::empty(),
            r@.output == Seq::<char>::empty(),
    {
        let r = Program { envs: Vec::new(), output: Vec::new() };
        proof {
            assert(r@.envs =~= Seq::<Env>::empty());
        }
        r
    }

    /// The text printed so far.
    pub fn output(&self) -> (r: &Vec<char>)
        ensures
            r@ == self@.output,
    {
        &self.output
    }

    /// Opens an environment on top.
    pub fn push_env(&mut self)
        ensures
            final(self)@ == old(self)@.push_env(),
    {
        let fresh: Vec<(String, Value)> = Vec::new();
        proof {
            assert(env_view(fresh@) =~= Seq::<(Seq<char>, Value)>::empty());
        }
        self.envs.push(fresh);
        proof {
            assert(self@.envs =~~= old(self)@.push_env().envs);
        }
    }

    /// Closes the most recent environment, if there is one.
    pub fn pop_env(&mut self)
        ensures
            final(self)@ == old(self)@.pop_env(),
    {
        if self.envs.len() > 0 {
            self.envs.pop();
            proof {
                assert(self@.envs =~~= old(self)@.pop_env().envs);
            }
        }
    }

    /// Where `name` is bound: environment and entry index.
    fn locate_var(&self, name: &String) -> (r: Option<(usize, usize)>)
        ensures
            match r {
                Some((e, j)) => self@.locate(name@) == Some((e as int, j as int)),
                None => self@.locate(name@) is None,
            },
            r matches Some((e, j)) ==> e < self@.envs.len() && j < self@.envs[e as int].len(),
    {
        let ghost v = self@.envs;
        let mut i: usize = self.envs.len();
        while i > 0
            invariant
                i <= self.envs@.len(),
                v == self@.envs,
                find_var(v, name@, v.len() as int) == find_var(v, name@, i as int),
            decreases i,
        {
            assert(v[i - 1] == env_view(self.envs@[i - 1]@));
            match find_entry_exec(&self.envs[i - 1], name) {
                Some(j) => {
                    proof {
                        lemma_find_var(v, name@, v.len() as int);
                    }
                    return Some((i - 1, j));
                },
                None => {},
            }
            i = i - 1;
        }
        None
    }

    /// Assigns to the most recent variable named `name`.
    fn assign_to_var(&mut self, name: &String, val: Value) -> (r: Result<Value, Error>)
        ensures
            (final(self)@, r) == old(self)@.assign(name@, val),
    {
        match self.locate_var(name) {
            Some((e, j)) => {
                let ghost o = self@;
                proof {
                    lemma_find_var(o.envs, name@, o.envs.len() as int);
                }
                self.envs[e][j] = (name.clone(), val);
                proof {
                    let t = o.assign(name@, val).0;
                    assert(env_view(self.envs@[e as int]@) =~= t.envs[e as int]);
                    assert(self@.envs =~= t.envs);
                }
                Ok(val)
            },
            None => Err(Error::VariableMissing),
        }
    }

    /// The value of the most recent variable named `name`.
    pub fn fetch_var(&self, name: &String) -> (r: Option<Value>)
        ensures
            r == self@.lookup(name@),
    {
        match self.locate_var(name) {
            Some((e, j)) => Some(self.envs[e][j].1),
            None => None,
        }
    }

    /// Declares `name` in the most recent environment.
    fn add_var(&mut self, name: String, val: Value) -> (r: Result<Value, Error>)
        ensures
            (final(self)@, r) == old(self)@.declare(name@, val),
    {
        let n = self.envs.len();
        if n == 0 {
            return Err(Error::NoScope);
        }
        proof {
            assert(self@.envs.last() == env_view(self.envs@[n - 1]@));
        }
        match find_entry_exec(&self.envs[n - 1], &name) {
            Some(_) => Err(Error::Redeclared),
            None => {
                let ghost o = self@;
                self.envs[n - 1].push((name, val));
                proof {
                    let t = o.declare(name@, val).0;
                    assert(env_view(self.envs@[n - 1]@) =~= t.envs[n - 1]);
                    assert(self@.envs =~= t.envs);
                }
                Ok(val)
            },
        }
    }

    /// Evaluates a node, spending one unit of fuel per level of recursion;
    /// `OutOfFuel` when it runs out.
    pub fn eval_node(&mut self, ast: &AST, fuel: u64) -> (r: Result<Value, Error>)
        ensures
            (final(self)@, r) == run(old(self)@, ast@, fuel as nat),
        decreases fuel, 1int,
    {
        if fuel == 0 {
            return Err(Error::OutOfFuel);
        }
        let f = fuel - 1;
        match ast {
            AST::Integer(n) => Ok(Value::Int(*n)),
            AST::Boolean(b) => Ok(Value::Boolean(*b)),
            AST::Null => Ok(Value::Unit),
            AST::Variable { name, value } => {
                match self.eval_node(value, f) {
                    Ok(v) => self.add_var(name.clone(), v),
                    Err(e) => Err(e),
                }
            },
            AST::AssignVariable { name, value } => {
                match self.eval_node(value, f) {
                    Ok(v) => self.assign_to_var(name, v),
                    Err(e) => Err(e),
                }
            },
            AST::Block(exprs) => {
                self.push_env();
                match self.eval_block(exprs, f) {
                    Ok(Some(v)) => {
                        self.pop_env();
                        Ok(v)
                    },
                    Ok(None) => {
                        self.pop_env();
                        Ok(Value::Unit)
                    },
                    Err(e) => Err(e),
                }
            },
            AST::Loop { condition, body } => {
                self.push_env();
                match self.eval_loop(condition, body, f) {
                    Ok(()) => {
                        self.pop_env();
                        Ok(Value::Unit)
                    },
                    Err(e) => Err(e),
                }
            },
            AST::Conditional { condition, consequent, alternative } => {
                match self.eval_bool(condition, f) {
                    Ok(true) => self.eval_node(consequent, f),
                    Ok(false) => self.eval_node(alternative, f),
                    Err(e) => Err(e),
                }
            },
            AST::Print { format, arguments } => {
                match self.eval_print(format, arguments, f) {
                    Ok(text) => {
                        let mut u = unescape_newlines(&text);
                        self.output.append(&mut u);
                        Ok(Value::Unit)
                    },
                    Err(e) => Err(e),
                }
            },
            _ => Err(Error::NotImplemented),
        }
    }

    /// Evaluates `expr` as a condition: its truthiness.
    fn eval_bool(&mut self, expr: &AST, fuel: u64) -> (r: Result<bool, Error>)
        ensures
            ({
                let (s, res) = run(old(self)@, expr@, fuel as nat);
                &&& final(self)@ == s
                &&& r == match res {
                    Ok(v) => Ok::<bool, Error>(truthy(v)),
                    Err(e) => Err(e),
                }
            }),
        decreases fuel, 2int,
    {
        match self.eval_node(expr, fuel) {
            Ok(Value::Boolean(b)) => Ok(b),
            Ok(Value::Unit) => Ok(false),
            Ok(Value::Int(_)) => Ok(true),
            Err(e) => Err(e),
        }
    }

    #[verifier::loop_isolation(false)]
    fn eval_block(&mut self, exprs: &Vec<Box<AST>>, fuel: u64) -> (r: Result<Option<Value>, Error>)
        ensures
            (final(self)@, r) == run_block(old(self)@, nodes_of(exprs@), 0, None, fuel as nat),
        decreases fuel, 2int,
    {
        let ghost s0 = self@;
        let ghost ns = nodes_of(exprs@);
        proof {
            lemma_nodes_of(exprs@);
        }
        let mut last: Option<Value> = None;
        let mut i: usize = 0;
        while i < exprs.len()
            invariant
                i <= exprs@.len(),
                ns == nodes_of(exprs@),
                ns.len() == exprs@.len(),
                forall|j: int| 0 <= j < exprs@.len() ==> #[trigger] ns[j] == node_of_box(exprs@[j]),
                run_block(s0, ns, 0, None, fuel as nat) == run_block(self@, ns, i as int, last, fuel as nat),
            decreases exprs@.len() - i,
        {
            match self.eval_node(&exprs[i], fuel) {
                Ok(v) => {
                    last = Some(v);
                },
                Err(e) => {
                    return Err(e);
                },
            }
            i = i + 1;
        }
        Ok(last)
    }

    #[verifier::loop_isolation(false)]
    fn eval_loop(&mut self, condition: &AST, body: &AST, fuel: u64) -> (r: Result<(), Error>)
        ensures
            (final(self)@, r) == run_loop(old(self)@, condition@, body@, fuel as nat),
        decreases fuel, 2int,
    {
        let ghost s0 = self@;
        let mut f = fuel;
        loop
            invariant
                f <= fuel,
                run_loop(s0, condition@, body@, fuel as nat) == run_loop(self@, condition@, body@, f as nat),
            decreases f,
        {
            if f == 0 {
                return Err(Error::OutOfFuel);
            }
            f = f - 1;
            match self.eval_bool(condition, f) {
                Ok(true) => {
                    return Ok(());
                },
                Ok(false) => {},
                Err(e) => {
                    return Err(e);
                },
            }
            match self.eval_node(body, f) {
                Ok(_) => {},
                Err(e) => {
                    return Err(e);
                },
            }
        }
    }

    /// The text of a print: `~` takes the next argument, `\n` is left as it
    /// is here.
    #[verifier::loop_isolation(false)]
    fn eval_print(&mut self, format: &String, arguments: &Vec<Box<AST>>, fuel: u64) -> (r: Result<
        Vec<char>,
        Error,
    >)
        ensures
            ({
                let (s, res) = run_print(
                    old(self)@,
                    format@,
                    nodes_of(arguments@),
                    0,
                    0,
                    Seq::empty(),
                    fuel as nat,
                );
                &&& final(self)@ == s
                &&& match res {
                    Ok(t) => r matches Ok(v) && v@ == t,
                    Err(e) => r matches Err(e2) && e2 == e,
                }
            }),
        decreases fuel, 2int,
    {
        let ghost s0 = self@;
        let ghost ns = nodes_of(arguments@);
        proof {
            lemma_nodes_of(arguments@);
        }
        let fmt = format.as_str();
        let n = vstd::string::StrSliceExecFns::unicode_len(fmt);
        let mut acc: Vec<char> = Vec::new();
        let mut i: usize = 0;
        let mut k: usize = 0;
        while i < n
            invariant
                n == format@.len(),
                fmt@ == format@,
                i <= n,
                ns == nodes_of(arguments@),
                ns.len() == arguments@.len(),
                forall|j: int| 0 <= j < arguments@.len() ==> #[trigger] ns[j] == node_of_box(arguments@[j]),
                run_print(s0, format@, ns, 0, 0, Seq::empty(), fuel as nat) == run_print(
                    self@,
                    format@,
                    ns,
                    i as int,
                    k as int,
                    acc@,
                    fuel as nat,
                ),
            decreases n - i,
        {
            let c = vstd::string::StrSliceExecFns::get_char(fmt, i);
            if c != '~' {
                acc.push(c);
            } else {
                if k >= arguments.len() {
                    return Err(Error::MissingFormatArgument);
                }
                let v = match self.eval_node(&arguments[k], fuel) {
                    Ok(v) => v,
                    Err(e) => {
                        return Err(e);
                    },
                };
                push_value(v, &mut acc);
                k = k + 1;
            }
            i = i + 1;
        }
        Ok(acc)
    }

    /// Evaluates a node with the default fuel.
    pub fn eval(&mut self, ast: AST) -> (r: Result<Value, Error>)
        ensures
            (final(self)@, r) == run(old(self)@, ast@, FUEL as nat),
    {
        self.eval_node(&ast, FUEL)
    }
}

/// Runs a node in a fresh program state. Returns what it printed and how it
/// ended.
pub fn interpret(ast: AST) -> (r: (Vec<char>, Result<(), Error>))
    ensures
        ({
            let s0 = Direct { envs: Seq::empty(), output: Seq::empty() };
            let (s, res) = run(s0, ast@, FUEL as nat);
            &&& r.0@ == s.output
            &&& r.1 == match res {
                Ok(_) => Ok::<(), Error>(()),
                Err(e) => Err(e),
            }
        }),
{
    let mut p = Program::new();
    let res = p.eval(ast);
    let mut out: Vec<char> = Vec::new();
    out.append(&mut p.output);
    match res {
        Ok(_) => (out, Ok(())),
        Err(e) => (out, Err(e)),
    }
}

} // verus!
