//! Properties of the language that follow from its definition, proved.
use vstd::prelude::*;
use crate::ast::Node;
use crate::heap::{HeapModel, Pointer, Value};
use crate::semantics::{
    Error, FunctionModel, State, element_at, eval, eval_loop, find_binding,
    find_function, find_in_frame, lookup_function, operator_of, register, slot_of, truthy,
};

verus! {

/// Interning a boolean in a well-formed heap keeps it well formed and gives
/// a handle to that boolean.
pub proof fn lemma_get_bool(h: HeapModel, b: bool)
    requires
        h.wf(),
    ensures
        h.get_bool(b).0.valid(h.get_bool(b).1),
        h.get_bool(b).0.deref(h.get_bool(b).1) == Value::Boolean(b),
        h.get_bool(b).0.bools.contains_key(b),
{
    if !h.bools.contains_key(b) {
        let (h1, p) = h.allocate(Value::Boolean(b));
        assert(h1.values[p.index as int] == Value::Boolean(b));
    }
}

/// Literal interning: evaluating an integer literal twice on one heap gives
/// the same handle both times, the second evaluation changes nothing, and
/// the handle holds the integer.
pub proof fn lemma_literal_interning(s: State, n: i32, fuel1: nat, fuel2: nat)
    requires
        s.heap.wf(),
        fuel1 > 0,
        fuel2 > 0,
    ensures
        ({
            let (s1, r1) = eval(s, Node::Integer(n), fuel1);
            let (s2, r2) = eval(s1, Node::Integer(n), fuel2);
            &&& r1 is Ok
            &&& r2 == r1
            &&& s2 == s1
            &&& s1.heap.deref(r1->Ok_0) == Value::Int(n)
        }),
{
    let h = s.heap;
    if !h.ints.contains_key(n) {
        let (h1, p) = h.allocate(Value::Int(n));
        assert(h1.values[p.index as int] == Value::Int(n));
    }
}

/// Literal interning across any evaluations: once an integer literal was
/// evaluated, evaluating it again in any later well-formed state whose
/// literal table extends the earlier one (as every evaluation guarantees,
/// see `grows`) gives the same handle, changes nothing, and the handle holds
/// the integer.
pub proof fn lemma_literal_sharing(s: State, t: State, n: i32, fuel1: nat, fuel2: nat)
    requires
        s.heap.wf(),
        t.heap.wf(),
        fuel1 > 0,
        fuel2 > 0,
        eval(s, Node::Integer(n), fuel1).0.heap.ints.submap_of(t.heap.ints),
    ensures
        ({
            let r1 = eval(s, Node::Integer(n), fuel1).1;
            &&& r1 is Ok
            &&& eval(t, Node::Integer(n), fuel2) == (t, r1)
            &&& t.heap.deref(r1->Ok_0) == Value::Int(n)
        }),
{
    let h = s.heap;
    if !h.ints.contains_key(n) {
        let (h1, p) = h.allocate(Value::Int(n));
        assert(h1.values[p.index as int] == Value::Int(n));
    }
    let s1 = eval(s, Node::Integer(n), fuel1).0;
    assert(s1.heap.ints.contains_key(n));
    assert(t.heap.ints.contains_key(n));
}

/// Shadowing: in a new inner scope, declaring a name and assigning to it
/// touches only the inner binding; once the scope closes, every frame is as
/// it was, so the outer binding of the name is visible again, unchanged.
pub proof fn lemma_shadowing_round_trip(s: State, name: Seq<char>, p: Pointer, q: Pointer)
    requires
        s.wf(),
    ensures
        ({
            let s1 = s.push_scope();
            let (s2, r2) = s1.declare(name, p);
            let (s3, r3) = s2.assign(name, q);
            &&& r2 == Ok::<Pointer, Error>(p)
            &&& s2.resolve(name) == Some(p)
            &&& r3 == Ok::<Pointer, Error>(q)
            &&& s3.resolve(name) == Some(q)
            &&& s3.pop_scope().frames == s.frames
            &&& s3.pop_scope().resolve(name) == s.resolve(name)
        }),
{
    let c = s.current();
    let s1 = s.push_scope();
    let fr1 = s1.frames[c];
    let k = fr1.len() - 1;
    assert(fr1.last() == Seq::<(Seq<char>, Pointer)>::empty());
    assert(find_binding(fr1.last(), name, 0) is None);
    let (s2, r2) = s1.declare(name, p);
    let fr2 = s2.frames[c];
    assert(fr2[k] == seq![(name, p)]);
    assert(find_binding(fr2[k], name, 1) == Some(0int));
    assert(find_in_frame(fr2, name, fr2.len() as int) == Some((k, 0int)));
    assert(s2.locate(name) == Some((c, k, 0int)));
    let (s3, r3) = s2.assign(name, q);
    let fr3 = s3.frames[c];
    assert(fr3[k] == seq![(name, q)]);
    assert(find_binding(fr3[k], name, 1) == Some(0int));
    assert(find_in_frame(fr3, name, fr3.len() as int) == Some((k, 0int)));
    assert(s3.locate(name) == Some((c, k, 0int)));
    assert(fr3.drop_last() =~= s.frames[c]);
    assert(s3.pop_scope().frames =~= s.frames);
}

/// Array write then read: after assigning through a valid index, reading
/// that index gives the assigned handle and every other index of the array
/// reads as before.
pub proof fn lemma_array_write_read(h: HeapModel, pa: Pointer, pi: Pointer, pv: Pointer, pj: Pointer)
    requires
        h.wf(),
        h.valid(pa),
        slot_of(h, pa, pi) is Ok,
        h.deref(pj) is Int,
        h.deref(pj) != h.deref(pi),
    ensures
        ({
            let h2 = h.set_slot(slot_of(h, pa, pi)->Ok_0, pv);
            &&& element_at(h2, pa, pi) == Ok::<Pointer, Error>(pv)
            &&& element_at(h2, pa, pj) == element_at(h, pa, pj)
        }),
{
    assert(h.value_ok(h.values[pa.index as int]));
}

/// Bounds check: an integer index reads an array exactly when it lies in
/// `[0, length)`; an index equal to the length or beyond fails with
/// `IndexOutOfBounds`, for reads and for writes.
pub proof fn lemma_bounds_check(h: HeapModel, pa: Pointer, pi: Pointer)
    requires
        h.deref(pa) is Array,
        h.deref(pi) is Int,
    ensures
        ({
            let size = h.deref(pa)->Array_size;
            let i = h.deref(pi)->Int_0;
            &&& element_at(h, pa, pi) is Ok <==> 0 <= i < size
            &&& slot_of(h, pa, pi) is Ok <==> 0 <= i < size
            &&& i >= size ==> element_at(h, pa, pi) == Err::<Pointer, Error>(Error::IndexOutOfBounds)
            &&& i >= size ==> slot_of(h, pa, pi) == Err::<int, Error>(Error::IndexOutOfBounds)
        }),
{
}

proof fn lemma_find_function_prefix(fs: Seq<(Seq<char>, FunctionModel)>, x: (Seq<char>, FunctionModel), name: Seq<char>, k: int)
    requires
        k <= fs.len(),
    ensures
        find_function(fs.push(x), name, k) == find_function(fs, name, k),
    decreases k,
{
    if k > 0 {
        assert(fs.push(x)[k - 1] == fs[k - 1]);
        lemma_find_function_prefix(fs, x, name, k - 1);
    }
}

proof fn lemma_add_function_keeps(s: State, name: Seq<char>, parameters: Seq<Seq<char>>, body: Node, other: Seq<char>)
    ensures
        lookup_function(s, other) is Some ==> lookup_function(s.add_function(name, parameters, body), other) is Some,
        lookup_function(s.add_function(name, parameters, body), name) == Some(FunctionModel { parameters, body }),
{
    let fs = s.functions;
    let x = (name, FunctionModel { parameters, body });
    assert(fs.push(x)[fs.len() as int] == x);
    lemma_find_function_prefix(fs, x, other, fs.len() as int);
}

/// Function visibility: registering the declarations of a top-level
/// sequence puts every one of them in the function table, whatever its
/// position, before any other form runs.
pub proof fn lemma_functions_registered(s: State, exprs: Seq<Node>, i: int, j: int)
    requires
        0 <= i <= j < exprs.len(),
        exprs[j] is Function,
    ensures
        lookup_function(register(s, exprs, i), exprs[j]->Function_name) is Some,
    decreases exprs.len() - i,
{
    let name = exprs[j]->Function_name;
    let s1 = match exprs[i] {
        Node::Function { name, parameters, body } => s.add_function(name, parameters, *body),
        _ => s,
    };
    if i == j {
        lemma_add_function_keeps(s, name, exprs[j]->Function_parameters, *exprs[j]->Function_body, name);
        lemma_registered_stays(s1, exprs, i + 1, name);
    } else {
        lemma_functions_registered(s1, exprs, i + 1, j);
    }
}

proof fn lemma_registered_stays(s: State, exprs: Seq<Node>, i: int, name: Seq<char>)
    requires
        0 <= i,
        lookup_function(s, name) is Some,
    ensures
        lookup_function(register(s, exprs, i), name) is Some,
    decreases exprs.len() - i,
{
    if i < exprs.len() {
        match exprs[i] {
            Node::Function { name: n, parameters, body } => {
                lemma_add_function_keeps(s, n, parameters, *body, name);
                lemma_registered_stays(s.add_function(n, parameters, *body), exprs, i + 1, name);
            },
            _ => {
                lemma_registered_stays(s, exprs, i + 1, name);
            },
        }
    }
}

/// Calling a function that the table does not hold is fatal.
pub proof fn lemma_undefined_function(s: State, name: Seq<char>, arguments: Seq<Node>, fuel: nat)
    requires
        fuel > 0,
        lookup_function(s, name) is None,
    ensures
        eval(s, Node::CallFunction { name, arguments }, fuel) == (s, Err::<Pointer, Error>(Error::UndefinedFunction)),
{
}

/// Loop polarity: once the condition evaluates to a true value the loop
/// stops without running the body; while it evaluates to a false value the
/// body runs and the condition is checked again.
pub proof fn lemma_loop_polarity(s: State, condition: Node, body: Node, fuel: nat)
    requires
        fuel > 0,
    ensures
        ({
            let f = (fuel - 1) as nat;
            let (s1, r1) = eval(s, condition, f);
            r1 matches Ok(pc) ==> if truthy(s1.heap.deref(pc)) {
                eval_loop(s, condition, body, fuel) == (s1, Ok::<(), Error>(()))
            } else {
                let (s2, r2) = eval(s1, body, f);
                eval_loop(s, condition, body, fuel) == match r2 {
                    Ok(_) => eval_loop(s2, condition, body, f),
                    Err(err) => (s2, Err(err)),
                }
            }
        }),
{
}

/// A loop whose condition is the literal `false` runs its body before it
/// checks the condition again.
pub proof fn lemma_loop_false_runs_body(s: State, body: Node, fuel: nat)
    requires
        s.heap.wf(),
        fuel > 1,
    ensures
        ({
            let f = (fuel - 1) as nat;
            let (s1, _) = s.get_bool(false);
            let (s2, r2) = eval(s1, body, f);
            eval_loop(s, Node::Boolean(false), body, fuel) == match r2 {
                Ok(_) => eval_loop(s2, Node::Boolean(false), body, f),
                Err(err) => (s2, Err(err)),
            }
        }),
{
    let f = (fuel - 1) as nat;
    lemma_get_bool(s.heap, false);
    let (s1, p) = s.get_bool(false);
    assert(eval(s, Node::Boolean(false), f) == (s1, Ok::<Pointer, Error>(p)));
    assert(!truthy(s1.heap.deref(p)));
}

/// Operator dispatch on integers: a name that denotes no operator is fatal.
pub proof fn lemma_unknown_operator(s: State, object: Node, name: Seq<char>, arg: Node, fuel: nat)
    requires
        fuel > 0,
        operator_of(name) is None,
    ensures
        ({
            let f = (fuel - 1) as nat;
            let (s1, r1) = eval(s, object, f);
            let (s2, r2) = eval(s1, arg, f);
            (r1 is Ok && s1.heap.deref(r1->Ok_0) is Int && r2 is Ok && s2.heap.deref(r2->Ok_0) is Int)
                ==> eval(s, Node::CallMethod { object: Box::new(object), name, arguments: seq![arg] }, fuel)
                == (s2, Err::<Pointer, Error>(Error::UnknownOperator))
        }),
{
}

/// Operator dispatch on `Unit`: whatever the operator, the result is the
/// interned boolean that says whether the argument is `Unit` too.
pub proof fn lemma_unit_dispatch(s: State, object: Node, name: Seq<char>, arg: Node, fuel: nat)
    requires
        fuel > 0,
    ensures
        ({
            let f = (fuel - 1) as nat;
            let (s1, r1) = eval(s, object, f);
            let (s2, r2) = eval(s1, arg, f);
            (r1 is Ok && s1.heap.deref(r1->Ok_0) == Value::Unit && r2 is Ok) ==> {
                let (s3, p) = s2.get_bool(s2.heap.deref(r2->Ok_0) == Value::Unit);
                &&& eval(s, Node::CallMethod { object: Box::new(object), name, arguments: seq![arg] }, fuel)
                    == (s3, Ok::<Pointer, Error>(p))
                &&& s2.heap.wf() ==> s3.heap.deref(p) == Value::Boolean(s2.heap.deref(r2->Ok_0) == Value::Unit)
            }
        }),
{
    let f = (fuel - 1) as nat;
    let (s1, r1) = eval(s, object, f);
    let (s2, r2) = eval(s1, arg, f);
    if r2 is Ok && s2.heap.wf() {
        lemma_get_bool(s2.heap, s2.heap.deref(r2->Ok_0) == Value::Unit);
    }
}

} // verus!
