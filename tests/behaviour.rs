use fml_interpreter::ast::AST;
use fml_interpreter::heap::{Heap, Pointer, Value};
use fml_interpreter::interpreter::{interpret, Runtime};
use fml_interpreter::semantics::Error;

fn num(n: i32) -> Box<AST> {
    AST::Integer(n).into_boxed()
}

fn boolean(b: bool) -> Box<AST> {
    AST::Boolean(b).into_boxed()
}

fn var(name: &str) -> Box<AST> {
    AST::AccessVariable { name: String::from(name) }.into_boxed()
}

fn decl(name: &str, value: Box<AST>) -> Box<AST> {
    AST::Variable { name: String::from(name), value }.into_boxed()
}

fn set(name: &str, value: Box<AST>) -> Box<AST> {
    AST::AssignVariable { name: String::from(name), value }.into_boxed()
}

fn method(object: Box<AST>, name: &str, argument: Box<AST>) -> Box<AST> {
    AST::CallMethod { object, name: String::from(name), arguments: [argument].to_vec() }.into_boxed()
}

fn call(name: &str, arguments: Vec<Box<AST>>) -> Box<AST> {
    AST::CallFunction { name: String::from(name), arguments }.into_boxed()
}

fn function(name: &str, parameters: &[&str], body: Box<AST>) -> Box<AST> {
    AST::Function {
        name: String::from(name),
        parameters: parameters.iter().map(|p| String::from(*p)).collect(),
        body,
    }
    .into_boxed()
}

fn index(array: Box<AST>, i: i32) -> AST {
    AST::AccessArray { array, index: num(i) }
}

fn print(format: &str, arguments: Vec<Box<AST>>) -> Box<AST> {
    AST::Print { format: String::from(format), arguments }.into_boxed()
}

/// A runtime with one global scope, as a program starts.
fn started() -> Runtime {
    let mut program = Runtime::new();
    program.push_env();
    program
}

fn eval_value(program: &mut Runtime, ast: AST) -> Value {
    let p = program.eval(ast).unwrap();
    *program.heap.deref(p)
}

fn printed(ast: AST) -> (String, Result<(), Error>) {
    let (out, res) = interpret(ast);
    (out.into_iter().collect(), res)
}

#[test]
fn literal_interning_shares_handles() {
    let mut program = Runtime::new();
    let a = program.eval(AST::Integer(7)).unwrap();
    let b = program.eval(AST::Integer(7)).unwrap();
    assert_eq!(a, b);
    assert_eq!(*program.heap.deref(a), Value::Int(7));
    let t1 = program.eval(AST::Boolean(true)).unwrap();
    let t2 = program.eval(AST::Boolean(true)).unwrap();
    assert_eq!(t1, t2);
    let c = program.eval(AST::Integer(8)).unwrap();
    assert_ne!(a, c);

    let mut other = Runtime::new();
    let d = other.eval(AST::Integer(7)).unwrap();
    assert_eq!(*program.heap.deref(a), *other.heap.deref(d));
}

#[test]
fn shadowing_round_trip() {
    let mut program = started();
    program.eval(*decl("a", num(5))).unwrap();
    let block = AST::Block([decl("a", num(3)), set("a", num(2)), var("a")].to_vec());
    assert_eq!(eval_value(&mut program, block), Value::Int(2));
    let a = program.fetch_var(&String::from("a")).unwrap();
    assert_eq!(*program.heap.deref(a), Value::Int(5));

    program.push_env();
    program.eval(*decl("a", num(3))).unwrap();
    let outer_seen = program.eval(AST::Integer(5)).unwrap();
    program.eval(*set("a", num(2))).unwrap();
    let inner = program.fetch_var(&String::from("a")).unwrap();
    assert_eq!(*program.heap.deref(inner), Value::Int(2));
    program.pop_env();
    let a = program.fetch_var(&String::from("a")).unwrap();
    assert_eq!(a, outer_seen);
    assert_eq!(*program.heap.deref(a), Value::Int(5));
}

#[test]
fn array_write_then_read() {
    let mut program = started();
    program.eval(*decl("arr", AST::Array { size: num(5), value: num(2) }.into_boxed())).unwrap();
    for i in 0..5 {
        assert_eq!(eval_value(&mut program, index(var("arr"), i)), Value::Int(2));
    }
    let assign = AST::AssignArray { array: var("arr"), index: num(1), value: num(3) };
    assert_eq!(eval_value(&mut program, assign), Value::Unit);
    assert_eq!(eval_value(&mut program, index(var("arr"), 0)), Value::Int(2));
    assert_eq!(eval_value(&mut program, index(var("arr"), 1)), Value::Int(3));
    assert_eq!(eval_value(&mut program, index(var("arr"), 2)), Value::Int(2));
}

#[test]
fn array_initializer_runs_once_per_element() {
    let mut program = started();
    program.eval(*decl("count", num(0))).unwrap();
    let init = set("count", method(var("count"), "+", num(1)));
    program.eval(*decl("arr", AST::Array { size: num(4), value: init }.into_boxed())).unwrap();
    assert_eq!(eval_value(&mut program, *var("count")), Value::Int(4));
    assert_eq!(eval_value(&mut program, index(var("arr"), 3)), Value::Int(4));
}

#[test]
fn functions_are_visible_regardless_of_order() {
    let program = AST::Top(
        [
            decl("x", num(3)),
            call("first", [num(4)].to_vec()),
            function("first", &["y"], method(var("y"), "+", call("second", [var("x")].to_vec()))),
            function("second", &["z"], method(var("z"), "+", var("x"))),
        ]
        .to_vec(),
    );
    let mut runtime = started();
    assert_eq!(eval_value(&mut runtime, program), Value::Int(10));
}

#[test]
fn arguments_are_evaluated_in_the_callee_frame() {
    let mut program = started();
    let top = AST::Top(
        [
            function("f", &["a"], call("g", [var("a")].to_vec())),
            function("g", &["b"], var("b")),
            call("f", [num(1)].to_vec()),
        ]
        .to_vec(),
    );
    assert_eq!(program.eval(top), Err(Error::VariableMissing));
}

#[test]
fn undefined_function_is_fatal() {
    let mut program = started();
    let r = program.eval(AST::Top([call("missing", Vec::new())].to_vec()));
    assert_eq!(r, Err(Error::UndefinedFunction));
}

#[test]
fn wrong_arity_is_fatal() {
    let mut program = started();
    let top = AST::Top([function("f", &["a"], var("a")), call("f", Vec::new())].to_vec());
    assert_eq!(program.eval(top), Err(Error::WrongArity));
}

#[test]
fn repeated_parameter_is_a_redeclaration() {
    let mut program = started();
    let top = AST::Top([function("f", &["a", "a"], var("a")), call("f", [num(1), num(2)].to_vec())].to_vec());
    assert_eq!(program.eval(top), Err(Error::Redeclared));
}

#[test]
fn callee_does_not_see_caller_locals() {
    let mut program = started();
    let top = AST::Top(
        [
            function("outer", &[], AST::Block([decl("local", num(1)), call("inner", Vec::new())].to_vec()).into_boxed()),
            function("inner", &[], var("local")),
            call("outer", Vec::new()),
        ]
        .to_vec(),
    );
    assert_eq!(program.eval(top), Err(Error::VariableMissing));
}

#[test]
fn callee_does_not_see_top_level_block_locals() {
    let mut program = started();
    let top = AST::Top(
        [
            function("f", &[], var("x")),
            AST::Block([decl("x", num(1)), call("f", Vec::new())].to_vec()).into_boxed(),
        ]
        .to_vec(),
    );
    assert_eq!(program.eval(top), Err(Error::VariableMissing));
}

#[test]
fn callee_sees_globals_at_any_depth() {
    let mut program = started();
    let top = AST::Top(
        [
            decl("g", num(5)),
            function("f", &[], call("h", Vec::new())),
            function("h", &[], var("g")),
            AST::Block([call("f", Vec::new())].to_vec()).into_boxed(),
        ]
        .to_vec(),
    );
    assert_eq!(eval_value(&mut program, top), Value::Int(5));
}

#[test]
fn function_result_and_frame_restored() {
    let mut program = started();
    let top = AST::Top(
        [function("double", &["n"], method(var("n"), "*", num(2))), decl("r", call("double", [num(21)].to_vec()))]
            .to_vec(),
    );
    program.eval(top).unwrap();
    assert_eq!(eval_value(&mut program, *var("r")), Value::Int(42));
    assert_eq!(program.fetch_var(&String::from("n")), Err(Error::VariableMissing));
}

#[test]
fn declarations_only_program_is_zero() {
    let mut program = started();
    let top = AST::Top([function("f", &[], num(1))].to_vec());
    assert_eq!(eval_value(&mut program, top), Value::Int(0));
}

#[test]
fn loop_runs_while_condition_is_false() {
    let mut program = started();
    let top = AST::Top(
        [
            decl("done", boolean(false)),
            decl("count", num(0)),
            AST::Loop {
                condition: var("done"),
                body: AST::Block([set("count", method(var("count"), "+", num(1))), set("done", boolean(true))].to_vec())
                    .into_boxed(),
            }
            .into_boxed(),
            var("count"),
        ]
        .to_vec(),
    );
    assert_eq!(eval_value(&mut program, top), Value::Int(1));
}

#[test]
fn loop_with_true_condition_never_runs_body() {
    let mut program = started();
    let top = AST::Top(
        [
            decl("count", num(0)),
            AST::Loop { condition: boolean(true), body: set("count", num(9)) }.into_boxed(),
            var("count"),
        ]
        .to_vec(),
    );
    assert_eq!(eval_value(&mut program, top), Value::Int(0));
}

#[test]
fn loop_counts_until_condition_holds() {
    let mut program = started();
    let top = AST::Top(
        [
            decl("i", num(0)),
            AST::Loop {
                condition: method(var("i"), ">=", num(10)),
                body: set("i", method(var("i"), "+", num(1))),
            }
            .into_boxed(),
            var("i"),
        ]
        .to_vec(),
    );
    assert_eq!(eval_value(&mut program, top), Value::Int(10));
}

#[test]
fn loop_value_is_unit() {
    let mut program = started();
    let looped = AST::Loop { condition: boolean(true), body: num(1) };
    assert_eq!(eval_value(&mut program, looped), Value::Unit);
}

#[test]
fn truthiness_of_conditions() {
    let mut program = started();
    let pick = |c: Box<AST>| AST::Conditional { condition: c, consequent: num(1), alternative: num(2) };
    assert_eq!(eval_value(&mut program, pick(AST::Null.into_boxed())), Value::Int(2));
    assert_eq!(eval_value(&mut program, pick(num(0))), Value::Int(1));
    assert_eq!(eval_value(&mut program, pick(boolean(false))), Value::Int(2));
    let arr = AST::Array { size: num(0), value: num(0) }.into_boxed();
    assert_eq!(eval_value(&mut program, pick(arr)), Value::Int(1));
}

#[test]
fn bounds_check() {
    let mut program = started();
    program.eval(*decl("arr", AST::Array { size: num(3), value: num(1) }.into_boxed())).unwrap();
    for i in 0..3 {
        assert!(program.eval(index(var("arr"), i)).is_ok());
    }
    assert_eq!(program.eval(index(var("arr"), 3)), Err(Error::IndexOutOfBounds));
    assert_eq!(program.eval(index(var("arr"), 4)), Err(Error::IndexOutOfBounds));
    assert_eq!(program.eval(index(var("arr"), -1)), Err(Error::IndexOutOfBounds));
    let assign = AST::AssignArray { array: var("arr"), index: num(3), value: num(0) };
    assert_eq!(program.eval(assign), Err(Error::IndexOutOfBounds));
}

#[test]
fn array_errors() {
    let mut program = started();
    assert_eq!(program.eval(index(num(1), 0)), Err(Error::NotAnArray));
    program.eval(*decl("arr", AST::Array { size: num(2), value: num(1) }.into_boxed())).unwrap();
    assert_eq!(program.eval(AST::AccessArray { array: var("arr"), index: boolean(true) }), Err(Error::IndexNotInt));
    assert_eq!(
        program.eval(AST::AssignArray { array: var("arr"), index: AST::Null.into_boxed(), value: num(0) }),
        Err(Error::IndexNotInt)
    );
    assert_eq!(program.eval(AST::AssignArray { array: num(1), index: num(0), value: num(0) }), Err(Error::NotAnArray));
    assert_eq!(program.eval(AST::Array { size: boolean(true), value: num(0) }), Err(Error::SizeNotInt));
    assert_eq!(program.eval(AST::Array { size: num(-1), value: num(0) }), Err(Error::NegativeSize));
}

#[test]
fn operator_dispatch() {
    let mut program = started();
    let expr = method(method(num(4), "-", num(0)), "+", num(1));
    assert_eq!(eval_value(&mut program, *expr), Value::Int(5));
    assert_eq!(program.eval(*method(num(4), "^", num(1))), Err(Error::UnknownOperator));
    assert_eq!(eval_value(&mut program, *method(AST::Null.into_boxed(), "==", AST::Null.into_boxed())), Value::Boolean(true));
    assert_eq!(eval_value(&mut program, *method(AST::Null.into_boxed(), "+", num(3))), Value::Boolean(false));
    assert_eq!(eval_value(&mut program, *method(AST::Null.into_boxed(), "<", boolean(true))), Value::Boolean(false));
}

#[test]
fn integer_operators() {
    let mut program = started();
    let cases: [(i32, &str, i32, Value); 17] = [
        (7, "+", 5, Value::Int(12)),
        (7, "-", 10, Value::Int(-3)),
        (-6, "*", 7, Value::Int(-42)),
        (-7, "/", 2, Value::Int(-3)),
        (7, "/", -2, Value::Int(-3)),
        (-7, "%", 2, Value::Int(-1)),
        (7, "%", -2, Value::Int(1)),
        (0, "|", 5, Value::Boolean(true)),
        (0, "|", 0, Value::Boolean(false)),
        (2, "&", 0, Value::Boolean(false)),
        (2, "&", 3, Value::Boolean(true)),
        (3, "==", 3, Value::Boolean(true)),
        (3, "!=", 3, Value::Boolean(false)),
        (2, "<", 3, Value::Boolean(true)),
        (2, ">", 3, Value::Boolean(false)),
        (3, "<=", 3, Value::Boolean(true)),
        (2, ">=", 3, Value::Boolean(false)),
    ];
    for (l, op, r, expected) in cases {
        assert_eq!(eval_value(&mut program, *method(num(l), op, num(r))), expected);
    }
}

#[test]
fn arithmetic_errors() {
    let mut program = started();
    assert_eq!(program.eval(*method(num(1), "/", num(0))), Err(Error::DivisionByZero));
    assert_eq!(program.eval(*method(num(1), "%", num(0))), Err(Error::DivisionByZero));
    assert_eq!(program.eval(*method(num(i32::MAX), "+", num(1))), Err(Error::Overflow));
    assert_eq!(program.eval(*method(num(i32::MIN), "/", num(-1))), Err(Error::Overflow));
    assert_eq!(program.eval(*method(num(i32::MIN), "%", num(-1))), Err(Error::Overflow));
    assert_eq!(program.eval(*method(num(1), "+", boolean(true))), Err(Error::OperandNotInt));
    assert_eq!(program.eval(*method(boolean(true), "+", num(1))), Err(Error::InvalidReceiver));
    let two_args = AST::CallMethod { object: num(1), name: String::from("+"), arguments: [num(1), num(2)].to_vec() };
    assert_eq!(program.eval(two_args), Err(Error::WrongArity));
}

#[test]
fn environment_errors() {
    let mut fresh = Runtime::new();
    assert_eq!(fresh.eval(*decl("a", num(1))), Err(Error::NoScope));
    let mut program = started();
    program.eval(*decl("a", num(1))).unwrap();
    assert_eq!(program.eval(*decl("a", num(2))), Err(Error::Redeclared));
    assert_eq!(program.eval(*set("b", num(2))), Err(Error::VariableMissing));
    assert_eq!(program.eval(*var("b")), Err(Error::VariableMissing));
}

#[test]
fn unimplemented_and_misplaced_nodes() {
    let mut program = started();
    let object = AST::Object { extends: AST::Null.into_boxed(), members: Vec::new() };
    assert_eq!(program.eval(object), Err(Error::NotImplemented));
    let field = AST::AccessField { object: num(1), field: String::from("f") };
    assert_eq!(program.eval(field), Err(Error::NotImplemented));
    let assign = AST::AssignField { object: num(1), field: String::from("f"), value: num(2) };
    assert_eq!(program.eval(assign), Err(Error::NotImplemented));
    let nested = AST::Block([function("f", &[], num(1))].to_vec());
    assert_eq!(program.eval(nested), Err(Error::NestedFunction));
}

#[test]
fn empty_block_is_unit() {
    let mut program = started();
    assert_eq!(eval_value(&mut program, AST::Block(Vec::new())), Value::Unit);
}

#[test]
fn print_interpolates_values() {
    let top = AST::Top(
        [
            decl("arr", AST::Array { size: num(3), value: num(2) }.into_boxed()),
            print("a~b~c~\\n", [num(-12), boolean(true), AST::Null.into_boxed()].to_vec()),
            print("[~]", [var("arr")].to_vec()),
        ]
        .to_vec(),
    );
    let (out, res) = printed(top);
    assert_eq!(res, Ok(()));
    assert_eq!(out, "a-12btruecnull\n[[2, 2, 2]]");
}

#[test]
fn print_nested_arrays_and_extra_arguments() {
    let top = AST::Top(
        [
            decl("inner", AST::Array { size: num(2), value: num(0) }.into_boxed()),
            decl("outer", AST::Array { size: num(2), value: var("inner") }.into_boxed()),
            print("~", [var("outer"), num(5)].to_vec()),
            print("~", [AST::Array { size: num(0), value: num(0) }.into_boxed()].to_vec()),
            print("~", [boolean(false)].to_vec()),
            print("~", [num(i32::MIN)].to_vec()),
        ]
        .to_vec(),
    );
    let (out, res) = printed(top);
    assert_eq!(res, Ok(()));
    assert_eq!(out, "[[0, 0], [0, 0]][]false-2147483648");
}

#[test]
fn print_missing_argument_is_fatal() {
    let top = AST::Top([print("first", Vec::new()), print("~ and ~", [num(1)].to_vec())].to_vec());
    let (out, res) = printed(top);
    assert_eq!(res, Err(Error::MissingFormatArgument));
    assert_eq!(out, "first");
}

#[test]
fn print_value_is_unit() {
    let mut program = started();
    assert_eq!(eval_value(&mut program, *print("x", Vec::new())), Value::Unit);
    let out: String = program.output().iter().collect();
    assert_eq!(out, "x");
}

#[test]
fn interpret_requires_top() {
    let (out, res) = printed(AST::Integer(1));
    assert_eq!(res, Err(Error::NotTopLevel));
    assert_eq!(out, "");
}

#[test]
fn unit_handle_is_shared() {
    let mut program = Runtime::new();
    let a = program.eval(AST::Null).unwrap();
    let b = program.heap.get_unit();
    assert_eq!(a, b);
    assert_eq!(a, Pointer { index: 0 });
}

#[test]
fn endless_loop_runs_out_of_fuel() {
    let mut program = started();
    let endless = AST::Loop { condition: boolean(false), body: num(1) };
    assert_eq!(program.eval_node(&endless, 100), Err(Error::OutOfFuel));
    assert_eq!(program.eval_node(&AST::Integer(1), 0), Err(Error::OutOfFuel));
    assert_eq!(program.eval_node(&AST::Integer(1), 1), program.eval(AST::Integer(1)));
}

#[test]
fn heap_arrays_and_literals() {
    let mut heap = Heap::new();
    let unit = heap.get_unit();
    assert_eq!(*heap.deref(unit), Value::Unit);
    let three = heap.get_int(3);
    assert_eq!(heap.get_int(3), three);
    let yes = heap.get_bool(true);
    assert_eq!(heap.get_bool(true), yes);
    assert_ne!(heap.get_bool(false), yes);
    let fresh = heap.allocate(Value::Int(3));
    assert_ne!(fresh, three);
    assert_eq!(*heap.deref(fresh), Value::Int(3));
    let arr = heap.alloc_array(2, [three, yes].to_vec());
    assert_eq!(*heap.deref(arr), Value::Array { size: 2, data: 0 });
    assert_eq!(heap.access_array(0, 1), yes);
    heap.assign_array(0, 1, unit);
    assert_eq!(heap.access_array(0, 1), unit);
    assert_eq!(heap.access_array(0, 0), three);
    let second = heap.alloc_array(1, [yes].to_vec());
    assert_eq!(*heap.deref(second), Value::Array { size: 1, data: 2 });
}
