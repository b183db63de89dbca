use fml_interpreter::ast::AST;
use fml_interpreter::direct::{interpret, Program, Value};
use fml_interpreter::semantics::Error;

fn lit(n: i32) -> Box<AST> {
    AST::Integer(n).into_boxed()
}

fn declare(name: &str, value: Box<AST>) -> AST {
    AST::Variable { name: String::from(name), value }
}

fn assign(name: &str, value: Box<AST>) -> AST {
    AST::AssignVariable { name: String::from(name), value }
}

fn printed(ast: AST) -> (String, Result<(), Error>) {
    let (out, res) = interpret(ast);
    (out.into_iter().collect(), res)
}

#[test]
fn direct_literals() {
    let mut program = Program::new();
    assert_eq!(program.eval(AST::Integer(5)), Ok(Value::Int(5)));
    assert_eq!(program.eval(AST::Boolean(false)), Ok(Value::Boolean(false)));
    assert_eq!(program.eval(AST::Null), Ok(Value::Unit));
}

#[test]
fn direct_declaration_needs_an_environment() {
    let mut program = Program::new();
    assert_eq!(program.eval(declare("x", lit(1))), Err(Error::NoScope));
    assert_eq!(printed(declare("x", lit(1))), (String::new(), Err(Error::NoScope)));
}

#[test]
fn direct_declare_and_assign() {
    let mut program = Program::new();
    program.push_env();
    assert_eq!(program.eval(declare("a", lit(1))), Ok(Value::Int(1)));
    assert_eq!(program.eval(assign("a", lit(2))), Ok(Value::Int(2)));
    assert_eq!(program.fetch_var(&String::from("a")), Some(Value::Int(2)));
    assert_eq!(program.eval(declare("a", lit(3))), Err(Error::Redeclared));
    assert_eq!(program.eval(assign("b", lit(3))), Err(Error::VariableMissing));
    assert_eq!(program.fetch_var(&String::from("b")), None);
}

#[test]
fn direct_inner_environment_shadows() {
    let mut program = Program::new();
    program.push_env();
    program.eval(declare("a", lit(1))).unwrap();
    program.push_env();
    program.eval(declare("a", lit(2))).unwrap();
    assert_eq!(program.fetch_var(&String::from("a")), Some(Value::Int(2)));
    program.pop_env();
    assert_eq!(program.fetch_var(&String::from("a")), Some(Value::Int(1)));
}

#[test]
fn direct_block_opens_one_environment() {
    let mut program = Program::new();
    program.push_env();
    program.eval(declare("outer", lit(0))).unwrap();
    let block = AST::Block([declare("a", lit(1)).into_boxed(), assign("a", lit(2)).into_boxed()].to_vec());
    assert_eq!(program.eval(block), Ok(Value::Int(2)));
    assert_eq!(program.fetch_var(&String::from("a")), None);
    assert_eq!(program.fetch_var(&String::from("outer")), Some(Value::Int(0)));
    let twice = AST::Block([declare("b", lit(1)).into_boxed(), declare("b", lit(2)).into_boxed()].to_vec());
    assert_eq!(program.eval(twice), Err(Error::Redeclared));
}

#[test]
fn direct_empty_block_keeps_outer_environment() {
    let mut program = Program::new();
    program.push_env();
    program.eval(declare("a", lit(1))).unwrap();
    assert_eq!(program.eval(AST::Block(Vec::new())), Ok(Value::Unit));
    assert_eq!(program.fetch_var(&String::from("a")), Some(Value::Int(1)));
}

#[test]
fn direct_conditional_uses_truthiness() {
    let mut program = Program::new();
    let pick = |c: Box<AST>| AST::Conditional { condition: c, consequent: lit(1), alternative: lit(2) };
    assert_eq!(program.eval(pick(AST::Boolean(true).into_boxed())), Ok(Value::Int(1)));
    assert_eq!(program.eval(pick(AST::Boolean(false).into_boxed())), Ok(Value::Int(2)));
    assert_eq!(program.eval(pick(lit(0))), Ok(Value::Int(1)));
    assert_eq!(program.eval(pick(AST::Null.into_boxed())), Ok(Value::Int(2)));
}

#[test]
fn direct_loop_stops_when_condition_is_true() {
    let mut program = Program::new();
    program.push_env();
    let looped = AST::Loop { condition: AST::Boolean(true).into_boxed(), body: declare("x", AST::Null.into_boxed()).into_boxed() };
    assert_eq!(program.eval(looped), Ok(Value::Unit));
    assert_eq!(program.fetch_var(&String::from("x")), None);
    let truthy = AST::Loop { condition: lit(7), body: lit(1) };
    assert_eq!(program.eval(truthy), Ok(Value::Unit));
    let unit = AST::Loop { condition: AST::Null.into_boxed(), body: lit(1) };
    assert_eq!(program.eval_node(&unit, 40), Err(Error::OutOfFuel));
}

#[test]
fn direct_print() {
    let print = AST::Print {
        format: String::from("a~b~c~\\n"),
        arguments: [lit(-3), AST::Boolean(true).into_boxed(), AST::Null.into_boxed()].to_vec(),
    };
    assert_eq!(printed(print), (String::from("a-3btruecnull\n"), Ok(())));
}

#[test]
fn direct_print_missing_argument() {
    let print = AST::Print { format: String::from("x~"), arguments: Vec::new() };
    assert_eq!(printed(print), (String::new(), Err(Error::MissingFormatArgument)));
}

#[test]
fn direct_unimplemented_nodes() {
    let mut program = Program::new();
    assert_eq!(program.eval(AST::AccessVariable { name: String::from("a") }), Err(Error::NotImplemented));
    assert_eq!(program.eval(AST::Array { size: lit(1), value: lit(1) }), Err(Error::NotImplemented));
    assert_eq!(program.eval(AST::Top(Vec::new())), Err(Error::NotImplemented));
}

#[test]
fn direct_endless_loop_runs_out_of_fuel() {
    let mut program = Program::new();
    let endless = AST::Loop { condition: AST::Boolean(false).into_boxed(), body: lit(1) };
    assert_eq!(program.eval_node(&endless, 50), Err(Error::OutOfFuel));
}
