use fml_interpreter::ast::AST;
use fml_interpreter::heap::Value;
use fml_interpreter::interpreter::{interpret, Runtime};
use fml_interpreter::semantics::Error;

#[test]
fn environment() {
    let mut program = Runtime::new();

    program.push_env();
    let int_1 = program.heap.get_int(1);
    let int_2 = program.heap.get_int(2);
    let int_3 = program.heap.get_int(3);
    let int_10 = program.heap.get_int(10);
    let int_20 = program.heap.get_int(20);
    program.add_var(String::from("x"), int_1).unwrap();
    program.add_var(String::from("y"), int_2).unwrap();
    program.add_var(String::from("z"), int_3).unwrap();

    let var_x = program.fetch_var(&String::from("x")).unwrap();
    let var_y = program.fetch_var(&String::from("y")).unwrap();
    let var_z = program.fetch_var(&String::from("z")).unwrap();
    assert!(std::matches!(program.heap.deref(var_x), Value::Int(1)));
    assert!(std::matches!(program.heap.deref(var_y), Value::Int(2)));
    assert!(std::matches!(program.heap.deref(var_z), Value::Int(3)));
    assert!(std::matches!(program.fetch_var(&String::from("a")), Err(Error::VariableMissing)));

    program.push_env();
    program.add_var(String::from("x"), int_10).unwrap();
    program.add_var(String::from("y"), int_20).unwrap();

    let var_x = program.fetch_var(&String::from("x")).unwrap();
    let var_y = program.fetch_var(&String::from("y")).unwrap();
    assert!(std::matches!(program.heap.deref(var_x), Value::Int(10)));
    assert!(std::matches!(program.heap.deref(var_y), Value::Int(20)));
    assert!(std::matches!(program.heap.deref(var_z), Value::Int(3)));
    assert!(std::matches!(program.fetch_var(&String::from("a")), Err(Error::VariableMissing)));

    program.pop_env();
    let var_x = program.fetch_var(&String::from("x")).unwrap();
    let var_y = program.fetch_var(&String::from("y")).unwrap();
    let var_z = program.fetch_var(&String::from("z")).unwrap();
    assert!(std::matches!(program.heap.deref(var_x), Value::Int(1)));
    assert!(std::matches!(program.heap.deref(var_y), Value::Int(2)));
    assert!(std::matches!(program.heap.deref(var_z), Value::Int(3)));
    assert!(std::matches!(program.fetch_var(&String::from("a")), Err(Error::VariableMissing)));
}

#[test]
fn literals() {
    let mut program = Runtime::new();

    let val1 = program.eval(AST::Integer(5)).unwrap();
    let val2 = program.eval(AST::Boolean(true)).unwrap();
    let val3 = program.eval(AST::Null).unwrap();

    assert!(std::matches!(program.heap.deref(val1), Value::Int(5)));
    assert!(std::matches!(program.heap.deref(val2), Value::Boolean(true)));
    assert!(std::matches!(program.heap.deref(val3), Value::Unit));
}

#[test]
fn conditional() {
    let mut program = Runtime::new();

    let val_true = AST::Conditional {
        condition: AST::Boolean(true).into_boxed(),
        consequent: AST::Integer(1).into_boxed(),
        alternative: AST::Integer(2).into_boxed(),
    };

    let val_false = AST::Conditional {
        condition: AST::Boolean(false).into_boxed(),
        consequent: AST::Integer(1).into_boxed(),
        alternative: AST::Integer(2).into_boxed(),
    };

    let evaled_true = program.eval(val_true).unwrap();
    let evaled_false = program.eval(val_false).unwrap();

    assert!(std::matches!(program.heap.deref(evaled_true), Value::Int(1)));
    assert!(std::matches!(program.heap.deref(evaled_false), Value::Int(2)));
}

#[test]
fn compound() {
    let mut program = Runtime::new();

    let compound = AST::Block([AST::Integer(1).into_boxed(), AST::Integer(2).into_boxed()].to_vec());

    let evaled = program.eval(compound).unwrap();
    assert!(std::matches!(program.heap.deref(evaled), Value::Int(2)));
}

#[test]
fn var_assign() {
    let mut program = Runtime::new();
    program.push_env();
    let decl = AST::Variable { name: String::from("a"), value: AST::Integer(5).into_boxed() };
    program.eval(decl).unwrap();
    let a = program.fetch_var(&String::from("a")).unwrap();
    assert!(std::matches!(program.heap.deref(a), Value::Int(5)));

    let assign = AST::AssignVariable { name: String::from("a"), value: AST::Integer(10).into_boxed() };
    program.eval(assign).unwrap();

    let a = program.fetch_var(&String::from("a")).unwrap();
    assert!(std::matches!(program.heap.deref(a), Value::Int(10)));

    // The variable 'a' keeps its value after a block that shadows it.
    let block = AST::Block(
        [
            AST::Variable { name: String::from("a"), value: AST::Integer(3).into_boxed() }.into_boxed(),
            AST::AssignVariable { name: String::from("a"), value: AST::Integer(2).into_boxed() }.into_boxed(),
            AST::AccessVariable { name: String::from("a") }.into_boxed(),
        ]
        .to_vec(),
    );

    // The block returns the new value of its own variable.
    let evaled_block = program.eval(block).unwrap();
    assert!(std::matches!(program.heap.deref(evaled_block), Value::Int(2)));

    // The variable outside the scope retained its value.
    let a = program.fetch_var(&String::from("a")).unwrap();
    assert!(std::matches!(program.heap.deref(a), Value::Int(10)));

    program.pop_env();
}

#[test]
fn function_call() {
    let mut program = Runtime::new();
    program.push_env();
    let decl = AST::Top(
        [
            AST::Variable { name: String::from("x"), value: AST::Integer(3).into_boxed() }.into_boxed(),
            AST::Function {
                name: String::from("foo"),
                parameters: [String::from("y")].to_vec(),
                body: AST::AccessVariable { name: String::from("x") }.into_boxed(),
            }
            .into_boxed(),
            AST::CallFunction { name: String::from("foo"), arguments: [AST::Integer(1).into_boxed()].to_vec() }
                .into_boxed(),
        ]
        .to_vec(),
    );
    program.eval(decl).unwrap();
}

#[test]
fn arrays() {
    let decl = AST::Top(
        [
            AST::Variable {
                name: String::from("arr"),
                value: AST::Array { size: AST::Integer(5).into_boxed(), value: AST::Integer(2).into_boxed() }
                    .into_boxed(),
            }
            .into_boxed(),
            AST::AssignArray {
                array: AST::AccessVariable { name: String::from("arr") }.into_boxed(),
                index: AST::Integer(1).into_boxed(),
                value: AST::Integer(3).into_boxed(),
            }
            .into_boxed(),
        ]
        .to_vec(),
    );
    let mut program = Runtime::new();
    program.push_env();
    program.eval(decl).unwrap();
    let res0 = program
        .eval(AST::AccessArray {
            array: AST::AccessVariable { name: String::from("arr") }.into_boxed(),
            index: AST::Integer(0).into_boxed(),
        })
        .unwrap();
    let res1 = program
        .eval(AST::AccessArray {
            array: AST::AccessVariable { name: String::from("arr") }.into_boxed(),
            index: AST::Integer(1).into_boxed(),
        })
        .unwrap();
    let res2 = program
        .eval(AST::AccessArray {
            array: AST::AccessVariable { name: String::from("arr") }.into_boxed(),
            index: AST::Integer(2).into_boxed(),
        })
        .unwrap();

    assert!(std::matches!(program.heap.deref(res0), Value::Int(2)));
    assert!(std::matches!(program.heap.deref(res1), Value::Int(3)));
    assert!(std::matches!(program.heap.deref(res2), Value::Int(2)));
}

#[test]
fn list_comprehension() {
    let decl = AST::Top(
        [
            AST::Variable { name: String::from("i"), value: AST::Integer(0).into_boxed() }.into_boxed(),
            AST::Variable {
                name: String::from("n"),
                value: AST::CallMethod {
                    object: AST::CallMethod {
                        object: AST::Integer(4).into_boxed(),
                        name: String::from("-"),
                        arguments: [AST::Integer(0).into_boxed()].to_vec(),
                    }
                    .into_boxed(),
                    name: String::from("+"),
                    arguments: [AST::Integer(1).into_boxed()].to_vec(),
                }
                .into_boxed(),
            }
            .into_boxed(),
            AST::Variable {
                name: String::from("arr"),
                value: AST::Array {
                    size: AST::AccessVariable { name: String::from("n") }.into_boxed(),
                    value: AST::Block(
                        [
                            AST::Variable {
                                name: String::from("e"),
                                value: AST::CallMethod {
                                    object: AST::AccessVariable { name: String::from("i") }.into_boxed(),
                                    name: String::from("+"),
                                    arguments: [AST::Integer(0).into_boxed()].to_vec(),
                                }
                                .into_boxed(),
                            }
                            .into_boxed(),
                            AST::AssignVariable {
                                name: String::from("i"),
                                value: AST::CallMethod {
                                    object: AST::AccessVariable { name: String::from("i") }.into_boxed(),
                                    name: String::from("+"),
                                    arguments: [AST::Integer(1).into_boxed()].to_vec(),
                                }
                                .into_boxed(),
                            }
                            .into_boxed(),
                            AST::AccessVariable { name: String::from("e") }.into_boxed(),
                        ]
                        .to_vec(),
                    )
                    .into_boxed(),
                }
                .into_boxed(),
            }
            .into_boxed(),
        ]
        .to_vec(),
    );
    let mut program = Runtime::new();
    program.push_env();
    program.eval(decl).unwrap();
    let access0 = AST::AccessArray {
        array: AST::AccessVariable { name: String::from("arr") }.into_boxed(),
        index: AST::Integer(0).into_boxed(),
    };
    let access0_ptr = program.eval(access0).unwrap();
    let access1 = AST::AccessArray {
        array: AST::AccessVariable { name: String::from("arr") }.into_boxed(),
        index: AST::Integer(1).into_boxed(),
    };
    let access1_ptr = program.eval(access1).unwrap();
    assert!(std::matches!(program.heap.deref(access0_ptr), Value::Int(0)));
    assert!(std::matches!(program.heap.deref(access1_ptr), Value::Int(1)));
}
