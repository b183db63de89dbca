//! The program tree, and its mathematical view.
use vstd::prelude::*;

verus! {

/// A node of the program tree handed to the evaluator.
#[derive(PartialEq, Debug)]
pub enum AST {
    Integer(i32),
    Boolean(bool),
    Null,
    Variable { name: String, value: Box<AST> },
    Array { size: Box<AST>, value: Box<AST> },
    Object { extends: Box<AST>, members: Vec<Box<AST>> },
    AccessVariable { name: String },
    AccessField { object: Box<AST>, field: String },
    AccessArray { array: Box<AST>, index: Box<AST> },
    AssignVariable { name: String, value: Box<AST> },
    AssignField { object: Box<AST>, field: String, value: Box<AST> },
    AssignArray { array: Box<AST>, index: Box<AST>, value: Box<AST> },
    Function { name: String, parameters: Vec<String>, body: Box<AST> },
    CallFunction { name: String, arguments: Vec<Box<AST>> },
    CallMethod { object: Box<AST>, name: String, arguments: Vec<Box<AST>> },
    Top(Vec<Box<AST>>),
    Block(Vec<Box<AST>>),
    Loop { condition: Box<AST>, body: Box<AST> },
    Conditional { condition: Box<AST>, consequent: Box<AST>, alternative: Box<AST> },
    Print { format: String, arguments: Vec<Box<AST>> },
}

/// The view of an `AST`: the same tree, with names as character sequences
/// and child lists as sequences.
pub ghost enum Node {
    Integer(i32),
    Boolean(bool),
    Null,
    Variable { name: Seq<char>, value: Box<Node> },
    Array { size: Box<Node>, value: Box<Node> },
    Object { extends: Box<Node>, members: Seq<Node> },
    AccessVariable { name: Seq<char> },
    AccessField { object: Box<Node>, field: Seq<char> },
    AccessArray { array: Box<Node>, index: Box<Node> },
    AssignVariable { name: Seq<char>, value: Box<Node> },
    AssignField { object: Box<Node>, field: Seq<char>, value: Box<Node> },
    AssignArray { array: Box<Node>, index: Box<Node>, value: Box<Node> },
    Function { name: Seq<char>, parameters: Seq<Seq<char>>, body: Box<Node> },
    CallFunction { name: Seq<char>, arguments: Seq<Node> },
    CallMethod { object: Box<Node>, name: Seq<char>, arguments: Seq<Node> },
    Top(Seq<Node>),
    Block(Seq<Node>),
    Loop { condition: Box<Node>, body: Box<Node> },
    Conditional { condition: Box<Node>, consequent: Box<Node>, alternative: Box<Node> },
    Print { format: Seq<char>, arguments: Seq<Node> },
}

pub open spec fn names_of(s: Seq<String>) -> Seq<Seq<char>> {
    s.map_values(|x: String| x@)
}

pub open spec fn nodes_of(s: Seq<Box<AST>>) -> Seq<Node>
    decreases s,
{
    if s.len() == 0 {
        Seq::empty()
    } else {
        nodes_of(s.drop_last()).push(node_of(&*s.last()))
    }
}

pub open spec fn node_of(a: &AST) -> Node
    decreases a,
{
    match a {
        AST::Integer(n) => Node::Integer(*n),
        AST::Boolean(b) => Node::Boolean(*b),
        AST::Null => Node::Null,
        AST::Variable { name, value } => Node::Variable { name: name@, value: Box::new(node_of(value)) },
        AST::Array { size, value } => Node::Array {
            size: Box::new(node_of(size)),
            value: Box::new(node_of(value)),
        },
        AST::Object { extends, members } => Node::Object {
            extends: Box::new(node_of(extends)),
            members: nodes_of(members@),
        },
        AST::AccessVariable { name } => Node::AccessVariable { name: name@ },
        AST::AccessField { object, field } => Node::AccessField {
            object: Box::new(node_of(object)),
            field: field@,
        },
        AST::AccessArray { array, index } => Node::AccessArray {
            array: Box::new(node_of(array)),
            index: Box::new(node_of(index)),
        },
        AST::AssignVariable { name, value } => Node::AssignVariable {
            name: name@,
            value: Box::new(node_of(value)),
        },
        AST::AssignField { object, field, value } => Node::AssignField {
            object: Box::new(node_of(object)),
            field: field@,
            value: Box::new(node_of(value)),
        },
        AST::AssignArray { array, index, value } => Node::AssignArray {
            array: Box::new(node_of(array)),
            index: Box::new(node_of(index)),
            value: Box::new(node_of(value)),
        },
        AST::Function { name, parameters, body } => Node::Function {
            name: name@,
            parameters: names_of(parameters@),
            body: Box::new(node_of(body)),
        },
        AST::CallFunction { name, arguments } => Node::CallFunction {
            name: name@,
            arguments: nodes_of(arguments@),
        },
        AST::CallMethod { object, name, arguments } => Node::CallMethod {
            object: Box::new(node_of(object)),
            name: name@,
            arguments: nodes_of(arguments@),
        },
        AST::Top(exprs) => Node::Top(nodes_of(exprs@)),
        AST::Block(exprs) => Node::Block(nodes_of(exprs@)),
        AST::Loop { condition, body } => Node::Loop {
            condition: Box::new(node_of(condition)),
            body: Box::new(node_of(body)),
        },
        AST::Conditional { condition, consequent, alternative } => Node::Conditional {
            condition: Box::new(node_of(condition)),
            consequent: Box::new(node_of(consequent)),
            alternative: Box::new(node_of(alternative)),
        },
        AST::Print { format, arguments } => Node::Print {
            format: format@,
            arguments: nodes_of(arguments@),
        },
    }
}

/// The view of a boxed child.
pub open spec fn node_of_box(b: Box<AST>) -> Node {
    node_of(&*b)
}

impl View for AST {
    type V = Node;

    open spec fn view(&self) -> Node {
        node_of(self)
    }
}

pub proof fn lemma_nodes_of(s: Seq<Box<AST>>)
    ensures
        nodes_of(s).len() == s.len(),
        forall|i: int| 0 <= i < s.len() ==> #[trigger] nodes_of(s)[i] == node_of(&*s[i]),
    decreases s.len(),
{
    if s.len() > 0 {
        lemma_nodes_of(s.drop_last());
        assert forall|i: int| 0 <= i < s.len() implies #[trigger] nodes_of(s)[i] == node_of(&*s[i]) by {
            if i < s.len() - 1 {
                assert(s.drop_last()[i] == s[i]);
            }
        }
    }
}

impl AST {
    /// Moves the node into a box.
    pub fn into_boxed(self) -> (r: Box<AST>)
        ensures
            *r == self,
    {
        Box::new(self)
    }
}

pub(crate) fn copy_names(v: &Vec<String>) -> (r: Vec<String>)
    ensures
        names_of(r@) == names_of(v@),
{
    let mut r: Vec<String> = Vec::new();
    let mut i: usize = 0;
    while i < v.len()
        invariant
            i <= v@.len(),
            r@.len() == i,
            forall|j: int| 0 <= j < i ==> #[trigger] r@[j]@ == v@[j]@,
        decreases v@.len() - i,
    {
        r.push(v[i].clone());
        i = i + 1;
    }
    proof {
        assert(names_of(r@) =~= names_of(v@));
    }
    r
}

fn copy_list(v: &Vec<Box<AST>>) -> (r: Vec<Box<AST>>)
    ensures
        nodes_of(r@) == nodes_of(v@),
    decreases v, 0nat,
{
    let mut r: Vec<Box<AST>> = Vec::new();
    let mut i: usize = 0;
    while i < v.len()
        invariant
            i <= v@.len(),
            nodes_of(r@) == nodes_of(v@.subrange(0, i as int)),
        decreases v@.len() - i,
    {
        proof {
            assert(decreases_to!(v => v@));
            assert(decreases_to!(v@ => v@[i as int]));
        }
        let ghost r0 = r@;
        let c = copy_ast(&v[i]);
        r.push(Box::new(c));
        proof {
            let s = v@.subrange(0, i + 1);
            assert(s.drop_last() =~= v@.subrange(0, i as int));
            assert(r@.drop_last() =~= r0);
        }
        i = i + 1;
    }
    proof {
        assert(v@.subrange(0, i as int) =~= v@);
    }
    r
}

/// A copy of the tree with the same view.
pub fn copy_ast(a: &AST) -> (r: AST)
    ensures
        r@ == a@,
    decreases a, 1nat,
{
    match a {
        AST::Integer(n) => AST::Integer(*n),
        AST::Boolean(b) => AST::Boolean(*b),
        AST::Null => AST::Null,
        AST::Variable { name, value } => AST::Variable {
            name: name.clone(),
            value: Box::new(copy_ast(value)),
        },
        AST::Array { size, value } => AST::Array {
            size: Box::new(copy_ast(size)),
            value: Box::new(copy_ast(value)),
        },
        AST::Object { extends, members } => AST::Object {
            extends: Box::new(copy_ast(extends)),
            members: copy_list(members),
        },
        AST::AccessVariable { name } => AST::AccessVariable { name: name.clone() },
        AST::AccessField { object, field } => AST::AccessField {
            object: Box::new(copy_ast(object)),
            field: field.clone(),
        },
        AST::AccessArray { array, index } => AST::AccessArray {
            array: Box::new(copy_ast(array)),
            index: Box::new(copy_ast(index)),
        },
        AST::AssignVariable { name, value } => AST::AssignVariable {
            name: name.clone(),
            value: Box::new(copy_ast(value)),
        },
        AST::AssignField { object, field, value } => AST::AssignField {
            object: Box::new(copy_ast(object)),
            field: field.clone(),
            value: Box::new(copy_ast(value)),
        },
        AST::AssignArray { array, index, value } => AST::AssignArray {
            array: Box::new(copy_ast(array)),
            index: Box::new(copy_ast(index)),
            value: Box::new(copy_ast(value)),
        },
        AST::Function { name, parameters, body } => AST::Function {
            name: name.clone(),
            parameters: copy_names(parameters),
            body: Box::new(copy_ast(body)),
        },
        AST::CallFunction { name, arguments } => AST::CallFunction {
            name: name.clone(),
            arguments: copy_list(arguments),
        },
        AST::CallMethod { object, name, arguments } => AST::CallMethod {
            object: Box::new(copy_ast(object)),
            name: name.clone(),
            arguments: copy_list(arguments),
        },
        AST::Top(exprs) => AST::Top(copy_list(exprs)),
        AST::Block(exprs) => AST::Block(copy_list(exprs)),
        AST::Loop { condition, body } => AST::Loop {
            condition: Box::new(copy_ast(condition)),
            body: Box::new(copy_ast(body)),
        },
        AST::Conditional { condition, consequent, alternative } => AST::Conditional {
            condition: Box::new(copy_ast(condition)),
            consequent: Box::new(copy_ast(consequent)),
            alternative: Box::new(copy_ast(alternative)),
        },
        AST::Print { format, arguments } => AST::Print {
            format: format.clone(),
            arguments: copy_list(arguments),
        },
    }
}

impl Clone for AST {
    /// A deep copy, with the same view.
    fn clone(&self) -> (r: AST)
        ensures
            r@ == self@,
    {
        copy_ast(self)
    }
}

} // verus!
