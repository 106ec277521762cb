//! The syntax tree.

use crate::text::{decimal, display_int, join};
use vstd::prelude::*;

verus! {

broadcast use vstd::std_specs::vec::group_vec_axioms;

/// The name of a type, as a declaration or a conversion writes it.
#[derive(Debug, Clone, Copy, PartialEq, Eq, Structural)]
pub enum Type {
    Int,
    Float,
    Bool,
    String,
    Array,
    Void,
}

/// A parameter of a function: its name and the type written after it, if any.
#[derive(Debug, PartialEq)]
pub struct Param {
    pub name: String,
    pub param_type: Option<Type>,
}

/// A parameter as contracts see it.
pub ghost struct ParamView {
    pub name: Seq<char>,
    pub param_type: Option<Type>,
}

impl View for Param {
    type V = ParamView;

    open spec fn view(&self) -> ParamView {
        ParamView { name: self.name@, param_type: self.param_type }
    }
}

impl Clone for Param {
    fn clone(&self) -> (r: Self)
        ensures
            r@ == self@,
    {
        Param { name: self.name.clone(), param_type: self.param_type }
    }
}

/// A list of parameters as contracts see it.
pub open spec fn params_view(v: Seq<Param>) -> Seq<ParamView> {
    v.map_values(|p: Param| p@)
}

/// A node of the syntax tree.
#[derive(Debug, PartialEq)]
#[allow(inconsistent_fields)]
pub enum AstNode {
    /// An integer literal.
    Number(i64),
    /// A literal with a fraction, as its digits were written.
    Float(String),
    /// A string literal, without its quotes.
    String(String),
    /// A regex literal, without its delimiters.
    Regex(String),
    Boolean(bool),
    Array(Vec<AstNode>),
    Void,
    Index { array: Box<AstNode>, index: Box<AstNode> },
    MethodCall { object: Box<AstNode>, method: String, args: Vec<AstNode> },
    Identifier(String),
    If { condition: Box<AstNode>, body: Vec<AstNode>, else_body: Option<Vec<AstNode>> },
    Print { left: Box<AstNode> },
    Let { name: String, is_const: bool, var_type: Option<Type>, var_value: Box<AstNode> },
    Import { path: String },
    Input { placeholder: String },
    Random { left: Box<AstNode>, right: Box<AstNode> },
    Delete(Box<AstNode>),
    BinaryOp { op: String, left: Box<AstNode>, right: Box<AstNode> },
    /// A postfix `++` or `--`.
    UnaryOpTT { op: String, var: Box<AstNode> },
    Assign { left: Box<AstNode>, right: Box<AstNode> },
    While { condition: Box<AstNode>, body: Vec<AstNode> },
    For { init: Box<AstNode>, condition: Box<AstNode>, increment: Box<AstNode>, body: Vec<AstNode> },
    ForIn { var: String, iterable: Box<AstNode>, body: Vec<AstNode> },
    Return(Box<AstNode>),
    Function { name: String, params: Vec<Param>, body: Vec<AstNode> },
    FunctionCall { name: String, args: Vec<AstNode> },
    ToType { types: Type, expr: Box<AstNode> },
    Sleep { expr: Box<AstNode> },
    TypeFunc { expr: Box<AstNode> },
    CompileAll { expr: Box<AstNode>, regex: Box<AstNode> },
    Compile { expr: Box<AstNode>, regex: Box<AstNode> },
}

/// A node of the syntax tree as contracts see it.
#[allow(inconsistent_fields)]
pub ghost enum Ast {
    Number(i64),
    Float(Seq<char>),
    String(Seq<char>),
    Regex(Seq<char>),
    Boolean(bool),
    Array(Seq<Ast>),
    Void,
    Index { array: Box<Ast>, index: Box<Ast> },
    MethodCall { object: Box<Ast>, method: Seq<char>, args: Seq<Ast> },
    Identifier(Seq<char>),
    If { condition: Box<Ast>, body: Seq<Ast>, else_body: Option<Seq<Ast>> },
    Print { left: Box<Ast> },
    Let { name: Seq<char>, is_const: bool, var_type: Option<Type>, var_value: Box<Ast> },
    Import { path: Seq<char> },
    Input { placeholder: Seq<char> },
    Random { left: Box<Ast>, right: Box<Ast> },
    Delete(Box<Ast>),
    BinaryOp { op: Seq<char>, left: Box<Ast>, right: Box<Ast> },
    UnaryOpTT { op: Seq<char>, var: Box<Ast> },
    Assign { left: Box<Ast>, right: Box<Ast> },
    While { condition: Box<Ast>, body: Seq<Ast> },
    For { init: Box<Ast>, condition: Box<Ast>, increment: Box<Ast>, body: Seq<Ast> },
    ForIn { var: Seq<char>, iterable: Box<Ast>, body: Seq<Ast> },
    Return(Box<Ast>),
    Function { name: Seq<char>, params: Seq<ParamView>, body: Seq<Ast> },
    FunctionCall { name: Seq<char>, args: Seq<Ast> },
    ToType { types: Type, expr: Box<Ast> },
    Sleep { expr: Box<Ast> },
    TypeFunc { expr: Box<Ast> },
    CompileAll { expr: Box<Ast>, regex: Box<Ast> },
    Compile { expr: Box<Ast>, regex: Box<Ast> },
}

/// A node as contracts see it.
pub open spec fn ast_view(n: AstNode) -> Ast
    decreases n,
{
    match n {
        AstNode::Number(x0) => Ast::Number(x0),
        AstNode::Float(x0) => Ast::Float(x0@),
        AstNode::String(x0) => Ast::String(x0@),
        AstNode::Regex(x0) => Ast::Regex(x0@),
        AstNode::Boolean(x0) => Ast::Boolean(x0),
        AstNode::Array(x0) => Ast::Array(nodes_view(x0@)),
        AstNode::Void => Ast::Void,
        AstNode::Index { array, index } => Ast::Index {
            array: Box::new(ast_view(*array)),
            index: Box::new(ast_view(*index)),
        },
        AstNode::MethodCall { object, method, args } => Ast::MethodCall {
            object: Box::new(ast_view(*object)),
            method: method@,
            args: nodes_view(args@),
        },
        AstNode::Identifier(x0) => Ast::Identifier(x0@),
        AstNode::If { condition, body, else_body } => Ast::If {
            condition: Box::new(ast_view(*condition)),
            body: nodes_view(body@),
            else_body: opt_nodes_view(else_body),
        },
        AstNode::Print { left } => Ast::Print {
            left: Box::new(ast_view(*left)),
        },
        AstNode::Let { name, is_const, var_type, var_value } => Ast::Let {
            name: name@,
            is_const: is_const,
            var_type: var_type,
            var_value: Box::new(ast_view(*var_value)),
        },
        AstNode::Import { path } => Ast::Import {
            path: path@,
        },
        AstNode::Input { placeholder } => Ast::Input {
            placeholder: placeholder@,
        },
        AstNode::Random { left, right } => Ast::Random {
            left: Box::new(ast_view(*left)),
            right: Box::new(ast_view(*right)),
        },
        AstNode::Delete(x0) => Ast::Delete(Box::new(ast_view(*x0))),
        AstNode::BinaryOp { op, left, right } => Ast::BinaryOp {
            op: op@,
            left: Box::new(ast_view(*left)),
            right: Box::new(ast_view(*right)),
        },
        AstNode::UnaryOpTT { op, var } => Ast::UnaryOpTT {
            op: op@,
            var: Box::new(ast_view(*var)),
        },
        AstNode::Assign { left, right } => Ast::Assign {
            left: Box::new(ast_view(*left)),
            right: Box::new(ast_view(*right)),
        },
        AstNode::While { condition, body } => Ast::While {
            condition: Box::new(ast_view(*condition)),
            body: nodes_view(body@),
        },
        AstNode::For { init, condition, increment, body } => Ast::For {
            init: Box::new(ast_view(*init)),
            condition: Box::new(ast_view(*condition)),
            increment: Box::new(ast_view(*increment)),
            body: nodes_view(body@),
        },
        AstNode::ForIn { var, iterable, body } => Ast::ForIn {
            var: var@,
            iterable: Box::new(ast_view(*iterable)),
            body: nodes_view(body@),
        },
        AstNode::Return(x0) => Ast::Return(Box::new(ast_view(*x0))),
        AstNode::Function { name, params, body } => Ast::Function {
            name: name@,
            params: params_view(params@),
            body: nodes_view(body@),
        },
        AstNode::FunctionCall { name, args } => Ast::FunctionCall {
            name: name@,
            args: nodes_view(args@),
        },
        AstNode::ToType { types, expr } => Ast::ToType {
            types: types,
            expr: Box::new(ast_view(*expr)),
        },
        AstNode::Sleep { expr } => Ast::Sleep {
            expr: Box::new(ast_view(*expr)),
        },
        AstNode::TypeFunc { expr } => Ast::TypeFunc {
            expr: Box::new(ast_view(*expr)),
        },
        AstNode::CompileAll { expr, regex } => Ast::CompileAll {
            expr: Box::new(ast_view(*expr)),
            regex: Box::new(ast_view(*regex)),
        },
        AstNode::Compile { expr, regex } => Ast::Compile {
            expr: Box::new(ast_view(*expr)),
            regex: Box::new(ast_view(*regex)),
        },
    }
}

impl View for AstNode {
    type V = Ast;

    open spec fn view(&self) -> Ast {
        ast_view(*self)
    }
}

/// A copy of a node.
pub fn clone_node(n: &AstNode) -> (r: AstNode)
    ensures
        r@ == n@,
    decreases n,
{
    match n {
        AstNode::Number(x0) => AstNode::Number(*x0),
        AstNode::Float(x0) => AstNode::Float(x0.clone()),
        AstNode::String(x0) => AstNode::String(x0.clone()),
        AstNode::Regex(x0) => AstNode::Regex(x0.clone()),
        AstNode::Boolean(x0) => AstNode::Boolean(*x0),
        AstNode::Array(x0) => AstNode::Array(clone_nodes(x0)),
        AstNode::Void => AstNode::Void,
        AstNode::Index { array, index } => AstNode::Index {
            array: Box::new(clone_node(array)),
            index: Box::new(clone_node(index)),
        },
        AstNode::MethodCall { object, method, args } => AstNode::MethodCall {
            object: Box::new(clone_node(object)),
            method: method.clone(),
            args: clone_nodes(args),
        },
        AstNode::Identifier(x0) => AstNode::Identifier(x0.clone()),
        AstNode::If { condition, body, else_body } => AstNode::If {
            condition: Box::new(clone_node(condition)),
            body: clone_nodes(body),
            else_body: clone_opt_nodes(else_body),
        },
        AstNode::Print { left } => AstNode::Print {
            left: Box::new(clone_node(left)),
        },
        AstNode::Let { name, is_const, var_type, var_value } => AstNode::Let {
            name: name.clone(),
            is_const: *is_const,
            var_type: *var_type,
            var_value: Box::new(clone_node(var_value)),
        },
        AstNode::Import { path } => AstNode::Import {
            path: path.clone(),
        },
        AstNode::Input { placeholder } => AstNode::Input {
            placeholder: placeholder.clone(),
        },
        AstNode::Random { left, right } => AstNode::Random {
            left: Box::new(clone_node(left)),
            right: Box::new(clone_node(right)),
        },
        AstNode::Delete(x0) => AstNode::Delete(Box::new(clone_node(x0))),
        AstNode::BinaryOp { op, left, right } => AstNode::BinaryOp {
            op: op.clone(),
            left: Box::new(clone_node(left)),
            right: Box::new(clone_node(right)),
        },
        AstNode::UnaryOpTT { op, var } => AstNode::UnaryOpTT {
            op: op.clone(),
            var: Box::new(clone_node(var)),
        },
        AstNode::Assign { left, right } => AstNode::Assign {
            left: Box::new(clone_node(left)),
            right: Box::new(clone_node(right)),
        },
        AstNode::While { condition, body } => AstNode::While {
            condition: Box::new(clone_node(condition)),
            body: clone_nodes(body),
        },
        AstNode::For { init, condition, increment, body } => AstNode::For {
            init: Box::new(clone_node(init)),
            condition: Box::new(clone_node(condition)),
            increment: Box::new(clone_node(increment)),
            body: clone_nodes(body),
        },
        AstNode::ForIn { var, iterable, body } => AstNode::ForIn {
            var: var.clone(),
            iterable: Box::new(clone_node(iterable)),
            body: clone_nodes(body),
        },
        AstNode::Return(x0) => AstNode::Return(Box::new(clone_node(x0))),
        AstNode::Function { name, params, body } => AstNode::Function {
            name: name.clone(),
            params: clone_params(params),
            body: clone_nodes(body),
        },
        AstNode::FunctionCall { name, args } => AstNode::FunctionCall {
            name: name.clone(),
            args: clone_nodes(args),
        },
        AstNode::ToType { types, expr } => AstNode::ToType {
            types: *types,
            expr: Box::new(clone_node(expr)),
        },
        AstNode::Sleep { expr } => AstNode::Sleep {
            expr: Box::new(clone_node(expr)),
        },
        AstNode::TypeFunc { expr } => AstNode::TypeFunc {
            expr: Box::new(clone_node(expr)),
        },
        AstNode::CompileAll { expr, regex } => AstNode::CompileAll {
            expr: Box::new(clone_node(expr)),
            regex: Box::new(clone_node(regex)),
        },
        AstNode::Compile { expr, regex } => AstNode::Compile {
            expr: Box::new(clone_node(expr)),
            regex: Box::new(clone_node(regex)),
        },
    }
}


/// A list of nodes as contracts see it.
pub open spec fn nodes_view(v: Seq<AstNode>) -> Seq<Ast>
    decreases v,
{
    Seq::new(
        v.len(),
        |i: int|
            if 0 <= i < v.len() {
                ast_view(v[i])
            } else {
                Ast::Void
            },
    )
}

/// An optional list of nodes as contracts see it.
pub open spec fn opt_nodes_view(v: Option<Vec<AstNode>>) -> Option<Seq<Ast>>
    decreases v,
{
    match v {
        Some(nodes) => Some(nodes_view(nodes@)),
        None => None,
    }
}

/// A copy of a list of nodes.
pub fn clone_nodes(v: &Vec<AstNode>) -> (r: Vec<AstNode>)
    ensures
        nodes_view(r@) == nodes_view(v@),
    decreases v,
{
    let mut out: Vec<AstNode> = Vec::new();
    let mut i: usize = 0;
    while i < v.len()
        invariant
            i <= v.len(),
            out.len() == i,
            forall|k: int| 0 <= k < i ==> out[k]@ == v[k]@,
        decreases v.len() - i,
    {
        out.push(clone_node(&v[i]));
        i += 1;
    }
    assert(nodes_view(out@) =~= nodes_view(v@));
    out
}

/// A copy of an optional list of nodes.
pub fn clone_opt_nodes(v: &Option<Vec<AstNode>>) -> (r: Option<Vec<AstNode>>)
    ensures
        opt_nodes_view(r) == opt_nodes_view(*v),
    decreases v,
{
    match v {
        Some(nodes) => Some(clone_nodes(nodes)),
        None => None,
    }
}

/// A copy of a list of parameters.
pub fn clone_params(v: &Vec<Param>) -> (r: Vec<Param>)
    ensures
        params_view(r@) == params_view(v@),
{
    let mut out: Vec<Param> = Vec::new();
    let mut i: usize = 0;
    while i < v.len()
        invariant
            i <= v.len(),
            out.len() == i,
            forall|k: int| 0 <= k < i ==> out[k]@ == v[k]@,
        decreases v.len() - i,
    {
        out.push(v[i].clone());
        i += 1;
    }
    assert(params_view(out@) =~= params_view(v@));
    out
}

impl Clone for AstNode {
    fn clone(&self) -> (r: Self)
        ensures
            r@ == self@,
    {
        clone_node(self)
    }
}

impl AstNode {
    /// An array literal.
    pub fn array(items: Vec<AstNode>) -> (n: AstNode)
        ensures
            n@ == Ast::Array(nodes_view(items@)),
    {
        AstNode::Array(items)
    }

    /// An element of an array.
    pub fn index(array: AstNode, index: AstNode) -> (n: AstNode)
        ensures
            n@ == (Ast::Index { array: Box::new(array@), index: Box::new(index@) }),
    {
        AstNode::Index { array: Box::new(array), index: Box::new(index) }
    }

    /// A call of a method on a value.
    pub fn method_call(object: AstNode, method: String, args: Vec<AstNode>) -> (n: AstNode)
        ensures
            n@ == (Ast::MethodCall { object: Box::new(object@), method: method@, args: nodes_view(args@) }),
    {
        AstNode::MethodCall { object: Box::new(object), method, args }
    }

    /// A conditional.
    pub fn branch(condition: AstNode, body: Vec<AstNode>, else_body: Option<Vec<AstNode>>) -> (n: AstNode)
        ensures
            n@ == (Ast::If { condition: Box::new(condition@), body: nodes_view(body@), else_body: opt_nodes_view(else_body) }),
    {
        AstNode::If { condition: Box::new(condition), body, else_body }
    }

    /// A `print`.
    pub fn print(left: AstNode) -> (n: AstNode)
        ensures
            n@ == (Ast::Print { left: Box::new(left@) }),
    {
        AstNode::Print { left: Box::new(left) }
    }

    /// A declaration.
    pub fn declare(name: String, is_const: bool, var_type: Option<Type>, var_value: AstNode) -> (n: AstNode)
        ensures
            n@ == (Ast::Let { name: name@, is_const: is_const, var_type: var_type, var_value: Box::new(var_value@) }),
    {
        AstNode::Let { name, is_const, var_type, var_value: Box::new(var_value) }
    }

    /// A `del`.
    pub fn delete(operand: AstNode) -> (n: AstNode)
        ensures
            n@ == Ast::Delete(Box::new(operand@)),
    {
        AstNode::Delete(Box::new(operand))
    }

    /// An operation on two operands.
    pub fn binary(op: String, left: AstNode, right: AstNode) -> (n: AstNode)
        ensures
            n@ == (Ast::BinaryOp { op: op@, left: Box::new(left@), right: Box::new(right@) }),
    {
        AstNode::BinaryOp { op, left: Box::new(left), right: Box::new(right) }
    }

    /// A postfix `++` or `--`.
    pub fn postfix(op: String, var: AstNode) -> (n: AstNode)
        ensures
            n@ == (Ast::UnaryOpTT { op: op@, var: Box::new(var@) }),
    {
        AstNode::UnaryOpTT { op, var: Box::new(var) }
    }

    /// An assignment.
    pub fn assign(left: AstNode, right: AstNode) -> (n: AstNode)
        ensures
            n@ == (Ast::Assign { left: Box::new(left@), right: Box::new(right@) }),
    {
        AstNode::Assign { left: Box::new(left), right: Box::new(right) }
    }

    /// A loop that runs while its condition holds.
    pub fn while_loop(condition: AstNode, body: Vec<AstNode>) -> (n: AstNode)
        ensures
            n@ == (Ast::While { condition: Box::new(condition@), body: nodes_view(body@) }),
    {
        AstNode::While { condition: Box::new(condition), body }
    }

    /// A loop over the items of a value.
    pub fn for_in(var: String, iterable: AstNode, body: Vec<AstNode>) -> (n: AstNode)
        ensures
            n@ == (Ast::ForIn { var: var@, iterable: Box::new(iterable@), body: nodes_view(body@) }),
    {
        AstNode::ForIn { var, iterable: Box::new(iterable), body }
    }

    /// A `return`.
    pub fn returning(value: AstNode) -> (n: AstNode)
        ensures
            n@ == Ast::Return(Box::new(value@)),
    {
        AstNode::Return(Box::new(value))
    }

    /// A function declaration.
    pub fn function(name: String, params: Vec<Param>, body: Vec<AstNode>) -> (n: AstNode)
        ensures
            n@ == (Ast::Function { name: name@, params: params_view(params@), body: nodes_view(body@) }),
    {
        AstNode::Function { name, params, body }
    }

    /// A call of a function.
    pub fn call(name: String, args: Vec<AstNode>) -> (n: AstNode)
        ensures
            n@ == (Ast::FunctionCall { name: name@, args: nodes_view(args@) }),
    {
        AstNode::FunctionCall { name, args }
    }

    /// A conversion.
    pub fn convert(types: Type, expr: AstNode) -> (n: AstNode)
        ensures
            n@ == (Ast::ToType { types: types, expr: Box::new(expr@) }),
    {
        AstNode::ToType { types, expr: Box::new(expr) }
    }

    /// A `sleep`.
    pub fn sleep(expr: AstNode) -> (n: AstNode)
        ensures
            n@ == (Ast::Sleep { expr: Box::new(expr@) }),
    {
        AstNode::Sleep { expr: Box::new(expr) }
    }

    /// A `type`.
    pub fn type_of(expr: AstNode) -> (n: AstNode)
        ensures
            n@ == (Ast::TypeFunc { expr: Box::new(expr@) }),
    {
        AstNode::TypeFunc { expr: Box::new(expr) }
    }


    /// A loop with an initial step, a condition and a step after each round.
    pub fn for_loop(init: AstNode, condition: AstNode, increment: AstNode, body: Vec<AstNode>) -> (n:
        AstNode)
        ensures
            n@ == (Ast::For {
                init: Box::new(init@),
                condition: Box::new(condition@),
                increment: Box::new(increment@),
                body: nodes_view(body@),
            }),
    {
        AstNode::For {
            init: Box::new(init),
            condition: Box::new(condition),
            increment: Box::new(increment),
            body,
        }
    }

    /// A built-in form with two operands.
    pub fn pair(kind: PairKind, first: AstNode, second: AstNode) -> (n: AstNode)
        ensures
            n@ == pair_view(kind, first@, second@),
    {
        match kind {
            PairKind::Random => AstNode::Random { left: Box::new(first), right: Box::new(second) },
            PairKind::Compile => AstNode::Compile {
                expr: Box::new(first),
                regex: Box::new(second),
            },
            PairKind::CompileAll => AstNode::CompileAll {
                expr: Box::new(first),
                regex: Box::new(second),
            },
        }
    }
}

/// A short description of a node: a literal or an operation with its
/// contents, and `Node` for the rest.
pub open spec fn summary_text(node: Ast) -> Seq<char>
    decreases node,
{
    match node {
        Ast::Number(n) => "Number: "@ + decimal(n as int),
        Ast::String(s) => "String: "@ + s,
        Ast::BinaryOp { op, left, right } => "binop: "@ + op + ", left: "@ + summary_text(*left)
            + ", right: "@ + summary_text(*right),
        _ => "Node"@,
    }
}

/// A short description of a node.
pub fn summary(node: &AstNode) -> (r: String)
    ensures
        r@ == summary_text(node@),
    decreases node,
{
    match node {
        AstNode::Number(n) => join("Number: ", display_int(*n).as_str()),
        AstNode::String(s) => join("String: ", s.as_str()),
        AstNode::BinaryOp { op, left, right } => {
            let mut out = join("binop: ", op.as_str());
            out.append(", left: ");
            out.append(summary(left).as_str());
            out.append(", right: ");
            out.append(summary(right).as_str());
            out
        },
        _ => "Node".to_owned(),
    }
}

/// The built-in forms that take two operands.
#[derive(Debug, Clone, Copy, PartialEq, Eq, Structural)]
pub enum PairKind {
    Random,
    Compile,
    CompileAll,
}

/// The node of a built-in form with two operands.
pub open spec fn pair_view(kind: PairKind, first: Ast, second: Ast) -> Ast {
    match kind {
        PairKind::Random => Ast::Random { left: Box::new(first), right: Box::new(second) },
        PairKind::Compile => Ast::Compile { expr: Box::new(first), regex: Box::new(second) },
        PairKind::CompileAll => Ast::CompileAll { expr: Box::new(first), regex: Box::new(second) },
    }
}

/// What a list of nodes is, item by item.
pub proof fn lemma_nodes_view(v: Seq<AstNode>)
    ensures
        nodes_view(v).len() == v.len(),
        forall|i: int| 0 <= i < v.len() ==> #[trigger] nodes_view(v)[i] == v[i]@,
{
}

} // verus!
