//! The tasks of the control stack.

use crate::ast::{nodes_view, opt_nodes_view, Ast, AstNode, Type};
use crate::host::{FloatTask, FloatTaskView};
use crate::scope::names_view;
use crate::value::{values_view, RuntimeValue, Value};
use vstd::prelude::*;

verus! {

/// An optional name as contracts see it.
pub open spec fn opt_text(o: Option<String>) -> Option<Seq<char>> {
    match o {
        Some(s) => Some(s@),
        None => None,
    }
}

/// One piece of work on the control stack. A task other than `Eval` takes
/// its operands from the value stack, where the tasks before it left them.
#[derive(Debug, PartialEq)]
#[allow(inconsistent_fields)]
pub enum Task {
    /// Evaluate the node and leave its value.
    Eval(AstNode),
    /// Gather the last `count` values into an array.
    MakeArray { count: usize },
    /// Take an array and an index, and leave the element.
    Index,
    /// Take a receiver and `argc` arguments, and call the method. `target` names the receiver where it is a bare name.
    Method { method: String, target: Option<String>, argc: usize },
    /// Take a value and assign it to the name.
    AssignVar { name: String },
    /// Take a value, an array and an index, and put the value at the index. `target` names the array where it is a bare name.
    AssignIndex { target: Option<String> },
    /// Take a value, and fail: the left side of the assignment takes none.
    InvalidAssign,
    /// Take a value and convert it.
    Convert { types: Type },
    /// Take a value. Where the operand was a bare name, drop its binding.
    Delete { name: Option<String> },
    /// Take a value and wrap it for its way out of the function.
    Return,
    /// Take one argument for each parameter and enter the function.
    Call { name: String, params: Vec<String>, body: Vec<AstNode> },
    /// Leave the function: drop its scope and unwrap what it returned.
    EndCall,
    /// Take a value and have it written.
    Print,
    /// Take a value and declare the name with it.
    Let { name: String, is_const: bool, var_type: Option<Type> },
    /// Take two bounds and leave an integer between them.
    Random,
    /// Take the condition and run one of the two blocks.
    Branch { body: Vec<AstNode>, else_body: Option<Vec<AstNode>> },
    /// Take two operands and apply the operator.
    Binary { op: String },
    /// Take a value and leave the name of its kind.
    TypeOf,
    /// Take a duration and have the host wait.
    Sleep,
    /// Take a text and a pattern, and leave the first match.
    Compile,
    /// Take a text and a pattern, and leave every match.
    CompileAll,
    /// Take the value of the condition, and run the body or end the loop.
    WhileTest { condition: AstNode, body: Vec<AstNode> },
    /// Take the value of the body. Where it is on its way out of a function, leave it; else drop it and test again.
    WhileNext { condition: AstNode, body: Vec<AstNode> },
    /// Drop the value of the first step or of the increment, and evaluate the condition.
    ForTest { condition: AstNode, increment: AstNode, body: Vec<AstNode> },
    /// Take the value of the condition, and run the body or end the loop.
    ForBody { condition: AstNode, increment: AstNode, body: Vec<AstNode> },
    /// Take the value of the body. Where it is on its way out of a function, leave it; else drop it and evaluate the increment.
    ForStep { condition: AstNode, increment: AstNode, body: Vec<AstNode> },
    /// Take the value to loop over, and start the loop.
    ForInStart { var: String, body: Vec<AstNode> },
    /// Take the value of the last round. Where it is on its way out of a function, leave it; else drop it and run the body on the next item, if one is left.
    Each { var: String, items: Vec<RuntimeValue>, next: usize, body: Vec<AstNode> },
    /// Take the value of the last round. Where it is on its way out of a function, leave it; else drop it and run the body on the next integer up to `last`.
    Range { var: String, next: i64, last: i64, body: Vec<AstNode> },
    /// Take the value of the last round. Where it is on its way out of a function, leave it; else leave the empty value.
    Settle,
    /// Take the value of the statement before `next`. Where it is on its way out of a function, or no statement is left, leave it; else drop it and evaluate the next statement.
    Block { nodes: Vec<AstNode>, next: usize },
}

/// A task as contracts see it.
#[allow(inconsistent_fields)]
pub ghost enum TaskView {
    Eval(Ast),
    MakeArray { count: usize },
    Index,
    Method { method: Seq<char>, target: Option<Seq<char>>, argc: usize },
    AssignVar { name: Seq<char> },
    AssignIndex { target: Option<Seq<char>> },
    InvalidAssign,
    Convert { types: Type },
    Delete { name: Option<Seq<char>> },
    Return,
    Call { name: Seq<char>, params: Seq<Seq<char>>, body: Seq<Ast> },
    EndCall,
    Print,
    Let { name: Seq<char>, is_const: bool, var_type: Option<Type> },
    Random,
    Branch { body: Seq<Ast>, else_body: Option<Seq<Ast>> },
    Binary { op: Seq<char> },
    TypeOf,
    Sleep,
    Compile,
    CompileAll,
    WhileTest { condition: Ast, body: Seq<Ast> },
    WhileNext { condition: Ast, body: Seq<Ast> },
    ForTest { condition: Ast, increment: Ast, body: Seq<Ast> },
    ForBody { condition: Ast, increment: Ast, body: Seq<Ast> },
    ForStep { condition: Ast, increment: Ast, body: Seq<Ast> },
    ForInStart { var: Seq<char>, body: Seq<Ast> },
    Each { var: Seq<char>, items: Seq<Value>, next: usize, body: Seq<Ast> },
    Range { var: Seq<char>, next: i64, last: i64, body: Seq<Ast> },
    Settle,
    Block { nodes: Seq<Ast>, next: usize },
}

impl View for Task {
    type V = TaskView;

    open spec fn view(&self) -> TaskView {
        match self {
            Task::Eval(x0) => TaskView::Eval(x0@),
            Task::MakeArray { count } => TaskView::MakeArray {
                count: *count,
            },
            Task::Index => TaskView::Index,
            Task::Method { method, target, argc } => TaskView::Method {
                method: method@,
                target: opt_text(*target),
                argc: *argc,
            },
            Task::AssignVar { name } => TaskView::AssignVar {
                name: name@,
            },
            Task::AssignIndex { target } => TaskView::AssignIndex {
                target: opt_text(*target),
            },
            Task::InvalidAssign => TaskView::InvalidAssign,
            Task::Convert { types } => TaskView::Convert {
                types: *types,
            },
            Task::Delete { name } => TaskView::Delete {
                name: opt_text(*name),
            },
            Task::Return => TaskView::Return,
            Task::Call { name, params, body } => TaskView::Call {
                name: name@,
                params: names_view(params@),
                body: nodes_view(body@),
            },
            Task::EndCall => TaskView::EndCall,
            Task::Print => TaskView::Print,
            Task::Let { name, is_const, var_type } => TaskView::Let {
                name: name@,
                is_const: *is_const,
                var_type: *var_type,
            },
            Task::Random => TaskView::Random,
            Task::Branch { body, else_body } => TaskView::Branch {
                body: nodes_view(body@),
                else_body: opt_nodes_view(*else_body),
            },
            Task::Binary { op } => TaskView::Binary {
                op: op@,
            },
            Task::TypeOf => TaskView::TypeOf,
            Task::Sleep => TaskView::Sleep,
            Task::Compile => TaskView::Compile,
            Task::CompileAll => TaskView::CompileAll,
            Task::WhileTest { condition, body } => TaskView::WhileTest {
                condition: condition@,
                body: nodes_view(body@),
            },
            Task::WhileNext { condition, body } => TaskView::WhileNext {
                condition: condition@,
                body: nodes_view(body@),
            },
            Task::ForTest { condition, increment, body } => TaskView::ForTest {
                condition: condition@,
                increment: increment@,
                body: nodes_view(body@),
            },
            Task::ForBody { condition, increment, body } => TaskView::ForBody {
                condition: condition@,
                increment: increment@,
                body: nodes_view(body@),
            },
            Task::ForStep { condition, increment, body } => TaskView::ForStep {
                condition: condition@,
                increment: increment@,
                body: nodes_view(body@),
            },
            Task::ForInStart { var, body } => TaskView::ForInStart {
                var: var@,
                body: nodes_view(body@),
            },
            Task::Each { var, items, next, body } => TaskView::Each {
                var: var@,
                items: values_view(items@),
                next: *next,
                body: nodes_view(body@),
            },
            Task::Range { var, next, last, body } => TaskView::Range {
                var: var@,
                next: *next,
                last: *last,
                body: nodes_view(body@),
            },
            Task::Settle => TaskView::Settle,
            Task::Block { nodes, next } => TaskView::Block {
                nodes: nodes_view(nodes@),
                next: *next,
            },
        }
    }
}

impl Task {
    /// Evaluate the node and leave its value.
    pub fn eval(node: AstNode) -> (r: Task)
        ensures
            r@ == TaskView::Eval(node@),
    {
        Task::Eval(node)
    }

    /// Gather the last `count` values into an array.
    pub fn make_array(count: usize) -> (r: Task)
        ensures
            r@ == (TaskView::MakeArray { count: count }),
    {
        Task::MakeArray { count }
    }

    /// Take an array and an index, and leave the element.
    pub fn index() -> (r: Task)
        ensures
            r@ == TaskView::Index,
    {
        Task::Index
    }

    /// Take a receiver and `argc` arguments, and call the method. `target` names the receiver where it is a bare name.
    pub fn method(method: String, target: Option<String>, argc: usize) -> (r: Task)
        ensures
            r@ == (TaskView::Method { method: method@, target: opt_text(target), argc: argc }),
    {
        Task::Method { method, target, argc }
    }

    /// Take a value and assign it to the name.
    pub fn assign_var(name: String) -> (r: Task)
        ensures
            r@ == (TaskView::AssignVar { name: name@ }),
    {
        Task::AssignVar { name }
    }

    /// Take a value, an array and an index, and put the value at the index. `target` names the array where it is a bare name.
    pub fn assign_index(target: Option<String>) -> (r: Task)
        ensures
            r@ == (TaskView::AssignIndex { target: opt_text(target) }),
    {
        Task::AssignIndex { target }
    }

    /// Take a value, and fail: the left side of the assignment takes none.
    pub fn invalid_assign() -> (r: Task)
        ensures
            r@ == TaskView::InvalidAssign,
    {
        Task::InvalidAssign
    }

    /// Take a value and convert it.
    pub fn convert(types: Type) -> (r: Task)
        ensures
            r@ == (TaskView::Convert { types: types }),
    {
        Task::Convert { types }
    }

    /// Take a value. Where the operand was a bare name, drop its binding.
    pub fn delete(name: Option<String>) -> (r: Task)
        ensures
            r@ == (TaskView::Delete { name: opt_text(name) }),
    {
        Task::Delete { name }
    }

    /// Take a value and wrap it for its way out of the function.
    pub fn returning() -> (r: Task)
        ensures
            r@ == TaskView::Return,
    {
        Task::Return
    }

    /// Take one argument for each parameter and enter the function.
    pub fn call(name: String, params: Vec<String>, body: Vec<AstNode>) -> (r: Task)
        ensures
            r@ == (TaskView::Call { name: name@, params: names_view(params@), body: nodes_view(body@) }),
    {
        Task::Call { name, params, body }
    }

    /// Leave the function: drop its scope and unwrap what it returned.
    pub fn end_call() -> (r: Task)
        ensures
            r@ == TaskView::EndCall,
    {
        Task::EndCall
    }

    /// Take a value and have it written.
    pub fn print() -> (r: Task)
        ensures
            r@ == TaskView::Print,
    {
        Task::Print
    }

    /// Take a value and declare the name with it.
    pub fn declare(name: String, is_const: bool, var_type: Option<Type>) -> (r: Task)
        ensures
            r@ == (TaskView::Let { name: name@, is_const: is_const, var_type: var_type }),
    {
        Task::Let { name, is_const, var_type }
    }

    /// Take two bounds and leave an integer between them.
    pub fn random() -> (r: Task)
        ensures
            r@ == TaskView::Random,
    {
        Task::Random
    }

    /// Take the condition and run one of the two blocks.
    pub fn branch(body: Vec<AstNode>, else_body: Option<Vec<AstNode>>) -> (r: Task)
        ensures
            r@ == (TaskView::Branch { body: nodes_view(body@), else_body: opt_nodes_view(else_body) }),
    {
        Task::Branch { body, else_body }
    }

    /// Take two operands and apply the operator.
    pub fn binary(op: String) -> (r: Task)
        ensures
            r@ == (TaskView::Binary { op: op@ }),
    {
        Task::Binary { op }
    }

    /// Take a value and leave the name of its kind.
    pub fn type_of() -> (r: Task)
        ensures
            r@ == TaskView::TypeOf,
    {
        Task::TypeOf
    }

    /// Take a duration and have the host wait.
    pub fn sleep() -> (r: Task)
        ensures
            r@ == TaskView::Sleep,
    {
        Task::Sleep
    }

    /// Take a text and a pattern, and leave the first match.
    pub fn compile() -> (r: Task)
        ensures
            r@ == TaskView::Compile,
    {
        Task::Compile
    }

    /// Take a text and a pattern, and leave every match.
    pub fn compile_all() -> (r: Task)
        ensures
            r@ == TaskView::CompileAll,
    {
        Task::CompileAll
    }

    /// Take the value of the condition, and run the body or end the loop.
    pub fn while_test(condition: AstNode, body: Vec<AstNode>) -> (r: Task)
        ensures
            r@ == (TaskView::WhileTest { condition: condition@, body: nodes_view(body@) }),
    {
        Task::WhileTest { condition, body }
    }

    /// Take the value of the body. Where it is on its way out of a function, leave it; else drop it and test again.
    pub fn while_next(condition: AstNode, body: Vec<AstNode>) -> (r: Task)
        ensures
            r@ == (TaskView::WhileNext { condition: condition@, body: nodes_view(body@) }),
    {
        Task::WhileNext { condition, body }
    }

    /// Drop the value of the first step or of the increment, and evaluate the condition.
    pub fn for_test(condition: AstNode, increment: AstNode, body: Vec<AstNode>) -> (r: Task)
        ensures
            r@ == (TaskView::ForTest { condition: condition@, increment: increment@, body: nodes_view(body@) }),
    {
        Task::ForTest { condition, increment, body }
    }

    /// Take the value of the condition, and run the body or end the loop.
    pub fn for_body(condition: AstNode, increment: AstNode, body: Vec<AstNode>) -> (r: Task)
        ensures
            r@ == (TaskView::ForBody { condition: condition@, increment: increment@, body: nodes_view(body@) }),
    {
        Task::ForBody { condition, increment, body }
    }

    /// Take the value of the body. Where it is on its way out of a function, leave it; else drop it and evaluate the increment.
    pub fn for_step(condition: AstNode, increment: AstNode, body: Vec<AstNode>) -> (r: Task)
        ensures
            r@ == (TaskView::ForStep { condition: condition@, increment: increment@, body: nodes_view(body@) }),
    {
        Task::ForStep { condition, increment, body }
    }

    /// Take the value to loop over, and start the loop.
    pub fn for_in_start(var: String, body: Vec<AstNode>) -> (r: Task)
        ensures
            r@ == (TaskView::ForInStart { var: var@, body: nodes_view(body@) }),
    {
        Task::ForInStart { var, body }
    }

    /// Take the value of the last round. Where it is on its way out of a function, leave it; else drop it and run the body on the next item, if one is left.
    pub fn each(var: String, items: Vec<RuntimeValue>, next: usize, body: Vec<AstNode>) -> (r: Task)
        ensures
            r@ == (TaskView::Each { var: var@, items: values_view(items@), next: next, body: nodes_view(body@) }),
    {
        Task::Each { var, items, next, body }
    }

    /// Take the value of the last round. Where it is on its way out of a function, leave it; else drop it and run the body on the next integer up to `last`.
    pub fn range(var: String, next: i64, last: i64, body: Vec<AstNode>) -> (r: Task)
        ensures
            r@ == (TaskView::Range { var: var@, next: next, last: last, body: nodes_view(body@) }),
    {
        Task::Range { var, next, last, body }
    }

    /// Take the value of the last round. Where it is on its way out of a function, leave it; else leave the empty value.
    pub fn settle() -> (r: Task)
        ensures
            r@ == TaskView::Settle,
    {
        Task::Settle
    }

    /// Take the value of the statement before `next`. Where it is on its way out of a function, or no statement is left, leave it; else drop it and evaluate the next statement.
    pub fn block(nodes: Vec<AstNode>, next: usize) -> (r: Task)
        ensures
            r@ == (TaskView::Block { nodes: nodes_view(nodes@), next: next }),
    {
        Task::Block { nodes, next }
    }
}

/// What the interpreter is waiting for.
#[derive(Debug, PartialEq)]
pub enum Pending {
    /// Nothing: the next step takes a task.
    Nothing,
    /// A line from the console.
    Input,
    /// The text of a file.
    Import { path: String },
    /// The answer to work on doubles.
    Float(FloatTask),
}

/// What the interpreter is waiting for, as contracts see it.
pub ghost enum PendingView {
    Nothing,
    Input,
    Import { path: Seq<char> },
    Float(FloatTaskView),
}

impl View for Pending {
    type V = PendingView;

    open spec fn view(&self) -> PendingView {
        match self {
            Pending::Nothing => PendingView::Nothing,
            Pending::Input => PendingView::Input,
            Pending::Import { path } => PendingView::Import {
                path: path@,
            },
            Pending::Float(x0) => PendingView::Float(x0@),
        }
    }
}

/// A list of tasks as contracts see it.
pub open spec fn tasks_view(v: Seq<Task>) -> Seq<TaskView> {
    v.map_values(|t: Task| t@)
}

} // verus!
