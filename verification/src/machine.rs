//! What one step of the interpreter does, as a function from the state
//! before it and the event of the host to the state after it and the action
//! for the host. The interpreter is proved to compute exactly this.
//!
//! The state is a stack of scopes, a control stack of tasks and a stack of
//! values. A step takes the top task. To evaluate a node is to push the task
//! that finishes it and, above it, the evaluation of its operands, the first
//! operand on top; a value, once computed, goes on the value stack.

use crate::ast::Ast;
use crate::errors::ErrorView;
use crate::grammar::parse_tokens;
use crate::host::{ActionView, EventView, FloatTaskView, NumView};
use crate::lexer::{lex_errors, lex_tokens, unexpected_text};
use crate::parser::diagnostic_text;
use crate::ops::{all_matches, answer_of, binop, converted, first_match, ReducedView};
use crate::rules::{
    chars_of, element_of, kind_name, line_text, returned, unwrapped, without_line_end,
};
use crate::scope::{
    assign, bind_all, bound, callee, declare, forget, introduce, is_const, put, read, store,
    FunctionView, ScopeView,
};
use crate::task::{PendingView, TaskView};
use crate::value::Value;
use vstd::prelude::*;

verus! {

/// The state of the interpreter as contracts see it.
pub ghost struct State {
    /// The scopes: that of the program, and above it one for each call that
    /// has not returned. There is always at least one.
    pub scopes: Seq<ScopeView>,
    /// The control stack. The last task is the next to run.
    pub tasks: Seq<TaskView>,
    /// The value stack.
    pub values: Seq<Value>,
    /// What the interpreter is waiting for.
    pub pending: PendingView,
}

/// A state and the action that led to it.
pub type Step = (State, ActionView);

/// The scope in which names are looked up: that of the innermost call.
pub open spec fn top(s: State) -> ScopeView {
    s.scopes.last()
}

/// The state with `scope` in place of the innermost scope.
pub open spec fn with_top(s: State, scope: ScopeView) -> State {
    State { scopes: s.scopes.drop_last().push(scope), ..s }
}

/// The state with `v` on the value stack.
pub open spec fn push(s: State, v: Value) -> State {
    State { values: s.values.push(v), ..s }
}

/// The state with `t` on the control stack.
pub open spec fn plan(s: State, t: TaskView) -> State {
    State { tasks: s.tasks.push(t), ..s }
}

/// The value that lies `k` below the top of the value stack.
pub open spec fn operand(s: State, k: int) -> Value {
    s.values[s.values.len() - 1 - k]
}

/// The state without the top `n` values.
pub open spec fn drop_values(s: State, n: int) -> State {
    State { values: s.values.take(s.values.len() - n), ..s }
}

/// The top `n` values, the topmost last.
pub open spec fn top_values(s: State, n: int) -> Seq<Value> {
    s.values.skip(s.values.len() - n)
}

/// The state waiting for `p`.
pub open spec fn waiting(s: State, p: PendingView) -> State {
    State { pending: p, ..s }
}

/// Nothing for the host to do.
pub open spec fn go(s: State) -> Step {
    (s, ActionView::Continue)
}

/// The end of the program by a failure: the stacks are emptied, and only
/// the scope of the program is left.
pub open spec fn halt(s: State, e: ErrorView) -> Step {
    (
        State {
            scopes: s.scopes.take(1),
            tasks: Seq::empty(),
            values: Seq::empty(),
            pending: PendingView::Nothing,
        },
        ActionView::Done(Err(e)),
    )
}

/// A value goes on the value stack; a failure ends the program.
pub open spec fn settle(s: State, r: Result<Value, ErrorView>) -> Step {
    match r {
        Ok(v) => go(push(s, v)),
        Err(e) => halt(s, e),
    }
}

/// A value goes on the value stack; work on doubles goes to the host, whose
/// answer becomes the value; a failure ends the program.
pub open spec fn reduce(s: State, r: Result<ReducedView, ErrorView>) -> Step {
    match r {
        Ok(ReducedView::Value(v)) => go(push(s, v)),
        Ok(ReducedView::Ask(t)) => (waiting(s, PendingView::Float(t)), ActionView::Compute(t)),
        Err(e) => halt(s, e),
    }
}

/// A changed scope takes the place of the innermost one, and `v` goes on
/// the value stack; a failure ends the program.
pub open spec fn rebind(s: State, r: Result<ScopeView, ErrorView>, v: Value) -> Step {
    match r {
        Ok(scope) => go(push(with_top(s, scope), v)),
        Err(e) => halt(s, e),
    }
}

/// The state set to run a block: the statements one after the other, until
/// one leaves a value on its way out of a function. The value of the block
/// is that of its last statement, or the empty value.
pub open spec fn start_block(s: State, nodes: Seq<Ast>) -> State {
    plan(push(s, Value::Void), TaskView::Block { nodes, next: 0 })
}

/// The state set to evaluate the nodes from `from` on, the first of them
/// first.
pub open spec fn schedule(s: State, nodes: Seq<Ast>, from: int) -> State
    decreases nodes.len() - from,
{
    if from < 0 || from >= nodes.len() {
        s
    } else {
        plan(schedule(s, nodes, from + 1), TaskView::Eval(nodes[from]))
    }
}

/// The name that a node is, where it is a bare name.
pub open spec fn ident_name(node: Ast) -> Option<Seq<char>> {
    match node {
        Ast::Identifier(name) => Some(name),
        _ => None,
    }
}

/// The state set to finish with `task` after one operand.
pub open spec fn after_one(s: State, task: TaskView, a: Ast) -> Step {
    go(plan(plan(s, task), TaskView::Eval(a)))
}

/// The state set to finish with `task` after two operands, `a` first.
pub open spec fn after_two(s: State, task: TaskView, a: Ast, b: Ast) -> Step {
    go(plan(plan(plan(s, task), TaskView::Eval(b)), TaskView::Eval(a)))
}

/// A postfix `++` or `--`: the name must hold an integer, which goes up or
/// down by one, wrapping round at the ends of the range.
pub open spec fn eval_postfix(s: State, op: Seq<char>, var: Ast) -> Step {
    match var {
        Ast::Identifier(name) => match bound(top(s), name) {
            None => halt(s, ErrorView::UndefinedVariable { name }),
            Some(v) => if v is Number && op == "++"@ {
                let n = Value::Number(v->Number_0.wrapping_add(1));
                go(push(with_top(s, put(top(s), name, n)), n))
            } else if v is Number && op == "--"@ {
                let n = Value::Number(v->Number_0.wrapping_sub(1));
                go(push(with_top(s, put(top(s), name, n)), n))
            } else {
                halt(s, ErrorView::InvalidStep { op })
            },
        },
        _ => halt(s, ErrorView::StepTarget),
    }
}

/// A call: the function must be declared and take as many arguments as
/// the call gives. The arguments are evaluated first, from left to right.
pub open spec fn eval_call(s: State, name: Seq<char>, args: Seq<Ast>) -> Step {
    match callee(top(s), name) {
        None => halt(s, ErrorView::UndefinedFunction { name }),
        Some(f) => if f.params.len() != args.len() {
            halt(
                s,
                ErrorView::ArityMismatch {
                    name,
                    expected: f.params.len() as usize,
                    got: args.len() as usize,
                },
            )
        } else {
            go(schedule(plan(s, TaskView::Call { name, params: f.params, body: f.body }), args, 0))
        },
    }
}

/// An assignment: the right side is evaluated first, then what the left
/// side needs.
pub open spec fn eval_assign(s: State, left: Ast, right: Ast) -> Step {
    match left {
        Ast::Identifier(name) => after_one(s, TaskView::AssignVar { name }, right),
        Ast::Index { array, index } => go(
            plan(
                plan(
                    plan(
                        plan(s, TaskView::AssignIndex { target: ident_name(*array) }),
                        TaskView::Eval(*index),
                    ),
                    TaskView::Eval(*array),
                ),
                TaskView::Eval(right),
            ),
        ),
        _ => after_one(s, TaskView::InvalidAssign, right),
    }
}

/// The evaluation of a literal or a name.
pub open spec fn eval_leaf(s: State, node: Ast) -> Step {
    match node {
        Ast::Number(n) => go(push(s, Value::Number(n))),
        Ast::Float(t) => (
            waiting(s, PendingView::Float(FloatTaskView::Literal(t))),
            ActionView::Compute(FloatTaskView::Literal(t)),
        ),
        Ast::String(t) => go(push(s, Value::String(t))),
        Ast::Regex(p) => go(push(s, Value::Regex(p))),
        Ast::Boolean(b) => go(push(s, Value::Boolean(b))),
        Ast::Identifier(name) => settle(s, read(top(s), name)),
        _ => go(push(s, Value::Void)),
    }
}

/// The evaluation of a node that works on the values of its operands.
pub open spec fn eval_strict(s: State, node: Ast) -> Step {
    match node {
        Ast::Array(items) => go(
            schedule(plan(s, TaskView::MakeArray { count: items.len() as usize }), items, 0),
        ),
        Ast::Index { array, index } => after_two(s, TaskView::Index, *array, *index),
        Ast::MethodCall { object, method, args } => go(
            plan(
                schedule(
                    plan(
                        s,
                        TaskView::Method {
                            method,
                            target: ident_name(*object),
                            argc: args.len() as usize,
                        },
                    ),
                    args,
                    0,
                ),
                TaskView::Eval(*object),
            ),
        ),
        Ast::Assign { left, right } => eval_assign(s, *left, *right),
        Ast::ToType { types, expr } => after_one(s, TaskView::Convert { types }, *expr),
        Ast::Delete(expr) => after_one(s, TaskView::Delete { name: ident_name(*expr) }, *expr),
        Ast::Return(expr) => after_one(s, TaskView::Return, *expr),
        Ast::Print { left } => after_one(s, TaskView::Print, *left),
        Ast::Let { name, is_const, var_type, var_value } => after_one(
            s,
            TaskView::Let { name, is_const, var_type },
            *var_value,
        ),
        Ast::Random { left, right } => after_two(s, TaskView::Random, *left, *right),
        Ast::BinaryOp { op, left, right } => after_two(s, TaskView::Binary { op }, *left, *right),
        Ast::TypeFunc { expr } => after_one(s, TaskView::TypeOf, *expr),
        Ast::Sleep { expr } => after_one(s, TaskView::Sleep, *expr),
        Ast::Compile { expr, regex } => after_two(s, TaskView::Compile, *expr, *regex),
        Ast::CompileAll { expr, regex } => after_two(s, TaskView::CompileAll, *expr, *regex),
        _ => eval_leaf(s, node),
    }
}

/// The evaluation of a node.
pub open spec fn eval(s: State, node: Ast) -> Step {
    match node {
        Ast::Function { name, params, body } => go(
            push(
                with_top(
                    s,
                    declare(
                        top(s),
                        name,
                        FunctionView {
                            params: params.map_values(|p: crate::ast::ParamView| p.name),
                            body,
                        },
                    ),
                ),
                Value::Void,
            ),
        ),
        Ast::FunctionCall { name, args } => eval_call(s, name, args),
        Ast::Import { path } => (
            waiting(s, PendingView::Import { path }),
            ActionView::Import(path),
        ),
        Ast::Input { placeholder } => (
            waiting(s, PendingView::Input),
            ActionView::Input(placeholder),
        ),
        Ast::If { condition, body, else_body } => after_one(
            s,
            TaskView::Branch { body, else_body },
            *condition,
        ),
        Ast::While { condition, body } => after_one(
            s,
            TaskView::WhileTest { condition: *condition, body },
            *condition,
        ),
        Ast::For { init, condition, increment, body } => after_one(
            s,
            TaskView::ForTest { condition: *condition, increment: *increment, body },
            *init,
        ),
        Ast::ForIn { var, iterable, body } => after_one(
            s,
            TaskView::ForInStart { var, body },
            *iterable,
        ),
        Ast::UnaryOpTT { op, var } => eval_postfix(s, op, *var),
        _ => eval_strict(s, node),
    }
}

/// A method call on the receiver and the arguments. An array has `push`,
/// with one argument: the array with the argument at its end, which is also
/// stored under the name of the receiver where it has one. A string has
/// `chars`, without arguments: its characters as an array.
pub open spec fn run_method(
    s: State,
    method: Seq<char>,
    target: Option<Seq<char>>,
    object: Value,
    args: Seq<Value>,
) -> Step {
    if object is Array && method == "push"@ {
        if args.len() != 1 {
            halt(
                s,
                ErrorView::ArityMismatch { name: method, expected: 1, got: args.len() as usize },
            )
        } else {
            let longer = Value::Array(object->Array_0.push(args[0]));
            match target {
                Some(name) => rebind(s, store(top(s), name, longer), longer),
                None => go(push(s, longer)),
            }
        }
    } else if object is String && method == "chars"@ {
        if args.len() != 0 {
            halt(
                s,
                ErrorView::ArityMismatch { name: method, expected: 0, got: args.len() as usize },
            )
        } else {
            go(push(s, Value::Array(chars_of(object->String_0))))
        }
    } else {
        halt(s, ErrorView::UnsupportedMethod { method })
    }
}

/// An assignment to an element: the array with the value at the index,
/// which is also stored under the name of the array where it has one. The
/// index must be within the array, and the name must not hold a constant.
pub open spec fn run_assign_index(
    s: State,
    target: Option<Seq<char>>,
    value: Value,
    array: Value,
    index: Value,
) -> Step {
    if array is Array && index is Number {
        let items = array->Array_0;
        let i = index->Number_0;
        if !(0 <= i < items.len()) {
            halt(s, ErrorView::IndexOutOfBounds { index: i, len: items.len() as usize })
        } else {
            let changed = Value::Array(items.update(i as int, value));
            match target {
                Some(name) => rebind(s, store(top(s), name, changed), changed),
                None => go(push(s, changed)),
            }
        }
    } else {
        halt(s, ErrorView::NotIndexable)
    }
}

/// The entry into a function: a new scope with the parameters bound to the
/// arguments and with the functions of the caller, and the body as a block.
/// The scope of the caller is out of reach until the function returns.
pub open spec fn run_call(s: State, params: Seq<Seq<char>>, body: Seq<Ast>) -> Step {
    let n = params.len() as int;
    if s.values.len() < n {
        halt(s, ErrorView::Exhausted)
    } else {
        let scope = ScopeView {
            variables: bind_all(params, top_values(s, n), n),
            functions: top(s).functions,
        };
        let inner = State { scopes: s.scopes.push(scope), ..drop_values(s, n) };
        go(start_block(plan(inner, TaskView::EndCall), body))
    }
}

/// A block or nothing, by the value of a condition: a truth value decides
/// by itself, and an integer counts as true where it is above zero.
pub open spec fn run_branch(s: State, body: Seq<Ast>, else_body: Option<Seq<Ast>>, c: Value) -> Step {
    let chosen = match c {
        Value::Boolean(b) => Some(b),
        Value::Number(n) => Some(n > 0),
        _ => None,
    };
    match chosen {
        Some(true) => go(start_block(s, body)),
        Some(false) => match else_body {
            Some(nodes) => go(start_block(s, nodes)),
            None => go(push(s, Value::Void)),
        },
        None => halt(s, ErrorView::ConditionMismatch),
    }
}

/// The start of a loop over a value: the items of an array, the integers
/// from 1 to an integer, or the characters of a string. A constant loops as
/// the value it holds.
pub open spec fn run_for_in(s: State, var: Seq<char>, body: Seq<Ast>, v: Value) -> Step {
    match unwrapped(v) {
        Value::Array(items) => go(
            plan(push(s, Value::Void), TaskView::Each { var, items, next: 0, body }),
        ),
        Value::Number(n) => if n >= 1 {
            go(plan(push(s, Value::Void), TaskView::Range { var, next: 1, last: n, body }))
        } else {
            go(push(s, Value::Void))
        },
        Value::String(text) => go(
            plan(push(s, Value::Void), TaskView::Each { var, items: chars_of(text), next: 0, body }),
        ),
        _ => halt(s, ErrorView::NotIterable),
    }
}

/// One round of a loop over items: the variable takes the next item and
/// the body runs, or the loop ends where no item is left.
pub open spec fn run_each(
    s: State,
    var: Seq<char>,
    items: Seq<Value>,
    next: usize,
    body: Seq<Ast>,
) -> Step {
    if next < items.len() {
        match store(top(s), var, items[next as int]) {
            Err(e) => halt(s, e),
            Ok(scope) => go(
                start_block(
                    plan(
                        with_top(s, scope),
                        TaskView::Each { var, items, next: (next + 1) as usize, body },
                    ),
                    body,
                ),
            ),
        }
    } else {
        go(push(s, Value::Void))
    }
}

/// One round of a loop over integers: the variable takes `next` and the
/// body runs; after `last` the loop ends.
pub open spec fn run_range(s: State, var: Seq<char>, next: i64, last: i64, body: Seq<Ast>) -> Step {
    if next <= last {
        match store(top(s), var, Value::Number(next)) {
            Err(e) => halt(s, e),
            Ok(scope) => {
                let after = if next < last {
                    TaskView::Range { var, next: (next + 1) as i64, last, body }
                } else {
                    TaskView::Settle
                };
                go(start_block(plan(with_top(s, scope), after), body))
            },
        }
    } else {
        go(push(s, Value::Void))
    }
}

/// A task that takes one value, which has been taken off the stack.
pub open spec fn run_unary(s: State, task: TaskView, v: Value) -> Step {
    match task {
        TaskView::AssignVar { name } => rebind(s, assign(top(s), name, v), Value::Void),
        TaskView::InvalidAssign => halt(s, ErrorView::InvalidTarget),
        TaskView::Convert { types } => reduce(s, converted(v, types)),
        TaskView::Delete { name } => match name {
            Some(n) => go(push(with_top(s, forget(top(s), n)), Value::Void)),
            None => go(push(s, v)),
        },
        TaskView::Return => go(push(s, Value::ReturnValue(Box::new(v)))),
        TaskView::EndCall => if s.scopes.len() > 1 {
            go(push(State { scopes: s.scopes.drop_last(), ..s }, returned(v)))
        } else {
            halt(s, ErrorView::Exhausted)
        },
        TaskView::Print => (push(s, Value::Void), ActionView::Print(line_text(v))),
        TaskView::Let { name, is_const, var_type } => rebind(
            s,
            introduce(top(s), name, is_const, var_type, v),
            Value::Void,
        ),
        TaskView::Branch { body, else_body } => run_branch(s, body, else_body, v),
        TaskView::TypeOf => go(push(s, Value::String(kind_name(v)))),
        TaskView::Sleep => match v {
            Value::Number(n) => (push(s, Value::Void), ActionView::Sleep(NumView::Int(n))),
            Value::Float(t) => (push(s, Value::Void), ActionView::Sleep(NumView::Float(t))),
            _ => halt(s, ErrorView::SleepMismatch),
        },
        TaskView::WhileTest { condition, body } => if v == Value::Boolean(true) {
            go(start_block(plan(s, TaskView::WhileNext { condition, body }), body))
        } else {
            go(push(s, Value::Void))
        },
        TaskView::WhileNext { condition, body } => if v is ReturnValue {
            go(push(s, v))
        } else {
            after_one(s, TaskView::WhileTest { condition, body }, condition)
        },
        TaskView::ForTest { condition, increment, body } => after_one(
            s,
            TaskView::ForBody { condition, increment, body },
            condition,
        ),
        TaskView::ForBody { condition, increment, body } => if v == Value::Boolean(true) {
            go(start_block(plan(s, TaskView::ForStep { condition, increment, body }), body))
        } else {
            go(push(s, Value::Void))
        },
        TaskView::ForStep { condition, increment, body } => if v is ReturnValue {
            go(push(s, v))
        } else {
            after_one(s, TaskView::ForTest { condition, increment, body }, increment)
        },
        TaskView::ForInStart { var, body } => run_for_in(s, var, body, v),
        TaskView::Each { var, items, next, body } => if v is ReturnValue {
            go(push(s, v))
        } else {
            run_each(s, var, items, next, body)
        },
        TaskView::Range { var, next, last, body } => if v is ReturnValue {
            go(push(s, v))
        } else {
            run_range(s, var, next, last, body)
        },
        TaskView::Settle => if v is ReturnValue {
            go(push(s, v))
        } else {
            go(push(s, Value::Void))
        },
        TaskView::Block { nodes, next } => if v is ReturnValue || next >= nodes.len() {
            go(push(s, v))
        } else {
            go(
                plan(
                    plan(s, TaskView::Block { nodes, next: (next + 1) as usize }),
                    TaskView::Eval(nodes[next as int]),
                ),
            )
        },
        _ => halt(s, ErrorView::Exhausted),
    }
}

/// A task that takes two values, which have been taken off the stack: `a`
/// lay below `b`. `draw` is the integer drawn for `random`.
pub open spec fn run_binary(s: State, task: TaskView, a: Value, b: Value, draw: i64) -> Step {
    match task {
        TaskView::Index => settle(s, element_of(a, b)),
        TaskView::Random => if a is Number && b is Number {
            go(push(s, Value::Number(draw)))
        } else {
            halt(s, ErrorView::RandomMismatch)
        },
        TaskView::Binary { op } => reduce(s, binop(op, a, b)),
        TaskView::Compile => settle(s, first_match(a, b)),
        TaskView::CompileAll => settle(s, all_matches(a, b)),
        _ => halt(s, ErrorView::Exhausted),
    }
}

/// How many values a task takes off the stack, where that is fixed.
pub open spec fn arity(task: TaskView) -> int {
    match task {
        TaskView::Eval(_) => 0,
        TaskView::MakeArray { count } => count as int,
        TaskView::Method { method, target, argc } => argc + 1,
        TaskView::Call { name, params, body } => params.len() as int,
        TaskView::AssignIndex { target } => 3,
        TaskView::Index => 2,
        TaskView::Random => 2,
        TaskView::Binary { op } => 2,
        TaskView::Compile => 2,
        TaskView::CompileAll => 2,
        _ => 1,
    }
}

/// What a task does. It has been taken off the control stack. A task that
/// finds fewer values than it takes ends the program.
pub open spec fn run(s: State, task: TaskView, draw: i64) -> Step {
    let n = arity(task);
    if s.values.len() < n {
        halt(s, ErrorView::Exhausted)
    } else {
        let rest = drop_values(s, n);
        match task {
            TaskView::Eval(node) => eval(s, node),
            TaskView::MakeArray { count } => go(push(rest, Value::Array(top_values(s, n)))),
            TaskView::Method { method, target, argc } => run_method(
                rest,
                method,
                target,
                operand(s, argc as int),
                top_values(s, argc as int),
            ),
            TaskView::Call { name, params, body } => run_call(s, params, body),
            TaskView::AssignIndex { target } => run_assign_index(
                rest,
                target,
                operand(s, 2),
                operand(s, 1),
                operand(s, 0),
            ),
            _ => if n == 2 {
                run_binary(rest, task, operand(s, 1), operand(s, 0), draw)
            } else {
                run_unary(rest, task, operand(s, 0))
            },
        }
    }
}

/// What the text of an imported file does: it is lexed and parsed, and its
/// statements run as a block in the scope that imports it. A text that does
/// not lex fails with what the first diagnostic of the lexer says, and one
/// that does not parse with what the diagnostic of the parser says.
pub open spec fn load(s: State, path: Seq<char>, text: Seq<char>) -> Step {
    if lex_errors(text).len() > 0 {
        halt(s, ErrorView::ImportFailed { path, message: unexpected_text(lex_errors(text)[0]) })
    } else {
        match parse_tokens(lex_tokens(text)) {
            Ok(nodes) => go(start_block(s, nodes)),
            Err(e) => halt(s, ErrorView::ImportFailed { path, message: diagnostic_text(e) }),
        }
    }
}

/// What the answer of the host does to the state that waited for it.
pub open spec fn resume(s: State, event: EventView) -> Step {
    let awake = waiting(s, PendingView::Nothing);
    match s.pending {
        PendingView::Input => match event {
            EventView::Line(text) => go(push(awake, Value::String(without_line_end(text)))),
            _ => halt(s, ErrorView::UnexpectedReply),
        },
        PendingView::Import { path } => match event {
            EventView::Source(text) => load(awake, path, text),
            EventView::Failed(message) => halt(s, ErrorView::ImportFailed { path, message }),
            _ => halt(s, ErrorView::UnexpectedReply),
        },
        PendingView::Float(task) => settle(awake, answer_of(task, event)),
        PendingView::Nothing => go(s),
    }
}

/// The end of the program: its value is the one left on the value stack.
pub open spec fn finish(s: State) -> Step {
    (
        State { values: Seq::empty(), ..s },
        ActionView::Done(
            Ok(
                if s.values.len() > 0 {
                    s.values.last()
                } else {
                    Value::Void
                },
            ),
        ),
    )
}

/// One step. Where the interpreter waits for an answer, the event is the
/// answer. Else the event is not looked at: the top task runs, or the
/// program ends where no task is left.
pub open spec fn step_spec(s: State, event: EventView, draw: i64) -> Step {
    if !(s.pending is Nothing) {
        resume(s, event)
    } else if s.tasks.len() == 0 {
        finish(s)
    } else {
        run(State { tasks: s.tasks.drop_last(), ..s }, s.tasks.last(), draw)
    }
}

/// The bounds between which the next step draws an integer, where it draws
/// one: the top task is `random` and its two operands are integers.
pub open spec fn draw_bounds(s: State) -> Option<(i64, i64)> {
    if s.pending is Nothing && s.tasks.len() > 0 && s.tasks.last() is Random && s.values.len() >= 2
        && operand(s, 1) is Number && operand(s, 0) is Number {
        let a = operand(s, 1)->Number_0;
        let b = operand(s, 0)->Number_0;
        if a <= b {
            Some((a, b))
        } else {
            Some((b, a))
        }
    } else {
        None
    }
}

/// The state set to run a program from its first statement.
pub open spec fn loaded(s: State, nodes: Seq<Ast>) -> State {
    start_block(
        State {
            scopes: s.scopes.take(1),
            tasks: Seq::empty(),
            values: Seq::empty(),
            pending: PendingView::Nothing,
        },
        nodes,
    )
}

/// The state after the first `n` steps from `s`, where step `k` takes the
/// event `events[k]` and, where it draws, the integer `draws[k]`.
pub open spec fn after_steps(s: State, events: Seq<EventView>, draws: Seq<i64>, n: int) -> State
    decreases n,
{
    if n <= 0 || n > events.len() || n > draws.len() {
        s
    } else {
        step_spec(after_steps(s, events, draws, n - 1), events[n - 1], draws[n - 1]).0
    }
}

/// The actions that the first `n` steps from `s` hand to the host, in order.
pub open spec fn actions_of(s: State, events: Seq<EventView>, draws: Seq<i64>, n: int) -> Seq<
    ActionView,
>
    decreases n,
{
    if n <= 0 || n > events.len() || n > draws.len() {
        Seq::empty()
    } else {
        actions_of(s, events, draws, n - 1).push(
            step_spec(after_steps(s, events, draws, n - 1), events[n - 1], draws[n - 1]).1,
        )
    }
}

} // verus!
