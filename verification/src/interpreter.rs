//! The interpreter. It walks the syntax tree one step at a time and does no
//! outside work itself: each step hands an action to the host, and the next
//! step takes the host's answer.

use crate::ast::{
    clone_node, clone_nodes, lemma_nodes_view, nodes_view, opt_nodes_view, params_view, AstNode,
    Param, ParamView,
};
use crate::errors::InterpretErrors;
use crate::host::{Action, ActionView, Event, EventView, FloatTask, Num};
use crate::machine::{
    after_one, after_two, drop_values, eval, eval_assign, eval_call, eval_leaf, eval_postfix,
    eval_strict, go, halt, ident_name, operand, plan, push, rebind, reduce, run_assign_index,
    run_binary, run_branch, run_call, run_each, run_for_in, run_method, run_range, run_unary,
    schedule, settle, start_block, step_spec, top, top_values, waiting, with_top, State, Step,
};
use crate::machine::{
    actions_of, after_steps, arity, draw_bounds, finish, load, loaded, resume, run,
};
use crate::chance::random_between;
use crate::lexer::lex;
use crate::ops::{compile, compile_all, convert, eval_binop, finish_float};
use crate::parser::Parser;
use crate::rules::{
    index_value, interpret_constant, kind_word, render, string_chars, strip_line_end,
    unwrap_return,
};
use crate::ops::{reduced_view, value_view, Reduced};
use crate::scope::{
    declare, forget, names_view, put, scope_view, store, FunctionDef, FunctionView, Scope,
    ScopeView,
};
use crate::task::{opt_text, tasks_view, Pending, Task, TaskView};
use crate::text::text_is;
use crate::value::{lemma_values_push, lemma_values_view, values_view, RuntimeValue, Value};
use vstd::prelude::*;

verus! {

/// A list of scopes as contracts see it.
pub open spec fn scopes_view(v: Seq<Scope>) -> Seq<ScopeView> {
    v.map_values(|s: Scope| s@)
}

/// Whether every scope of a list is well formed.
pub open spec fn scopes_wf(v: Seq<Scope>) -> bool {
    forall|i: int| 0 <= i < v.len() ==> (#[trigger] v[i]).wf()
}

/// The interpreter: its scopes, its two stacks and what it waits for.
pub struct Interpreter {
    scopes: Vec<Scope>,
    tasks: Vec<Task>,
    values: Vec<RuntimeValue>,
    pending: Pending,
}

impl View for Interpreter {
    type V = State;

    closed spec fn view(&self) -> State {
        State {
            scopes: scopes_view(self.scopes@),
            tasks: tasks_view(self.tasks@),
            values: values_view(self.values@),
            pending: self.pending@,
        }
    }
}

/// The number of steps that a run with `events` answers and `draws`
/// integers has: the smaller of the two.
pub open spec fn steps_of(events: nat, draws: nat) -> int {
    if events <= draws {
        events as int
    } else {
        draws as int
    }
}

/// A list of events as contracts see it.
pub open spec fn events_view(v: Seq<Event>) -> Seq<EventView> {
    v.map_values(|e: Event| e@)
}

/// A list of actions as contracts see it.
pub open spec fn actions_view(v: Seq<Action>) -> Seq<ActionView> {
    v.map_values(|a: Action| a@)
}

/// What a step has done, as contracts see it.
pub open spec fn step_view(after: State, action: Action) -> Step {
    (after, action@)
}

impl Interpreter {
    /// Whether the interpreter has a scope, and every scope is well formed.
    /// `new` gives such an interpreter, and every method keeps it so.
    pub closed spec fn wf(&self) -> bool {
        self.scopes.len() >= 1 && scopes_wf(self.scopes@)
    }

    /// Whether every scope is well formed.
    spec fn sound(&self) -> bool {
        scopes_wf(self.scopes@)
    }

    /// An interpreter with one empty scope and nothing to do.
    pub fn new() -> (r: Self)
        ensures
            r.wf(),
            r@.scopes.len() == 1,
            r@.scopes[0].variables == Map::<Seq<char>, Value>::empty(),
            r@.scopes[0].functions == Map::<Seq<char>, FunctionView>::empty(),
            r@.tasks.len() == 0,
            r@.values.len() == 0,
            r@.pending is Nothing,
    {
        let mut scopes: Vec<Scope> = Vec::new();
        scopes.push(Scope::new());
        Interpreter { scopes, tasks: Vec::new(), values: Vec::new(), pending: Pending::Nothing }
    }

    /// Puts `v` on the value stack.
    fn push_value(&mut self, v: RuntimeValue)
        ensures
            final(self)@ == push(old(self)@, v@),
            final(self).scopes == old(self).scopes,
    {
        proof {
            lemma_values_push(self.values@, v);
        }
        self.values.push(v);
    }

    /// Puts `t` on the control stack.
    fn plan(&mut self, t: Task)
        ensures
            final(self)@ == plan(old(self)@, t@),
            final(self).scopes == old(self).scopes,
    {
        let ghost before = tasks_view(self.tasks@);
        self.tasks.push(t);
        proof {
            assert(tasks_view(self.tasks@) =~= before.push(t@));
        }
    }

    /// Takes the top value off the stack, if there is one.
    fn take_one(&mut self) -> (r: Option<RuntimeValue>)
        ensures
            final(self).scopes == old(self).scopes,
            match r {
                Some(v) => old(self)@.values.len() >= 1 && v@ == operand(old(self)@, 0)
                    && final(self)@ == drop_values(old(self)@, 1),
                None => old(self)@.values.len() == 0 && final(self)@ == old(self)@,
            },
    {
        proof {
            lemma_values_view(self.values@);
        }
        let ghost before = self.values@;
        let r = self.values.pop();
        proof {
            lemma_values_view(self.values@);
            if before.len() > 0 {
                assert(values_view(self.values@) =~= values_view(before).take(before.len() - 1));
            }
        }
        r
    }

    /// Takes the top two values off the stack, if there are two: the lower
    /// one first.
    fn take_two(&mut self) -> (r: Option<(RuntimeValue, RuntimeValue)>)
        ensures
            final(self).scopes == old(self).scopes,
            match r {
                Some(pair) => old(self)@.values.len() >= 2 && pair.0@ == operand(old(self)@, 1)
                    && pair.1@ == operand(old(self)@, 0) && final(self)@ == drop_values(
                    old(self)@,
                    2,
                ),
                None => old(self)@.values.len() < 2 && final(self)@ == old(self)@,
            },
    {
        if self.values.len() < 2 {
            proof {
                lemma_values_view(self.values@);
            }
            return None;
        }
        proof {
            lemma_values_view(self.values@);
        }
        let ghost before = self.values@;
        let b = self.values.pop();
        let a = self.values.pop();
        proof {
            lemma_values_view(self.values@);
            assert(values_view(self.values@) =~= values_view(before).take(before.len() - 2));
        }
        match a {
            Some(first) => match b {
                Some(second) => Some((first, second)),
                None => None,
            },
            None => None,
        }
    }

    /// Takes the top `n` values off the stack, if there are as many: the
    /// lowest first.
    fn take_many(&mut self, n: usize) -> (r: Option<Vec<RuntimeValue>>)
        ensures
            final(self).scopes == old(self).scopes,
            match r {
                Some(list) => old(self)@.values.len() >= n && values_view(list@) == top_values(
                    old(self)@,
                    n as int,
                ) && list.len() == n && final(self)@ == drop_values(old(self)@, n as int),
                None => old(self)@.values.len() < n && final(self)@ == old(self)@,
            },
    {
        proof {
            lemma_values_view(self.values@);
        }
        if self.values.len() < n {
            return None;
        }
        let ghost before = self.values@;
        let at = self.values.len() - n;
        let list = self.values.split_off(at);
        proof {
            lemma_values_view(self.values@);
            lemma_values_view(list@);
            assert(values_view(self.values@) =~= values_view(before).take(before.len() - n));
            assert(values_view(list@) =~= values_view(before).skip(before.len() - n));
        }
        Some(list)
    }

    /// Takes the innermost scope off the stack of scopes.
    fn pop_scope(&mut self) -> (scope: Scope)
        requires
            old(self).wf(),
        ensures
            scope.wf(),
            scope@ == top(old(self)@),
            final(self).sound(),
            final(self).scopes@ == old(self).scopes@.drop_last(),
            final(self)@ == (State { scopes: old(self)@.scopes.drop_last(), ..old(self)@ }),
    {
        let ghost before = self.scopes@;
        let r = self.scopes.pop();
        proof {
            assert(self.scopes@ =~= before.drop_last());
            assert(scopes_view(self.scopes@) =~= scopes_view(before).drop_last());
        }
        match r {
            Some(scope) => scope,
            None => Scope::new(),
        }
    }

    /// Puts a scope on the stack of scopes.
    fn push_scope(&mut self, scope: Scope)
        requires
            old(self).sound(),
            scope.wf(),
        ensures
            final(self).wf(),
            final(self).scopes@ == old(self).scopes@.push(scope),
            final(self)@ == (State { scopes: old(self)@.scopes.push(scope@), ..old(self)@ }),
    {
        let ghost before = self.scopes@;
        self.scopes.push(scope);
        proof {
            assert(scopes_view(self.scopes@) =~= scopes_view(before).push(scope@));
        }
    }

    /// Ends the program by a failure.
    fn halt(&mut self, e: InterpretErrors) -> (action: Action)
        requires
            old(self).wf(),
        ensures
            final(self).wf(),
            step_view(final(self)@, action) == halt(old(self)@, e@),
    {
        let ghost before = self.scopes@;
        self.scopes.truncate(1);
        self.tasks.clear();
        self.values.clear();
        self.pending = Pending::Nothing;
        proof {
            assert(scopes_view(self.scopes@) =~= scopes_view(before).take(1));
            assert(tasks_view(self.tasks@) =~= Seq::<TaskView>::empty());
            assert(values_view(self.values@) =~= Seq::<Value>::empty());
        }
        Action::done(Err(e))
    }

    /// Puts a value on the value stack, or ends the program by a failure.
    fn settle(&mut self, r: Result<RuntimeValue, InterpretErrors>) -> (action: Action)
        requires
            old(self).wf(),
        ensures
            final(self).wf(),
            step_view(final(self)@, action) == settle(old(self)@, value_view(r)),
    {
        match r {
            Ok(v) => {
                self.push_value(v);
                Action::proceed()
            },
            Err(e) => self.halt(e),
        }
    }

    /// Puts a value on the value stack, asks the host for work on doubles,
    /// or ends the program by a failure.
    fn reduce(&mut self, r: Result<Reduced, InterpretErrors>) -> (action: Action)
        requires
            old(self).wf(),
        ensures
            final(self).wf(),
            step_view(final(self)@, action) == reduce(old(self)@, reduced_view(r)),
    {
        match r {
            Ok(Reduced::Value(v)) => {
                self.push_value(v);
                Action::proceed()
            },
            Ok(Reduced::Ask(t)) => {
                let again = t.clone();
                self.pending = Pending::Float(t);
                Action::compute(again)
            },
            Err(e) => self.halt(e),
        }
    }

    /// Puts a changed scope in the place of the innermost one and `v` on
    /// the value stack, or ends the program by a failure. `self` is the
    /// interpreter without its innermost scope, which `scope` was.
    fn rebind(
        &mut self,
        Ghost(before): Ghost<State>,
        r: Result<(), InterpretErrors>,
        scope: Scope,
        v: RuntimeValue,
    ) -> (action: Action)
        requires
            old(self).sound(),
            scope.wf(),
            before.scopes.len() >= 1,
            old(self)@ == (State { scopes: before.scopes.drop_last(), ..before }),
            r is Err ==> scope@ == top(before),
        ensures
            final(self).wf(),
            step_view(final(self)@, action) == rebind(before, scope_view(r, scope@), v@),
    {
        self.push_scope(scope);
        proof {
            assert(before.scopes.drop_last().push(top(before)) =~= before.scopes);
        }
        match r {
            Ok(_) => {
                self.push_value(v);
                Action::proceed()
            },
            Err(e) => self.halt(e),
        }
    }
}

/// The name that a node is, where it is a bare name.
pub fn ident(node: &AstNode) -> (r: Option<String>)
    ensures
        opt_text(r) == ident_name(node@),
{
    match node {
        AstNode::Identifier(name) => Some(name.clone()),
        _ => None,
    }
}

/// The names of a list of parameters.
pub fn param_names(params: &Vec<Param>) -> (r: Vec<String>)
    ensures
        names_view(r@) == params_view(params@).map_values(|p: ParamView| p.name),
{
    let mut out: Vec<String> = Vec::new();
    let mut i: usize = 0;
    while i < params.len()
        invariant
            i <= params.len(),
            out.len() == i,
            forall|k: int| 0 <= k < i ==> out[k]@ == params[k].name@,
        decreases params.len() - i,
    {
        out.push(params[i].name.clone());
        i += 1;
    }
    assert(names_view(out@) =~= params_view(params@).map_values(|p: ParamView| p.name));
    out
}

impl Interpreter {
    /// The innermost scope.
    fn scope(&self) -> (r: &Scope)
        requires
            self.wf(),
        ensures
            r.wf(),
            r@ == top(self@),
    {
        &self.scopes[self.scopes.len() - 1]
    }

    /// Sets the interpreter to finish with `task` after one operand.
    fn after_one(&mut self, task: Task, a: AstNode) -> (action: Action)
        requires
            old(self).wf(),
        ensures
            final(self).wf(),
            step_view(final(self)@, action) == after_one(old(self)@, task@, a@),
    {
        self.plan(task);
        self.plan(Task::eval(a));
        Action::proceed()
    }

    /// Sets the interpreter to finish with `task` after two operands, `a`
    /// first.
    fn after_two(&mut self, task: Task, a: AstNode, b: AstNode) -> (action: Action)
        requires
            old(self).wf(),
        ensures
            final(self).wf(),
            step_view(final(self)@, action) == after_two(old(self)@, task@, a@, b@),
    {
        self.plan(task);
        self.plan(Task::eval(b));
        self.plan(Task::eval(a));
        Action::proceed()
    }

    /// Sets the interpreter to evaluate `nodes`, the first of them first.
    fn schedule(&mut self, nodes: Vec<AstNode>)
        requires
            old(self).wf(),
        ensures
            final(self).wf(),
            final(self)@ == schedule(old(self)@, nodes_view(nodes@), 0),
    {
        let mut nodes = nodes;
        let ghost all = nodes_view(nodes@);
        let ghost start = self@;
        proof {
            lemma_nodes_view(nodes@);
        }
        while nodes.len() > 0
            invariant
                self.wf(),
                nodes.len() <= all.len(),
                forall|k: int| 0 <= k < nodes.len() ==> #[trigger] nodes[k]@ == all[k],
                self@ == schedule(start, all, nodes.len() as int),
            decreases nodes.len(),
        {
            let ghost j = nodes.len() as int;
            let last = nodes.pop();
            match last {
                Some(node) => {
                    assert(node@ == all[j - 1]);
                    self.plan(Task::eval(node));
                },
                None => {},
            }
        }
    }

    /// Starts a block.
    fn start_block(&mut self, nodes: Vec<AstNode>)
        ensures
            final(self).scopes == old(self).scopes,
            final(self)@ == start_block(old(self)@, nodes_view(nodes@)),
    {
        self.push_value(RuntimeValue::void());
        self.plan(Task::block(nodes, 0));
    }

    /// Binds `name` to `v` in the innermost scope and leaves `v`.
    fn put_and_leave(&mut self, name: String, v: RuntimeValue) -> (action: Action)
        requires
            old(self).wf(),
        ensures
            final(self).wf(),
            step_view(final(self)@, action) == go(
                push(with_top(old(self)@, put(top(old(self)@), name@, v@)), v@),
            ),
    {
        let again = v.clone();
        let mut scope = self.pop_scope();
        scope.bind(name, v);
        self.push_scope(scope);
        self.push_value(again);
        Action::proceed()
    }

    /// A postfix `++` or `--`.
    fn eval_postfix(&mut self, op: String, var: AstNode) -> (action: Action)
        requires
            old(self).wf(),
        ensures
            final(self).wf(),
            step_view(final(self)@, action) == eval_postfix(old(self)@, op@, var@),
    {
        match var {
            AstNode::Identifier(name) => match self.scope().lookup(name.as_str()) {
                None => self.halt(InterpretErrors::undefined_variable(name)),
                Some(v) => match v {
                    RuntimeValue::Number(n) => {
                        if text_is(op.as_str(), "++") {
                            self.put_and_leave(name, RuntimeValue::number(n.wrapping_add(1)))
                        } else if text_is(op.as_str(), "--") {
                            self.put_and_leave(name, RuntimeValue::number(n.wrapping_sub(1)))
                        } else {
                            self.halt(InterpretErrors::invalid_step(op))
                        }
                    },
                    _ => self.halt(InterpretErrors::invalid_step(op)),
                },
            },
            _ => self.halt(InterpretErrors::step_target()),
        }
    }

    /// A call.
    fn eval_call(&mut self, name: String, args: Vec<AstNode>) -> (action: Action)
        requires
            old(self).wf(),
        ensures
            final(self).wf(),
            step_view(final(self)@, action) == eval_call(old(self)@, name@, nodes_view(args@)),
    {
        proof {
            lemma_nodes_view(args@);
        }
        match self.scope().function(name.as_str()) {
            None => self.halt(InterpretErrors::undefined_function(name)),
            Some(f) => {
                if f.params.len() != args.len() {
                    self.halt(InterpretErrors::arity_mismatch(name, f.params.len(), args.len()))
                } else {
                    self.plan(Task::call(name, f.params, f.body));
                    self.schedule(args);
                    Action::proceed()
                }
            },
        }
    }

    /// An assignment.
    fn eval_assign(&mut self, left: AstNode, right: AstNode) -> (action: Action)
        requires
            old(self).wf(),
        ensures
            final(self).wf(),
            step_view(final(self)@, action) == eval_assign(old(self)@, left@, right@),
    {
        match left {
            AstNode::Identifier(name) => self.after_one(Task::assign_var(name), right),
            AstNode::Index { array, index } => {
                let target = ident(&array);
                self.plan(Task::assign_index(target));
                self.plan(Task::eval(*index));
                self.plan(Task::eval(*array));
                self.plan(Task::eval(right));
                Action::proceed()
            },
            _ => self.after_one(Task::invalid_assign(), right),
        }
    }

    /// The evaluation of a literal or a name.
    fn eval_leaf(&mut self, node: AstNode) -> (action: Action)
        requires
            old(self).wf(),
        ensures
            final(self).wf(),
            step_view(final(self)@, action) == eval_leaf(old(self)@, node@),
    {
        match node {
            AstNode::Number(n) => self.settle(Ok(RuntimeValue::number(n))),
            AstNode::Float(t) => {
                let task = FloatTask::literal(t);
                let again = task.clone();
                self.pending = Pending::Float(task);
                Action::compute(again)
            },
            AstNode::String(t) => self.settle(Ok(RuntimeValue::string(t))),
            AstNode::Regex(p) => self.settle(Ok(RuntimeValue::regex(p))),
            AstNode::Boolean(b) => self.settle(Ok(RuntimeValue::boolean(b))),
            AstNode::Identifier(name) => {
                let r = match self.scope().lookup(name.as_str()) {
                    Some(v) => Ok(v),
                    None => Err(InterpretErrors::undefined_variable(name)),
                };
                self.settle(r)
            },
            _ => self.settle(Ok(RuntimeValue::void())),
        }
    }

    /// The evaluation of a node that works on the values of its operands.
    fn eval_strict(&mut self, node: AstNode) -> (action: Action)
        requires
            old(self).wf(),
        ensures
            final(self).wf(),
            step_view(final(self)@, action) == eval_strict(old(self)@, node@),
    {
        match node {
            AstNode::Array(items) => {
                proof {
                    lemma_nodes_view(items@);
                }
                self.plan(Task::make_array(items.len()));
                self.schedule(items);
                Action::proceed()
            },
            AstNode::Index { array, index } => self.after_two(Task::index(), *array, *index),
            AstNode::MethodCall { object, method, args } => {
                proof {
                    lemma_nodes_view(args@);
                }
                let target = ident(&object);
                self.plan(Task::method(method, target, args.len()));
                self.schedule(args);
                self.plan(Task::eval(*object));
                Action::proceed()
            },
            AstNode::Assign { left, right } => self.eval_assign(*left, *right),
            AstNode::ToType { types, expr } => self.after_one(Task::convert(types), *expr),
            AstNode::Delete(expr) => {
                let name = ident(&expr);
                self.after_one(Task::delete(name), *expr)
            },
            AstNode::Return(expr) => self.after_one(Task::returning(), *expr),
            AstNode::Print { left } => self.after_one(Task::print(), *left),
            AstNode::Let { name, is_const, var_type, var_value } => self.after_one(
                Task::declare(name, is_const, var_type),
                *var_value,
            ),
            AstNode::Random { left, right } => self.after_two(Task::random(), *left, *right),
            AstNode::BinaryOp { op, left, right } => self.after_two(
                Task::binary(op),
                *left,
                *right,
            ),
            AstNode::TypeFunc { expr } => self.after_one(Task::type_of(), *expr),
            AstNode::Sleep { expr } => self.after_one(Task::sleep(), *expr),
            AstNode::Compile { expr, regex } => self.after_two(Task::compile(), *expr, *regex),
            AstNode::CompileAll { expr, regex } => self.after_two(
                Task::compile_all(),
                *expr,
                *regex,
            ),
            other => self.eval_leaf(other),
        }
    }

    /// Declares a function in the innermost scope.
    fn eval_function(&mut self, name: String, params: Vec<Param>, body: Vec<AstNode>) -> (action:
        Action)
        requires
            old(self).wf(),
        ensures
            final(self).wf(),
            step_view(final(self)@, action) == go(
                push(
                    with_top(
                        old(self)@,
                        declare(
                            top(old(self)@),
                            name@,
                            FunctionView {
                                params: params_view(params@).map_values(|p: ParamView| p.name),
                                body: nodes_view(body@),
                            },
                        ),
                    ),
                    Value::Void,
                ),
            ),
    {
        let names = param_names(&params);
        let mut scope = self.pop_scope();
        scope.define(name, FunctionDef { params: names, body });
        self.push_scope(scope);
        self.push_value(RuntimeValue::void());
        Action::proceed()
    }

    /// The evaluation of a node.
    fn eval(&mut self, node: AstNode) -> (action: Action)
        requires
            old(self).wf(),
        ensures
            final(self).wf(),
            step_view(final(self)@, action) == eval(old(self)@, node@),
    {
        match node {
            AstNode::Function { name, params, body } => self.eval_function(name, params, body),
            AstNode::FunctionCall { name, args } => self.eval_call(name, args),
            AstNode::Import { path } => {
                let again = path.clone();
                self.pending = Pending::Import { path };
                Action::import(again)
            },
            AstNode::Input { placeholder } => {
                self.pending = Pending::Input;
                Action::input(placeholder)
            },
            AstNode::If { condition, body, else_body } => self.after_one(
                Task::branch(body, else_body),
                *condition,
            ),
            AstNode::While { condition, body } => {
                let again = clone_node(&condition);
                self.after_one(Task::while_test(again, body), *condition)
            },
            AstNode::For { init, condition, increment, body } => self.after_one(
                Task::for_test(*condition, *increment, body),
                *init,
            ),
            AstNode::ForIn { var, iterable, body } => self.after_one(
                Task::for_in_start(var, body),
                *iterable,
            ),
            AstNode::UnaryOpTT { op, var } => self.eval_postfix(op, *var),
            other => self.eval_strict(other),
        }
    }
}

impl Interpreter {
    /// A method call on the receiver and the arguments.
    fn run_method(
        &mut self,
        method: String,
        target: Option<String>,
        object: RuntimeValue,
        args: Vec<RuntimeValue>,
    ) -> (action: Action)
        requires
            old(self).wf(),
        ensures
            final(self).wf(),
            step_view(final(self)@, action) == run_method(
                old(self)@,
                method@,
                opt_text(target),
                object@,
                values_view(args@),
            ),
    {
        proof {
            lemma_values_view(args@);
        }
        let mut args = args;
        match object {
            RuntimeValue::Array(items) => {
                if text_is(method.as_str(), "push") {
                    if args.len() != 1 {
                        return self.halt(InterpretErrors::arity_mismatch(method, 1, args.len()));
                    }
                    let mut items = items;
                    match args.pop() {
                        Some(item) => {
                            proof {
                                lemma_values_push(items@, item);
                            }
                            items.push(item);
                        },
                        None => {},
                    }
                    let longer = RuntimeValue::array(items);
                    self.store_and_leave(target, longer)
                } else {
                    self.halt(InterpretErrors::unsupported_method(method))
                }
            },
            RuntimeValue::String(text) => {
                if text_is(method.as_str(), "chars") {
                    if args.len() != 0 {
                        return self.halt(InterpretErrors::arity_mismatch(method, 0, args.len()));
                    }
                    self.settle(Ok(RuntimeValue::array(string_chars(text.as_str()))))
                } else {
                    self.halt(InterpretErrors::unsupported_method(method))
                }
            },
            _ => self.halt(InterpretErrors::unsupported_method(method)),
        }
    }

    /// Leaves `v`, and stores it under `target` where there is one.
    fn store_and_leave(&mut self, target: Option<String>, v: RuntimeValue) -> (action: Action)
        requires
            old(self).wf(),
        ensures
            final(self).wf(),
            step_view(final(self)@, action) == match opt_text(target) {
                Some(name) => rebind(old(self)@, store(top(old(self)@), name, v@), v@),
                None => go(push(old(self)@, v@)),
            },
    {
        match target {
            Some(name) => {
                let again = v.clone();
                let ghost before = self@;
                let mut scope = self.pop_scope();
                let r = scope.store(name, v);
                self.rebind(Ghost(before), r, scope, again)
            },
            None => self.settle(Ok(v)),
        }
    }

    /// An assignment to an element.
    fn run_assign_index(
        &mut self,
        target: Option<String>,
        value: RuntimeValue,
        array: RuntimeValue,
        index: RuntimeValue,
    ) -> (action: Action)
        requires
            old(self).wf(),
        ensures
            final(self).wf(),
            step_view(final(self)@, action) == run_assign_index(
                old(self)@,
                opt_text(target),
                value@,
                array@,
                index@,
            ),
    {
        match array {
            RuntimeValue::Array(items) => match index {
                RuntimeValue::Number(i) => {
                    proof {
                        lemma_values_view(items@);
                    }
                    if i < 0 || (i as u64) >= items.len() as u64 {
                        return self.halt(InterpretErrors::index_out_of_bounds(i, items.len()));
                    }
                    let mut items = items;
                    let ghost before = values_view(items@);
                    items.set(i as usize, value);
                    proof {
                        lemma_values_view(items@);
                        assert(values_view(items@) =~= before.update(i as int, value@));
                    }
                    self.store_and_leave(target, RuntimeValue::array(items))
                },
                _ => self.halt(InterpretErrors::not_indexable()),
            },
            _ => self.halt(InterpretErrors::not_indexable()),
        }
    }

    /// The entry into a function.
    fn run_call(&mut self, params: Vec<String>, body: Vec<AstNode>) -> (action: Action)
        requires
            old(self).wf(),
        ensures
            final(self).wf(),
            step_view(final(self)@, action) == run_call(
                old(self)@,
                names_view(params@),
                nodes_view(body@),
            ),
    {
        let ghost before = self@;
        match self.take_many(params.len()) {
            None => self.halt(InterpretErrors::exhausted()),
            Some(args) => {
                let inner = self.scope().for_call(&params, args);
                self.push_scope(inner);
                self.plan(Task::end_call());
                self.start_block(body);
                Action::proceed()
            },
        }
    }

    /// A block or nothing, by the value of a condition.
    fn run_branch(
        &mut self,
        body: Vec<AstNode>,
        else_body: Option<Vec<AstNode>>,
        c: RuntimeValue,
    ) -> (action: Action)
        requires
            old(self).wf(),
        ensures
            final(self).wf(),
            step_view(final(self)@, action) == run_branch(
                old(self)@,
                nodes_view(body@),
                opt_nodes_view(else_body),
                c@,
            ),
    {
        let chosen = match c {
            RuntimeValue::Boolean(b) => Some(b),
            RuntimeValue::Number(n) => Some(n > 0),
            _ => None,
        };
        match chosen {
            Some(true) => {
                self.start_block(body);
                Action::proceed()
            },
            Some(false) => match else_body {
                Some(nodes) => {
                    self.start_block(nodes);
                    Action::proceed()
                },
                None => self.settle(Ok(RuntimeValue::void())),
            },
            None => self.halt(InterpretErrors::condition_mismatch()),
        }
    }

    /// Starts a loop over items.
    fn start_each(&mut self, var: String, items: Vec<RuntimeValue>, body: Vec<AstNode>) -> (action:
        Action)
        requires
            old(self).wf(),
        ensures
            final(self).wf(),
            step_view(final(self)@, action) == go(
                plan(
                    push(old(self)@, Value::Void),
                    TaskView::Each {
                        var: var@,
                        items: values_view(items@),
                        next: 0,
                        body: nodes_view(body@),
                    },
                ),
            ),
    {
        self.push_value(RuntimeValue::void());
        self.plan(Task::each(var, items, 0, body));
        Action::proceed()
    }

    /// The start of a loop over a value.
    fn run_for_in(&mut self, var: String, body: Vec<AstNode>, v: RuntimeValue) -> (action: Action)
        requires
            old(self).wf(),
        ensures
            final(self).wf(),
            step_view(final(self)@, action) == run_for_in(
                old(self)@,
                var@,
                nodes_view(body@),
                v@,
            ),
    {
        match interpret_constant(v) {
            RuntimeValue::Array(items) => self.start_each(var, items, body),
            RuntimeValue::Number(n) => {
                if n >= 1 {
                    self.push_value(RuntimeValue::void());
                    self.plan(Task::range(var, 1, n, body));
                    Action::proceed()
                } else {
                    self.settle(Ok(RuntimeValue::void()))
                }
            },
            RuntimeValue::String(text) => self.start_each(var, string_chars(text.as_str()), body),
            _ => self.halt(InterpretErrors::not_iterable()),
        }
    }

    /// One round of a loop over items.
    fn run_each(
        &mut self,
        var: String,
        items: Vec<RuntimeValue>,
        next: usize,
        body: Vec<AstNode>,
    ) -> (action: Action)
        requires
            old(self).wf(),
        ensures
            final(self).wf(),
            step_view(final(self)@, action) == run_each(
                old(self)@,
                var@,
                values_view(items@),
                next,
                nodes_view(body@),
            ),
    {
        proof {
            lemma_values_view(items@);
        }
        if next < items.len() {
            let item = items[next].clone();
            let ghost before = self@;
            let mut scope = self.pop_scope();
            let r = scope.store(var.clone(), item);
            self.push_scope(scope);
            proof {
                assert(before.scopes.drop_last().push(top(before)) =~= before.scopes);
            }
            match r {
                Err(e) => self.halt(e),
                Ok(_) => {
                    let again = clone_nodes(&body);
                    self.plan(Task::each(var, items, next + 1, body));
                    self.start_block(again);
                    Action::proceed()
                },
            }
        } else {
            self.settle(Ok(RuntimeValue::void()))
        }
    }

    /// One round of a loop over integers.
    fn run_range(&mut self, var: String, next: i64, last: i64, body: Vec<AstNode>) -> (action:
        Action)
        requires
            old(self).wf(),
        ensures
            final(self).wf(),
            step_view(final(self)@, action) == run_range(
                old(self)@,
                var@,
                next,
                last,
                nodes_view(body@),
            ),
    {
        if next <= last {
            let ghost before = self@;
            let mut scope = self.pop_scope();
            let r = scope.store(var.clone(), RuntimeValue::number(next));
            self.push_scope(scope);
            proof {
                assert(before.scopes.drop_last().push(top(before)) =~= before.scopes);
            }
            match r {
                Err(e) => self.halt(e),
                Ok(_) => {
                    let again = clone_nodes(&body);
                    if next < last {
                        self.plan(Task::range(var, next + 1, last, body));
                    } else {
                        self.plan(Task::settle());
                    }
                    self.start_block(again);
                    Action::proceed()
                },
            }
        } else {
            self.settle(Ok(RuntimeValue::void()))
        }
    }
}

impl Interpreter {
    /// Drops the binding of `name` and leaves the empty value.
    fn run_delete(&mut self, name: String) -> (action: Action)
        requires
            old(self).wf(),
        ensures
            final(self).wf(),
            step_view(final(self)@, action) == go(
                push(with_top(old(self)@, forget(top(old(self)@), name@)), Value::Void),
            ),
    {
        let mut scope = self.pop_scope();
        scope.unbind(name.as_str());
        self.push_scope(scope);
        self.push_value(RuntimeValue::void());
        Action::proceed()
    }

    /// Leaves a function.
    fn run_end_call(&mut self, v: RuntimeValue) -> (action: Action)
        requires
            old(self).wf(),
        ensures
            final(self).wf(),
            step_view(final(self)@, action) == run_unary(old(self)@, TaskView::EndCall, v@),
    {
        if self.scopes.len() > 1 {
            let inner = self.pop_scope();
            self.push_value(unwrap_return(v));
            Action::proceed()
        } else {
            self.halt(InterpretErrors::exhausted())
        }
    }

    /// Has a value written.
    fn run_print(&mut self, v: RuntimeValue) -> (action: Action)
        requires
            old(self).wf(),
        ensures
            final(self).wf(),
            step_view(final(self)@, action) == run_unary(old(self)@, TaskView::Print, v@),
    {
        self.push_value(RuntimeValue::void());
        Action::print(render(&v))
    }

    /// Has the host wait.
    fn run_sleep(&mut self, v: RuntimeValue) -> (action: Action)
        requires
            old(self).wf(),
        ensures
            final(self).wf(),
            step_view(final(self)@, action) == run_unary(old(self)@, TaskView::Sleep, v@),
    {
        match v {
            RuntimeValue::Number(n) => {
                self.push_value(RuntimeValue::void());
                Action::sleep(Num::Int(n))
            },
            RuntimeValue::Float(t) => {
                self.push_value(RuntimeValue::void());
                Action::sleep(Num::Float(t))
            },
            _ => self.halt(InterpretErrors::sleep_mismatch()),
        }
    }

    /// Runs the body of a loop if the condition gave `true`, with `after`
    /// to follow it; else ends the loop.
    fn run_test(&mut self, v: RuntimeValue, after: Task, body: Vec<AstNode>) -> (action: Action)
        requires
            old(self).wf(),
        ensures
            final(self).wf(),
            step_view(final(self)@, action) == if v@ == Value::Boolean(true) {
                go(start_block(plan(old(self)@, after@), nodes_view(body@)))
            } else {
                go(push(old(self)@, Value::Void))
            },
    {
        let yes = match v {
            RuntimeValue::Boolean(b) => b,
            _ => false,
        };
        if yes {
            self.plan(after);
            self.start_block(body);
            Action::proceed()
        } else {
            self.settle(Ok(RuntimeValue::void()))
        }
    }

    /// One statement of a block.
    fn run_block(&mut self, nodes: Vec<AstNode>, next: usize, v: RuntimeValue) -> (action: Action)
        requires
            old(self).wf(),
        ensures
            final(self).wf(),
            step_view(final(self)@, action) == run_unary(
                old(self)@,
                TaskView::Block { nodes: nodes_view(nodes@), next },
                v@,
            ),
    {
        proof {
            lemma_nodes_view(nodes@);
        }
        let leaving = match v {
            RuntimeValue::ReturnValue(_) => true,
            _ => false,
        };
        if leaving || next >= nodes.len() {
            self.settle(Ok(v))
        } else {
            let node = clone_node(&nodes[next]);
            self.plan(Task::block(nodes, next + 1));
            self.plan(Task::eval(node));
            Action::proceed()
        }
    }

    /// A declaration or an assignment of `v` to a name.
    fn run_bind(&mut self, task: Task, v: RuntimeValue) -> (action: Action)
        requires
            old(self).wf(),
            task@ is AssignVar || task@ is Let,
        ensures
            final(self).wf(),
            step_view(final(self)@, action) == run_unary(old(self)@, task@, v@),
    {
        let ghost before = self@;
        let mut scope = self.pop_scope();
        match task {
            Task::AssignVar { name } => {
                let r = scope.assign(name, v);
                self.rebind(Ghost(before), r, scope, RuntimeValue::void())
            },
            Task::Let { name, is_const, var_type } => {
                let r = scope.introduce(name, is_const, var_type, v);
                self.rebind(Ghost(before), r, scope, RuntimeValue::void())
            },
            _ => {
                self.push_scope(scope);
                proof {
                    assert(before.scopes.drop_last().push(top(before)) =~= before.scopes);
                }
                self.halt(InterpretErrors::exhausted())
            },
        }
    }

    /// A task of a loop, which has taken the value `v`.
    fn run_loop(&mut self, task: Task, v: RuntimeValue) -> (action: Action)
        requires
            old(self).wf(),
            task@ is WhileTest || task@ is WhileNext || task@ is ForTest || task@ is ForBody
                || task@ is ForStep || task@ is ForInStart || task@ is Each || task@ is Range,
        ensures
            final(self).wf(),
            step_view(final(self)@, action) == run_unary(old(self)@, task@, v@),
    {
        let leaving = match v {
            RuntimeValue::ReturnValue(_) => true,
            _ => false,
        };
        let after_body = match task {
            Task::WhileNext { .. } => true,
            Task::ForStep { .. } => true,
            Task::Each { .. } => true,
            Task::Range { .. } => true,
            _ => false,
        };
        if leaving && after_body {
            return self.settle(Ok(v));
        }
        match task {
            Task::WhileTest { condition, body } => {
                let again = clone_nodes(&body);
                self.run_test(v, Task::while_next(condition, body), again)
            },
            Task::WhileNext { condition, body } => {
                let again = clone_node(&condition);
                self.after_one(Task::while_test(condition, body), again)
            },
            Task::ForTest { condition, increment, body } => {
                let again = clone_node(&condition);
                self.after_one(Task::for_body(condition, increment, body), again)
            },
            Task::ForBody { condition, increment, body } => {
                let again = clone_nodes(&body);
                self.run_test(v, Task::for_step(condition, increment, body), again)
            },
            Task::ForStep { condition, increment, body } => {
                let again = clone_node(&increment);
                self.after_one(Task::for_test(condition, increment, body), again)
            },
            Task::ForInStart { var, body } => self.run_for_in(var, body, v),
            Task::Each { var, items, next, body } => self.run_each(var, items, next, body),
            Task::Range { var, next, last, body } => self.run_range(var, next, last, body),
            _ => self.halt(InterpretErrors::exhausted()),
        }
    }

    /// A task that takes one value, which has been taken off the stack.
    fn run_unary(&mut self, task: Task, v: RuntimeValue) -> (action: Action)
        requires
            old(self).wf(),
        ensures
            final(self).wf(),
            step_view(final(self)@, action) == run_unary(old(self)@, task@, v@),
    {
        match task {
            Task::AssignVar { name } => self.run_bind(Task::assign_var(name), v),
            Task::Let { name, is_const, var_type } => self.run_bind(
                Task::declare(name, is_const, var_type),
                v,
            ),
            Task::InvalidAssign => self.halt(InterpretErrors::invalid_target()),
            Task::Convert { types } => self.reduce(convert(v, types)),
            Task::Delete { name } => match name {
                Some(n) => self.run_delete(n),
                None => self.settle(Ok(v)),
            },
            Task::Return => self.settle(Ok(RuntimeValue::return_value(v))),
            Task::EndCall => self.run_end_call(v),
            Task::Print => self.run_print(v),
            Task::Branch { body, else_body } => self.run_branch(body, else_body, v),
            Task::TypeOf => self.settle(Ok(RuntimeValue::string(kind_word(&v)))),
            Task::Sleep => self.run_sleep(v),
            Task::Settle => match v {
                RuntimeValue::ReturnValue(_) => self.settle(Ok(v)),
                _ => self.settle(Ok(RuntimeValue::void())),
            },
            Task::Block { nodes, next } => self.run_block(nodes, next, v),
            Task::WhileTest { condition, body } => self.run_loop(
                Task::while_test(condition, body),
                v,
            ),
            Task::WhileNext { condition, body } => self.run_loop(
                Task::while_next(condition, body),
                v,
            ),
            Task::ForTest { condition, increment, body } => self.run_loop(
                Task::for_test(condition, increment, body),
                v,
            ),
            Task::ForBody { condition, increment, body } => self.run_loop(
                Task::for_body(condition, increment, body),
                v,
            ),
            Task::ForStep { condition, increment, body } => self.run_loop(
                Task::for_step(condition, increment, body),
                v,
            ),
            Task::ForInStart { var, body } => self.run_loop(Task::for_in_start(var, body), v),
            Task::Each { var, items, next, body } => self.run_loop(
                Task::each(var, items, next, body),
                v,
            ),
            Task::Range { var, next, last, body } => self.run_loop(
                Task::range(var, next, last, body),
                v,
            ),
            _ => self.halt(InterpretErrors::exhausted()),
        }
    }

    /// A task that takes two values, which have been taken off the stack.
    fn run_binary(&mut self, task: Task, a: RuntimeValue, b: RuntimeValue, draw: i64) -> (action:
        Action)
        requires
            old(self).wf(),
        ensures
            final(self).wf(),
            step_view(final(self)@, action) == run_binary(old(self)@, task@, a@, b@, draw),
    {
        match task {
            Task::Index => self.settle(index_value(&a, &b)),
            Task::Random => {
                let both = match a {
                    RuntimeValue::Number(_) => match b {
                        RuntimeValue::Number(_) => true,
                        _ => false,
                    },
                    _ => false,
                };
                if both {
                    self.settle(Ok(RuntimeValue::number(draw)))
                } else {
                    self.halt(InterpretErrors::random_mismatch())
                }
            },
            Task::Binary { op } => self.reduce(eval_binop(op.as_str(), a, b)),
            Task::Compile => self.settle(compile(&a, &b)),
            Task::CompileAll => self.settle(compile_all(&a, &b)),
            _ => self.halt(InterpretErrors::exhausted()),
        }
    }

    /// A method call, whose receiver and arguments are on the value stack.
    fn run_method_task(&mut self, method: String, target: Option<String>, argc: usize) -> (action:
        Action)
        requires
            old(self).wf(),
        ensures
            final(self).wf(),
            step_view(final(self)@, action) == run(
                old(self)@,
                TaskView::Method { method: method@, target: opt_text(target), argc },
                0,
            ),
    {
        let ghost before = self@;
        if self.values.len() <= argc {
            proof {
                lemma_values_view(self.values@);
            }
            return self.halt(InterpretErrors::exhausted());
        }
        proof {
            lemma_values_view(self.values@);
        }
        match self.take_many(argc) {
            Some(args) => match self.take_one() {
                Some(object) => {
                    proof {
                        assert(self@.values =~= before.values.take(
                            before.values.len() - (argc + 1),
                        ));
                    }
                    self.run_method(method, target, object, args)
                },
                None => self.halt(InterpretErrors::exhausted()),
            },
            None => self.halt(InterpretErrors::exhausted()),
        }
    }

    /// An assignment to an element, whose operands are on the value stack.
    fn run_assign_index_task(&mut self, target: Option<String>) -> (action: Action)
        requires
            old(self).wf(),
        ensures
            final(self).wf(),
            step_view(final(self)@, action) == run(
                old(self)@,
                TaskView::AssignIndex { target: opt_text(target) },
                0,
            ),
    {
        let ghost before = self@;
        if self.values.len() < 3 {
            proof {
                lemma_values_view(self.values@);
            }
            return self.halt(InterpretErrors::exhausted());
        }
        proof {
            lemma_values_view(self.values@);
        }
        match self.take_two() {
            Some(pair) => match self.take_one() {
                Some(value) => {
                    proof {
                        assert(self@.values =~= before.values.take(before.values.len() - 3));
                    }
                    self.run_assign_index(target, value, pair.0, pair.1)
                },
                None => self.halt(InterpretErrors::exhausted()),
            },
            None => self.halt(InterpretErrors::exhausted()),
        }
    }

    /// Gathers the last `count` values into an array.
    fn run_make_array(&mut self, count: usize) -> (action: Action)
        requires
            old(self).wf(),
        ensures
            final(self).wf(),
            step_view(final(self)@, action) == run(
                old(self)@,
                TaskView::MakeArray { count },
                0,
            ),
    {
        match self.take_many(count) {
            Some(items) => self.settle(Ok(RuntimeValue::array(items))),
            None => self.halt(InterpretErrors::exhausted()),
        }
    }

    /// What a task does. It has been taken off the control stack.
    fn run_task(&mut self, task: Task, draw: i64) -> (action: Action)
        requires
            old(self).wf(),
        ensures
            final(self).wf(),
            step_view(final(self)@, action) == run(old(self)@, task@, draw),
    {
        match task {
            Task::Eval(node) => self.eval(node),
            Task::MakeArray { count } => self.run_make_array(count),
            Task::Method { method, target, argc } => self.run_method_task(method, target, argc),
            Task::Call { name, params, body } => {
                proof {
                    lemma_values_view(self.values@);
                }
                self.run_call(params, body)
            },
            Task::AssignIndex { target } => self.run_assign_index_task(target),
            Task::Index => self.run_pair(Task::index(), draw),
            Task::Random => self.run_pair(Task::random(), draw),
            Task::Binary { op } => self.run_pair(Task::binary(op), draw),
            Task::Compile => self.run_pair(Task::compile(), draw),
            Task::CompileAll => self.run_pair(Task::compile_all(), draw),
            other => match self.take_one() {
                Some(v) => self.run_unary(other, v),
                None => self.halt(InterpretErrors::exhausted()),
            },
        }
    }

    /// A task that takes two values, which are on the value stack.
    fn run_pair(&mut self, task: Task, draw: i64) -> (action: Action)
        requires
            old(self).wf(),
            arity(task@) == 2,
            !(task@ is Eval) && !(task@ is MakeArray) && !(task@ is Method) && !(task@ is Call) && !(
            task@ is AssignIndex),
        ensures
            final(self).wf(),
            step_view(final(self)@, action) == run(old(self)@, task@, draw),
    {
        match self.take_two() {
            Some(pair) => self.run_binary(task, pair.0, pair.1, draw),
            None => self.halt(InterpretErrors::exhausted()),
        }
    }

    /// Runs the text of an imported file.
    fn load(&mut self, path: String, text: String) -> (action: Action)
        requires
            old(self).wf(),
        ensures
            final(self).wf(),
            step_view(final(self)@, action) == load(old(self)@, path@, text@),
    {
        match lex(text.as_str()) {
            Err(errors) => {
                let first = errors[0];
                self.halt(InterpretErrors::import_failed(path, first.message()))
            },
            Ok(tokens) => {
                let mut parser = Parser::new(tokens);
                match parser.parse() {
                    Ok(nodes) => {
                        self.start_block(nodes);
                        Action::proceed()
                    },
                    Err(errors) => {
                        let message = errors[0].message();
                        self.halt(InterpretErrors::import_failed(path, message))
                    },
                }
            },
        }
    }

    /// Takes the answer of the host.
    fn resume(&mut self, event: Event) -> (action: Action)
        requires
            old(self).wf(),
        ensures
            final(self).wf(),
            step_view(final(self)@, action) == resume(old(self)@, event@),
    {
        let mut waited = Pending::Nothing;
        core::mem::swap(&mut self.pending, &mut waited);
        match waited {
            Pending::Input => match event {
                Event::Line(text) => self.settle(
                    Ok(RuntimeValue::string(strip_line_end(text.as_str()))),
                ),
                _ => self.halt(InterpretErrors::unexpected_reply()),
            },
            Pending::Import { path } => match event {
                Event::Source(text) => self.load(path, text),
                Event::Failed(message) => self.halt(InterpretErrors::import_failed(path, message)),
                _ => self.halt(InterpretErrors::unexpected_reply()),
            },
            Pending::Float(task) => self.settle(finish_float(&task, event)),
            Pending::Nothing => Action::proceed(),
        }
    }

    /// Ends the program with the value that is left.
    fn finish(&mut self) -> (action: Action)
        requires
            old(self).wf(),
        ensures
            final(self).wf(),
            step_view(final(self)@, action) == finish(old(self)@),
    {
        proof {
            lemma_values_view(self.values@);
        }
        let v = match self.values.pop() {
            Some(v) => v,
            None => RuntimeValue::void(),
        };
        self.values.clear();
        proof {
            assert(values_view(self.values@) =~= Seq::<Value>::empty());
        }
        Action::done(Ok(v))
    }

    /// One step, with the integer to use where the step draws one.
    pub fn step_with(&mut self, event: Event, draw: i64) -> (action: Action)
        requires
            old(self).wf(),
        ensures
            final(self).wf(),
            step_view(final(self)@, action) == step_spec(old(self)@, event@, draw),
    {
        let waiting = match self.pending {
            Pending::Nothing => false,
            _ => true,
        };
        if waiting {
            self.resume(event)
        } else {
            let ghost before = tasks_view(self.tasks@);
            match self.tasks.pop() {
                None => self.finish(),
                Some(task) => {
                    proof {
                        assert(tasks_view(self.tasks@) =~= before.drop_last());
                    }
                    self.run_task(task, draw)
                },
            }
        }
    }

    /// A run of as many steps as `events` and `draws` both have items: step
    /// `k` takes `events[k]` as the answer of the host and, where it draws
    /// an integer, `draws[k]`. The actions of the steps come back in order.
    /// With the answers and the integers given, the run is fixed.
    pub fn run_steps(&mut self, events: Vec<Event>, draws: &Vec<i64>) -> (actions: Vec<Action>)
        requires
            old(self).wf(),
        ensures
            final(self).wf(),
            final(self)@ == after_steps(
                old(self)@,
                events_view(events@),
                draws@,
                steps_of(events@.len(), draws@.len()),
            ),
            actions_view(actions@) == actions_of(
                old(self)@,
                events_view(events@),
                draws@,
                steps_of(events@.len(), draws@.len()),
            ),
    {
        let ghost all = events@;
        let ghost start = self@;
        let n = if events.len() <= draws.len() {
            events.len()
        } else {
            draws.len()
        };
        let mut left = events;
        let mut actions: Vec<Action> = Vec::new();
        let mut k: usize = 0;
        proof {
            assert(left@ =~= all.subrange(0, all.len() as int));
            assert(actions_view(actions@) =~= Seq::<ActionView>::empty());
        }
        while k < n
            invariant
                self.wf(),
                n == steps_of(all.len(), draws@.len()),
                k <= n,
                left@ == all.subrange(k as int, all.len() as int),
                self@ == after_steps(start, events_view(all), draws@, k as int),
                actions_view(actions@) == actions_of(start, events_view(all), draws@, k as int),
            decreases n - k,
        {
            let event = left.remove(0);
            let action = self.step_with(event, draws[k]);
            proof {
                assert(event == all[k as int]);
                assert(events_view(all)[k as int] == event@);
                assert(left@ =~= all.subrange(k + 1, all.len() as int));
                assert(actions_view(actions@.push(action)) =~= actions_view(actions@).push(
                    action@,
                ));
            }
            actions.push(action);
            k = k + 1;
        }
        actions
    }

    /// The bounds between which the next step draws an integer, where it
    /// draws one.
    pub fn next_draw(&self) -> (r: Option<(i64, i64)>)
        requires
            self.wf(),
        ensures
            r == draw_bounds(self@),
    {
        proof {
            lemma_values_view(self.values@);
        }
        let idle = match self.pending {
            Pending::Nothing => true,
            _ => false,
        };
        if !idle || self.tasks.len() == 0 || self.values.len() < 2 {
            return None;
        }
        let random = match &self.tasks[self.tasks.len() - 1] {
            Task::Random => true,
            _ => false,
        };
        if !random {
            return None;
        }
        match &self.values[self.values.len() - 2] {
            RuntimeValue::Number(a) => match &self.values[self.values.len() - 1] {
                RuntimeValue::Number(b) => if *a <= *b {
                    Some((*a, *b))
                } else {
                    Some((*b, *a))
                },
                _ => None,
            },
            _ => None,
        }
    }

    /// One step. Where the interpreter waits for an answer of the host,
    /// `event` is the answer; else it is not looked at. The action that
    /// comes back says what the host is to do before the next step. Where
    /// the step draws a random integer, it lies between the two bounds.
    pub fn step(&mut self, event: Event) -> (action: Action)
        requires
            old(self).wf(),
        ensures
            final(self).wf(),
            exists|draw: i64|
                (draw_bounds(old(self)@) matches Some(b) ==> b.0 <= draw <= b.1) && step_view(
                    final(self)@,
                    action,
                ) == #[trigger] step_spec(old(self)@, event@, draw),
    {
        let draw = match self.next_draw() {
            Some(b) => random_between(b.0, b.1),
            None => 0,
        };
        self.step_with(event, draw)
    }

    /// Sets the interpreter to run a program from its first statement. The
    /// bindings and functions of the outermost scope stay.
    pub fn interpret(&mut self, nodes: Vec<AstNode>)
        requires
            old(self).wf(),
        ensures
            final(self).wf(),
            final(self)@ == loaded(old(self)@, nodes_view(nodes@)),
    {
        let ghost before = self.scopes@;
        self.scopes.truncate(1);
        self.tasks.clear();
        self.values.clear();
        self.pending = Pending::Nothing;
        proof {
            assert(scopes_view(self.scopes@) =~= scopes_view(before).take(1));
            assert(tasks_view(self.tasks@) =~= Seq::<TaskView>::empty());
            assert(values_view(self.values@) =~= Seq::<Value>::empty());
        }
        self.start_block(nodes);
    }

    /// Sets the interpreter to run one statement.
    pub fn interpret_single(&mut self, node: AstNode)
        requires
            old(self).wf(),
        ensures
            final(self).wf(),
            final(self)@ == loaded(old(self)@, seq![node@]),
    {
        let mut nodes: Vec<AstNode> = Vec::new();
        nodes.push(node);
        proof {
            lemma_nodes_view(nodes@);
            assert(nodes_view(nodes@) =~= seq![node@]);
        }
        self.interpret(nodes)
    }
}

} // verus!
