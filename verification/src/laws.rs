//! What holds of every program: laws of the scopes and of the steps of the
//! interpreter, proved from the rules in `machine`.

use crate::ast::Ast;
use crate::errors::ErrorView;
use crate::host::EventView;
use crate::machine::{
    actions_of, after_steps, eval, eval_postfix, go, halt, plan, push, resume, run,
    run_assign_index, run_call, run_for_in, run_unary, start_block, step_spec, top, with_top,
    State,
};
use crate::scope::{is_const, put};
use crate::task::TaskView;
use crate::value::Value;
use vstd::prelude::*;

verus! {

/// An assignment to a constant ends the program with a failure.
pub proof fn lemma_constant_rejects_assignment(s: State, name: Seq<char>, v: Value)
    requires
        s.scopes.len() >= 1,
        is_const(top(s), name),
    ensures
        run_unary(s, TaskView::AssignVar { name }, v) == halt(
            s,
            ErrorView::ConstViolation { name },
        ),
{
}

/// A `++` or `--` on a constant ends the program with a failure.
pub proof fn lemma_constant_rejects_step(s: State, name: Seq<char>, op: Seq<char>)
    requires
        s.scopes.len() >= 1,
        is_const(top(s), name),
    ensures
        eval_postfix(s, op, Ast::Identifier(name)) == halt(s, ErrorView::InvalidStep { op }),
{
}

/// An assignment to an element of a constant ends the program with a
/// failure, whatever the operands are.
pub proof fn lemma_constant_rejects_element(
    s: State,
    name: Seq<char>,
    value: Value,
    array: Value,
    index: Value,
)
    requires
        s.scopes.len() >= 1,
        is_const(top(s), name),
    ensures
        run_assign_index(s, Some(name), value, array, index).1 is Done,
        run_assign_index(s, Some(name), value, array, index).1->Done_0 is Err,
{
}

/// Whether the next step of `s` is the `del` of the name.
pub open spec fn deletes(s: State, name: Seq<char>) -> bool {
    s.pending is Nothing && s.tasks.len() > 0 && s.tasks.last() == (TaskView::Delete {
        name: Some(name),
    })
}

/// Const immutability. A constant keeps its value through every step but
/// its own `del`: no assignment, declaration, method call, loop or `++`
/// changes the binding, as long as its scope is there.
pub proof fn lemma_constant_persists(s: State, event: EventView, draw: i64, name: Seq<char>)
    requires
        s.scopes.len() >= 1,
        is_const(top(s), name),
        !deletes(s, name),
    ensures
        ({
            let after = step_spec(s, event, draw).0;
            let t = s.scopes.len() - 1;
            after.scopes.len() > t ==> after.scopes[t].variables.contains_key(name)
                && after.scopes[t].variables[name] == top(s).variables[name]
        }),
{
    if !(s.pending is Nothing) {
    } else if s.tasks.len() == 0 {
    } else {
        let rest = State { tasks: s.tasks.drop_last(), ..s };
        match s.tasks.last() {
            TaskView::Eval(node) => {
                match node {
                    Ast::Array(items) => {
                        lemma_schedule_keeps_scopes(
                            plan(rest, TaskView::MakeArray { count: items.len() as usize }),
                            items,
                            0,
                        );
                    },
                    Ast::MethodCall { object, method, args } => {
                        lemma_schedule_keeps_scopes(
                            plan(
                                rest,
                                TaskView::Method {
                                    method,
                                    target: crate::machine::ident_name(*object),
                                    argc: args.len() as usize,
                                },
                            ),
                            args,
                            0,
                        );
                    },
                    Ast::FunctionCall { name: callee_name, args } => {
                        match crate::scope::callee(top(rest), callee_name) {
                            Some(f) => {
                                lemma_schedule_keeps_scopes(
                                    plan(
                                        rest,
                                        TaskView::Call {
                                            name: callee_name,
                                            params: f.params,
                                            body: f.body,
                                        },
                                    ),
                                    args,
                                    0,
                                );
                            },
                            None => {},
                        }
                    },
                    _ => {},
                }
            },
            _ => {},
        }
    }
}

/// Type stability. A binding that holds an integer takes only integers:
/// the assignment of any other value ends the program with a failure, and
/// the scope of the program is after it what it was; the assignment of an
/// integer binds the name to that integer and changes nothing else.
pub proof fn lemma_integer_rejects_other_kinds(s: State, name: Seq<char>, v: Value)
    requires
        s.scopes.len() >= 1,
        top(s).variables.contains_key(name),
        top(s).variables[name] is Number,
    ensures
        !(v is Number) ==> run_unary(s, TaskView::AssignVar { name }, v) == halt(
            s,
            ErrorView::AssignMismatch { name },
        ),
        !(v is Number) ==> halt(s, ErrorView::AssignMismatch { name }).0.scopes[0] == s.scopes[0],
        v is Number ==> run_unary(s, TaskView::AssignVar { name }, v) == go(
            push(with_top(s, put(top(s), name, v)), Value::Void),
        ),
{
}

/// Determinism. A run is a function of the state it starts from, of the
/// answers of the host (the lines read, the files imported, the results of
/// arithmetic on doubles) and of the integers drawn: two runs that agree in
/// these go through the same states, bindings and functions included, and
/// hand the same actions to the host, what they print and their result
/// among them.
pub proof fn lemma_same_inputs_same_run(
    a: State,
    b: State,
    events_a: Seq<EventView>,
    events_b: Seq<EventView>,
    draws_a: Seq<i64>,
    draws_b: Seq<i64>,
    n: int,
)
    requires
        a == b,
        events_a.len() == events_b.len(),
        draws_a.len() == draws_b.len(),
        forall|k: int| 0 <= k < n && k < events_a.len() ==> events_a[k] == events_b[k],
        forall|k: int| 0 <= k < n && k < draws_a.len() ==> draws_a[k] == draws_b[k],
    ensures
        after_steps(a, events_a, draws_a, n) == after_steps(b, events_b, draws_b, n),
        actions_of(a, events_a, draws_a, n) == actions_of(b, events_b, draws_b, n),
    decreases n,
{
    if n > 0 {
        lemma_same_inputs_same_run(a, b, events_a, events_b, draws_a, draws_b, n - 1);
    }
}

/// Whether a step from `before` to `after` has left alone every scope but
/// the innermost of `before`: the scopes below it are in `after` what they
/// were, as far as `after` still has them.
pub open spec fn keeps_outer_scopes(before: State, after: State) -> bool {
    &&& after.scopes.len() >= 1
    &&& forall|i: int|
        0 <= i < before.scopes.len() - 1 && i < after.scopes.len() ==> #[trigger] after.scopes[i]
            == before.scopes[i]
}

/// A step reads and changes no scope but the innermost: a function works in
/// a scope of its own, and the scopes of its callers are out of its reach.
pub proof fn lemma_step_keeps_outer_scopes(s: State, event: EventView, draw: i64)
    requires
        s.scopes.len() >= 1,
    ensures
        keeps_outer_scopes(s, step_spec(s, event, draw).0),
{
    let after = step_spec(s, event, draw).0;
    if !(s.pending is Nothing) {
        lemma_resume_keeps_outer_scopes(s, event);
    } else if s.tasks.len() == 0 {
    } else {
        let rest = State { tasks: s.tasks.drop_last(), ..s };
        lemma_run_keeps_outer_scopes(rest, s.tasks.last(), draw);
    }
}

/// The answer of the host changes no scope but the innermost.
pub proof fn lemma_resume_keeps_outer_scopes(s: State, event: EventView)
    requires
        s.scopes.len() >= 1,
    ensures
        keeps_outer_scopes(s, resume(s, event).0),
{
}

/// A task changes no scope but the innermost.
pub proof fn lemma_run_keeps_outer_scopes(s: State, task: TaskView, draw: i64)
    requires
        s.scopes.len() >= 1,
    ensures
        keeps_outer_scopes(s, run(s, task, draw).0),
{
    match task {
        TaskView::Eval(node) => {
            lemma_eval_keeps_outer_scopes(s, node);
        },
        _ => {},
    }
}

/// The evaluation of a node changes no scope but the innermost.
pub proof fn lemma_eval_keeps_outer_scopes(s: State, node: Ast)
    requires
        s.scopes.len() >= 1,
    ensures
        keeps_outer_scopes(s, eval(s, node).0),
{
    match node {
        Ast::Array(items) => {
            lemma_schedule_keeps_scopes(
                plan(s, TaskView::MakeArray { count: items.len() as usize }),
                items,
                0,
            );
        },
        Ast::MethodCall { object, method, args } => {
            lemma_schedule_keeps_scopes(
                plan(
                    s,
                    TaskView::Method {
                        method,
                        target: crate::machine::ident_name(*object),
                        argc: args.len() as usize,
                    },
                ),
                args,
                0,
            );
        },
        Ast::FunctionCall { name, args } => {
            match crate::scope::callee(top(s), name) {
                Some(f) => {
                    lemma_schedule_keeps_scopes(
                        plan(s, TaskView::Call { name, params: f.params, body: f.body }),
                        args,
                        0,
                    );
                },
                None => {},
            }
        },
        _ => {},
    }
}

/// To schedule the evaluation of nodes changes no scope.
pub proof fn lemma_schedule_keeps_scopes(s: State, nodes: Seq<Ast>, from: int)
    ensures
        crate::machine::schedule(s, nodes, from).scopes == s.scopes,
    decreases nodes.len() - from,
{
    if 0 <= from < nodes.len() {
        lemma_schedule_keeps_scopes(s, nodes, from + 1);
    }
}

/// Scope isolation. While a call is under way, the scopes of its callers
/// stay what they were when it was entered, whatever its body declares,
/// assigns or deletes: as long as more than `depth` scopes are there
/// before each step, the lowest `depth` scopes are unchanged after the
/// steps. So after the return the caller holds no name that the body made.
pub proof fn lemma_scope_isolation(
    s: State,
    events: Seq<EventView>,
    draws: Seq<i64>,
    n: int,
    depth: int,
)
    requires
        0 <= n <= events.len(),
        n <= draws.len(),
        0 <= depth,
        forall|k: int| 0 <= k < n ==> #[trigger] after_steps(s, events, draws, k).scopes.len() > depth,
    ensures
        forall|i: int|
            0 <= i < depth && i < after_steps(s, events, draws, n).scopes.len() ==> after_steps(
                s,
                events,
                draws,
                n,
            ).scopes[i] == s.scopes[i],
    decreases n,
{
    if n > 0 {
        lemma_scope_isolation(s, events, draws, n - 1, depth);
        let before = after_steps(s, events, draws, n - 1);
        assert(before.scopes.len() > depth);
        lemma_step_keeps_outer_scopes(before, events[n - 1], draws[n - 1]);
        let after = after_steps(s, events, draws, n);
        assert forall|i: int| 0 <= i < depth && i < after.scopes.len() implies after.scopes[i]
            == s.scopes[i] by {
            assert(after.scopes[i] == before.scopes[i]);
        }
    }
}

/// Scope isolation, for a call as a whole. From the entry into a function
/// on, as long as the scope of the call is there before each step, the
/// scopes of the callers are what they were before the call. So once the
/// scope of the call is gone, by a return or by a failure at the top
/// level, the caller has the bindings and functions that it had before the
/// call and no others: no parameter and no name that the body made.
pub proof fn lemma_call_leaves_caller(
    s: State,
    params: Seq<Seq<char>>,
    body: Seq<Ast>,
    events: Seq<EventView>,
    draws: Seq<i64>,
    n: int,
)
    requires
        s.scopes.len() >= 1,
        s.values.len() >= params.len(),
        0 <= n <= events.len(),
        n <= draws.len(),
        forall|k: int|
            0 <= k < n ==> #[trigger] after_steps(
                run_call(s, params, body).0,
                events,
                draws,
                k,
            ).scopes.len() > s.scopes.len(),
    ensures
        ({
            let entered = run_call(s, params, body).0;
            let after = after_steps(entered, events, draws, n);
            &&& entered.scopes.len() == s.scopes.len() + 1
            &&& forall|i: int|
                0 <= i < s.scopes.len() && i < after.scopes.len() ==> after.scopes[i] == s.scopes[i]
            &&& after.scopes.len() == s.scopes.len() ==> after.scopes == s.scopes
        }),
{
    let entered = run_call(s, params, body).0;
    let after = after_steps(entered, events, draws, n);
    let depth = s.scopes.len() as int;
    lemma_scope_isolation(entered, events, draws, n, depth);
    assert forall|i: int| 0 <= i < depth && i < after.scopes.len() implies after.scopes[i]
        == s.scopes[i] by {
        assert(entered.scopes[i] == s.scopes[i]);
    }
    if after.scopes.len() == depth {
        assert(after.scopes =~= s.scopes);
    }
}

/// Const immutability, over a run. A constant keeps its value through any
/// number of steps, whatever they assign, declare, call or loop over: as
/// long as its scope is there before each step and no step is its own
/// `del`, the binding is after the steps what it was.
pub proof fn lemma_constant_persists_through_run(
    s: State,
    events: Seq<EventView>,
    draws: Seq<i64>,
    n: int,
    t: int,
    name: Seq<char>,
)
    requires
        0 <= t < s.scopes.len(),
        is_const(s.scopes[t], name),
        0 <= n <= events.len(),
        n <= draws.len(),
        forall|k: int|
            0 <= k < n ==> (#[trigger] after_steps(s, events, draws, k)).scopes.len() > t && !(
            after_steps(s, events, draws, k).scopes.len() == t + 1 && deletes(
                after_steps(s, events, draws, k),
                name,
            )),
    ensures
        ({
            let after = after_steps(s, events, draws, n);
            after.scopes.len() > t ==> after.scopes[t].variables.contains_key(name)
                && after.scopes[t].variables[name] == s.scopes[t].variables[name]
        }),
    decreases n,
{
    if n > 0 {
        lemma_constant_persists_through_run(s, events, draws, n - 1, t, name);
        let x = after_steps(s, events, draws, n - 1);
        assert(x.scopes.len() > t);
        if x.scopes.len() == t + 1 {
            lemma_constant_persists(x, events[n - 1], draws[n - 1], name);
        } else {
            lemma_step_keeps_outer_scopes(x, events[n - 1], draws[n - 1]);
        }
    }
}

/// The integers from `next` to `last`, in order.
pub open spec fn round_values(next: int, last: int) -> Seq<int>
    decreases last - next + 1,
{
    if next > last {
        Seq::empty()
    } else {
        seq![next] + round_values(next + 1, last)
    }
}

/// The list `round_values(next, last)` has max(0, `last` - `next` + 1)
/// items, and its item `k` is `next + k`.
pub proof fn lemma_round_values(next: int, last: int)
    ensures
        round_values(next, last).len() == if last >= next {
            last - next + 1
        } else {
            0
        },
        forall|k: int|
            0 <= k < round_values(next, last).len() ==> #[trigger] round_values(next, last)[k]
                == next + k,
    decreases last - next + 1,
{
    if next <= last {
        lemma_round_values(next + 1, last);
        let rest = round_values(next + 1, last);
        assert forall|k: int| 0 <= k < round_values(next, last).len() implies #[trigger] round_values(
            next,
            last,
        )[k] == next + k by {
            if k > 0 {
                assert(round_values(next, last)[k] == rest[k - 1]);
            }
        }
    }
}

/// The task that stands for round `k`, counted from 0, of a loop over the
/// integer `n`: the round of item `k` of the integers from 1 to `n`, and
/// after the last of them the task that ends the loop.
pub open spec fn round_task(var: Seq<char>, k: int, n: i64, body: Seq<Ast>) -> TaskView {
    if 0 <= k < round_values(1, n as int).len() {
        TaskView::Range { var, next: round_values(1, n as int)[k] as i64, last: n, body }
    } else {
        TaskView::Settle
    }
}

/// For-range, the start. A loop over the integer `n` leaves the empty value
/// at once where `n` is below 1, and else schedules its round 0.
pub proof fn lemma_range_starts_at_one(s: State, var: Seq<char>, body: Seq<Ast>, n: i64)
    ensures
        round_values(1, n as int).len() == if n >= 1 {
            n as int
        } else {
            0
        },
        n < 1 ==> run_for_in(s, var, body, Value::Number(n)) == go(push(s, Value::Void)),
        n >= 1 ==> run_for_in(s, var, body, Value::Number(n)) == go(
            plan(push(s, Value::Void), round_task(var, 0, n, body)),
        ),
{
    lemma_round_values(1, n as int);
}

/// For-range, the rounds. The rounds of a loop over the integer `n` are
/// max(0, `n`) in number. Round `k`, counted from 0, taken with a value that
/// is not on its way out of a function, binds the variable to `k + 1`,
/// starts the body, and schedules below it round `k + 1`; the task after the
/// last round ends the loop with the empty value.
pub proof fn lemma_range_round(
    s: State,
    var: Seq<char>,
    n: i64,
    body: Seq<Ast>,
    k: int,
    v: Value,
)
    requires
        s.scopes.len() >= 1,
        !is_const(top(s), var),
        !(v is ReturnValue),
        0 <= k <= round_values(1, n as int).len(),
    ensures
        round_values(1, n as int).len() == if n >= 1 {
            n as int
        } else {
            0
        },
        k < round_values(1, n as int).len() ==> run_unary(s, round_task(var, k, n, body), v) == go(
            start_block(
                plan(
                    with_top(s, put(top(s), var, Value::Number((k + 1) as i64))),
                    round_task(var, k + 1, n, body),
                ),
                body,
            ),
        ),
        k == round_values(1, n as int).len() ==> run_unary(s, round_task(var, k, n, body), v) == go(
            push(s, Value::Void),
        ),
{
    lemma_round_values(1, n as int);
}

/// A value on its way out of a function ends a loop: the task that takes
/// the value of a loop body hands such a value on and runs no further
/// round. This holds of every kind of loop.
pub proof fn lemma_return_leaves_loop(s: State, task: TaskView, v: Value)
    requires
        v is ReturnValue,
        task is WhileNext || task is ForStep || task is Each || task is Range || task is Settle,
    ensures
        run_unary(s, task, v) == go(push(s, v)),
{
}

} // verus!
