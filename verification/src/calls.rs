//! Calls and the control stack: a step works on the top of the control
//! stack only, and there is one scope for the program and one for each call
//! that is under way. So a call that has returned leaves the caller what it
//! was.

use crate::ast::Ast;
use crate::host::{ActionView, EventView};
use crate::laws::lemma_step_keeps_outer_scopes;
use crate::machine::{after_steps, eval, loaded, plan, run, run_call, schedule, step_spec, State};
use crate::task::TaskView;
use vstd::prelude::*;

verus! {

/// How many of the tasks end a call: as many as calls are under way.
pub open spec fn calls(tasks: Seq<TaskView>) -> int
    decreases tasks.len(),
{
    if tasks.len() == 0 {
        0
    } else {
        calls(tasks.drop_last()) + if tasks.last() is EndCall {
            1int
        } else {
            0int
        }
    }
}

/// Whether there is one scope for the program and one for each call that
/// is under way.
pub open spec fn balanced(s: State) -> bool {
    s.scopes.len() == calls(s.tasks) + 1
}

/// Whether `after` has the tasks `below` at the bottom of its control
/// stack, and as many scopes more than `scopes` as it has calls more than
/// `below`.
pub open spec fn built_on(below: Seq<TaskView>, scopes: int, after: State) -> bool {
    &&& below.is_prefix_of(after.tasks)
    &&& after.scopes.len() - scopes == calls(after.tasks) - calls(below)
}

/// Whether a step has ended the program with a failure: the stacks are
/// empty, and only the scope of the program is left.
pub open spec fn failed(step: (State, ActionView)) -> bool {
    &&& step.1 is Done
    &&& step.1->Done_0 is Err
    &&& step.0.tasks.len() == 0
    &&& step.0.scopes.len() <= 1
}

/// One more task is one more call where the task ends a call.
pub proof fn lemma_calls_push(tasks: Seq<TaskView>, t: TaskView)
    ensures
        calls(tasks.push(t)) == calls(tasks) + if t is EndCall {
            1int
        } else {
            0int
        },
{
    assert(tasks.push(t).drop_last() =~= tasks);
}

/// Among more tasks there are no fewer calls.
pub proof fn lemma_calls_grow(below: Seq<TaskView>, tasks: Seq<TaskView>)
    requires
        below.is_prefix_of(tasks),
    ensures
        calls(below) <= calls(tasks),
        0 <= calls(below),
    decreases tasks.len(),
{
    if below.len() == 0 {
        if tasks.len() > 0 {
            lemma_calls_grow(below, tasks.drop_last());
        }
    } else if below.len() == tasks.len() {
        assert(below =~= tasks);
        lemma_calls_grow(below.drop_last(), tasks.drop_last());
    } else {
        assert(below.is_prefix_of(tasks.drop_last()));
        lemma_calls_grow(below, tasks.drop_last());
    }
}

/// What is built on a task that ends no call is built on the tasks below
/// it.
pub proof fn lemma_built_on_more(below: Seq<TaskView>, t: TaskView, scopes: int, after: State)
    requires
        built_on(below.push(t), scopes, after),
        !(t is EndCall),
    ensures
        built_on(below, scopes, after),
{
    lemma_calls_push(below, t);
    let more = below.push(t);
    assert(below =~= after.tasks.subrange(0, below.len() as int)) by {
        assert(more =~= after.tasks.subrange(0, more.len() as int));
        assert forall|i: int| 0 <= i < below.len() implies below[i] == after.tasks[i] by {
            assert(more[i] == after.tasks.subrange(0, more.len() as int)[i]);
        }
    }
}

/// To schedule the evaluation of nodes puts tasks on the control stack,
/// none of which ends a call.
pub proof fn lemma_schedule_builds(s: State, nodes: Seq<Ast>, from: int)
    ensures
        built_on(s.tasks, s.scopes.len() as int, schedule(s, nodes, from)),
    decreases nodes.len() - from,
{
    if 0 <= from < nodes.len() {
        lemma_schedule_builds(s, nodes, from + 1);
        lemma_calls_push(schedule(s, nodes, from + 1).tasks, TaskView::Eval(nodes[from]));
    }
}

/// The evaluation of a node puts tasks on the control stack, none of which
/// ends a call, or ends the program with a failure.
pub proof fn lemma_eval_builds(s: State, node: Ast)
    requires
        s.scopes.len() >= 1,
    ensures
        failed(eval(s, node)) || built_on(s.tasks, s.scopes.len() as int, eval(s, node).0),
{
    assert forall|t: Seq<TaskView>, x: TaskView| #[trigger]
        calls(t.push(x)) == calls(t) + if x is EndCall {
            1int
        } else {
            0int
        } by {
        lemma_calls_push(t, x);
    }
    match node {
        Ast::Array(items) => {
            let first = TaskView::MakeArray { count: items.len() as usize };
            lemma_schedule_builds(plan(s, first), items, 0);
            lemma_built_on_more(
                s.tasks,
                first,
                s.scopes.len() as int,
                schedule(plan(s, first), items, 0),
            );
        },
        Ast::MethodCall { object, method, args } => {
            let first = TaskView::Method {
                method,
                target: crate::machine::ident_name(*object),
                argc: args.len() as usize,
            };
            lemma_schedule_builds(plan(s, first), args, 0);
            lemma_built_on_more(
                s.tasks,
                first,
                s.scopes.len() as int,
                schedule(plan(s, first), args, 0),
            );
        },
        Ast::FunctionCall { name, args } => {
            match crate::scope::callee(crate::machine::top(s), name) {
                Some(f) => {
                    let first = TaskView::Call { name, params: f.params, body: f.body };
                    lemma_schedule_builds(plan(s, first), args, 0);
                    lemma_built_on_more(
                        s.tasks,
                        first,
                        s.scopes.len() as int,
                        schedule(plan(s, first), args, 0),
                    );
                },
                None => {},
            }
        },
        _ => {},
    }
}

/// A task that ends no call puts tasks on the control stack, with one scope
/// more for each that ends a call, or ends the program with a failure. The
/// task that ends a call takes the scope of the call away and leaves the
/// control stack as it is.
pub proof fn lemma_run_builds(s: State, task: TaskView, draw: i64)
    requires
        s.scopes.len() >= 1,
    ensures
        ({
            let step = run(s, task, draw);
            if task is EndCall {
                failed(step) || (s.scopes.len() > 1 && step.0.tasks == s.tasks && step.0.scopes
                    == s.scopes.drop_last())
            } else {
                failed(step) || built_on(s.tasks, s.scopes.len() as int, step.0)
            }
        }),
{
    assert forall|t: Seq<TaskView>, x: TaskView| #[trigger]
        calls(t.push(x)) == calls(t) + if x is EndCall {
            1int
        } else {
            0int
        } by {
        lemma_calls_push(t, x);
    }
    match task {
        TaskView::Eval(node) => {
            lemma_eval_builds(s, node);
        },
        _ => {},
    }
}

/// A step works on the top of the control stack only. The tasks below the
/// top stay, and the scopes follow the calls: a step that ends no call
/// builds on the tasks below the top, the step that ends a call takes the
/// scope of the call away, and a step that fails ends the program.
pub proof fn lemma_step_builds(s: State, event: EventView, draw: i64)
    requires
        s.scopes.len() >= 1,
    ensures
        ({
            let step = step_spec(s, event, draw);
            if !(s.pending is Nothing) {
                failed(step) || built_on(s.tasks, s.scopes.len() as int, step.0)
            } else if s.tasks.len() == 0 {
                step.0.tasks.len() == 0 && step.0.scopes == s.scopes
            } else if s.tasks.last() is EndCall {
                failed(step) || (s.scopes.len() > 1 && step.0.tasks == s.tasks.drop_last()
                    && step.0.scopes == s.scopes.drop_last())
            } else {
                failed(step) || built_on(s.tasks.drop_last(), s.scopes.len() as int, step.0)
            }
        }),
{
    assert forall|t: Seq<TaskView>, x: TaskView| #[trigger]
        calls(t.push(x)) == calls(t) + if x is EndCall {
            1int
        } else {
            0int
        } by {
        lemma_calls_push(t, x);
    }
    if !(s.pending is Nothing) {
        assert(s.tasks.is_prefix_of(s.tasks));
    } else if s.tasks.len() > 0 {
        lemma_run_builds(State { tasks: s.tasks.drop_last(), ..s }, s.tasks.last(), draw);
    }
}

/// Whether the task that stands on `h` tasks is the next to run in `x`: it
/// is on top of the control stack, and nothing is waited for.
pub open spec fn at_round(x: State, h: int) -> bool {
    x.pending is Nothing && x.tasks.len() == h + 1
}

/// Whether the task `t`, which stands on the tasks `base`, still waits for
/// its turn in `x`, or the program has ended with a failure.
pub open spec fn waits(base: Seq<TaskView>, t: TaskView, x: State) -> bool {
    ||| {
        &&& x.tasks.len() > base.len()
        &&& x.scopes.len() >= 1
        &&& x.tasks.take(base.len() as int + 1) == base.push(t)
    }
    ||| x.tasks.len() == 0 && x.scopes.len() <= 1
}

/// A task waits for its turn. The steps that run the tasks above it leave
/// it where it is: as long as the control stack is higher than the tasks
/// below it and it is not its turn, it stands on them, unless the program
/// ends with a failure.
pub proof fn lemma_task_waits(
    x0: State,
    base: Seq<TaskView>,
    t: TaskView,
    events: Seq<EventView>,
    draws: Seq<i64>,
    m: int,
)
    requires
        x0.scopes.len() >= 1,
        x0.tasks.len() > base.len(),
        x0.tasks.take(base.len() as int + 1) == base.push(t),
        0 <= m <= events.len(),
        m <= draws.len(),
        forall|k: int|
            0 <= k < m ==> (#[trigger] after_steps(x0, events, draws, k)).tasks.len() > base.len()
                && !at_round(after_steps(x0, events, draws, k), base.len() as int),
    ensures
        waits(base, t, after_steps(x0, events, draws, m)),
    decreases m,
{
    if m > 0 {
        lemma_task_waits(x0, base, t, events, draws, m - 1);
        let h = base.len() as int;
        let x = after_steps(x0, events, draws, m - 1);
        let y = after_steps(x0, events, draws, m);
        let below = base.push(t);
        assert(x.tasks.len() > h && !at_round(x, h));
        let step = step_spec(x, events[m - 1], draws[m - 1]);
        assert(y == step.0);
        lemma_step_builds(x, events[m - 1], draws[m - 1]);
        lemma_step_keeps_outer_scopes(x, events[m - 1], draws[m - 1]);
        if !failed(step) {
            assert(below.is_prefix_of(y.tasks)) by {
                assert(x.tasks.subrange(0, h + 1) =~= below);
                if x.pending is Nothing {
                    assert(x.tasks.drop_last().subrange(0, h + 1) =~= below);
                }
            }
            assert(y.tasks.take(h + 1) =~= below);
        }
    }
}

/// A step keeps the balance of scopes and calls, and keeps the scope of
/// the program.
pub proof fn lemma_step_keeps_balance(s: State, event: EventView, draw: i64)
    requires
        s.scopes.len() >= 1,
        balanced(s),
    ensures
        balanced(step_spec(s, event, draw).0),
        step_spec(s, event, draw).0.scopes.len() >= 1,
{
    lemma_step_builds(s, event, draw);
    lemma_step_keeps_outer_scopes(s, event, draw);
    if s.tasks.len() > 0 {
        assert(s.tasks =~= s.tasks.drop_last().push(s.tasks.last()));
        lemma_calls_push(s.tasks.drop_last(), s.tasks.last());
    }
}

/// A program that has been set to run is in balance: it has the scope of
/// the program, and no call is under way.
pub proof fn lemma_loaded_is_balanced(s: State, nodes: Seq<Ast>)
    requires
        s.scopes.len() >= 1,
    ensures
        balanced(loaded(s, nodes)),
{
    let block = TaskView::Block { nodes, next: 0 };
    lemma_calls_push(Seq::<TaskView>::empty(), block);
    assert(loaded(s, nodes).tasks =~= Seq::<TaskView>::empty().push(block));
}

/// Whether a call that was entered from `s` is under way in `x`: the
/// tasks of the caller and the task that ends the call are at the bottom of
/// the control stack, the scope of the call is there, and the scopes of
/// the caller are what they were.
pub open spec fn under_way(s: State, x: State) -> bool {
    &&& x.tasks.len() > s.tasks.len()
    &&& x.tasks.take(s.tasks.len() as int + 1) == s.tasks.push(TaskView::EndCall)
    &&& balanced(x)
    &&& x.scopes.len() > s.scopes.len()
    &&& forall|i: int| 0 <= i < s.scopes.len() ==> x.scopes[i] == s.scopes[i]
}

/// Whether a call that was entered from `s` is over in `x`: it has
/// returned, and the caller has its tasks and its scopes as they were, or
/// the program has ended with a failure.
pub open spec fn over(s: State, x: State) -> bool {
    ||| x.tasks == s.tasks && x.scopes == s.scopes
    ||| x.tasks.len() == 0 && x.scopes.len() <= 1
}

/// Scope isolation, for a call from its entry to its return. Let a call be
/// entered from the state `s`, and let the control stack stay higher than
/// that of `s` before each of `n` steps. After these steps the call is
/// still under way, with the scopes of the caller untouched below its
/// own, or it is over: it has returned, and the scopes of the caller,
/// bindings and functions, are exactly what they were before the call, or
/// the program has ended with a failure.
pub proof fn lemma_call_returns_to_caller(
    s: State,
    params: Seq<Seq<char>>,
    body: Seq<Ast>,
    events: Seq<EventView>,
    draws: Seq<i64>,
    n: int,
)
    requires
        s.scopes.len() >= 1,
        balanced(s),
        s.values.len() >= params.len(),
        0 <= n <= events.len(),
        n <= draws.len(),
        forall|k: int|
            0 <= k < n ==> #[trigger] after_steps(
                run_call(s, params, body).0,
                events,
                draws,
                k,
            ).tasks.len() > s.tasks.len(),
    ensures
        ({
            let after = after_steps(run_call(s, params, body).0, events, draws, n);
            under_way(s, after) || over(s, after)
        }),
    decreases n,
{
    let entered = run_call(s, params, body).0;
    let h = s.tasks.len() as int;
    let d = s.scopes.len() as int;
    if n == 0 {
        lemma_calls_push(s.tasks, TaskView::EndCall);
        lemma_calls_push(s.tasks.push(TaskView::EndCall), TaskView::Block { nodes: body, next: 0 });
        assert(entered.tasks.take(h + 1) =~= s.tasks.push(TaskView::EndCall));
    } else {
        lemma_call_returns_to_caller(s, params, body, events, draws, n - 1);
        let x = after_steps(entered, events, draws, n - 1);
        let y = after_steps(entered, events, draws, n);
        assert(x.tasks.len() > h);
        assert(under_way(s, x));
        let below = s.tasks.push(TaskView::EndCall);
        lemma_calls_push(s.tasks, TaskView::EndCall);
        assert(below.is_prefix_of(x.tasks)) by {
            assert(x.tasks.subrange(0, below.len() as int) =~= x.tasks.take(h + 1));
        }
        lemma_calls_grow(below, x.tasks);
        lemma_step_builds(x, events[n - 1], draws[n - 1]);
        lemma_step_keeps_outer_scopes(x, events[n - 1], draws[n - 1]);
        let step = step_spec(x, events[n - 1], draws[n - 1]);
        assert(y == step.0);
        if failed(step) {
            assert(over(s, y));
        } else if !(x.pending is Nothing) {
            lemma_grown(s, x, x.tasks, y);
        } else if x.tasks.last() is EndCall {
            if x.tasks.len() == h + 1 {
                assert(x.tasks =~= below);
                assert(y.tasks =~= s.tasks);
                assert(y.scopes =~= s.scopes);
            } else {
                assert(x.tasks =~= x.tasks.drop_last().push(x.tasks.last()));
                lemma_calls_push(x.tasks.drop_last(), x.tasks.last());
                assert(below.is_prefix_of(y.tasks)) by {
                    assert(y.tasks.subrange(0, below.len() as int) =~= below);
                }
                lemma_calls_grow(below, y.tasks);
                assert(y.tasks.take(h + 1) =~= below);
            }
        } else {
            assert(x.tasks.len() > h + 1) by {
                if x.tasks.len() == h + 1 {
                    assert(x.tasks.last() == x.tasks.take(h + 1)[h]);
                }
            }
            assert(x.tasks =~= x.tasks.drop_last().push(x.tasks.last()));
            lemma_calls_push(x.tasks.drop_last(), x.tasks.last());
            lemma_grown(s, x, x.tasks.drop_last(), y);
        }
    }
}

/// A call that is under way in `x` is under way in what is built on the
/// tasks of `x`, where these hold the task that ends the call.
proof fn lemma_grown(s: State, x: State, base: Seq<TaskView>, y: State)
    requires
        balanced(s),
        under_way(s, x),
        base.len() > s.tasks.len(),
        base.is_prefix_of(x.tasks),
        calls(base) == calls(x.tasks),
        built_on(base, x.scopes.len() as int, y),
        forall|i: int|
            0 <= i < x.scopes.len() - 1 && i < y.scopes.len() ==> #[trigger] y.scopes[i]
                == x.scopes[i],
    ensures
        under_way(s, y),
{
    let h = s.tasks.len() as int;
    let below = s.tasks.push(TaskView::EndCall);
    lemma_calls_push(s.tasks, TaskView::EndCall);
    assert(y.tasks.take(h + 1) =~= below) by {
        assert(x.tasks.take(h + 1) == below);
        assert forall|i: int| 0 <= i <= h implies y.tasks[i] == below[i] by {
            assert(base[i] == y.tasks.subrange(0, base.len() as int)[i]);
            assert(base[i] == x.tasks.subrange(0, base.len() as int)[i]);
            assert(x.tasks.take(h + 1)[i] == x.tasks[i]);
        }
    }
    assert(below.is_prefix_of(y.tasks)) by {
        assert(y.tasks.subrange(0, below.len() as int) =~= y.tasks.take(h + 1));
    }
    lemma_calls_grow(below, y.tasks);
}

} // verus!
