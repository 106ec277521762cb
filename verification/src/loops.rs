//! A loop over an integer as a whole: its rounds in a run of any number of
//! steps.

use crate::ast::Ast;
use crate::calls::{at_round, failed, lemma_step_builds};
use crate::host::EventView;
use crate::laws::{
    lemma_range_round, lemma_range_starts_at_one, lemma_step_keeps_outer_scopes, round_task,
};
use crate::machine::{after_steps, run_for_in, step_spec, top, State};
use crate::scope::is_const;
use crate::value::Value;
use vstd::prelude::*;

verus! {

/// How many of the first `m` steps from `x0` ran the task of the loop.
pub open spec fn rounds_begun(
    x0: State,
    events: Seq<EventView>,
    draws: Seq<i64>,
    h: int,
    m: int,
) -> int
    decreases m,
{
    if m <= 0 {
        0
    } else {
        rounds_begun(x0, events, draws, h, m - 1) + if at_round(
            after_steps(x0, events, draws, m - 1),
            h,
        ) {
            1int
        } else {
            0int
        }
    }
}

/// Whether the loop can go on from `x`, where its task is the next to
/// run: the body has left a value that is not on its way out of a
/// function, and the variable of the loop is no constant.
pub open spec fn body_goes_on(x: State, var: Seq<char>) -> bool {
    &&& x.scopes.len() >= 1
    &&& x.values.len() >= 1
    &&& !(x.values.last() is ReturnValue)
    &&& !is_const(top(x), var)
}

/// Where a loop over the integer `n` that was started from `s` stands in
/// `x`, after `j` runs of its task. Either it goes on: the tasks of `s` and
/// above them the task of round `j` are at the bottom of the control stack.
/// Or it is over: all `n` rounds have begun, the task after them has run,
/// the control stack is that of `s` and the empty value is the value of the
/// loop. Or the program has ended with a failure.
pub open spec fn loop_stands(
    s: State,
    var: Seq<char>,
    n: i64,
    body: Seq<Ast>,
    x: State,
    j: int,
) -> bool {
    ||| {
        &&& x.tasks.len() > s.tasks.len()
        &&& x.scopes.len() >= 1
        &&& 0 <= j <= n
        &&& x.tasks.take(s.tasks.len() as int + 1) == s.tasks.push(round_task(var, j, n, body))
    }
    ||| {
        &&& x.tasks == s.tasks
        &&& j == n + 1
        &&& x.pending is Nothing
        &&& x.values.len() >= 1
        &&& x.values.last() == Value::Void
    }
    ||| x.tasks.len() == 0 && x.scopes.len() <= 1
}

/// For-range, a loop as a whole. Let a loop over the integer `n`, at least
/// 1, start from `s`, and let the run go on for `m` steps, before each of
/// which the control stack is higher than that of `s`, and in which the
/// body never leaves a value on its way out of a function and the variable
/// is no constant when the task of the loop runs. Count the runs of the
/// task of the loop. Its run number `j`, from 0, is round `j`, which binds
/// the variable to `j + 1` and starts the body (`lemma_range_round`), as
/// long as `j` is below `n`; run number `n` ends the loop with the empty
/// value, and there is no further one. So the body runs `n` times, with
/// the variable bound to 1, 2, and so on to `n`, in this order.
pub proof fn lemma_range_loop(
    s: State,
    var: Seq<char>,
    n: i64,
    body: Seq<Ast>,
    events: Seq<EventView>,
    draws: Seq<i64>,
    m: int,
)
    requires
        n >= 1,
        s.scopes.len() >= 1,
        0 <= m <= events.len(),
        m <= draws.len(),
        forall|k: int|
            0 <= k < m ==> #[trigger] after_steps(
                run_for_in(s, var, body, Value::Number(n)).0,
                events,
                draws,
                k,
            ).tasks.len() > s.tasks.len(),
        forall|k: int|
            0 <= k < m && at_round(
                #[trigger] after_steps(
                    run_for_in(s, var, body, Value::Number(n)).0,
                    events,
                    draws,
                    k,
                ),
                s.tasks.len() as int,
            ) ==> body_goes_on(
                after_steps(run_for_in(s, var, body, Value::Number(n)).0, events, draws, k),
                var,
            ),
    ensures
        ({
            let x0 = run_for_in(s, var, body, Value::Number(n)).0;
            loop_stands(
                s,
                var,
                n,
                body,
                after_steps(x0, events, draws, m),
                rounds_begun(x0, events, draws, s.tasks.len() as int, m),
            )
        }),
    decreases m,
{
    let x0 = run_for_in(s, var, body, Value::Number(n)).0;
    let h = s.tasks.len() as int;
    if m == 0 {
        lemma_range_starts_at_one(s, var, body, n);
        assert(x0.tasks.take(h + 1) =~= s.tasks.push(round_task(var, 0, n, body)));
    } else {
        lemma_range_loop(s, var, n, body, events, draws, m - 1);
        let x = after_steps(x0, events, draws, m - 1);
        let y = after_steps(x0, events, draws, m);
        let j = rounds_begun(x0, events, draws, h, m - 1);
        let task = round_task(var, j, n, body);
        let below = s.tasks.push(task);
        assert(x.tasks.len() > h);
        assert(x.tasks.take(h + 1) == below);
        let step = step_spec(x, events[m - 1], draws[m - 1]);
        assert(y == step.0);
        lemma_step_builds(x, events[m - 1], draws[m - 1]);
        lemma_step_keeps_outer_scopes(x, events[m - 1], draws[m - 1]);
        if at_round(x, h) {
            assert(x.tasks =~= below);
            assert(x.tasks.last() == task);
            assert(body_goes_on(x, var));
            let v = x.values.last();
            let rest = State {
                tasks: x.tasks.drop_last(),
                values: x.values.take(x.values.len() - 1),
                ..x
            };
            assert(rest.tasks =~= s.tasks);
            lemma_range_starts_at_one(s, var, body, n);
            lemma_range_round(rest, var, n, body, j, v);
            if j < n {
                assert(y.tasks.take(h + 1) =~= s.tasks.push(round_task(var, j + 1, n, body)));
            }
        } else if failed(step) {
        } else {
            assert(below.is_prefix_of(y.tasks)) by {
                assert(x.tasks.subrange(0, h + 1) =~= below);
                if x.pending is Nothing {
                    assert(x.tasks.len() > h + 1);
                    assert(x.tasks.drop_last().subrange(0, h + 1) =~= below);
                }
            }
            assert(y.tasks.take(h + 1) =~= below);
        }
    }
}

} // verus!
