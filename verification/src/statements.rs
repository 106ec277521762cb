//! An assignment as a whole: what becomes of it after its right side has
//! been evaluated, in however many steps.

use crate::ast::Ast;
use crate::calls::{at_round, lemma_task_waits, waits};
use crate::errors::ErrorView;
use crate::host::{ActionView, EventView};
use crate::laws::lemma_integer_rejects_other_kinds;
use crate::machine::{after_steps, eval_assign, step_spec, top, with_top, State};
use crate::scope::put;
use crate::task::TaskView;
use vstd::prelude::*;

verus! {

/// Type stability, for an assignment as a whole. Let the assignment of an
/// expression to a name start from `s`, and let the evaluation of the
/// expression take `m` steps, of whatever kind. Unless the program has
/// ended with a failure on the way, the assignment still waits, and once
/// it is its turn, with the value `v` of the expression on the value
/// stack and an integer bound to the name: where `v` is no integer the
/// step fails and leaves the scope of the program as it is; where it is
/// one, the step binds the name to `v` and changes no other binding.
pub proof fn lemma_assignment_keeps_integer(
    s: State,
    name: Seq<char>,
    right: Ast,
    events: Seq<EventView>,
    draws: Seq<i64>,
    m: int,
    event: EventView,
    draw: i64,
)
    requires
        s.scopes.len() >= 1,
        0 <= m <= events.len(),
        m <= draws.len(),
        forall|k: int|
            0 <= k < m ==> (#[trigger] after_steps(
                eval_assign(s, Ast::Identifier(name), right).0,
                events,
                draws,
                k,
            )).tasks.len() > s.tasks.len() && !at_round(
                after_steps(eval_assign(s, Ast::Identifier(name), right).0, events, draws, k),
                s.tasks.len() as int,
            ),
    ensures
        ({
            let x = after_steps(
                eval_assign(s, Ast::Identifier(name), right).0,
                events,
                draws,
                m,
            );
            let step = step_spec(x, event, draw);
            &&& waits(s.tasks, TaskView::AssignVar { name }, x)
            &&& at_round(x, s.tasks.len() as int) && x.values.len() >= 1 && top(
                x,
            ).variables.contains_key(name) && top(x).variables[name] is Number ==> {
                &&& !(x.values.last() is Number) ==> step.1 == ActionView::Done(
                    Err(ErrorView::AssignMismatch { name }),
                ) && step.0.scopes[0] == x.scopes[0]
                &&& x.values.last() is Number ==> step.1 == ActionView::Continue && step.0.scopes
                    == with_top(x, put(top(x), name, x.values.last())).scopes
            }
        }),
{
    let x0 = eval_assign(s, Ast::Identifier(name), right).0;
    let h = s.tasks.len() as int;
    let t = TaskView::AssignVar { name };
    assert(x0.tasks.take(h + 1) =~= s.tasks.push(t));
    lemma_task_waits(x0, s.tasks, t, events, draws, m);
    let x = after_steps(x0, events, draws, m);
    if at_round(x, h) && x.values.len() >= 1 && top(x).variables.contains_key(name) && top(
        x,
    ).variables[name] is Number {
        assert(x.tasks =~= s.tasks.push(t));
        let rest = State {
            tasks: x.tasks.drop_last(),
            values: x.values.take(x.values.len() - 1),
            ..x
        };
        lemma_integer_rejects_other_kinds(rest, name, x.values.last());
    }
}

} // verus!
