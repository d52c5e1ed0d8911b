//! What holds of the dispatcher in every state it can reach.
//!
//! A run is the dispatcher's table together with what the table forgets:
//! for which kind and credential each task was started, and which tasks are
//! still at work.

use vstd::prelude::*;

use crate::dispatcher::{empty_table, finished, requested, suppresses, OperationKind, Table};

verus! {

/// What a task was started for.
pub struct Key {
    pub kind: OperationKind,
    pub credential_id: Seq<char>,
}

/// The dispatcher's table, the key of every task started so far, by its
/// number, and the tasks that are still at work.
pub struct Run {
    pub table: Table,
    pub started: Seq<Key>,
    pub live: Set<nat>,
}

/// What happens to a dispatcher.
pub enum Step {
    /// The host asks for an operation.
    Request { kind: OperationKind, credential_id: Seq<char> },
    /// The host reports the end of a task.
    Finished { task: nat },
}

/// The run before anything happened.
pub open spec fn start() -> Run {
    Run { table: empty_table(), started: Seq::empty(), live: Set::empty() }
}

/// The run after one more step. A request that is not dropped starts a task
/// under the next number; the end of a task takes it from the live ones.
pub open spec fn after(run: Run, step: Step) -> Run {
    match step {
        Step::Request { kind, credential_id } => if suppresses(run.table, kind, credential_id) {
            run
        } else {
            Run {
                table: requested(run.table, kind, credential_id),
                started: run.started.push(Key { kind, credential_id }),
                live: run.live.insert(run.table.spawned),
            }
        },
        Step::Finished { task } => Run {
            table: finished(run.table, task),
            started: run.started,
            live: run.live.remove(task),
        },
    }
}

/// The run after `steps`, from the start.
pub open spec fn run_of(steps: Seq<Step>) -> Run
    decreases steps.len(),
{
    if steps.len() == 0 {
        start()
    } else {
        after(run_of(steps.drop_last()), steps.last())
    }
}

/// Between the tasks `earlier` and `later` a task of the same kind was
/// started for another credential.
pub open spec fn interrupted(started: Seq<Key>, earlier: int, later: int) -> bool {
    exists|between: int|
        earlier < between < later && (#[trigger] started[between]).kind == started[earlier].kind
            && started[between].credential_id != started[earlier].credential_id
}

/// While a task is at work, no second task is started for its kind and
/// credential, unless a task of that kind for another credential was started
/// in between.
pub open spec fn deduplicated(run: Run) -> bool {
    forall|earlier: int, later: int|
        #![trigger run.started[earlier], run.started[later]]
        0 <= earlier < later < run.started.len() && run.live.contains(earlier as nat)
            && run.started[earlier] == run.started[later] ==> interrupted(
            run.started,
            earlier,
            later,
        )
}

/// The table records, for each kind, the task started last for it, and
/// knows whether it is still at work.
pub open spec fn recorded(run: Run) -> bool {
    &&& run.table.spawned == run.started.len()
    &&& forall|task: nat| run.live.contains(task) ==> task < run.started.len()
    &&& forall|task: int|
        0 <= task < run.started.len() ==> run.table.slots.contains_key(
            (#[trigger] run.started[task]).kind,
        )
    &&& forall|kind: OperationKind| #[trigger]
        run.table.slots.contains_key(kind) ==> {
            let slot = run.table.slots[kind];
            &&& slot.task < run.started.len()
            &&& run.started[slot.task as int] == Key { kind, credential_id: slot.credential_id }
            &&& slot.running == run.live.contains(slot.task)
            &&& forall|task: int|
                slot.task < task < run.started.len() ==> (#[trigger] run.started[task]).kind != kind
        }
}

/// A step keeps what the table records and what is deduplicated.
pub proof fn lemma_step_keeps_order(run: Run, step: Step)
    requires
        recorded(run),
        deduplicated(run),
    ensures
        recorded(after(run, step)),
        deduplicated(after(run, step)),
{
    let next = after(run, step);
    match step {
        Step::Request { kind, credential_id } => {
            if !suppresses(run.table, kind, credential_id) {
                let number = run.started.len() as int;
                let key = Key { kind, credential_id };
                assert forall|task: int| 0 <= task < next.started.len() implies next.table.slots.contains_key(
                    (#[trigger] next.started[task]).kind,
                ) by {
                    if task < number {
                        assert(next.started[task] == run.started[task]);
                    }
                }
                assert forall|other: OperationKind| #[trigger]
                    next.table.slots.contains_key(other) implies {
                    let slot = next.table.slots[other];
                    &&& slot.task < next.started.len()
                    &&& next.started[slot.task as int] == Key {
                        kind: other,
                        credential_id: slot.credential_id,
                    }
                    &&& slot.running == next.live.contains(slot.task)
                    &&& forall|task: int|
                        slot.task < task < next.started.len() ==> (
                        #[trigger] next.started[task]).kind != other
                } by {
                    if other != kind {
                        assert(run.table.slots.contains_key(other));
                        let slot = run.table.slots[other];
                        assert(next.started[slot.task as int] == run.started[slot.task as int]);
                        assert forall|task: int|
                            slot.task < task < next.started.len() implies (
                        #[trigger] next.started[task]).kind != other by {
                            if task < number {
                                assert(next.started[task] == run.started[task]);
                            }
                        }
                    }
                }
                assert forall|earlier: int, later: int|
                    #![trigger next.started[earlier], next.started[later]]
                    0 <= earlier < later < next.started.len() && next.live.contains(earlier as nat)
                        && next.started[earlier] == next.started[later] implies interrupted(
                    next.started,
                    earlier,
                    later,
                ) by {
                    assert(next.started[earlier] == run.started[earlier]);
                    if later < number {
                        assert(next.started[later] == run.started[later]);
                        assert(interrupted(run.started, earlier, later));
                        let between = choose|between: int|
                            earlier < between < later && (#[trigger] run.started[between]).kind
                                == run.started[earlier].kind && run.started[between].credential_id
                                != run.started[earlier].credential_id;
                        assert(next.started[between] == run.started[between]);
                    } else {
                        assert(run.started[earlier] == key);
                        assert(run.table.slots.contains_key(kind));
                        let slot = run.table.slots[kind];
                        let last = slot.task as int;
                        assert(last >= earlier);
                        assert(next.started[last] == run.started[last]);
                        if slot.credential_id == credential_id {
                            assert(last > earlier);
                            assert(run.started[last] == run.started[earlier]);
                            assert(interrupted(run.started, earlier, last));
                            let between = choose|between: int|
                                earlier < between < last && (#[trigger] run.started[between]).kind
                                    == run.started[earlier].kind
                                    && run.started[between].credential_id
                                    != run.started[earlier].credential_id;
                            assert(next.started[between] == run.started[between]);
                        }
                    }
                }
            }
        },
        Step::Finished { task } => {
            assert forall|kind: OperationKind| #[trigger]
                next.table.slots.contains_key(kind) implies {
                let slot = next.table.slots[kind];
                &&& slot.task < next.started.len()
                &&& next.started[slot.task as int] == Key { kind, credential_id: slot.credential_id }
                &&& slot.running == next.live.contains(slot.task)
                &&& forall|other: int|
                    slot.task < other < next.started.len() ==> (
                    #[trigger] next.started[other]).kind != kind
            } by {
                assert(run.table.slots.contains_key(kind));
            }
            assert forall|earlier: int, later: int|
                #![trigger next.started[earlier], next.started[later]]
                0 <= earlier < later < next.started.len() && next.live.contains(earlier as nat)
                    && next.started[earlier] == next.started[later] implies interrupted(
                next.started,
                earlier,
                later,
            ) by {
                assert(run.live.contains(earlier as nat));
            }
        },
    }
}

/// In every state that a dispatcher can reach, the table records the task
/// started last for each kind, and the tasks at work are deduplicated.
pub proof fn lemma_runs_are_deduplicated(steps: Seq<Step>)
    ensures
        recorded(run_of(steps)),
        deduplicated(run_of(steps)),
    decreases steps.len(),
{
    if steps.len() > 0 {
        lemma_runs_are_deduplicated(steps.drop_last());
        lemma_step_keeps_order(run_of(steps.drop_last()), steps.last());
    }
}

/// Where every task of a kind is started for one credential, at most one
/// task of the kind is at work at any time.
pub proof fn lemma_one_task_per_credential(steps: Seq<Step>, earlier: int, later: int)
    requires
        0 <= earlier < later < run_of(steps).started.len(),
        run_of(steps).started[earlier] == run_of(steps).started[later],
        forall|between: int|
            earlier < between < later && (#[trigger] run_of(steps).started[between]).kind == run_of(
                steps,
            ).started[earlier].kind ==> run_of(steps).started[between].credential_id == run_of(
                steps,
            ).started[earlier].credential_id,
    ensures
        !(run_of(steps).live.contains(earlier as nat) && run_of(steps).live.contains(later as nat)),
{
    lemma_runs_are_deduplicated(steps);
    let run = run_of(steps);
    if run.live.contains(earlier as nat) {
        assert(interrupted(run.started, earlier, later));
    }
}

} // verus!
