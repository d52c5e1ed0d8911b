//! Which requests start a background task, and which are dropped because the
//! same task is still running.
//!
//! The host runs the tasks. It asks the dispatcher on every request, starts
//! a task when told to, and tells the dispatcher when a task is over.

use vstd::prelude::*;

verus! {

/// What a request asks for. Each kind has one slot in the dispatcher.
#[derive(Debug, Clone, Copy, PartialEq, Eq, Hash, Structural)]
pub enum OperationKind {
    CopyId,
    CopyPassword,
    CopyLogin,
    CopyOtp,
    FetchOtp,
    FetchEntry,
}

/// The task last started for a kind.
#[derive(Debug, Clone, PartialEq, Eq)]
pub struct PendingOperation {
    /// The number of the task, by which the host knows its handle.
    pub task: u64,
    /// The credential the task was started for.
    pub credential_id: String,
    /// Whether the task is still at work.
    pub running: bool,
}

/// `PendingOperation` as plain values.
pub struct Pending {
    pub task: nat,
    pub credential_id: Seq<char>,
    pub running: bool,
}

impl View for PendingOperation {
    type V = Pending;

    open spec fn view(&self) -> Pending {
        Pending { task: self.task as nat, credential_id: self.credential_id@, running: self.running }
    }
}

/// What the host does with a request.
#[derive(Debug, Clone, Copy, PartialEq, Eq, Structural)]
pub enum Dispatch {
    /// Nothing: the same task is still running.
    Suppressed,
    /// Start a task for the request, under this number.
    Spawn { task: u64 },
}

/// The dispatcher's table: the slot of each kind, and how many tasks were
/// started so far.
pub struct Table {
    pub slots: Map<OperationKind, Pending>,
    pub spawned: nat,
}

/// The table before any request.
pub open spec fn empty_table() -> Table {
    Table { slots: Map::empty(), spawned: 0 }
}

/// Every recorded task was started: its number is below `spawned`. So the
/// number of the next task is new.
pub open spec fn table_wf(table: Table) -> bool {
    forall|kind: OperationKind| #[trigger]
        table.slots.contains_key(kind) ==> table.slots[kind].task < table.spawned
}

/// A request for `kind` and `id` is dropped: the task recorded for `kind` is
/// still running and was started for `id`.
pub open spec fn suppresses(table: Table, kind: OperationKind, id: Seq<char>) -> bool {
    &&& table.slots.contains_key(kind)
    &&& table.slots[kind].running
    &&& table.slots[kind].credential_id == id
}

/// The table after a request for `kind` and `id`. A dropped request changes
/// nothing. Any other takes the slot of `kind` for a new task, whatever the
/// slot held.
pub open spec fn requested(table: Table, kind: OperationKind, id: Seq<char>) -> Table {
    if suppresses(table, kind, id) {
        table
    } else {
        Table {
            slots: table.slots.insert(
                kind,
                Pending { task: table.spawned, credential_id: id, running: true },
            ),
            spawned: table.spawned + 1,
        }
    }
}

/// What the host is told on a request for `kind` and `id`.
pub open spec fn decision(table: Table, kind: OperationKind, id: Seq<char>) -> Dispatch {
    if suppresses(table, kind, id) {
        Dispatch::Suppressed
    } else {
        Dispatch::Spawn { task: table.spawned as u64 }
    }
}

/// The table after task `task` is over: the slot that records it, if one
/// still does, is no longer running. A task whose slot was taken by a later
/// one leaves no trace.
pub open spec fn finished(table: Table, task: nat) -> Table {
    Table {
        slots: Map::new(
            |kind: OperationKind| table.slots.contains_key(kind),
            |kind: OperationKind|
                if table.slots[kind].task == task {
                    Pending { running: false, ..table.slots[kind] }
                } else {
                    table.slots[kind]
                },
        ),
        spawned: table.spawned,
    }
}

impl OperationKind {
    /// The place of the kind's slot.
    pub open spec fn slot(self) -> int {
        match self {
            OperationKind::CopyId => 0,
            OperationKind::CopyPassword => 1,
            OperationKind::CopyLogin => 2,
            OperationKind::CopyOtp => 3,
            OperationKind::FetchOtp => 4,
            OperationKind::FetchEntry => 5,
        }
    }

    fn index(self) -> (i: usize)
        ensures
            i == self.slot(),
    {
        match self {
            OperationKind::CopyId => 0,
            OperationKind::CopyPassword => 1,
            OperationKind::CopyLogin => 2,
            OperationKind::CopyOtp => 3,
            OperationKind::FetchOtp => 4,
            OperationKind::FetchEntry => 5,
        }
    }
}

/// The deduplicating dispatcher.
pub struct OperationDispatcher {
    slots: Vec<Option<PendingOperation>>,
    next_task: u64,
}

impl OperationDispatcher {
    /// The dispatcher's table.
    pub closed spec fn table(&self) -> Table {
        Table {
            slots: Map::new(
                |kind: OperationKind| self.slots@.len() == 6 && self.slots@[kind.slot()] is Some,
                |kind: OperationKind| self.slots@[kind.slot()]->0@,
            ),
            spawned: self.next_task as nat,
        }
    }

    /// The dispatcher holds one slot for each kind, and its table is well
    /// formed.
    pub closed spec fn wf(&self) -> bool {
        &&& self.slots@.len() == 6
        &&& table_wf(self.table())
    }

    /// A dispatcher that has seen no request.
    pub fn new() -> (dispatcher: Self)
        ensures
            dispatcher.wf(),
            dispatcher.table() == empty_table(),
    {
        let mut slots: Vec<Option<PendingOperation>> = Vec::new();
        slots.push(None);
        slots.push(None);
        slots.push(None);
        slots.push(None);
        slots.push(None);
        slots.push(None);
        let dispatcher = OperationDispatcher { slots, next_task: 0 };
        assert(dispatcher.table().slots =~= Map::<OperationKind, Pending>::empty());
        dispatcher
    }

    /// How many tasks were started so far.
    pub fn spawned(&self) -> (count: u64)
        ensures
            count == self.table().spawned,
    {
        self.next_task
    }

    /// Whether the task recorded for `kind` is still running, and for which
    /// credential.
    pub fn in_flight(&self, kind: OperationKind) -> (id: Option<&String>)
        requires
            self.wf(),
        ensures
            match id {
                Some(credential_id) => {
                    &&& self.table().slots.contains_key(kind)
                    &&& self.table().slots[kind].running
                    &&& self.table().slots[kind].credential_id == credential_id@
                },
                None => !self.table().slots.contains_key(kind) || !self.table().slots[kind].running,
            },
    {
        match &self.slots[kind.index()] {
            Some(pending) => if pending.running {
                Some(&pending.credential_id)
            } else {
                None
            },
            None => None,
        }
    }

    /// A request for the operation `kind` on `credential_id`.
    ///
    /// It is dropped where the task recorded for `kind` is still running and
    /// was started for the same credential. Otherwise a task is to be
    /// started, and takes the slot of `kind`: a task that is over is
    /// forgotten, and one that still runs for another credential goes on
    /// unrecorded.
    pub fn request(&mut self, kind: OperationKind, credential_id: &str) -> (told: Dispatch)
        requires
            old(self).wf(),
            old(self).table().spawned < u64::MAX,
        ensures
            final(self).wf(),
            final(self).table() == requested(old(self).table(), kind, credential_id@),
            told == decision(old(self).table(), kind, credential_id@),
    {
        let place = kind.index();
        let wanted = credential_id.to_owned();
        let ghost before = self.table();
        let same = match &self.slots[place] {
            Some(pending) => pending.running && pending.credential_id == wanted,
            None => false,
        };
        assert(same == suppresses(before, kind, credential_id@));
        if same {
            return Dispatch::Suppressed;
        }
        let task = self.next_task;
        self.slots.set(place, Some(PendingOperation { task, credential_id: wanted, running: true }));
        self.next_task = task + 1;
        proof {
            let after = requested(before, kind, credential_id@);
            assert forall|other: OperationKind| #[trigger]
                self.table().slots.contains_key(other) == after.slots.contains_key(other) by {
                assert(other.slot() == kind.slot() <==> other == kind);
            }
            assert forall|other: OperationKind| #[trigger]
                self.table().slots.contains_key(other) implies self.table().slots[other]
                == after.slots[other] by {
                assert(other.slot() == kind.slot() <==> other == kind);
            }
            assert(self.table().slots =~= after.slots);
            assert forall|other: OperationKind| #[trigger]
                self.table().slots.contains_key(other) implies self.table().slots[other].task
                < self.table().spawned by {
                if other != kind {
                    assert(before.slots.contains_key(other));
                }
            }
        }
        Dispatch::Spawn { task }
    }

    /// The host reports that task `task` is over. The slot that records the
    /// task, if one still does, may be taken again by the same request.
    pub fn task_finished(&mut self, task: u64)
        requires
            old(self).wf(),
        ensures
            final(self).wf(),
            final(self).table() == finished(old(self).table(), task as nat),
    {
        let ghost before = self.table();
        let mut i: usize = 0;
        while i < 6
            invariant
                i <= 6,
                self.slots@.len() == 6,
                self.next_task == before.spawned,
                forall|j: int|
                    0 <= j < 6 ==> (#[trigger] self.slots@[j] is Some) == (old(self).slots@[j] is Some),
                forall|j: int|
                    i <= j < 6 ==> #[trigger] self.slots@[j] == old(self).slots@[j],
                forall|j: int|
                    0 <= j < i && old(self).slots@[j] is Some ==> (#[trigger] self.slots@[j])->0@ == (
                    if old(self).slots@[j]->0.task == task {
                        Pending { running: false, ..old(self).slots@[j]->0@ }
                    } else {
                        old(self).slots@[j]->0@
                    }),
            decreases 6 - i,
        {
            let hit = match &self.slots[i] {
                Some(pending) => pending.task == task,
                None => false,
            };
            if hit {
                let pending = self.slots[i].as_ref().unwrap();
                let done = PendingOperation {
                    task: pending.task,
                    credential_id: pending.credential_id.clone(),
                    running: false,
                };
                self.slots.set(i, Some(done));
            }
            i += 1;
        }
        proof {
            let after = finished(before, task as nat);
            assert forall|kind: OperationKind| #[trigger]
                self.table().slots.contains_key(kind) == after.slots.contains_key(kind) by {
                assert(0 <= kind.slot() < 6);
            }
            assert forall|kind: OperationKind| #[trigger]
                self.table().slots.contains_key(kind) implies self.table().slots[kind]
                == after.slots[kind] by {
                assert(0 <= kind.slot() < 6);
            }
            assert(self.table().slots =~= after.slots);
            assert forall|kind: OperationKind| #[trigger]
                self.table().slots.contains_key(kind) implies self.table().slots[kind].task
                < self.table().spawned by {
                assert(before.slots.contains_key(kind));
            }
        }
    }
}

/// A request leaves the table well formed.
pub proof fn lemma_requested_wf(table: Table, kind: OperationKind, id: Seq<char>)
    requires
        table_wf(table),
    ensures
        table_wf(requested(table, kind, id)),
{
    let after = requested(table, kind, id);
    assert forall|other: OperationKind| #[trigger]
        after.slots.contains_key(other) implies after.slots[other].task < after.spawned by {
        if other != kind {
            assert(table.slots.contains_key(other));
        }
    }
}

/// The end of a task leaves the table well formed.
pub proof fn lemma_finished_wf(table: Table, task: nat)
    requires
        table_wf(table),
    ensures
        table_wf(finished(table, task)),
{
    let after = finished(table, task);
    assert forall|kind: OperationKind| #[trigger]
        after.slots.contains_key(kind) implies after.slots[kind].task < after.spawned by {
        assert(table.slots.contains_key(kind));
    }
}

/// The same request made twice, with no task ending in between, starts at
/// most one task: the second is dropped and changes nothing.
pub proof fn lemma_repeated_request_is_dropped(table: Table, kind: OperationKind, id: Seq<char>)
    ensures
        decision(requested(table, kind, id), kind, id) == Dispatch::Suppressed,
        requested(requested(table, kind, id), kind, id) == requested(table, kind, id),
{
}

/// The table after the same request was made `times` times in a row.
pub open spec fn repeated(table: Table, kind: OperationKind, id: Seq<char>, times: nat) -> Table
    decreases times,
{
    if times == 0 {
        table
    } else {
        requested(repeated(table, kind, id, (times - 1) as nat), kind, id)
    }
}

/// However often a request is repeated while its task runs, the table is
/// that after the first: no second task is started.
pub proof fn lemma_repeats_start_one_task(
    table: Table,
    kind: OperationKind,
    id: Seq<char>,
    times: nat,
)
    requires
        times >= 1,
    ensures
        repeated(table, kind, id, times) == requested(table, kind, id),
        repeated(table, kind, id, times).spawned <= table.spawned + 1,
    decreases times,
{
    if times > 1 {
        lemma_repeats_start_one_task(table, kind, id, (times - 1) as nat);
        lemma_repeated_request_is_dropped(table, kind, id);
    } else {
        assert(repeated(table, kind, id, 0) == table);
    }
}

/// A request for another credential is never dropped because of the first:
/// both tasks are started, under different numbers, and the end of the
/// first does not touch the record of the second.
pub proof fn lemma_other_credential_is_started(
    table: Table,
    kind: OperationKind,
    first: Seq<char>,
    second: Seq<char>,
)
    requires
        table_wf(table),
        first != second,
    ensures
        !suppresses(requested(table, kind, first), kind, second),
        ({
            let middle = requested(table, kind, first);
            let last = requested(middle, kind, second);
            &&& last.slots[kind] == Pending { task: middle.spawned, credential_id: second, running: true }
            &&& middle.slots[kind].task < middle.spawned
            &&& finished(last, middle.slots[kind].task).slots[kind] == last.slots[kind]
        }),
{
    lemma_requested_wf(table, kind, first);
}

/// Kinds do not share a slot: a request for one kind leaves the record of
/// every other kind as it was, and is decided without regard to it.
pub proof fn lemma_kinds_are_independent(
    table: Table,
    kind: OperationKind,
    id: Seq<char>,
    other: OperationKind,
)
    requires
        kind != other,
    ensures
        requested(table, kind, id).slots.contains_key(other) == table.slots.contains_key(other),
        requested(table, kind, id).slots[other] == table.slots[other],
{
}

/// Once the recorded task is over, the same request starts a task again.
pub proof fn lemma_finished_task_is_replaced(table: Table, kind: OperationKind, id: Seq<char>)
    requires
        table.slots.contains_key(kind),
    ensures
        !suppresses(finished(table, table.slots[kind].task), kind, id),
{
}

} // verus!
