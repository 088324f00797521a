use vstd::prelude::*;

verus! {

/// Where a worker stands in its lifecycle.
#[derive(Clone, Copy, Debug, PartialEq, Eq, Structural)]
pub enum SlotState {
    /// Spawned, not yet heard from.
    Starting,
    /// Said who it is; its run goes on.
    Running,
}

/// A run waiting for, or holding, a worker.
pub struct QueuedRun {
    pub run_id: String,
    pub pipeline: String,
    /// `key=value` variables handed to the worker.
    pub variables: Vec<String>,
    /// `key=value` environment entries handed to the worker.
    pub environment: Vec<String>,
}

/// One active worker.
pub struct WorkerSlot {
    pub run_id: String,
    /// The worker process, once spawned.
    pub pid: Option<u32>,
    pub state: SlotState,
    /// The connection the worker talks through, once it said who it is.
    pub connection: Option<u64>,
    /// When the slot was taken, in milliseconds.
    pub started_at: u64,
}

/// A slot with its texts as character sequences.
pub struct SlotView {
    pub run_id: Seq<char>,
    pub pid: Option<u32>,
    pub state: SlotState,
    pub connection: Option<u64>,
    pub started_at: u64,
}

impl View for WorkerSlot {
    type V = SlotView;

    open spec fn view(&self) -> SlotView {
        SlotView {
            run_id: self.run_id@,
            pid: self.pid,
            state: self.state,
            connection: self.connection,
            started_at: self.started_at,
        }
    }
}

/// What became of an enqueued run.
pub enum Admission {
    /// A worker slot was free: spawn a worker for this run.
    Start(QueuedRun),
    /// All slots are taken: the run waits at this position.
    Queued(usize),
}

/// The bounded pool of workers: at most `capacity` active slots, and runs
/// waiting in arrival order.
pub struct WorkerQueue {
    capacity: usize,
    active: Vec<WorkerSlot>,
    pending: Vec<QueuedRun>,
}

pub open spec fn slots_view(v: Seq<WorkerSlot>) -> Seq<SlotView> {
    v.map_values(|s: WorkerSlot| s@)
}

pub open spec fn run_ids(v: Seq<QueuedRun>) -> Seq<Seq<char>> {
    v.map_values(|r: QueuedRun| r.run_id@)
}

impl WorkerQueue {
    pub closed spec fn spec_capacity(&self) -> nat {
        self.capacity as nat
    }

    pub closed spec fn active_view(&self) -> Seq<SlotView> {
        slots_view(self.active@)
    }

    /// The run ids that wait, oldest first.
    pub closed spec fn pending_view(&self) -> Seq<Seq<char>> {
        run_ids(self.pending@)
    }

    /// At most `capacity` slots are active, and no run waits while a slot is
    /// free.
    pub open spec fn wf(&self) -> bool {
        &&& self.spec_capacity() > 0
        &&& self.active_view().len() <= self.spec_capacity()
        &&& (self.pending_view().len() > 0 ==> self.active_view().len() == self.spec_capacity())
    }

    pub fn new(capacity: usize) -> (r: WorkerQueue)
        requires
            capacity > 0,
        ensures
            r.wf(),
            r.spec_capacity() == capacity,
            r.active_view().len() == 0,
            r.pending_view().len() == 0,
    {
        let q = WorkerQueue { capacity, active: Vec::new(), pending: Vec::new() };
        proof {
            assert(slots_view(q.active@) =~= seq![]);
            assert(run_ids(q.pending@) =~= seq![]);
        }
        q
    }

    pub fn capacity(&self) -> (r: usize)
        ensures
            r == self.spec_capacity(),
    {
        self.capacity
    }

    pub fn active_len(&self) -> (r: usize)
        ensures
            r == self.active_view().len(),
    {
        self.active.len()
    }

    pub fn pending_len(&self) -> (r: usize)
        ensures
            r == self.pending_view().len(),
    {
        self.pending.len()
    }

    fn take_slot(&mut self, run: &QueuedRun, now: u64)
        requires
            old(self).active_view().len() < old(self).spec_capacity(),
        ensures
            final(self).spec_capacity() == old(self).spec_capacity(),
            final(self).pending_view() == old(self).pending_view(),
            final(self).active_view() == old(self).active_view().push(
                SlotView {
                    run_id: run.run_id@,
                    pid: None,
                    state: SlotState::Starting,
                    connection: None,
                    started_at: now,
                },
            ),
    {
        let slot = WorkerSlot {
            run_id: run.run_id.clone(),
            pid: None,
            state: SlotState::Starting,
            connection: None,
            started_at: now,
        };
        let ghost sv = slot@;
        self.active.push(slot);
        proof {
            assert(slots_view(self.active@) =~= slots_view(old(self).active@).push(sv));
        }
    }

    /// Admits a run: it takes a free slot at once, or waits at the back.
    pub fn enqueue(&mut self, run: QueuedRun, now: u64) -> (r: Admission)
        requires
            old(self).wf(),
        ensures
            final(self).wf(),
            enqueue_post(*old(self), *final(self), run.run_id@, now, r is Start),
            final(self).spec_capacity() == old(self).spec_capacity(),
            old(self).active_view().len() < old(self).spec_capacity() ==> {
                &&& r matches Admission::Start(x) && x == run
                &&& final(self).pending_view() == old(self).pending_view()
                &&& final(self).active_view() == old(self).active_view().push(
                    SlotView {
                        run_id: run.run_id@,
                        pid: None,
                        state: SlotState::Starting,
                        connection: None,
                        started_at: now,
                    },
                )
            },
            old(self).active_view().len() >= old(self).spec_capacity() ==> {
                &&& r matches Admission::Queued(p) && p == old(self).pending_view().len()
                &&& final(self).active_view() == old(self).active_view()
                &&& final(self).pending_view() == old(self).pending_view().push(run.run_id@)
            },
    {
        if self.active.len() < self.capacity {
            self.take_slot(&run, now);
            Admission::Start(run)
        } else {
            let pos = self.pending.len();
            let ghost id = run.run_id@;
            self.pending.push(run);
            proof {
                assert(run_ids(self.pending@) =~= run_ids(old(self).pending@).push(id));
            }
            Admission::Queued(pos)
        }
    }

    /// Records the process spawned for the slot of `run_id`.
    pub fn spawned(&mut self, run_id: &String, pid: u32) -> (r: bool)
        requires
            old(self).wf(),
        ensures
            final(self).wf(),
            final(self).spec_capacity() == old(self).spec_capacity(),
            final(self).pending_view() == old(self).pending_view(),
            final(self).active_view().len() == old(self).active_view().len(),
            r == exists|i: int|
                0 <= i < old(self).active_view().len() && old(self).active_view()[i].run_id
                    == run_id@,
            r ==> exists|i: int|
                0 <= i < old(self).active_view().len() && old(self).active_view()[i].run_id
                    == run_id@ && final(self).active_view() == old(self).active_view().update(
                    i,
                    SlotView { pid: Some(pid), ..old(self).active_view()[i] },
                ),
            !r ==> final(self).active_view() == old(self).active_view(),
    {
        let mut i: usize = 0;
        while i < self.active.len()
            invariant
                i <= self.active@.len(),
                self.active@ == old(self).active@,
                self.pending@ == old(self).pending@,
                self.capacity == old(self).capacity,
                old(self).wf(),
                forall|k: int| 0 <= k < i ==> self.active@[k].run_id@ != run_id@,
            decreases self.active@.len() - i,
        {
            if self.active[i].run_id == *run_id {
                let mut slot = self.active.remove(i);
                slot.pid = Some(pid);
                let ghost sv = slot@;
                self.active.insert(i, slot);
                proof {
                    assert(self.active@ =~= old(self).active@.update(i as int, self.active@[i as int]));
                    assert(slots_view(self.active@) =~= slots_view(old(self).active@).update(
                        i as int,
                        sv,
                    ));
                    assert(slots_view(old(self).active@)[i as int].run_id == run_id@);
                }
                return true;
            }
            i = i + 1;
        }
        proof {
            assert forall|k: int| 0 <= k < slots_view(old(self).active@).len() implies slots_view(
                old(self).active@,
            )[k].run_id != run_id@ by {
                assert(slots_view(old(self).active@)[k] == old(self).active@[k]@);
            }
        }
        false
    }

    /// Binds the connection of a worker that said who it is (its process id)
    /// to its slot, which then counts as running.
    pub fn who_am_i(&mut self, pid: u32, connection: u64) -> (r: bool)
        requires
            old(self).wf(),
        ensures
            final(self).wf(),
            final(self).spec_capacity() == old(self).spec_capacity(),
            final(self).pending_view() == old(self).pending_view(),
            final(self).active_view().len() == old(self).active_view().len(),
            r == exists|i: int|
                0 <= i < old(self).active_view().len() && old(self).active_view()[i].pid == Some(
                    pid,
                ),
            r ==> exists|i: int|
                0 <= i < old(self).active_view().len() && old(self).active_view()[i].pid == Some(
                    pid,
                ) && final(self).active_view() == old(self).active_view().update(
                    i,
                    SlotView {
                        state: SlotState::Running,
                        connection: Some(connection),
                        ..old(self).active_view()[i]
                    },
                ),
            !r ==> final(self).active_view() == old(self).active_view(),
            who_am_i_post(*old(self), *final(self), pid, connection),
    {
        let mut i: usize = 0;
        while i < self.active.len()
            invariant
                i <= self.active@.len(),
                self.active@ == old(self).active@,
                self.pending@ == old(self).pending@,
                self.capacity == old(self).capacity,
                old(self).wf(),
                forall|k: int| 0 <= k < i ==> self.active@[k].pid != Some(pid),
            decreases self.active@.len() - i,
        {
            if self.active[i].pid == Some(pid) {
                let mut slot = self.active.remove(i);
                slot.state = SlotState::Running;
                slot.connection = Some(connection);
                let ghost sv = slot@;
                self.active.insert(i, slot);
                proof {
                    assert(self.active@ =~= old(self).active@.update(i as int, self.active@[i as int]));
                    assert(slots_view(self.active@) =~= slots_view(old(self).active@).update(
                        i as int,
                        sv,
                    ));
                    assert(slots_view(old(self).active@)[i as int].pid == Some(pid));
                }
                return true;
            }
            i = i + 1;
        }
        proof {
            assert forall|k: int| 0 <= k < slots_view(old(self).active@).len() implies slots_view(
                old(self).active@,
            )[k].pid != Some(pid) by {
                assert(slots_view(old(self).active@)[k] == old(self).active@[k]@);
            }
        }
        false
    }

    /// Frees slot `i` and hands it to the oldest waiting run, if any; that
    /// run is returned for a worker to be spawned.
    fn release(&mut self, i: usize, now: u64) -> (r: Option<QueuedRun>)
        requires
            old(self).wf(),
            i < old(self).active_view().len(),
        ensures
            final(self).wf(),
            released(*old(self), *final(self), i as int, now, spawned_id(r)),
    {
        self.active.remove(i);
        proof {
            assert(slots_view(self.active@) =~= slots_view(old(self).active@).remove(i as int));
        }
        if self.pending.len() > 0 {
            let next = self.pending.remove(0);
            proof {
                assert(run_ids(self.pending@) =~= run_ids(old(self).pending@).drop_first());
                assert(run_ids(old(self).pending@)[0] == next.run_id@);
            }
            self.take_slot(&next, now);
            Some(next)
        } else {
            None
        }
    }

    /// A worker reported that its run completed: its slot is freed and given
    /// to the oldest waiting run, which is returned for a worker to be spawned.
    pub fn completed(&mut self, connection: u64, now: u64) -> (r: Option<QueuedRun>)
        requires
            old(self).wf(),
        ensures
            final(self).wf(),
            completed_post(*old(self), *final(self), connection, now, spawned_id(r)),
    {
        let mut i: usize = 0;
        while i < self.active.len()
            invariant
                i <= self.active@.len(),
                self.active@ == old(self).active@,
                self.pending@ == old(self).pending@,
                self.capacity == old(self).capacity,
                old(self).wf(),
                forall|k: int| 0 <= k < i ==> self.active@[k].connection != Some(connection),
            decreases self.active@.len() - i,
        {
            if self.active[i].connection == Some(connection) {
                proof {
                    assert(slots_view(old(self).active@)[i as int] == old(self).active@[i as int]@);
                    assert forall|j: int| 0 <= j < i implies old(self).active_view()[j].connection
                        != Some(connection) by {
                        assert(slots_view(old(self).active@)[j] == old(self).active@[j]@);
                    }
                    assert(first_on_connection(*old(self), connection, i as int));
                }
                return self.release(i, now);
            }
            i = i + 1;
        }
        proof {
            assert forall|k: int| 0 <= k < slots_view(old(self).active@).len() implies slots_view(
                old(self).active@,
            )[k].connection != Some(connection) by {
                assert(slots_view(old(self).active@)[k] == old(self).active@[k]@);
            }
            assert(!exists|i: int| first_on_connection(*old(self), connection, i));
        }
        None
    }

    /// Frees the first slot whose worker has not said who it is within
    /// `grace` milliseconds of `now`; returns its run id (now faulted) and the
    /// run that took its place, if any.
    pub fn expire_one(&mut self, now: u64, grace: u64) -> (r: Option<(String, Option<QueuedRun>)>)
        requires
            old(self).wf(),
        ensures
            final(self).wf(),
            final(self).spec_capacity() == old(self).spec_capacity(),
            r is None <==> forall|i: int|
                0 <= i < old(self).active_view().len() ==> !expired(
                    old(self).active_view()[i],
                    now,
                    grace,
                ),
            r is None ==> final(self).active_view() == old(self).active_view()
                && final(self).pending_view() == old(self).pending_view(),
            r matches Some((id, next)) ==> (exists|i: int|
                first_expired(*old(self), now, grace, i) && old(self).active_view()[i].run_id
                    == id@ && released(*old(self), *final(self), i, now, spawned_id(next))),
    {
        let mut i: usize = 0;
        while i < self.active.len()
            invariant
                i <= self.active@.len(),
                self.active@ == old(self).active@,
                self.pending@ == old(self).pending@,
                self.capacity == old(self).capacity,
                old(self).wf(),
                forall|k: int| 0 <= k < i ==> !expired(self.active@[k]@, now, grace),
            decreases self.active@.len() - i,
        {
            let s = &self.active[i];
            let late = match s.state {
                SlotState::Starting => now >= s.started_at && now - s.started_at >= grace,
                SlotState::Running => false,
            };
            if late {
                let id = s.run_id.clone();
                proof {
                    assert(slots_view(old(self).active@)[i as int] == old(self).active@[i as int]@);
                    assert forall|j: int| 0 <= j < i implies !expired(
                        old(self).active_view()[j],
                        now,
                        grace,
                    ) by {
                        assert(slots_view(old(self).active@)[j] == old(self).active@[j]@);
                    }
                    assert(first_expired(*old(self), now, grace, i as int));
                }
                let next = self.release(i, now);
                return Some((id, next));
            }
            i = i + 1;
        }
        proof {
            assert forall|k: int| 0 <= k < slots_view(old(self).active@).len() implies !expired(
                slots_view(old(self).active@)[k],
                now,
                grace,
            ) by {
                assert(slots_view(old(self).active@)[k] == old(self).active@[k]@);
            }
        }
        None
    }

    /// The connection to send a stop to for `run_id`, if its worker said who
    /// it is.
    pub fn connection_of(&self, run_id: &String) -> (r: Option<u64>)
        ensures
            r matches Some(c) ==> (exists|i: int|
                0 <= i < self.active_view().len() && self.active_view()[i].run_id == run_id@
                    && self.active_view()[i].connection == Some(c)),
            r is None ==> forall|i: int|
                0 <= i < self.active_view().len() && self.active_view()[i].run_id == run_id@
                    ==> self.active_view()[i].connection is None,
    {
        let mut i: usize = 0;
        while i < self.active.len()
            invariant
                i <= self.active@.len(),
                forall|k: int|
                    0 <= k < i && self.active@[k].run_id@ == run_id@ ==> self.active@[k].connection
                        is None,
            decreases self.active@.len() - i,
        {
            if self.active[i].run_id == *run_id {
                if let Some(c) = self.active[i].connection {
                    proof {
                        assert(slots_view(self.active@)[i as int] == self.active@[i as int]@);
                        assert(self.active_view()[i as int].run_id == run_id@);
                        assert(self.active_view()[i as int].connection == Some(c));
                    }
                    return Some(c);
                }
            }
            i = i + 1;
        }
        proof {
            assert forall|k: int|
                0 <= k < self.active_view().len() && self.active_view()[k].run_id == run_id@ implies self.active_view()[k].connection is None by {
                assert(slots_view(self.active@)[k] == self.active@[k]@);
            }
        }
        None
    }

    /// The connections of all workers that said who they are, in slot
    /// order, to be told to stop on shutdown.
    pub fn connections(&self) -> (r: Vec<u64>)
        ensures
            r@ == connections_of(self.active_view(), self.active_view().len() as int),
    {
        let mut out: Vec<u64> = Vec::new();
        let mut i: usize = 0;
        while i < self.active.len()
            invariant
                i <= self.active@.len(),
                out@ == connections_of(slots_view(self.active@), i as int),
            decreases self.active@.len() - i,
        {
            proof {
                assert(slots_view(self.active@)[i as int] == self.active@[i as int]@);
            }
            if let Some(c) = self.active[i].connection {
                out.push(c);
            }
            i = i + 1;
        }
        out
    }
}

/// The connections among the first `n` slots, in order.
pub open spec fn connections_of(slots: Seq<SlotView>, n: int) -> Seq<u64>
    decreases n,
{
    if n <= 0 {
        seq![]
    } else {
        match slots[n - 1].connection {
            Some(c) => connections_of(slots, n - 1).push(c),
            None => connections_of(slots, n - 1),
        }
    }
}

/// A slot whose worker has not said who it is within `grace` of `now`.
pub open spec fn expired(s: SlotView, now: u64, grace: u64) -> bool {
    s.state == SlotState::Starting && now >= s.started_at && now - s.started_at >= grace
}

/// A fresh slot for run `id`, taken at `now`.
pub open spec fn starting_slot(id: Seq<char>, now: u64) -> SlotView {
    SlotView { run_id: id, pid: None, state: SlotState::Starting, connection: None, started_at: now }
}

/// The run id of a run handed out, if any.
pub open spec fn spawned_id(r: Option<QueuedRun>) -> Option<Seq<char>> {
    match r {
        Some(x) => Some(x.run_id@),
        None => None,
    }
}

/// Slot `i` of `old` was freed at `now` and, when runs waited, handed to the
/// oldest of them, which is `spawned`; with none waiting nothing is spawned.
pub open spec fn released(old: WorkerQueue, new: WorkerQueue, i: int, now: u64, spawned: Option<
    Seq<char>,
>) -> bool {
    &&& new.spec_capacity() == old.spec_capacity()
    &&& if old.pending_view().len() > 0 {
        &&& spawned == Some(old.pending_view()[0])
        &&& new.pending_view() == old.pending_view().drop_first()
        &&& new.active_view() == old.active_view().remove(i).push(
            starting_slot(old.pending_view()[0], now),
        )
    } else {
        &&& spawned is None
        &&& new.pending_view() == old.pending_view()
        &&& new.active_view() == old.active_view().remove(i)
    }
}

/// Slot `i` is the first whose worker talks through `connection`.
pub open spec fn first_on_connection(q: WorkerQueue, connection: u64, i: int) -> bool {
    &&& 0 <= i < q.active_view().len()
    &&& q.active_view()[i].connection == Some(connection)
    &&& forall|j: int| 0 <= j < i ==> q.active_view()[j].connection != Some(connection)
}

/// What a completion on `connection` does: the worker's slot is freed and
/// given to the oldest waiting run (handed out as `spawned`); an unknown
/// connection changes nothing.
pub open spec fn completed_post(old: WorkerQueue, new: WorkerQueue, connection: u64, now: u64, spawned: Option<
    Seq<char>,
>) -> bool {
    if exists|i: int| first_on_connection(old, connection, i) {
        exists|i: int| first_on_connection(old, connection, i) && released(old, new, i, now, spawned)
    } else {
        &&& spawned is None
        &&& new.active_view() == old.active_view()
        &&& new.pending_view() == old.pending_view()
        &&& new.spec_capacity() == old.spec_capacity()
    }
}

/// What a worker naming its process `pid` on `connection` does: the slot of
/// that process counts as running and is bound to the connection.
pub open spec fn who_am_i_post(old: WorkerQueue, new: WorkerQueue, pid: u32, connection: u64) -> bool {
    &&& new.spec_capacity() == old.spec_capacity()
    &&& new.pending_view() == old.pending_view()
    &&& if exists|i: int| 0 <= i < old.active_view().len() && old.active_view()[i].pid == Some(pid) {
        exists|i: int|
            0 <= i < old.active_view().len() && old.active_view()[i].pid == Some(pid)
                && new.active_view() == old.active_view().update(
                i,
                SlotView {
                    state: SlotState::Running,
                    connection: Some(connection),
                    ..old.active_view()[i]
                },
            )
    } else {
        new.active_view() == old.active_view()
    }
}

/// What admitting `id` at `now` does: it takes a free slot, or waits last.
pub open spec fn enqueue_post(old: WorkerQueue, new: WorkerQueue, id: Seq<char>, now: u64, started: bool) -> bool {
    &&& new.spec_capacity() == old.spec_capacity()
    &&& if old.active_view().len() < old.spec_capacity() {
        &&& started
        &&& new.pending_view() == old.pending_view()
        &&& new.active_view() == old.active_view().push(starting_slot(id, now))
    } else {
        &&& !started
        &&& new.active_view() == old.active_view()
        &&& new.pending_view() == old.pending_view().push(id)
    }
}

/// Slot `i` is the first whose worker is late at `now`.
pub open spec fn first_expired(q: WorkerQueue, now: u64, grace: u64, i: int) -> bool {
    &&& 0 <= i < q.active_view().len()
    &&& expired(q.active_view()[i], now, grace)
    &&& forall|j: int| 0 <= j < i ==> !expired(q.active_view()[j], now, grace)
}

/// The pool never holds more active workers than its capacity, whatever
/// happened before.
pub proof fn lemma_active_within_capacity(q: WorkerQueue)
    requires
        q.wf(),
    ensures
        q.active_view().len() <= q.spec_capacity(),
{
}

} // verus!
