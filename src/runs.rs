use crate::monitor::RunQuery;
use vstd::prelude::*;

verus! {

/// A submitted run: its id, the pipeline it runs and when it started.
pub struct RunRecord {
    pub id: String,
    pub name: String,
    pub start_time: String,
}

/// A record as its id and pipeline name.
pub type RecordView = (Seq<char>, Seq<char>);

pub open spec fn records_view(v: Seq<RunRecord>) -> Seq<RecordView> {
    v.map_values(|r: RunRecord| (r.id@, r.name@))
}

/// The runs submitted to this instance, oldest first, each id once. Records
/// are only ever added.
pub struct RunIndex {
    records: Vec<RunRecord>,
}

/// Why a run could not be recorded.
#[derive(Clone, Copy, Debug, PartialEq, Eq, Structural)]
pub enum RunIndexError {
    DuplicateId,
}

/// The position of the newest record that `query` selects.
pub open spec fn selected(rs: Seq<RecordView>, last: bool, by_id: Option<Seq<char>>, by_name: Option<Seq<char>>) -> Option<int> {
    if last {
        if rs.len() > 0 {
            Some(rs.len() - 1)
        } else {
            None
        }
    } else {
        match by_id {
            Some(id) => newest_where(rs, false, id, rs.len() as int),
            None => match by_name {
                Some(n) => newest_where(rs, true, n, rs.len() as int),
                None => None,
            },
        }
    }
}

/// The key of a record: its pipeline name, or its id.
pub open spec fn key_of(r: RecordView, by_name: bool) -> Seq<char> {
    if by_name {
        r.1
    } else {
        r.0
    }
}

/// The position of the newest of the first `n` records whose key is `key`.
pub open spec fn newest_where(rs: Seq<RecordView>, by_name: bool, key: Seq<char>, n: int) -> Option<
    int,
>
    decreases n,
{
    if n <= 0 {
        None
    } else if key_of(rs[n - 1], by_name) == key {
        Some(n - 1)
    } else {
        newest_where(rs, by_name, key, n - 1)
    }
}

pub open spec fn as_position(r: Option<usize>) -> Option<int> {
    match r {
        Some(i) => Some(i as int),
        None => None,
    }
}

pub open spec fn ids_unique(rs: Seq<RecordView>) -> bool {
    forall|a: int, b: int| 0 <= a < rs.len() && 0 <= b < rs.len() && a != b ==> rs[a].0 != rs[b].0
}

impl View for RunIndex {
    type V = Seq<RecordView>;

    closed spec fn view(&self) -> Seq<RecordView> {
        records_view(self.records@)
    }
}

impl RunIndex {
    pub open spec fn wf(&self) -> bool {
        ids_unique(self@)
    }

    pub fn new() -> (r: RunIndex)
        ensures
            r.wf(),
            r@.len() == 0,
    {
        let r = RunIndex { records: Vec::new() };
        proof {
            assert(records_view(r.records@) =~= seq![]);
        }
        r
    }

    pub fn len(&self) -> (r: usize)
        ensures
            r == self@.len(),
    {
        self.records.len()
    }

    /// Adds a run at the end, unless its id is taken.
    pub fn record(&mut self, run: RunRecord) -> (r: Result<(), RunIndexError>)
        requires
            old(self).wf(),
        ensures
            final(self).wf(),
            r is Ok <==> forall|i: int| 0 <= i < old(self)@.len() ==> old(self)@[i].0 != run.id@,
            r is Ok ==> final(self)@ == old(self)@.push((run.id@, run.name@)),
            r is Err ==> final(self)@ == old(self)@ && r == Err::<(), RunIndexError>(
                RunIndexError::DuplicateId,
            ),
    {
        let mut i: usize = 0;
        while i < self.records.len()
            invariant
                i <= self.records@.len(),
                self.records@ == old(self).records@,
                old(self).wf(),
                forall|k: int| 0 <= k < i ==> self.records@[k].id@ != run.id@,
            decreases self.records@.len() - i,
        {
            if self.records[i].id == run.id {
                proof {
                    assert(old(self)@[i as int].0 == run.id@);
                }
                return Err(RunIndexError::DuplicateId);
            }
            i = i + 1;
        }
        let ghost pre = self@;
        let ghost rv = (run.id@, run.name@);
        proof {
            assert forall|k: int| 0 <= k < pre.len() implies pre[k].0 != run.id@ by {
                assert(pre[k].0 == self.records@[k].id@);
            }
        }
        self.records.push(run);
        proof {
            assert(self@ =~= pre.push(rv));
            assert forall|a: int, b: int|
                0 <= a < self@.len() && 0 <= b < self@.len() && a != b implies self@[a].0
                != self@[b].0 by {
                if a < pre.len() && b < pre.len() {
                    assert(self@[a] == pre[a] && self@[b] == pre[b]);
                } else if a < pre.len() {
                    assert(self@[a] == pre[a]);
                } else {
                    assert(self@[b] == pre[b]);
                }
            }
        }
        Ok(())
    }

    /// The record at position `i`.
    pub fn get(&self, i: usize) -> (r: &RunRecord)
        requires
            i < self@.len(),
        ensures
            (r.id@, r.name@) == self@[i as int],
    {
        &self.records[i]
    }

    fn newest(&self, by_name: bool, key: &String) -> (r: Option<usize>)
        ensures
            as_position(r) == newest_where(self@, by_name, key@, self@.len() as int),
            r matches Some(i) ==> i < self@.len(),
    {
        let mut n: usize = self.records.len();
        while n > 0
            invariant
                n <= self@.len(),
                newest_where(self@, by_name, key@, self@.len() as int) == newest_where(
                    self@,
                    by_name,
                    key@,
                    n as int,
                ),
            decreases n,
        {
            proof {
                assert(self@[n - 1] == (self.records@[n - 1].id@, self.records@[n - 1].name@));
            }
            let r = &self.records[n - 1];
            let hit = if by_name {
                r.name == *key
            } else {
                r.id == *key
            };
            if hit {
                return Some(n - 1);
            }
            n = n - 1;
        }
        None
    }

    /// The position of the run that a monitor request selects: the latest
    /// run, or the newest with the given id, or the newest of the given
    /// pipeline.
    pub fn select(&self, query: &RunQuery) -> (r: Option<usize>)
        ensures
            r matches Some(i) ==> i < self@.len(),
            as_position(r) == match query {
                RunQuery::Last => selected(self@, true, None, None),
                RunQuery::ById(id) => selected(self@, false, Some(id@), None),
                RunQuery::ByName(n) => selected(self@, false, None, Some(n@)),
            },
    {
        match query {
            RunQuery::Last => {
                if self.records.len() > 0 {
                    Some(self.records.len() - 1)
                } else {
                    None
                }
            },
            RunQuery::ById(id) => self.newest(false, id),
            RunQuery::ByName(n) => self.newest(true, n),
        }
    }
}

} // verus!
