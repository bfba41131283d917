//! The registry of active mounts: at most one record for each job.
//!
//! The records are kept in a vector in which no job occurs twice. The
//! contracts speak of the registry as a map from a job's name to its record,
//! and of the order of the records where a snapshot hands them out.

use vstd::prelude::*;
use super::record::AntaresConfig;
use super::record::AntaresConfigView;
use super::text::same_text;

verus! {

/// Some record in `entries` belongs to `job`.
pub open spec fn has_job(entries: Seq<AntaresConfigView>, job: Seq<char>) -> bool {
    exists|i: int| 0 <= i < entries.len() && (#[trigger] entries[i]).job_id == job
}

/// A position in `entries` at which a record of `job` stands.
pub open spec fn position_of(entries: Seq<AntaresConfigView>, job: Seq<char>) -> int {
    choose|i: int| 0 <= i < entries.len() && (#[trigger] entries[i]).job_id == job
}

/// No job has two records in `entries`.
pub open spec fn distinct_jobs(entries: Seq<AntaresConfigView>) -> bool {
    forall|i: int, j: int|
        0 <= i < j < entries.len() ==> (#[trigger] entries[i]).job_id != (#[trigger] entries[j]).job_id
}

/// The records of `entries`, each under the name of its job.
pub open spec fn index_by_job(entries: Seq<AntaresConfigView>) -> Map<Seq<char>, AntaresConfigView> {
    Map::new(|job: Seq<char>| has_job(entries, job), |job: Seq<char>| entries[position_of(entries, job)])
}

/// `entries` after `record` was registered: it takes the place of the record
/// of the same job if there is one, and is added at the end otherwise.
pub open spec fn upsert(entries: Seq<AntaresConfigView>, record: AntaresConfigView) -> Seq<
    AntaresConfigView,
> {
    if has_job(entries, record.job_id) {
        entries.update(position_of(entries, record.job_id), record)
    } else {
        entries.push(record)
    }
}

/// `entries` without the record of `job`; unchanged where `job` has none.
pub open spec fn without_job(entries: Seq<AntaresConfigView>, job: Seq<char>) -> Seq<AntaresConfigView> {
    if has_job(entries, job) {
        entries.remove(position_of(entries, job))
    } else {
        entries
    }
}

/// The position in a sequence of what stands at `i` once the item at `at`
/// was taken out.
pub open spec fn skip_over(i: int, at: int) -> int {
    if i < at {
        i
    } else {
        i + 1
    }
}

/// The views of a sequence of records, in the same order.
pub open spec fn views_of(records: Seq<AntaresConfig>) -> Seq<AntaresConfigView> {
    records.map_values(|r: AntaresConfig| r@)
}

/// The map that results from registering `records` one after the other into
/// an empty registry: of two records of one job the later one stays.
pub open spec fn loaded_map(records: Seq<AntaresConfigView>) -> Map<Seq<char>, AntaresConfigView>
    decreases records.len(),
{
    if records.len() == 0 {
        Map::empty()
    } else {
        loaded_map(records.drop_last()).insert(records.last().job_id, records.last())
    }
}

/// In a sequence without repeated jobs, a job's record stands at one place
/// only.
pub proof fn lemma_position_unique(entries: Seq<AntaresConfigView>, at: int)
    requires
        distinct_jobs(entries),
        0 <= at < entries.len(),
    ensures
        has_job(entries, entries[at].job_id),
        position_of(entries, entries[at].job_id) == at,
{
    let job = entries[at].job_id;
    assert(has_job(entries, job));
    let p = position_of(entries, job);
    assert(0 <= p < entries.len() && entries[p].job_id == job);
    if p < at {
        assert(entries[p].job_id != entries[at].job_id);
    } else if at < p {
        assert(entries[at].job_id != entries[p].job_id);
    }
}

/// Registering a record keeps the jobs distinct and, read as a map, is the
/// insertion of the record under its job.
pub proof fn lemma_upsert_is_insert(entries: Seq<AntaresConfigView>, record: AntaresConfigView)
    requires
        distinct_jobs(entries),
    ensures
        distinct_jobs(upsert(entries, record)),
        index_by_job(upsert(entries, record)) == index_by_job(entries).insert(record.job_id, record),
{
    let after = upsert(entries, record);
    let at = if has_job(entries, record.job_id) {
        position_of(entries, record.job_id)
    } else {
        entries.len() as int
    };
    assert(after.len() > at && after[at] == record);
    assert forall|i: int| 0 <= i < after.len() && i != at implies #[trigger] after[i] == entries[i]
        && entries[i].job_id != record.job_id by {
        if has_job(entries, record.job_id) {
            if i < at {
                assert(entries[i].job_id != entries[at].job_id);
            } else {
                assert(entries[at].job_id != entries[i].job_id);
            }
        }
    }
    assert forall|i: int, j: int| 0 <= i < j < after.len() implies (#[trigger] after[i]).job_id
        != (#[trigger] after[j]).job_id by {
        if i != at && j != at {
            assert(entries[i].job_id != entries[j].job_id);
        }
    }
    let lhs = index_by_job(after);
    let rhs = index_by_job(entries).insert(record.job_id, record);
    assert forall|job: Seq<char>| lhs.contains_key(job) <==> rhs.contains_key(job) by {
        if has_job(after, job) {
            let i = position_of(after, job);
            if i != at {
                assert(entries[i].job_id == job);
            }
        }
        if has_job(entries, job) {
            let i = position_of(entries, job);
            if i != at {
                assert(after[i].job_id == job);
            } else {
                assert(after[at].job_id == job);
            }
        }
        if job == record.job_id {
            assert(after[at].job_id == job);
        }
    }
    assert forall|job: Seq<char>| lhs.contains_key(job) implies lhs[job] == rhs[job] by {
        let i = position_of(after, job);
        lemma_position_unique(after, i);
        if i != at {
            lemma_position_unique(entries, i);
        }
    }
    assert(lhs =~= rhs);
}

/// Taking a job's record out keeps the jobs distinct and, read as a map, is
/// the removal of the job.
pub proof fn lemma_without_is_remove(entries: Seq<AntaresConfigView>, job: Seq<char>)
    requires
        distinct_jobs(entries),
    ensures
        distinct_jobs(without_job(entries, job)),
        index_by_job(without_job(entries, job)) == index_by_job(entries).remove(job),
{
    let after = without_job(entries, job);
    let lhs = index_by_job(after);
    let rhs = index_by_job(entries).remove(job);
    if has_job(entries, job) {
        let at = position_of(entries, job);
        lemma_position_unique(entries, at);
        assert forall|i: int| 0 <= i < after.len() implies #[trigger] after[i] == entries[skip_over(i, at)]
            && after[i].job_id != job by {
            let k = skip_over(i, at);
            if k < at {
                assert(entries[k].job_id != entries[at].job_id);
            } else {
                assert(entries[at].job_id != entries[k].job_id);
            }
        }
        assert forall|i: int, j: int| 0 <= i < j < after.len() implies (#[trigger] after[i]).job_id
            != (#[trigger] after[j]).job_id by {
            let ki = skip_over(i, at);
            let kj = skip_over(j, at);
            assert(entries[ki].job_id != entries[kj].job_id);
        }
        assert forall|other: Seq<char>| lhs.contains_key(other) <==> rhs.contains_key(other) by {
            if has_job(after, other) {
                let i = position_of(after, other);
                let k = skip_over(i, at);
                assert(entries[k].job_id == other);
            }
            if other != job && has_job(entries, other) {
                let k = position_of(entries, other);
                let i = if k < at {
                    k
                } else {
                    k - 1
                };
                assert(after[i].job_id == other);
            }
        }
        assert forall|other: Seq<char>| lhs.contains_key(other) implies lhs[other] == rhs[other] by {
            let i = position_of(after, other);
            let k = skip_over(i, at);
            lemma_position_unique(after, i);
            lemma_position_unique(entries, k);
        }
        assert(lhs =~= rhs);
    } else {
        assert(lhs =~= rhs);
    }
}

/// A sequence without repeated jobs is its front with the last record
/// registered after it, and the job of the last record is not in the front.
pub proof fn lemma_last_is_registered_last(entries: Seq<AntaresConfigView>)
    requires
        distinct_jobs(entries),
        entries.len() > 0,
    ensures
        distinct_jobs(entries.drop_last()),
        !has_job(entries.drop_last(), entries.last().job_id),
        upsert(entries.drop_last(), entries.last()) == entries,
{
    let front = entries.drop_last();
    let last = entries.last();
    assert forall|i: int, j: int| 0 <= i < j < front.len() implies (#[trigger] front[i]).job_id
        != (#[trigger] front[j]).job_id by {
        assert(entries[i].job_id != entries[j].job_id);
    }
    if has_job(front, last.job_id) {
        let p = position_of(front, last.job_id);
        assert(entries[p].job_id != entries[entries.len() - 1].job_id);
    }
    assert(upsert(front, last) =~= entries);
}

/// A sequence without repeated jobs, registered record by record, gives the
/// map that holds each of its records under its job.
pub proof fn lemma_loaded_map_of_distinct(entries: Seq<AntaresConfigView>)
    requires
        distinct_jobs(entries),
    ensures
        loaded_map(entries) == index_by_job(entries),
    decreases entries.len(),
{
    if entries.len() == 0 {
        assert(loaded_map(entries) =~= index_by_job(entries));
    } else {
        let front = entries.drop_last();
        let last = entries.last();
        lemma_last_is_registered_last(entries);
        lemma_loaded_map_of_distinct(front);
        lemma_upsert_is_insert(front, last);
    }
}

/// A sequence without repeated jobs holds as many records as its map has
/// jobs.
pub proof fn lemma_index_len(entries: Seq<AntaresConfigView>)
    requires
        distinct_jobs(entries),
    ensures
        index_by_job(entries).dom().finite(),
        index_by_job(entries).len() == entries.len(),
    decreases entries.len(),
{
    if entries.len() == 0 {
        assert(index_by_job(entries) =~= Map::empty());
    } else {
        let front = entries.drop_last();
        let last = entries.last();
        lemma_last_is_registered_last(entries);
        lemma_index_len(front);
        lemma_upsert_is_insert(front, last);
        assert(!index_by_job(front).dom().contains(last.job_id));
        assert(index_by_job(entries).dom() =~= index_by_job(front).dom().insert(last.job_id));
    }
}

/// The active mounts, one record for each job.
pub struct MountRegistry {
    records: Vec<AntaresConfig>,
}

impl View for MountRegistry {
    type V = Map<Seq<char>, AntaresConfigView>;

    /// The registry as a map from a job's name to its record.
    open spec fn view(&self) -> Map<Seq<char>, AntaresConfigView> {
        index_by_job(self.entries())
    }
}

impl MountRegistry {
    /// The records in the order in which a snapshot hands them out.
    pub closed spec fn entries(&self) -> Seq<AntaresConfigView> {
        views_of(self.records@)
    }

    /// No job has two records.
    pub open spec fn wf(&self) -> bool {
        distinct_jobs(self.entries())
    }

    /// The registry without any mount.
    pub fn new() -> (registry: Self)
        ensures
            registry.wf(),
            registry.entries() == Seq::<AntaresConfigView>::empty(),
            registry@ == Map::<Seq<char>, AntaresConfigView>::empty(),
    {
        let registry = MountRegistry { records: Vec::new() };
        assert(registry.entries() =~= Seq::<AntaresConfigView>::empty());
        assert(registry@ =~= Map::<Seq<char>, AntaresConfigView>::empty());
        registry
    }

    /// The place of a job's record, if the job has one.
    fn find(&self, job_id: &str) -> (at: Option<usize>)
        requires
            self.wf(),
        ensures
            match at {
                Some(i) => i < self.entries().len() && self.entries()[i as int].job_id == job_id@
                    && has_job(self.entries(), job_id@) && position_of(self.entries(), job_id@) == i,
                None => !has_job(self.entries(), job_id@),
            },
    {
        let n: usize = self.records.len();
        let mut i: usize = 0;
        while i < n
            invariant
                n == self.records@.len(),
                i <= n,
                self.wf(),
                forall|k: int| 0 <= k < i ==> (#[trigger] self.entries()[k]).job_id != job_id@,
            decreases n - i,
        {
            if same_text(self.records[i].job_id.as_str(), job_id) {
                proof {
                    lemma_position_unique(self.entries(), i as int);
                }
                return Some(i);
            }
            i = i + 1;
        }
        None
    }

    /// Registers `record`. A record of the same job is replaced and handed
    /// back; no other record changes.
    pub fn insert(&mut self, record: AntaresConfig) -> (previous: Option<AntaresConfig>)
        requires
            old(self).wf(),
        ensures
            final(self).wf(),
            final(self)@ == old(self)@.insert(record@.job_id, record@),
            final(self).entries() == upsert(old(self).entries(), record@),
            match previous {
                Some(p) => old(self)@.contains_key(record@.job_id) && p@ == old(self)@[record@.job_id],
                None => !old(self)@.contains_key(record@.job_id),
            },
    {
        proof {
            lemma_upsert_is_insert(self.entries(), record@);
        }
        match self.find(record.job_id.as_str()) {
            Some(at) => {
                let previous = self.records[at].clone();
                self.records.set(at, record);
                assert(self.entries() =~= upsert(old(self).entries(), record@));
                Some(previous)
            },
            None => {
                self.records.push(record);
                assert(self.entries() =~= upsert(old(self).entries(), record@));
                None
            },
        }
    }

    /// Takes the record of `job_id` out and hands it back; `None`, and no
    /// change, where the job has none.
    pub fn remove(&mut self, job_id: &str) -> (removed: Option<AntaresConfig>)
        requires
            old(self).wf(),
        ensures
            final(self).wf(),
            final(self)@ == old(self)@.remove(job_id@),
            final(self).entries() == without_job(old(self).entries(), job_id@),
            match removed {
                Some(r) => old(self)@.contains_key(job_id@) && r@ == old(self)@[job_id@],
                None => !old(self)@.contains_key(job_id@) && final(self)@ == old(self)@,
            },
    {
        proof {
            lemma_without_is_remove(self.entries(), job_id@);
        }
        match self.find(job_id) {
            Some(at) => {
                let removed = self.records.remove(at);
                assert(self.entries() =~= without_job(old(self).entries(), job_id@));
                Some(removed)
            },
            None => {
                assert(self@ =~= old(self)@.remove(job_id@));
                None
            },
        }
    }

    /// A copy of the record of `job_id`, if the job is mounted.
    pub fn get(&self, job_id: &str) -> (found: Option<AntaresConfig>)
        requires
            self.wf(),
        ensures
            match found {
                Some(r) => self@.contains_key(job_id@) && r@ == self@[job_id@],
                None => !self@.contains_key(job_id@),
            },
    {
        match self.find(job_id) {
            Some(at) => Some(self.records[at].clone()),
            None => None,
        }
    }

    /// Whether `job_id` is mounted.
    pub fn contains(&self, job_id: &str) -> (found: bool)
        requires
            self.wf(),
        ensures
            found == self@.contains_key(job_id@),
    {
        self.find(job_id).is_some()
    }

    /// The number of active mounts.
    pub fn len(&self) -> (n: usize)
        requires
            self.wf(),
        ensures
            n == self.entries().len(),
            n == self@.len(),
    {
        proof {
            lemma_index_len(self.entries());
        }
        self.records.len()
    }

    /// Whether no job is mounted.
    pub fn is_empty(&self) -> (empty: bool)
        requires
            self.wf(),
        ensures
            empty == (self.entries().len() == 0),
            empty == (self@ == Map::<Seq<char>, AntaresConfigView>::empty()),
    {
        proof {
            lemma_index_len(self.entries());
            if self.entries().len() == 0 {
                assert(self@ =~= Map::<Seq<char>, AntaresConfigView>::empty());
            }
        }
        self.records.len() == 0
    }

    /// A copy of every record, at this moment: each job once, in the order of
    /// [`MountRegistry::entries`].
    pub fn snapshot(&self) -> (copy: Vec<AntaresConfig>)
        requires
            self.wf(),
        ensures
            views_of(copy@) == self.entries(),
            distinct_jobs(views_of(copy@)),
            index_by_job(views_of(copy@)) == self@,
    {
        let n: usize = self.records.len();
        let mut copy: Vec<AntaresConfig> = Vec::new();
        let mut i: usize = 0;
        while i < n
            invariant
                n == self.records@.len(),
                i <= n,
                copy@.len() == i,
                forall|k: int| 0 <= k < i ==> (#[trigger] copy@[k])@ == self.records@[k]@,
            decreases n - i,
        {
            copy.push(self.records[i].clone());
            i = i + 1;
        }
        assert(views_of(copy@) =~= self.entries());
        copy
    }

    /// The registry that results from registering `records` one after the
    /// other: of two records of one job the later one stays.
    pub fn from_records(records: &Vec<AntaresConfig>) -> (registry: Self)
        ensures
            registry.wf(),
            registry@ == loaded_map(views_of(records@)),
    {
        let n: usize = records.len();
        let mut registry = MountRegistry::new();
        let mut i: usize = 0;
        while i < n
            invariant
                n == records@.len(),
                i <= n,
                registry.wf(),
                registry@ == loaded_map(views_of(records@).take(i as int)),
            decreases n - i,
        {
            let ghost before = views_of(records@).take(i as int);
            registry.insert(records[i].clone());
            i = i + 1;
            proof {
                let now = views_of(records@).take(i as int);
                assert(now.drop_last() =~= before);
                assert(now.last() == records@[i - 1]@);
            }
        }
        assert(views_of(records@).take(n as int) =~= views_of(records@));
        registry
    }
}

} // verus!
