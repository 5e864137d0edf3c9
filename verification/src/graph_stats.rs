//! The line statistics that the commit graph shows beside its changes: a
//! cache keyed by commit id, a queue of commits waiting for their
//! statistics, and at most one computation running in the background.
//!
//! Each operation is a step from one state to the next; where a step starts a
//! background computation it returns the job, and the caller runs it and
//! hands the outcome back with `finish_graph_diff_stats`.
use vstd::prelude::*;

use std::collections::VecDeque;

verus! {

/// What a change adds and removes.
#[derive(Clone, Copy, Debug, PartialEq, Eq, Structural)]
pub struct DiffStats {
    pub files_changed: u32,
    pub insertions: u32,
    pub deletions: u32,
}

/// A change of the commit graph.
#[derive(Clone, Debug, PartialEq, Eq)]
pub struct ChangeInfo {
    pub commit_id: String,
    pub is_empty: bool,
    pub is_working_copy: bool,
}

/// A computation to run: the commit whose statistics are wanted, and the
/// revision to compute them from.
pub type StatsJob = (String, String);

/// The model of a job.
pub type JobModel = (Seq<char>, Seq<char>);

/// The cache, the queue, the job in flight and the statistics shown for the
/// selected change.
pub struct GraphDiffStatsCache {
    graph_diff_stats: Vec<(String, DiffStats)>,
    graph_diff_stats_in_flight: Option<String>,
    graph_diff_stats_queue: VecDeque<StatsJob>,
    change_stats: Option<DiffStats>,
}

/// The abstract state of the cache.
pub struct StatsModel {
    pub cache: Map<Seq<char>, DiffStats>,
    pub in_flight: Option<Seq<char>>,
    pub queue: Seq<JobModel>,
    pub change_stats: Option<DiffStats>,
}

/// Whether no two entries have the same key.
pub open spec fn distinct_keys(e: Seq<(String, DiffStats)>) -> bool {
    forall|i: int, j: int| 0 <= i < j < e.len() ==> e[i].0@ != e[j].0@
}

/// Whether some entry has the key `k`.
pub open spec fn has_key(e: Seq<(String, DiffStats)>, k: Seq<char>) -> bool {
    exists|i: int| 0 <= i < e.len() && #[trigger] e[i].0@ == k
}

/// The map from keys to statistics that the entries hold.
pub open spec fn cache_view(e: Seq<(String, DiffStats)>) -> Map<Seq<char>, DiffStats> {
    Map::new(
        |k: Seq<char>| has_key(e, k),
        |k: Seq<char>| e[choose|i: int| 0 <= i < e.len() && #[trigger] e[i].0@ == k].1,
    )
}

/// The models of jobs.
pub open spec fn jobs_view(q: Seq<StatsJob>) -> Seq<JobModel> {
    q.map_values(|j: StatsJob| (j.0@, j.1@))
}

/// Whether no two jobs are for the same commit.
pub open spec fn distinct_jobs(q: Seq<JobModel>) -> bool {
    forall|i: int, j: int| 0 <= i < j < q.len() ==> q[i].0 != q[j].0
}

/// Whether a job for commit `id` is queued.
pub open spec fn queued(q: Seq<JobModel>, id: Seq<char>) -> bool {
    exists|i: int| 0 <= i < q.len() && #[trigger] q[i].0 == id
}

/// The commit id of an optional change.
pub open spec fn change_id(c: Option<&ChangeInfo>) -> Option<Seq<char>> {
    match c {
        Some(c) => Some(c.commit_id@),
        None => None,
    }
}

/// The commit ids of the graph.
pub open spec fn graph_ids(changes: Seq<ChangeInfo>) -> Set<Seq<char>> {
    Set::new(|k: Seq<char>| exists|i: int| 0 <= i < changes.len() && #[trigger] changes[i].commit_id@ == k)
}

/// Whether statistics count nothing at all.
pub open spec fn is_zero_stats(s: DiffStats) -> bool {
    s.insertions == 0 && s.deletions == 0 && s.files_changed == 0
}

/// `m` with the statistics of commit `id` shown when `id` is the selected
/// change.
pub open spec fn applied(m: StatsModel, id: Seq<char>, stats: DiffStats, selected: Option<Seq<char>>) -> StatsModel {
    if selected == Some(id) {
        StatsModel { change_stats: Some(stats), ..m }
    } else {
        m
    }
}

/// `m` after storing the statistics of commit `id`: nothing changes when
/// the commit is not in the graph; otherwise they are shown if it is the
/// selected change, and cached.
pub open spec fn stored(
    m: StatsModel,
    id: Seq<char>,
    stats: DiffStats,
    graph: Set<Seq<char>>,
    selected: Option<Seq<char>>,
) -> StatsModel {
    if !graph.contains(id) {
        m
    } else {
        let a = applied(m, id, stats, selected);
        StatsModel { cache: a.cache.insert(id, stats), ..a }
    }
}

/// `m` after starting the next queued job, with the job started: nothing
/// starts while a job is in flight or the queue is empty; otherwise the first
/// job leaves the queue, and it starts, in flight, when a repository is open
/// (without one it is dropped).
pub open spec fn pumped(m: StatsModel, has_repo: bool) -> (StatsModel, Option<JobModel>) {
    if m.in_flight is Some || m.queue.len() == 0 {
        (m, None)
    } else {
        let job = m.queue[0];
        let rest = StatsModel { queue: m.queue.drop_first(), ..m };
        if !has_repo {
            (rest, None)
        } else {
            (StatsModel { in_flight: Some(job.0), ..rest }, Some(job))
        }
    }
}

/// `m` after a change is shown: nothing happens for an empty change; cached
/// statistics are shown if the change is selected; a commit in flight or
/// queued waits; any other commit is queued and the queue is pumped.
pub open spec fn ensured(
    m: StatsModel,
    id: Seq<char>,
    is_empty: bool,
    selected: Option<Seq<char>>,
    has_repo: bool,
) -> (StatsModel, Option<JobModel>) {
    if is_empty {
        (m, None)
    } else if m.cache.contains_key(id) {
        (applied(m, id, m.cache[id], selected), None)
    } else if m.in_flight == Some(id) || queued(m.queue, id) {
        (m, None)
    } else {
        pumped(StatsModel { queue: m.queue.push((id, id)), ..m }, has_repo)
    }
}

/// `m` after the job for commit `id` ended with `result`: nothing is in
/// flight, statistics that came back are stored, and the queue is pumped.
pub open spec fn finished(
    m: StatsModel,
    id: Seq<char>,
    result: Option<DiffStats>,
    graph: Set<Seq<char>>,
    selected: Option<Seq<char>>,
    has_repo: bool,
) -> (StatsModel, Option<JobModel>) {
    let idle = StatsModel { in_flight: None, ..m };
    let after = match result {
        Some(s) => stored(idle, id, s, graph, selected),
        None => idle,
    };
    pumped(after, has_repo)
}

/// `m` with only the cached statistics and queued jobs of commits in `live`.
pub open spec fn retained(m: StatsModel, live: Set<Seq<char>>) -> StatsModel {
    StatsModel {
        cache: m.cache.restrict(live),
        queue: m.queue.filter(|j: JobModel| live.contains(j.0)),
        ..m
    }
}

/// `m` after the working copy's statistics arrive: statistics that count
/// nothing, or a graph without working copy, change nothing; otherwise they
/// are stored for the working copy.
pub open spec fn seeded(
    m: StatsModel,
    stats: Option<DiffStats>,
    working_copy: Option<Seq<char>>,
    graph: Set<Seq<char>>,
    selected: Option<Seq<char>>,
) -> StatsModel {
    match stats {
        None => m,
        Some(s) => if is_zero_stats(s) {
            m
        } else {
            match working_copy {
                None => m,
                Some(id) => stored(m, id, s, graph, selected),
            }
        },
    }
}

impl View for GraphDiffStatsCache {
    type V = StatsModel;

    closed spec fn view(&self) -> StatsModel {
        StatsModel {
            cache: cache_view(self.graph_diff_stats@),
            in_flight: match self.graph_diff_stats_in_flight {
                Some(s) => Some(s@),
                None => None,
            },
            queue: jobs_view(self.graph_diff_stats_queue@),
            change_stats: self.change_stats,
        }
    }
}

/// The entries of `e` at `i` is what the map holds for its key.
proof fn lemma_cache_view_at(e: Seq<(String, DiffStats)>, i: int)
    requires
        distinct_keys(e),
        0 <= i < e.len(),
    ensures
        cache_view(e).contains_key(e[i].0@),
        cache_view(e)[e[i].0@] == e[i].1,
{
    let k = e[i].0@;
    assert(has_key(e, k));
    let j = choose|j: int| 0 <= j < e.len() && #[trigger] e[j].0@ == k;
    if j != i {
        if j < i {
            assert(e[j].0@ != e[i].0@);
        } else {
            assert(e[i].0@ != e[j].0@);
        }
    }
}

/// Adding an entry with a new key adds it to the map.
proof fn lemma_cache_view_push(e: Seq<(String, DiffStats)>, x: (String, DiffStats))
    requires
        distinct_keys(e),
        !has_key(e, x.0@),
    ensures
        distinct_keys(e.push(x)),
        cache_view(e.push(x)) =~= cache_view(e).insert(x.0@, x.1),
{
    let f = e.push(x);
    assert forall|i: int, j: int| 0 <= i < j < f.len() implies f[i].0@ != f[j].0@ by {
        if j == e.len() {
            if f[i].0@ == x.0@ {
                assert(e[i].0@ == x.0@);
            }
        } else {
            assert(e[i].0@ != e[j].0@);
        }
    }
    assert forall|k: Seq<char>| #[trigger] has_key(f, k) == (has_key(e, k) || k == x.0@) by {
        if has_key(e, k) {
            let i = choose|i: int| 0 <= i < e.len() && #[trigger] e[i].0@ == k;
            assert(f[i].0@ == k);
        }
        if k == x.0@ {
            assert(f[e.len() as int].0@ == k);
        }
        if has_key(f, k) {
            let i = choose|i: int| 0 <= i < f.len() && #[trigger] f[i].0@ == k;
            if i < e.len() {
                assert(e[i].0@ == k);
            }
        }
    }
    assert forall|k: Seq<char>| #[trigger] cache_view(f).contains_key(k) implies cache_view(f)[k]
        == cache_view(e).insert(x.0@, x.1)[k] by {
        let i = choose|i: int| 0 <= i < f.len() && #[trigger] f[i].0@ == k;
        lemma_cache_view_at(f, i);
        if i < e.len() {
            assert(f[i] == e[i]);
            lemma_cache_view_at(e, i);
        }
    }
}

/// The empty list of entries is the empty map.
proof fn lemma_cache_view_empty(e: Seq<(String, DiffStats)>)
    requires
        e.len() == 0,
    ensures
        distinct_keys(e),
        cache_view(e) =~= Map::<Seq<char>, DiffStats>::empty(),
{
}

/// A state whose cache keys are distinct, whose jobs are for distinct
/// commits, and whose job in flight is not queued again.
pub open spec fn model_wf(m: StatsModel) -> bool {
    &&& distinct_jobs(m.queue)
    &&& m.in_flight matches Some(f) ==> !queued(m.queue, f)
}

impl GraphDiffStatsCache {
    /// The invariant of the cache: its model is well formed (see `model_wf`)
    /// and no two cache entries share a commit id.
    #[verifier::type_invariant]
    spec fn wf(self) -> bool {
        &&& distinct_keys(self.graph_diff_stats@)
        &&& model_wf(self@)
    }

    /// An empty cache with nothing queued or in flight.
    pub fn new() -> (r: Self)
        ensures
            r@.cache == Map::<Seq<char>, DiffStats>::empty(),
            r@.in_flight is None,
            r@.queue == Seq::<JobModel>::empty(),
            r@.change_stats is None,
    {
        let r = GraphDiffStatsCache {
            graph_diff_stats: Vec::new(),
            graph_diff_stats_in_flight: None,
            graph_diff_stats_queue: VecDeque::new(),
            change_stats: None,
        };
        proof {
            lemma_cache_view_empty(r.graph_diff_stats@);
            assert(jobs_view(r.graph_diff_stats_queue@) =~= Seq::<JobModel>::empty());
        }
        r
    }

    /// The cached statistics of commit `commit_id`.
    pub fn cached(&self, commit_id: &String) -> (r: Option<DiffStats>)
        ensures
            r == if self@.cache.contains_key(commit_id@) {
                Some(self@.cache[commit_id@])
            } else {
                None
            },
    {
        proof {
            use_type_invariant(self);
        }
        match self.index_of(commit_id) {
            Some(i) => {
                proof {
                    lemma_cache_view_at(self.graph_diff_stats@, i as int);
                }
                Some(self.graph_diff_stats[i].1)
            },
            None => None,
        }
    }

    /// The statistics shown for the selected change.
    pub fn change_stats(&self) -> (r: Option<DiffStats>)
        ensures
            r == self@.change_stats,
    {
        proof {
            use_type_invariant(self);
        }
        self.change_stats
    }

    /// The commit whose statistics are being computed.
    pub fn in_flight(&self) -> (r: Option<String>)
        ensures
            r matches Some(s) ==> self@.in_flight == Some(s@),
            r is None ==> self@.in_flight is None,
    {
        proof {
            use_type_invariant(self);
        }
        match &self.graph_diff_stats_in_flight {
            Some(s) => Some(s.clone()),
            None => None,
        }
    }

    /// How many jobs wait in the queue.
    pub fn queued_jobs(&self) -> (r: usize)
        ensures
            r == self@.queue.len(),
    {
        proof {
            use_type_invariant(self);
        }
        self.graph_diff_stats_queue.len()
    }

    /// The position of the entry for `commit_id`.
    fn index_of(&self, commit_id: &String) -> (r: Option<usize>)
        ensures
            match r {
                Some(i) => i < self.graph_diff_stats@.len() && self.graph_diff_stats@[i as int].0@
                    == commit_id@,
                None => !has_key(self.graph_diff_stats@, commit_id@),
            },
    {
        proof {
            use_type_invariant(self);
        }
        let n = self.graph_diff_stats.len();
        for i in 0..n
            invariant
                n == self.graph_diff_stats@.len(),
                forall|j: int| 0 <= j < i ==> self.graph_diff_stats@[j].0@ != commit_id@,
        {
            if self.graph_diff_stats[i].0 == *commit_id {
                return Some(i);
            }
        }
        None
    }

    /// Whether a job for `commit_id` is queued.
    fn is_queued(&self, commit_id: &String) -> (r: bool)
        ensures
            r == queued(self@.queue, commit_id@),
    {
        proof {
            use_type_invariant(self);
        }
        let n = self.graph_diff_stats_queue.len();
        for i in 0..n
            invariant
                n == self.graph_diff_stats_queue@.len(),
                forall|j: int| 0 <= j < i ==> self@.queue[j].0 != commit_id@,
        {
            if self.graph_diff_stats_queue[i].0 == *commit_id {
                assert(self@.queue[i as int].0 == commit_id@);
                return true;
            }
        }
        false
    }

    /// Whether `commit_id` is in flight.
    fn is_in_flight(&self, commit_id: &String) -> (r: bool)
        ensures
            r == (self@.in_flight == Some(commit_id@)),
    {
        proof {
            use_type_invariant(self);
        }
        match &self.graph_diff_stats_in_flight {
            Some(f) => *f == *commit_id,
            None => false,
        }
    }

    /// Shows `stats` when `commit_id` is the selected change.
    fn apply_graph_diff_stats_to_selection(
        &mut self,
        commit_id: &String,
        stats: DiffStats,
        selected: Option<&ChangeInfo>,
    )
        ensures
            final(self)@ == applied(old(self)@, commit_id@, stats, change_id(selected)),
            final(self).graph_diff_stats == old(self).graph_diff_stats,
            final(self).graph_diff_stats_queue == old(self).graph_diff_stats_queue,
            final(self).graph_diff_stats_in_flight == old(self).graph_diff_stats_in_flight,
    {
        proof {
            use_type_invariant(&*self);
        }
        if let Some(change) = selected {
            if change.commit_id == *commit_id {
                self.change_stats = Some(stats);
            }
        }
    }

    /// The cache with the entry of `commit_id` set to `stats`.
    fn insert_stats(&mut self, commit_id: String, stats: DiffStats)
        requires
            distinct_keys(old(self).graph_diff_stats@),
        ensures
            distinct_keys(final(self).graph_diff_stats@),
            final(self)@ == (StatsModel {
                cache: old(self)@.cache.insert(commit_id@, stats),
                ..old(self)@
            }),
    {
        proof {
            use_type_invariant(&*self);
        }
        let ghost old_entries = self.graph_diff_stats@;
        let mut kept: Vec<(String, DiffStats)> = Vec::new();
        let n = self.graph_diff_stats.len();
        proof {
            lemma_cache_view_empty(kept@);
            assert(cache_view(old_entries.take(0)) =~= Map::<Seq<char>, DiffStats>::empty());
        }
        for i in 0..n
            invariant
                n == old_entries.len(),
                old_entries == self.graph_diff_stats@,
                distinct_keys(old_entries),
                distinct_keys(kept@),
                forall|k: Seq<char>| has_key(kept@, k) ==> has_key(old_entries.take(i as int), k),
                !has_key(kept@, commit_id@),
                cache_view(kept@) =~= cache_view(old_entries.take(i as int)).remove(commit_id@),
        {
            let ghost t = old_entries.take(i as int);
            let ghost x = old_entries[i as int];
            proof {
                assert(old_entries.take(i + 1) =~= t.push(x));
                assert(distinct_keys(t));
                assert(!has_key(t, x.0@)) by {
                    if has_key(t, x.0@) {
                        let j = choose|j: int| 0 <= j < t.len() && #[trigger] t[j].0@ == x.0@;
                        assert(old_entries[j].0@ != old_entries[i as int].0@);
                    }
                }
                lemma_cache_view_push(t, x);
            }
            let ghost old_kept = kept@;
            if !(self.graph_diff_stats[i].0 == commit_id) {
                let entry = (self.graph_diff_stats[i].0.clone(), self.graph_diff_stats[i].1);
                proof {
                    assert(!has_key(kept@, entry.0@));
                    lemma_cache_view_push(kept@, entry);
                }
                kept.push(entry);
            }
            proof {
                lemma_keys_grow(old_entries, t, i as int, old_kept, kept@);
            }
        }
        proof {
            assert(old_entries.take(n as int) =~= old_entries);
        }
        let ghost id = commit_id@;
        let entry = (commit_id, stats);
        proof {
            lemma_cache_view_push(kept@, entry);
        }
        kept.push(entry);
        assert(cache_view(kept@) =~= cache_view(old_entries).insert(id, stats));
        self.graph_diff_stats = kept;
    }

    /// Stores `stats` for `commit_id` when the commit is in the graph,
    /// showing them if it is the selected change.
    pub fn store_graph_diff_stats(
        &mut self,
        commit_id: String,
        stats: DiffStats,
        changes: &[ChangeInfo],
        selected: Option<&ChangeInfo>,
    )
        ensures
            final(self)@ == stored(
                old(self)@,
                commit_id@,
                stats,
                graph_ids(changes@),
                change_id(selected),
            ),
    {
        proof {
            use_type_invariant(&*self);
        }
        if !in_changes(changes, &commit_id) {
            return ;
        }
        self.apply_graph_diff_stats_to_selection(&commit_id, stats, selected);
        self.insert_stats(commit_id, stats);
    }

    /// Starts the next queued job when none is in flight and returns it;
    /// without a repository the job is dropped.
    pub fn pump_graph_diff_stats(&mut self, has_repo: bool) -> (job: Option<StatsJob>)
        ensures
            final(self)@ == pumped(old(self)@, has_repo).0,
            match job {
                Some(j) => pumped(old(self)@, has_repo).1 == Some((j.0@, j.1@)),
                None => pumped(old(self)@, has_repo).1 is None,
            },
    {
        proof {
            use_type_invariant(&*self);
        }
        if self.graph_diff_stats_in_flight.is_some() {
            return None;
        }
        let ghost q = self@.queue;
        let mut queue: VecDeque<StatsJob> = VecDeque::new();
        std::mem::swap(&mut queue, &mut self.graph_diff_stats_queue);
        match queue.pop_front() {
            None => {
                self.graph_diff_stats_queue = queue;
                return None;
            },
            Some(job) => {
                proof {
                    assert(jobs_view(queue@) =~= q.drop_first());
                    assert forall|i: int, j: int|
                        0 <= i < j < q.drop_first().len() implies q.drop_first()[i].0
                        != q.drop_first()[j].0 by {
                        assert(q[i + 1].0 != q[j + 1].0);
                    }
                }
                self.graph_diff_stats_queue = queue;
                if !has_repo {
                    return None;
                }
                proof {
                    assert(!queued(q.drop_first(), job.0@)) by {
                        if queued(q.drop_first(), job.0@) {
                            let i = choose|i: int|
                                0 <= i < q.drop_first().len() && #[trigger] q.drop_first()[i].0
                                    == job.0@;
                            assert(q[0].0 != q[i + 1].0);
                        }
                    }
                }
                self.graph_diff_stats_in_flight = Some(job.0.clone());
                Some(job)
            },
        }
    }

    /// Shows the statistics of `change`: cached ones at once, otherwise it
    /// queues the commit (unless it is empty, in flight or queued already)
    /// and pumps the queue, returning the job it starts.
    pub fn ensure_graph_diff_stats(
        &mut self,
        change: &ChangeInfo,
        selected: Option<&ChangeInfo>,
        has_repo: bool,
    ) -> (job: Option<StatsJob>)
        ensures
            final(self)@ == ensured(
                old(self)@,
                change.commit_id@,
                change.is_empty,
                change_id(selected),
                has_repo,
            ).0,
            match job {
                Some(j) => ensured(
                    old(self)@,
                    change.commit_id@,
                    change.is_empty,
                    change_id(selected),
                    has_repo,
                ).1 == Some((j.0@, j.1@)),
                None => ensured(
                    old(self)@,
                    change.commit_id@,
                    change.is_empty,
                    change_id(selected),
                    has_repo,
                ).1 is None,
            },
    {
        proof {
            use_type_invariant(&*self);
        }
        if change.is_empty {
            return None;
        }
        let commit_id = change.commit_id.clone();
        if let Some(stats) = self.cached(&commit_id) {
            self.apply_graph_diff_stats_to_selection(&commit_id, stats, selected);
            return None;
        }
        if self.is_in_flight(&commit_id) {
            return None;
        }
        if self.is_queued(&commit_id) {
            return None;
        }
        let ghost q = self@.queue;
        let mut queue: VecDeque<StatsJob> = VecDeque::new();
        std::mem::swap(&mut queue, &mut self.graph_diff_stats_queue);
        queue.push_back((commit_id, change.commit_id.clone()));
        proof {
            let q2 = jobs_view(queue@);
            assert(q2 =~= q.push((change.commit_id@, change.commit_id@)));
            assert forall|i: int, j: int| 0 <= i < j < q2.len() implies q2[i].0 != q2[j].0 by {
                if j == q.len() {
                    assert(q[i].0 != change.commit_id@);
                }
            }
            if let Some(f) = self@.in_flight {
                assert(!queued(q2, f)) by {
                    if queued(q2, f) {
                        let i = choose|i: int| 0 <= i < q2.len() && #[trigger] q2[i].0 == f;
                        if i < q.len() {
                            assert(q[i].0 == f);
                        }
                    }
                }
            }
        }
        self.graph_diff_stats_queue = queue;
        self.pump_graph_diff_stats(has_repo)
    }

    /// Takes the outcome of the job in flight for `commit_id`: nothing is in
    /// flight any more, statistics that came back are stored, and the next
    /// job is started and returned.
    pub fn finish_graph_diff_stats(
        &mut self,
        commit_id: String,
        result: Option<DiffStats>,
        changes: &[ChangeInfo],
        selected: Option<&ChangeInfo>,
        has_repo: bool,
    ) -> (job: Option<StatsJob>)
        ensures
            final(self)@ == finished(
                old(self)@,
                commit_id@,
                result,
                graph_ids(changes@),
                change_id(selected),
                has_repo,
            ).0,
            match job {
                Some(j) => finished(
                    old(self)@,
                    commit_id@,
                    result,
                    graph_ids(changes@),
                    change_id(selected),
                    has_repo,
                ).1 == Some((j.0@, j.1@)),
                None => finished(
                    old(self)@,
                    commit_id@,
                    result,
                    graph_ids(changes@),
                    change_id(selected),
                    has_repo,
                ).1 is None,
            },
    {
        proof {
            use_type_invariant(&*self);
        }
        self.graph_diff_stats_in_flight = None;
        if let Some(stats) = result {
            self.store_graph_diff_stats(commit_id, stats, changes, selected);
        }
        self.pump_graph_diff_stats(has_repo)
    }

    /// Drops the cached statistics and queued jobs of commits that are no
    /// longer in the graph.
    pub fn retain_graph_diff_stats(&mut self, changes: &[ChangeInfo])
        ensures
            final(self)@ == retained(old(self)@, graph_ids(changes@)),
    {
        proof {
            use_type_invariant(&*self);
        }
        let ghost live = graph_ids(changes@);
        let ghost old_entries = self.graph_diff_stats@;
        let mut kept: Vec<(String, DiffStats)> = Vec::new();
        let n = self.graph_diff_stats.len();
        proof {
            lemma_cache_view_empty(kept@);
            assert(cache_view(old_entries.take(0)) =~= Map::<Seq<char>, DiffStats>::empty());
        }
        for i in 0..n
            invariant
                n == old_entries.len(),
                old_entries == self.graph_diff_stats@,
                live == graph_ids(changes@),
                distinct_keys(old_entries),
                distinct_keys(kept@),
                forall|k: Seq<char>| has_key(kept@, k) ==> has_key(old_entries.take(i as int), k),
                cache_view(kept@) =~= cache_view(old_entries.take(i as int)).restrict(live),
        {
            let ghost t = old_entries.take(i as int);
            let ghost x = old_entries[i as int];
            proof {
                assert(old_entries.take(i + 1) =~= t.push(x));
                assert(!has_key(t, x.0@)) by {
                    if has_key(t, x.0@) {
                        let j = choose|j: int| 0 <= j < t.len() && #[trigger] t[j].0@ == x.0@;
                        assert(old_entries[j].0@ != old_entries[i as int].0@);
                    }
                }
                lemma_cache_view_push(t, x);
            }
            let ghost old_kept = kept@;
            if in_changes(changes, &self.graph_diff_stats[i].0) {
                let entry = (self.graph_diff_stats[i].0.clone(), self.graph_diff_stats[i].1);
                proof {
                    assert(!has_key(kept@, entry.0@));
                    lemma_cache_view_push(kept@, entry);
                }
                kept.push(entry);
            }
            proof {
                lemma_keys_grow(old_entries, t, i as int, old_kept, kept@);
            }
        }
        proof {
            assert(old_entries.take(n as int) =~= old_entries);
        }
        self.graph_diff_stats = kept;
        let ghost old_q = jobs_view(self.graph_diff_stats_queue@);
        let ghost pred = |j: JobModel| live.contains(j.0);
        let mut queue: VecDeque<StatsJob> = VecDeque::new();
        let m = self.graph_diff_stats_queue.len();
        for i in 0..m
            invariant
                m == self.graph_diff_stats_queue@.len(),
                old_q == jobs_view(self.graph_diff_stats_queue@),
                live == graph_ids(changes@),
                pred == (|j: JobModel| live.contains(j.0)),
                jobs_view(queue@) =~= old_q.take(i as int).filter(pred),
        {
            proof {
                assert(old_q.take(i + 1).drop_last() =~= old_q.take(i as int));
                reveal_with_fuel(Seq::<_>::filter, 1);
            }
            if in_changes(changes, &self.graph_diff_stats_queue[i].0) {
                let job = (
                    self.graph_diff_stats_queue[i].0.clone(),
                    self.graph_diff_stats_queue[i].1.clone(),
                );
                let ghost before = queue@;
                queue.push_back(job);
                assert(jobs_view(queue@) =~= jobs_view(before).push((job.0@, job.1@)));
            }
        }
        proof {
            assert(old_q.take(m as int) =~= old_q);
            let f = old_q.filter(pred);
            assert forall|i: int, j: int| 0 <= i < j < f.len() implies f[i].0 != f[j].0 by {
                lemma_filter_keeps_order(old_q, pred, i, j);
            }
            if let Some(fl) = self@.in_flight {
                assert(!queued(f, fl)) by {
                    if queued(f, fl) {
                        let i = choose|i: int| 0 <= i < f.len() && #[trigger] f[i].0 == fl;
                        assert(f.contains(f[i]));
                        old_q.lemma_filter_contains_rev(pred, f[i]);
                        let l = choose|l: int| 0 <= l < old_q.len() && old_q[l] == f[i];
                        assert(old_q[l].0 == fl);
                    }
                }
            }
        }
        self.graph_diff_stats_queue = queue;
    }

    /// Stores the working copy's statistics, unless they count nothing or
    /// the graph has no working copy.
    pub fn seed_working_copy_graph_diff_stats(
        &mut self,
        working_copy_stats: Option<DiffStats>,
        working_copy: Option<&ChangeInfo>,
        changes: &[ChangeInfo],
        selected: Option<&ChangeInfo>,
    )
        ensures
            final(self)@ == seeded(
                old(self)@,
                working_copy_stats,
                change_id(working_copy),
                graph_ids(changes@),
                change_id(selected),
            ),
    {
        proof {
            use_type_invariant(&*self);
        }
        let stats = match working_copy_stats {
            None => {
                return ;
            },
            Some(s) => s,
        };
        if stats.insertions == 0 && stats.deletions == 0 && stats.files_changed == 0 {
            return ;
        }
        let working_copy = match working_copy {
            None => {
                return ;
            },
            Some(c) => c,
        };
        self.store_graph_diff_stats(working_copy.commit_id.clone(), stats, changes, selected);
    }
}

/// Keys of a filtered prefix stay keys of the longer prefix: `after` is
/// `before`, possibly with the entry at `i` added.
proof fn lemma_keys_grow(
    all: Seq<(String, DiffStats)>,
    t: Seq<(String, DiffStats)>,
    i: int,
    before: Seq<(String, DiffStats)>,
    after: Seq<(String, DiffStats)>,
)
    requires
        0 <= i < all.len(),
        t == all.take(i),
        forall|k: Seq<char>| has_key(before, k) ==> has_key(t, k),
        after == before || (after == before.push(after.last()) && after.last().0@ == all[i].0@),
    ensures
        forall|k: Seq<char>| has_key(after, k) ==> has_key(all.take(i + 1), k),
{
    assert forall|k: Seq<char>| has_key(after, k) implies has_key(all.take(i + 1), k) by {
        let j = choose|j: int| 0 <= j < after.len() && #[trigger] after[j].0@ == k;
        if j < before.len() {
            assert(before[j].0@ == k);
            assert(has_key(t, k));
            let l = choose|l: int| 0 <= l < t.len() && #[trigger] t[l].0@ == k;
            assert(all.take(i + 1)[l].0@ == k);
        } else {
            assert(all.take(i + 1)[i].0@ == k);
        }
    }
}

/// After a refresh, only commits of the graph keep cached statistics or
/// queued jobs, and the statistics they keep are unchanged; a second refresh
/// with the same graph changes nothing more.
pub proof fn law_refresh_keeps_only_live_commits(m: StatsModel, live: Set<Seq<char>>)
    ensures
        forall|k: Seq<char>| #[trigger] retained(m, live).cache.contains_key(k) ==> live.contains(k),
        forall|k: Seq<char>|
            live.contains(k) && m.cache.contains_key(k) ==> #[trigger] retained(m, live).cache.contains_key(k)
                && retained(m, live).cache[k] == m.cache[k],
        forall|i: int|
            0 <= i < retained(m, live).queue.len() ==> live.contains(
                #[trigger] retained(m, live).queue[i].0,
            ),
        retained(retained(m, live), live) == retained(m, live),
{
    let pred = |j: JobModel| live.contains(j.0);
    let q = retained(m, live).queue;
    assert forall|i: int| 0 <= i < q.len() implies live.contains(#[trigger] q[i].0) by {
        m.queue.lemma_filter_pred(pred, i);
    }
    lemma_filter_all_pass(q, pred);
    assert(retained(m, live).cache.restrict(live) =~= retained(m, live).cache);
}

/// A filter that keeps every element changes nothing.
proof fn lemma_filter_all_pass(q: Seq<JobModel>, pred: spec_fn(JobModel) -> bool)
    requires
        forall|i: int| 0 <= i < q.len() ==> pred(#[trigger] q[i]),
    ensures
        q.filter(pred) == q,
    decreases q.len(),
{
    reveal_with_fuel(Seq::<_>::filter, 1);
    if q.len() > 0 {
        assert(pred(q[q.len() - 1]));
        lemma_filter_all_pass(q.drop_last(), pred);
        assert(q.drop_last().push(q.last()) =~= q);
    }
}

/// Storing caches statistics only for commits of the graph, and a commit of
/// the graph then reads back the statistics stored for it.
pub proof fn law_store_only_graph_commits(
    m: StatsModel,
    id: Seq<char>,
    stats: DiffStats,
    graph: Set<Seq<char>>,
    selected: Option<Seq<char>>,
)
    ensures
        forall|k: Seq<char>|
            #[trigger] stored(m, id, stats, graph, selected).cache.contains_key(k) ==> m.cache.contains_key(k)
                || graph.contains(k),
        graph.contains(id) ==> stored(m, id, stats, graph, selected).cache.contains_key(id)
            && stored(m, id, stats, graph, selected).cache[id] == stats,
        !graph.contains(id) ==> stored(m, id, stats, graph, selected) == m,
{
}

/// An empty change neither takes a place in the queue nor starts a job, so
/// it never gets into the cache that way.
pub proof fn law_empty_change_is_not_queued(
    m: StatsModel,
    id: Seq<char>,
    selected: Option<Seq<char>>,
    has_repo: bool,
)
    ensures
        ensured(m, id, true, selected, has_repo) == (m, None::<JobModel>),
{
}

/// Working-copy statistics that count nothing are not cached.
pub proof fn law_zero_working_copy_stats_are_not_cached(
    m: StatsModel,
    stats: DiffStats,
    working_copy: Option<Seq<char>>,
    graph: Set<Seq<char>>,
    selected: Option<Seq<char>>,
)
    requires
        is_zero_stats(stats),
    ensures
        seeded(m, Some(stats), working_copy, graph, selected) == m,
{
}

/// At most one job runs: a job starts only when none is in flight, and the
/// job that starts is the one in flight afterwards; a finished job leaves
/// nothing in flight but the job it starts next.
pub proof fn law_one_job_at_a_time(
    m: StatsModel,
    has_repo: bool,
    id: Seq<char>,
    result: Option<DiffStats>,
    graph: Set<Seq<char>>,
    selected: Option<Seq<char>>,
)
    ensures
        pumped(m, has_repo).1 is Some ==> m.in_flight is None && pumped(m, has_repo).0.in_flight
            == Some(pumped(m, has_repo).1.unwrap().0),
        m.in_flight is Some ==> pumped(m, has_repo) == (m, None::<JobModel>),
        match finished(m, id, result, graph, selected, has_repo).1 {
            Some(j) => finished(m, id, result, graph, selected, has_repo).0.in_flight == Some(j.0),
            None => finished(m, id, result, graph, selected, has_repo).0.in_flight is None,
        },
{
}

/// A commit whose statistics are cached is not queued again: showing it
/// only shows the cached statistics.
pub proof fn law_cached_commit_is_not_recomputed(
    m: StatsModel,
    id: Seq<char>,
    selected: Option<Seq<char>>,
    has_repo: bool,
)
    requires
        m.cache.contains_key(id),
    ensures
        ensured(m, id, false, selected, has_repo).1 is None,
        ensured(m, id, false, selected, has_repo).0.cache == m.cache,
        ensured(m, id, false, selected, has_repo).0.queue == m.queue,
        selected == Some(id) ==> ensured(m, id, false, selected, has_repo).0.change_stats == Some(
            m.cache[id],
        ),
{
}

/// Only the statistics of the selected change are shown: storing or
/// finishing the statistics of a commit shows them exactly when that commit
/// is in the graph and is the selected change; otherwise what is shown stays
/// as it was. Showing a cached commit shows its statistics only when it is
/// the selected change.
pub proof fn law_shown_stats_follow_selection(
    m: StatsModel,
    id: Seq<char>,
    stats: DiffStats,
    graph: Set<Seq<char>>,
    selected: Option<Seq<char>>,
    has_repo: bool,
)
    ensures
        stored(m, id, stats, graph, selected).change_stats == if graph.contains(id) && selected
            == Some(id) {
            Some(stats)
        } else {
            m.change_stats
        },
        finished(m, id, Some(stats), graph, selected, has_repo).0.change_stats == if graph.contains(
            id,
        ) && selected == Some(id) {
            Some(stats)
        } else {
            m.change_stats
        },
        finished(m, id, None, graph, selected, has_repo).0.change_stats == m.change_stats,
        m.cache.contains_key(id) ==> ensured(m, id, false, selected, has_repo).0.change_stats == if selected
            == Some(id) {
            Some(m.cache[id])
        } else {
            m.change_stats
        },
{
}

/// A refresh keeps every queued job of a commit that is still in the graph,
/// and drops only the others; a refresh with a graph that holds every cached
/// and queued commit changes nothing.
pub proof fn law_refresh_keeps_live_jobs(m: StatsModel, live: Set<Seq<char>>)
    ensures
        forall|j: JobModel|
            #[trigger] retained(m, live).queue.contains(j) <==> (m.queue.contains(j) && live.contains(
                j.0,
            )),
        retained(m, live).queue.len() <= m.queue.len(),
        (forall|i: int| 0 <= i < m.queue.len() ==> live.contains(#[trigger] m.queue[i].0)) && (forall|
            k: Seq<char>,
        | #[trigger] m.cache.contains_key(k) ==> live.contains(k)) ==> retained(m, live) == m,
{
    broadcast use vstd::seq_lib::group_filter_ensures;

    let pred = |j: JobModel| live.contains(j.0);
    let q = retained(m, live).queue;
    assert(q == m.queue.filter(pred));
    assert forall|j: JobModel| #[trigger] q.contains(j) <==> (m.queue.contains(j) && live.contains(
        j.0,
    )) by {
        if q.contains(j) {
            m.queue.lemma_filter_contains_rev(pred, j);
            let k = choose|k: int| 0 <= k < q.len() && q[k] == j;
            m.queue.lemma_filter_pred(pred, k);
        }
        if m.queue.contains(j) && live.contains(j.0) {
            let i = choose|i: int| 0 <= i < m.queue.len() && m.queue[i] == j;
            m.queue.filter_lemma(pred);
            assert(pred(m.queue[i]));
        }
    }
    if (forall|i: int| 0 <= i < m.queue.len() ==> live.contains(#[trigger] m.queue[i].0)) && (forall|
        k: Seq<char>,
    | #[trigger] m.cache.contains_key(k) ==> live.contains(k)) {
        lemma_filter_all_pass(m.queue, pred);
        assert(m.cache.restrict(live) =~= m.cache);
        assert(retained(m, live) == m);
    }
}

/// Jobs start first in, first out: when nothing is in flight, pumping takes
/// the job at the front of the queue, starts it when a repository is open
/// and drops it otherwise, and touches neither the cache nor what is shown.
pub proof fn law_jobs_start_in_queue_order(m: StatsModel, has_repo: bool)
    requires
        m.in_flight is None,
        m.queue.len() > 0,
    ensures
        pumped(m, has_repo).0.queue == m.queue.drop_first(),
        pumped(m, has_repo).0.cache == m.cache,
        pumped(m, has_repo).0.change_stats == m.change_stats,
        has_repo ==> pumped(m, has_repo).1 == Some(m.queue[0]) && pumped(m, has_repo).0.in_flight
            == Some(m.queue[0].0),
        !has_repo ==> pumped(m, has_repo).1 is None && pumped(m, has_repo).0.in_flight is None,
{
}

/// A change that is not empty, not cached, not in flight and not queued
/// joins the end of the queue as a job for its own commit; it starts at once
/// when nothing else is waiting or running and a repository is open. A
/// change already in flight or queued changes nothing.
pub proof fn law_new_change_joins_the_queue(
    m: StatsModel,
    id: Seq<char>,
    selected: Option<Seq<char>>,
    has_repo: bool,
)
    requires
        !m.cache.contains_key(id),
    ensures
        (m.in_flight == Some(id) || queued(m.queue, id)) ==> ensured(m, id, false, selected, has_repo)
            == (m, None::<JobModel>),
        m.in_flight is Some && m.in_flight != Some(id) && !queued(m.queue, id) ==> {
            &&& ensured(m, id, false, selected, has_repo).0.queue == m.queue.push((id, id))
            &&& ensured(m, id, false, selected, has_repo).1 is None
            &&& ensured(m, id, false, selected, has_repo).0.in_flight == m.in_flight
        },
        m.in_flight is None && m.queue.len() == 0 && has_repo ==> {
            &&& ensured(m, id, false, selected, has_repo).1 == Some((id, id))
            &&& ensured(m, id, false, selected, has_repo).0.in_flight == Some(id)
            &&& ensured(m, id, false, selected, has_repo).0.queue.len() == 0
        },
        ensured(m, id, false, selected, has_repo).0.cache == m.cache,
        ensured(m, id, false, selected, has_repo).0.change_stats == m.change_stats,
{
    let q = m.queue.push((id, id));
    assert(q.drop_first().len() == 0 ==> q.drop_first() =~= Seq::<JobModel>::empty());
}

/// Two kept jobs stay in the order they were queued in.
proof fn lemma_filter_keeps_queue_order(q: Seq<JobModel>, pred: spec_fn(JobModel) -> bool, a: int, b: int)
    requires
        0 <= a < b < q.len(),
        pred(q[a]),
        pred(q[b]),
    ensures
        exists|i: int, j: int|
            0 <= i < j < q.filter(pred).len() && #[trigger] q.filter(pred)[i] == q[a]
                && #[trigger] q.filter(pred)[j] == q[b],
    decreases q.len(),
{
    reveal_with_fuel(Seq::<_>::filter, 1);
    let rest = q.drop_last();
    let f = rest.filter(pred);
    if b == q.len() - 1 {
        assert(q.filter(pred) == f.push(q[b]));
        rest.filter_lemma(pred);
        assert(rest[a] == q[a]);
        assert(f.contains(q[a]));
        let i = choose|i: int| 0 <= i < f.len() && f[i] == q[a];
        assert(q.filter(pred)[i] == q[a]);
        assert(q.filter(pred)[f.len() as int] == q[b]);
    } else {
        assert(rest[a] == q[a] && rest[b] == q[b]);
        lemma_filter_keeps_queue_order(rest, pred, a, b);
        let (i, j) = choose|i: int, j: int|
            0 <= i < j < f.len() && #[trigger] f[i] == q[a] && #[trigger] f[j] == q[b];
        if pred(q.last()) {
            assert(q.filter(pred) == f.push(q.last()));
        } else {
            assert(q.filter(pred) == f);
        }
        assert(q.filter(pred)[i] == q[a] && q.filter(pred)[j] == q[b]);
    }
}

/// A refresh keeps the jobs of commits still in the graph in the order they
/// were queued in.
pub proof fn law_refresh_keeps_queue_order(m: StatsModel, live: Set<Seq<char>>, a: int, b: int)
    requires
        0 <= a < b < m.queue.len(),
        live.contains(m.queue[a].0),
        live.contains(m.queue[b].0),
    ensures
        exists|i: int, j: int|
            0 <= i < j < retained(m, live).queue.len() && #[trigger] retained(m, live).queue[i]
                == m.queue[a] && #[trigger] retained(m, live).queue[j] == m.queue[b],
{
    let pred = |j: JobModel| live.contains(j.0);
    lemma_filter_keeps_queue_order(m.queue, pred, a, b);
    assert(retained(m, live).queue == m.queue.filter(pred));
}

/// Working-copy statistics that count anything (a file, an inserted line or
/// a deleted line) are cached for the working copy when it is in the graph,
/// and shown when it is the selected change.
pub proof fn law_nonzero_working_copy_stats_are_cached(
    m: StatsModel,
    stats: DiffStats,
    working_copy: Seq<char>,
    graph: Set<Seq<char>>,
    selected: Option<Seq<char>>,
)
    requires
        stats.files_changed != 0 || stats.insertions != 0 || stats.deletions != 0,
        graph.contains(working_copy),
    ensures
        seeded(m, Some(stats), Some(working_copy), graph, selected).cache == m.cache.insert(
            working_copy,
            stats,
        ),
        seeded(m, Some(stats), Some(working_copy), graph, selected).change_stats == if selected
            == Some(working_copy) {
            Some(stats)
        } else {
            m.change_stats
        },
        seeded(m, Some(stats), Some(working_copy), graph, selected).queue == m.queue,
        seeded(m, Some(stats), Some(working_copy), graph, selected).in_flight == m.in_flight,
{
}

/// Two jobs that a filter keeps come from distinct positions in order, so
/// jobs for distinct commits stay jobs for distinct commits.
proof fn lemma_filter_keeps_order(q: Seq<JobModel>, pred: spec_fn(JobModel) -> bool, i: int, j: int)
    requires
        distinct_jobs(q),
        0 <= i < j < q.filter(pred).len(),
    ensures
        q.filter(pred)[i].0 != q.filter(pred)[j].0,
    decreases q.len(),
{
    reveal_with_fuel(Seq::<_>::filter, 1);
    if q.len() > 0 {
        let rest = q.drop_last();
        assert(distinct_jobs(rest)) by {
            assert forall|a: int, b: int| 0 <= a < b < rest.len() implies rest[a].0 != rest[b].0 by {
                assert(q[a].0 != q[b].0);
            }
        }
        if pred(q.last()) {
            assert(q.filter(pred) == rest.filter(pred).push(q.last()));
            if j < rest.filter(pred).len() {
                lemma_filter_keeps_order(rest, pred, i, j);
            } else {
                let f = rest.filter(pred);
                assert(f.contains(f[i]));
                rest.lemma_filter_contains_rev(pred, f[i]);
                let l = choose|l: int| 0 <= l < rest.len() && rest[l] == f[i];
                assert(q[l].0 != q[q.len() - 1].0);
            }
        } else {
            lemma_filter_keeps_order(rest, pred, i, j);
        }
    }
}

/// Whether a change of `changes` has the commit id `commit_id`.
fn in_changes(changes: &[ChangeInfo], commit_id: &String) -> (r: bool)
    ensures
        r == graph_ids(changes@).contains(commit_id@),
{
    let n = changes.len();
    for i in 0..n
        invariant
            n == changes@.len(),
            forall|j: int| 0 <= j < i ==> changes@[j].commit_id@ != commit_id@,
    {
        if changes[i].commit_id == *commit_id {
            assert(changes@[i as int].commit_id@ == commit_id@);
            return true;
        }
    }
    false
}

} // verus!
