//! Grouping of polling points for batch reads: points that share a group name are
//! read together, and points without a group fall into the group "default".

use vstd::prelude::*;
use crate::combase::data_types::PollingConfig;
use crate::combase::monitoring::{instant_now, millis_since};
use crate::combase::point_cache::{PointData, PointDataView};
use crate::combase::stats::current_time;
use crate::error::{ComSrvError, text_str_text};
use crate::text::{str_eq, string_of};
use std::time::{Instant, SystemTime};

verus! {

/// The group a point with group name `g` is read in.
pub open spec fn group_key(g: Seq<char>) -> Seq<char> {
    if g.len() == 0 {
        "default"@
    } else {
        g
    }
}

/// Whether point `i` is listed in some group.
pub open spec fn is_listed(groups: Seq<(String, Vec<usize>)>, i: int) -> bool {
    exists|g: int, k: int| 0 <= g < groups.len() && 0 <= k < groups[g].1@.len() && #[trigger] groups[g].1@[k] == i
}

/// Whether the groups are a correct batch plan for points with the given group
/// names: group names are distinct; each group lists, in increasing order, indices of
/// points whose group it is; and every point is listed.
pub open spec fn is_batch_plan(names: Seq<String>, groups: Seq<(String, Vec<usize>)>) -> bool {
    &&& forall|a: int, b: int|
        0 <= a < groups.len() && 0 <= b < groups.len() && a != b ==> #[trigger] groups[a].0@ != #[trigger] groups[b].0@
    &&& forall|g: int, k: int|
        0 <= g < groups.len() && 0 <= k < groups[g].1@.len() ==> #[trigger] groups[g].1@[k] < names.len()
            && group_key(names[groups[g].1@[k] as int]@) == groups[g].0@
    &&& forall|g: int, k: int, l: int|
        0 <= g < groups.len() && 0 <= k < l < groups[g].1@.len() ==> #[trigger] groups[g].1@[k]
            < #[trigger] groups[g].1@[l]
    &&& forall|i: int| 0 <= i < names.len() ==> #[trigger] is_listed(groups, i)
    &&& forall|g: int| 0 <= g < groups.len() ==> #[trigger] groups[g].1@.len() > 0
}

/// The group `key` of a point with group name `g`.
fn group_of(g: &str) -> (r: String)
    ensures
        r@ == group_key(g@),
{
    if g.unicode_len() == 0 {
        string_of("default")
    } else {
        string_of(g)
    }
}

/// Groups point indices by group name for batch reading; groups appear in the order
/// their first point appears.
pub fn group_points_for_batch_reading(group_names: &Vec<String>) -> (groups: Vec<(String, Vec<usize>)>)
    ensures
        is_batch_plan(group_names@, groups@),
{
    let mut groups: Vec<(String, Vec<usize>)> = Vec::new();
    let n = group_names.len();
    let mut i: usize = 0;
    while i < n
        invariant
            n == group_names@.len(),
            i <= n,
            forall|a: int, b: int|
                0 <= a < groups@.len() && 0 <= b < groups@.len() && a != b ==> #[trigger] groups@[a].0@
                    != #[trigger] groups@[b].0@,
            forall|g: int, k: int|
                0 <= g < groups@.len() && 0 <= k < groups@[g].1@.len() ==> #[trigger] groups@[g].1@[k] < i
                    && group_key(group_names@[groups@[g].1@[k] as int]@) == groups@[g].0@,
            forall|g: int, k: int, l: int|
                0 <= g < groups@.len() && 0 <= k < l < groups@[g].1@.len() ==> #[trigger] groups@[g].1@[k]
                    < #[trigger] groups@[g].1@[l],
            forall|j: int| 0 <= j < i ==> #[trigger] is_listed(groups@, j),
            forall|g: int| 0 <= g < groups@.len() ==> #[trigger] groups@[g].1@.len() > 0,
        decreases n - i,
    {
        let key = group_of(group_names[i].as_str());
        let ghost before = groups@;
        let m = groups.len();
        let mut p: usize = 0;
        while p < m
            invariant
                m == groups@.len(),
                groups@ == before,
                p <= m,
                forall|q: int| 0 <= q < p ==> #[trigger] groups@[q].0@ != key@,
            ensures
                p <= m,
                groups@ == before,
                forall|q: int| 0 <= q < p ==> #[trigger] groups@[q].0@ != key@,
                p < m ==> groups@[p as int].0@ == key@,
            decreases m - p,
        {
            if str_eq(groups[p].0.as_str(), key.as_str()) {
                break;
            }
            p = p + 1;
        }
        if p < m {
            let ghost old_list = groups@[p as int].1@;
            let mut entry = groups.remove(p);
            entry.1.push(i);
            groups.insert(p, entry);
            proof {
                let after = groups@;
                assert(after.len() == before.len());
                assert forall|q: int| 0 <= q < after.len() && q != p implies #[trigger] after[q] == before[q] by {}
                assert(after[p as int].0@ == before[p as int].0@);
                assert(after[p as int].1@ == old_list.push(i));
                assert forall|j: int| 0 <= j < i + 1 implies #[trigger] is_listed(after, j) by {
                    if j == i {
                        assert(after[p as int].1@[old_list.len() as int] == j);
                    } else {
                        assert(is_listed(before, j));
                        let (g, k) = choose|g: int, k: int|
                            0 <= g < before.len() && 0 <= k < before[g].1@.len() && #[trigger] before[g].1@[k] == j;
                        if g == p {
                            assert(after[g].1@[k] == j);
                        } else {
                            assert(after[g] == before[g]);
                        }
                    }
                }
            }
        } else {
            let mut list: Vec<usize> = Vec::new();
            list.push(i);
            groups.push((key, list));
            proof {
                let after = groups@;
                assert forall|q: int| 0 <= q < before.len() implies #[trigger] after[q] == before[q] by {}
                assert forall|j: int| 0 <= j < i + 1 implies #[trigger] is_listed(after, j) by {
                    if j == i {
                        assert(after[m as int].1@[0] == j);
                    } else {
                        assert(is_listed(before, j));
                        let (g, k) = choose|g: int, k: int|
                            0 <= g < before.len() && 0 <= k < before[g].1@.len() && #[trigger] before[g].1@[k] == j;
                        assert(after[g] == before[g]);
                    }
                }
            }
        }
        i = i + 1;
    }
    groups
}


/// What the engine does next in a polling cycle.
#[derive(Debug, Clone, Copy, PartialEq, Eq, Structural)]
pub enum PollAction {
    /// Read the points of a group in one batch.
    ReadGroup(usize),
    /// Read one point.
    ReadPoint(usize),
    /// Wait this many milliseconds before the next read.
    Pause(u64),
    /// The cycle is over.
    Finish,
}

/// What became of the last action.
#[derive(Debug, Clone, Copy, PartialEq, Eq, Structural)]
pub enum PollEvent {
    /// A batch read ended, successfully or not.
    GroupRead(bool),
    /// A single read ended (a failed one yields an error data point).
    PointRead,
    /// A pause ended.
    Paused,
}

/// Where a polling cycle stands.
#[derive(Debug, Clone, Copy, PartialEq, Eq, Structural)]
pub enum CycleStage {
    /// A batch read of the current group is under way.
    Batch,
    /// The read of the given position of the current list is under way.
    Single(usize),
    /// The pause after the read of the given position is under way.
    Waiting(usize),
    /// The cycle is over.
    Done,
}

/// The state of a polling cycle, as values.
pub struct CycleView {
    /// The read lists: the batch groups, or one list of all points.
    pub plan: Seq<Seq<usize>>,
    /// Whether groups are read in batches.
    pub batch: bool,
    /// The pause after each single read.
    pub delay_ms: u64,
    /// The current list.
    pub group: int,
    /// The stage within it.
    pub stage: CycleStage,
}

/// Whether an event answers an action.
pub open spec fn answers(a: PollAction, e: PollEvent) -> bool {
    match a {
        PollAction::ReadGroup(_) => e is GroupRead,
        PollAction::ReadPoint(_) => e is PointRead,
        PollAction::Pause(_) => e is Paused,
        PollAction::Finish => false,
    }
}

/// The action a state is waiting on.
pub open spec fn pending_action(v: CycleView) -> PollAction {
    match v.stage {
        CycleStage::Batch => PollAction::ReadGroup(v.group as usize),
        CycleStage::Single(j) => PollAction::ReadPoint(v.plan[v.group][j as int]),
        CycleStage::Waiting(_) => PollAction::Pause(v.delay_ms),
        CycleStage::Done => PollAction::Finish,
    }
}

/// The state that starts on list `g`: its batch read, its first single read, or the
/// end when there is no list `g`.
pub open spec fn start_at(v: CycleView, g: int) -> CycleView {
    if g < v.plan.len() {
        CycleView { group: g, stage: if v.batch { CycleStage::Batch } else { CycleStage::Single(0) }, ..v }
    } else {
        CycleView { group: g, stage: CycleStage::Done, ..v }
    }
}

/// The state after position `j` of the current list is done: the next position, or
/// the next list.
pub open spec fn after_position(v: CycleView, j: int) -> CycleView {
    if j + 1 < v.plan[v.group].len() {
        CycleView { stage: CycleStage::Single((j + 1) as usize), ..v }
    } else {
        start_at(v, v.group + 1)
    }
}

/// One step of a cycle: a successful batch moves to the next list, a failed one to
/// single reads of its points; each single read is followed by the pause when one
/// is configured.
pub open spec fn cycle_step(v: CycleView, e: PollEvent) -> CycleView {
    match (v.stage, e) {
        (CycleStage::Batch, PollEvent::GroupRead(true)) => start_at(v, v.group + 1),
        (CycleStage::Batch, PollEvent::GroupRead(false)) => CycleView { stage: CycleStage::Single(0), ..v },
        (CycleStage::Single(j), PollEvent::PointRead) => if v.delay_ms > 0 {
            CycleView { stage: CycleStage::Waiting(j), ..v }
        } else {
            after_position(v, j as int)
        },
        (CycleStage::Waiting(j), PollEvent::Paused) => after_position(v, j as int),
        _ => v,
    }
}

/// Whether a state is consistent: every list is non-empty, and the current list and
/// position exist unless the cycle is over.
pub open spec fn cycle_ok(v: CycleView) -> bool {
    &&& forall|g: int| 0 <= g < v.plan.len() ==> #[trigger] v.plan[g].len() > 0
    &&& forall|g: int| 0 <= g < v.plan.len() ==> #[trigger] v.plan[g].len() <= usize::MAX
    &&& v.plan.len() <= usize::MAX
    &&& 0 <= v.group <= v.plan.len()
    &&& (v.stage is Done <==> v.group == v.plan.len())
    &&& (v.batch || v.stage !is Batch)
    &&& match v.stage {
        CycleStage::Single(j) => j < v.plan[v.group].len(),
        CycleStage::Waiting(j) => j < v.plan[v.group].len(),
        _ => true,
    }
}

/// The reads and pauses left in the lists from `g` on, at most: a batch read, and a
/// read and a pause for each point.
pub open spec fn cost_from(plan: Seq<Seq<usize>>, g: int) -> nat
    decreases plan.len() - g,
{
    if g < 0 || g >= plan.len() {
        0
    } else {
        2 * plan[g].len() + 1 + cost_from(plan, g + 1)
    }
}

/// The work a cycle has left.
pub open spec fn work_left(v: CycleView) -> nat {
    match v.stage {
        CycleStage::Done => 0,
        CycleStage::Batch => cost_from(v.plan, v.group),
        CycleStage::Single(j) => (2 * (v.plan[v.group].len() - j) + cost_from(v.plan, v.group + 1)) as nat,
        CycleStage::Waiting(j) => (2 * (v.plan[v.group].len() - j) - 1 + cost_from(v.plan, v.group + 1)) as nat,
    }
}

/// Each step of a consistent cycle keeps it consistent and leaves strictly less work,
/// so every polling cycle comes to its end.
pub proof fn lemma_cycle_step_progress(v: CycleView, e: PollEvent)
    requires
        cycle_ok(v),
        answers(pending_action(v), e),
    ensures
        cycle_ok(cycle_step(v, e)),
        work_left(cycle_step(v, e)) < work_left(v),
{
    let g = v.group;
    if g + 1 < v.plan.len() {
        assert(v.plan[g + 1].len() > 0);
        assert(cost_from(v.plan, g + 1) == 2 * v.plan[g + 1].len() + 1 + cost_from(v.plan, g + 2));
    } else {
        assert(cost_from(v.plan, g + 1) == 0);
    }
    if g < v.plan.len() {
        assert(cost_from(v.plan, g) == 2 * v.plan[g].len() + 1 + cost_from(v.plan, g + 1));
    }
    assert(work_left(start_at(v, g + 1)) <= cost_from(v.plan, g + 1));
}

/// The number of points a cycle without batch reading reads: all of them, but at
/// most the maximum per cycle.
pub open spec fn points_per_cycle(n: nat, max: u32) -> nat {
    if n < max {
        n
    } else {
        max as nat
    }
}

/// A polling cycle over a list of points.
pub struct PollingCycle {
    lists: Vec<Vec<usize>>,
    batch: bool,
    delay_ms: u64,
    group: usize,
    stage: CycleStage,
}

/// The index lists of a batch plan.
pub open spec fn plan_lists(groups: Seq<(String, Vec<usize>)>) -> Seq<Seq<usize>> {
    groups.map_values(|g: (String, Vec<usize>)| g.1@)
}

impl PollingCycle {
    /// The state as values.
    pub closed spec fn view(&self) -> CycleView {
        CycleView {
            plan: self.lists@.map_values(|l: Vec<usize>| l@),
            batch: self.batch,
            delay_ms: self.delay_ms,
            group: self.group as int,
            stage: self.stage,
        }
    }

    /// Starts a cycle over points whose group names are given: with batch reading,
    /// one batch per group in the order the groups first appear, starting with the
    /// batch of the first group; without, the first points in turn, at most the
    /// configured maximum per cycle. A cycle with no point to read is over at once.
    pub fn start(config: &PollingConfig, group_names: &Vec<String>) -> (r: (Self, PollAction))
        ensures
            cycle_ok(r.0.view()),
            r.1 == pending_action(r.0.view()),
            r.0.view().batch == config.enable_batch_reading,
            r.0.view().delay_ms == config.point_read_delay_ms,
            group_names@.len() == 0 ==> r.1 == PollAction::Finish,
            config.enable_batch_reading ==> exists|groups: Seq<(String, Vec<usize>)>|
                #[trigger] is_batch_plan(group_names@, groups) && r.0.view().plan == plan_lists(groups)
                && r.0.view().group == 0,
            config.enable_batch_reading && group_names@.len() > 0 ==> r.0.view().stage == CycleStage::Batch
                && r.1 == PollAction::ReadGroup(0),
            !config.enable_batch_reading ==> {
                let k = points_per_cycle(group_names@.len(), config.max_points_per_cycle);
                &&& k == 0 ==> r.0.view().plan.len() == 0 && r.0.view().stage == CycleStage::Done && r.1
                    == PollAction::Finish
                &&& k > 0 ==> {
                    &&& r.0.view().plan.len() == 1
                    &&& r.0.view().plan[0].len() == k
                    &&& forall|i: int| 0 <= i < k ==> #[trigger] r.0.view().plan[0][i] == i
                    &&& r.0.view().stage == CycleStage::Single(0)
                    &&& r.1 == PollAction::ReadPoint(0)
                }
            },
    {
        let n = group_names.len();
        let mut lists: Vec<Vec<usize>> = Vec::new();
        let ghost mut groups_seen: Seq<(String, Vec<usize>)> = Seq::empty();
        if n > 0 {
            if config.enable_batch_reading {
                let groups = group_points_for_batch_reading(group_names);
                proof {
                    groups_seen = groups@;
                }
                let m = groups.len();
                let mut k: usize = 0;
                while k < m
                    invariant
                        m == groups@.len(),
                        k <= m,
                        lists@.len() == k,
                        forall|q: int| 0 <= q < k ==> #[trigger] lists@[q]@ == groups@[q].1@,
                        forall|q: int| 0 <= q < k ==> #[trigger] lists@[q]@.len() <= usize::MAX,
                    decreases m - k,
                {
                    let mut copy: Vec<usize> = Vec::new();
                    let len = groups[k].1.len();
                    let mut t: usize = 0;
                    while t < len
                        invariant
                            m == groups@.len(),
                            k < m,
                            len == groups@[k as int].1@.len(),
                            t <= len,
                            copy@ == groups@[k as int].1@.subrange(0, t as int),
                        decreases len - t,
                    {
                        copy.push(groups[k].1[t]);
                        assert(copy@ =~= groups@[k as int].1@.subrange(0, t + 1));
                        t = t + 1;
                    }
                    assert(groups@[k as int].1@.subrange(0, len as int) =~= groups@[k as int].1@);
                    lists.push(copy);
                    k = k + 1;
                }
                assert(lists@.map_values(|l: Vec<usize>| l@) =~= plan_lists(groups@));
            } else {
                let max = config.max_points_per_cycle as usize;
                let k: usize = if n < max {
                    n
                } else {
                    max
                };
                let mut all: Vec<usize> = Vec::new();
                let mut i: usize = 0;
                while i < k
                    invariant
                        i <= k,
                        all@.len() == i,
                        forall|j: int| 0 <= j < i ==> #[trigger] all@[j] == j,
                    decreases k - i,
                {
                    all.push(i);
                    i = i + 1;
                }
                if k > 0 {
                    lists.push(all);
                }
            }
        } else {
            proof {
                assert(is_batch_plan(group_names@, groups_seen));
            }
        }
        let stage = if lists.len() == 0 {
            CycleStage::Done
        } else if config.enable_batch_reading {
            CycleStage::Batch
        } else {
            CycleStage::Single(0)
        };
        let cycle = PollingCycle {
            lists,
            batch: config.enable_batch_reading,
            delay_ms: config.point_read_delay_ms,
            group: 0,
            stage,
        };
        proof {
            let v = cycle.view();
            if config.enable_batch_reading {
                assert(v.plan == plan_lists(groups_seen));
                assert(forall|g: int| 0 <= g < v.plan.len() ==> #[trigger] v.plan[g] == groups_seen[g].1@);
                if n > 0 {
                    assert(is_listed(groups_seen, 0));
                }
            }
        }
        let action = cycle.action();
        (cycle, action)
    }

    /// The action the cycle is waiting on.
    pub fn action(&self) -> (r: PollAction)
        requires
            cycle_ok(self.view()),
        ensures
            r == pending_action(self.view()),
    {
        match self.stage {
            CycleStage::Batch => PollAction::ReadGroup(self.group),
            CycleStage::Single(j) => PollAction::ReadPoint(self.lists[self.group][j]),
            CycleStage::Waiting(_) => PollAction::Pause(self.delay_ms),
            CycleStage::Done => PollAction::Finish,
        }
    }

    /// The point indices of list `g`.
    pub fn list(&self, g: usize) -> (r: &Vec<usize>)
        requires
            g < self.view().plan.len(),
        ensures
            r@ == self.view().plan[g as int],
    {
        &self.lists[g]
    }

    /// Moves to the start of list `g`.
    fn begin_list(&mut self, g: usize)
        requires
            cycle_ok(old(self).view()),
            g == old(self).view().group + 1,
        ensures
            final(self).view() == start_at(old(self).view(), g as int),
    {
        self.group = g;
        if g < self.lists.len() {
            self.stage = if self.batch {
                CycleStage::Batch
            } else {
                CycleStage::Single(0)
            };
        } else {
            self.stage = CycleStage::Done;
        }
    }

    /// Moves past position `j` of the current list.
    fn pass_position(&mut self, j: usize)
        requires
            cycle_ok(old(self).view()),
            old(self).view().group < old(self).view().plan.len(),
            j < old(self).view().plan[old(self).view().group].len(),
        ensures
            final(self).view() == after_position(old(self).view(), j as int),
    {
        assert(self.view().plan[self.group as int] == self.lists@[self.group as int]@);
        let len = self.lists[self.group].len();
        if j + 1 < len {
            self.stage = CycleStage::Single(j + 1);
        } else {
            let g = self.group + 1;
            self.begin_list(g);
        }
    }

    /// Takes the outcome of the pending action and gives the next one.
    pub fn next(&mut self, event: PollEvent) -> (r: PollAction)
        requires
            cycle_ok(old(self).view()),
            answers(pending_action(old(self).view()), event),
        ensures
            final(self).view() == cycle_step(old(self).view(), event),
            cycle_ok(final(self).view()),
            r == pending_action(final(self).view()),
            work_left(final(self).view()) < work_left(old(self).view()),
    {
        proof {
            lemma_cycle_step_progress(self.view(), event);
            assert(self.view().plan.len() == self.lists@.len());
        }
        match (self.stage, event) {
            (CycleStage::Batch, PollEvent::GroupRead(true)) => {
                        let g = self.group + 1;
                self.begin_list(g);
            },
            (CycleStage::Batch, PollEvent::GroupRead(false)) => {
                self.stage = CycleStage::Single(0);
            },
            (CycleStage::Single(j), PollEvent::PointRead) => {
                if self.delay_ms > 0 {
                    self.stage = CycleStage::Waiting(j);
                } else {
                    self.pass_position(j);
                }
            },
            (CycleStage::Waiting(j), PollEvent::Paused) => {
                self.pass_position(j);
            },
            _ => {},
        }
        self.action()
    }
}

/// Counters of polling cycles.
#[derive(Debug, Clone, Copy, PartialEq, Eq, Structural)]
pub struct PollingCounters {
    /// Total number of polling cycles executed
    pub total_cycles: u64,
    /// Number of successful polling cycles
    pub successful_cycles: u64,
    /// Number of failed polling cycles
    pub failed_cycles: u64,
    /// Total data points read successfully
    pub total_points_read: u64,
    /// Total data points that failed to read
    pub total_points_failed: u64,
}

impl PollingCounters {
    /// All counters zero.
    pub fn new() -> (c: Self)
        ensures
            c == (PollingCounters {
                total_cycles: 0,
                successful_cycles: 0,
                failed_cycles: 0,
                total_points_read: 0,
                total_points_failed: 0,
            }),
    {
        PollingCounters { total_cycles: 0, successful_cycles: 0, failed_cycles: 0, total_points_read: 0, total_points_failed: 0 }
    }

    /// Counts a finished cycle: a successful one adds the points it read, a failed
    /// one the points it failed on.
    pub fn record_cycle(&mut self, success: bool, points: u64)
        requires
            old(self).total_cycles < u64::MAX,
            success ==> old(self).successful_cycles < u64::MAX && old(self).total_points_read + points <= u64::MAX,
            !success ==> old(self).failed_cycles < u64::MAX && old(self).total_points_failed + points <= u64::MAX,
        ensures
            final(self).total_cycles == old(self).total_cycles + 1,
            success ==> *final(self) == (PollingCounters {
                total_cycles: (old(self).total_cycles + 1) as u64,
                successful_cycles: (old(self).successful_cycles + 1) as u64,
                total_points_read: (old(self).total_points_read + points) as u64,
                ..*old(self)
            }),
            !success ==> *final(self) == (PollingCounters {
                total_cycles: (old(self).total_cycles + 1) as u64,
                failed_cycles: (old(self).failed_cycles + 1) as u64,
                total_points_failed: (old(self).total_points_failed + points) as u64,
                ..*old(self)
            }),
    {
        self.total_cycles = self.total_cycles + 1;
        if success {
            self.successful_cycles = self.successful_cycles + 1;
            self.total_points_read = self.total_points_read + points;
        } else {
            self.failed_cycles = self.failed_cycles + 1;
            self.total_points_failed = self.total_points_failed + points;
        }
    }
}

/// Whether a polling engine starts: one already running refuses, and a disabled
/// configuration is accepted without starting.
pub fn polling_start_decision(running: bool, config: &PollingConfig) -> (r: Result<bool, ComSrvError>)
    ensures
        running ==> (r matches Err(ComSrvError::InvalidOperation(m)) && m@ == "Polling is already running"@),
        !running ==> r == Ok::<bool, ComSrvError>(config.enabled),
{
    if running {
        return Err(ComSrvError::InvalidOperation(string_of("Polling is already running")));
    }
    Ok(config.enabled)
}

/// The data point recorded for a point whose read failed: value "null" and the
/// error as description.
pub fn read_error_point(id: &str, name: &str, unit: &str, error: &str, timestamp: SystemTime) -> (d: PointData)
    ensures
        d@ == (PointDataView {
            id: id@,
            name: name@,
            value: "null"@,
            timestamp: timestamp,
            unit: unit@,
            description: "Read error: "@ + error@,
        }),
{
    let description = text_str_text("Read error: ", error, "");
    proof {
        reveal_strlit("");
        assert(description@ =~= "Read error: "@ + error@);
    }
    PointData {
        id: string_of(id),
        name: string_of(name),
        value: string_of("null"),
        timestamp,
        unit: string_of(unit),
        description,
    }
}

/// Caches the wall-clock time for a while, to read the clock less often.
#[derive(Debug, Clone, Copy)]
pub struct TimeCache {
    cached_time: SystemTime,
    last_update: Instant,
    cache_duration_ms: u64,
}

impl TimeCache {
    /// The cached time.
    pub closed spec fn cached(&self) -> SystemTime {
        self.cached_time
    }

    /// How long a cached time stays in use, in milliseconds.
    pub closed spec fn duration_ms(&self) -> u64 {
        self.cache_duration_ms
    }

    /// A cache holding the current time, kept for 100 ms.
    pub fn new() -> (c: Self)
        ensures
            c.duration_ms() == 100,
    {
        TimeCache { cached_time: current_time(), last_update: instant_now(), cache_duration_ms: 100 }
    }

    /// The current time: the cached one while it is fresh, else a new reading, which
    /// is then cached.
    pub fn now(&mut self) -> (r: SystemTime)
        ensures
            final(self).duration_ms() == old(self).duration_ms(),
            r == final(self).cached(),
    {
        let age = millis_since(&self.last_update);
        if age < self.cache_duration_ms {
            return self.cached_time;
        }
        let fresh = current_time();
        self.cached_time = fresh;
        self.last_update = instant_now();
        fresh
    }
}
} // verus!
