//! The aggregator: time recorded within a window, summed by project and by day.

use crate::calendar::{Date, date_of_instant, day_last_second, day_of_instant, day_start};
use crate::guard::{find_id, lemma_row_with_id, row_with_id};
use crate::model::{Owned, Project, Task, TimeEntry};
use crate::rank::{Ranked, ranked_desc, sort_by_rank_desc};
use crate::error::ServiceError;
use crate::store::Store;
use crate::window::{
    AnalyticsQueryPeriod, calculate_date_range, clamp_instant, range_error_text, resolved_days,
    window_bounds,
};
use vstd::prelude::*;
use vstd::seq_lib::group_to_multiset_ensures;

verus! {

/// The time recorded on one project within a window.
#[derive(Debug, Clone)]
pub struct TimeByProjectStat {
    pub project_id: u128,
    pub project_name: String,
    pub total_duration_seconds: i64,
}

/// The time recorded on one day within a window.
#[derive(Debug, Clone, Copy, PartialEq, Eq, Structural)]
pub struct ProductivityTrendPoint {
    pub date_point: Date,
    pub total_duration_seconds: i64,
}

impl Ranked for TimeByProjectStat {
    open spec fn rank(&self) -> int {
        self.total_duration_seconds as int
    }

    fn rank_of(&self) -> (r: i64) {
        self.total_duration_seconds
    }
}

/// Later days rank lower, so that ranking puts days in calendar order.
impl Ranked for ProductivityTrendPoint {
    open spec fn rank(&self) -> int {
        -(self.date_point.days as int)
    }

    fn rank_of(&self) -> (r: i64) {
        -(self.date_point.days as i64)
    }
}

pub const MAX_ENTRIES: usize = 0x8000_0000;

/// An entry is the caller's and starts within `[lo, hi]`.
pub open spec fn in_window(e: TimeEntry, caller: u128, lo: i64, hi: i64) -> bool {
    e.user_id == caller && lo <= e.start_time <= hi
}

/// An entry's recorded seconds; none counts as zero.
pub open spec fn seconds_of(e: TimeEntry) -> i32 {
    match e.duration_seconds {
        Some(d) => d,
        None => 0,
    }
}

/// The project an entry's time counts toward: its task's project, where both exist.
pub open spec fn project_of(e: TimeEntry, tasks: Seq<Task>, projects: Seq<Project>) -> Option<u128> {
    match row_with_id(tasks, e.task_id) {
        Some(t) => match t.project_id {
            Some(p) => if row_with_id(projects, p) is Some {
                Some(p)
            } else {
                None
            },
            None => None,
        },
        None => None,
    }
}

/// What each entry in the window contributes, keyed by project.
pub open spec fn project_contributions(
    entries: Seq<TimeEntry>,
    tasks: Seq<Task>,
    projects: Seq<Project>,
    caller: u128,
    lo: i64,
    hi: i64,
) -> Seq<(u128, i32)>
    decreases entries.len(),
{
    if entries.len() == 0 {
        Seq::empty()
    } else {
        let prev = project_contributions(entries.drop_last(), tasks, projects, caller, lo, hi);
        let e = entries.last();
        if in_window(e, caller, lo, hi) && project_of(e, tasks, projects) is Some {
            prev.push((project_of(e, tasks, projects).unwrap(), seconds_of(e)))
        } else {
            prev
        }
    }
}

/// What each entry in the window contributes, keyed by the day it starts on.
pub open spec fn day_contributions(entries: Seq<TimeEntry>, caller: u128, lo: i64, hi: i64) -> Seq<
    (i32, i32),
>
    decreases entries.len(),
{
    if entries.len() == 0 {
        Seq::empty()
    } else {
        let prev = day_contributions(entries.drop_last(), caller, lo, hi);
        let e = entries.last();
        if in_window(e, caller, lo, hi) {
            prev.push((day_of_instant(e.start_time as int) as i32, seconds_of(e)))
        } else {
            prev
        }
    }
}

/// The sum of the contributions under one key.
pub open spec fn sum_for<K>(c: Seq<(K, i32)>, key: K) -> int
    decreases c.len(),
{
    if c.len() == 0 {
        0
    } else {
        sum_for(c.drop_last(), key) + if c.last().0 == key {
            c.last().1 as int
        } else {
            0
        }
    }
}

/// Some contribution has this key.
pub open spec fn has_key<K>(c: Seq<(K, i32)>, key: K) -> bool {
    exists|j: int| 0 <= j < c.len() && c[j].0 == key
}

proof fn lemma_sum_bound<K>(c: Seq<(K, i32)>, key: K)
    ensures
        -(c.len() * 0x8000_0000) <= sum_for(c, key) <= c.len() * 0x8000_0000,
    decreases c.len(),
{
    if c.len() > 0 {
        lemma_sum_bound(c.drop_last(), key);
    }
}

/// A key to group by, compared by value.
pub trait GroupKey: Copy {
    fn same(&self, other: &Self) -> (r: bool)
        ensures
            r == (*self == *other),
    ;
}

impl GroupKey for u128 {
    fn same(&self, other: &Self) -> (r: bool) {
        *self == *other
    }
}

impl GroupKey for i32 {
    fn same(&self, other: &Self) -> (r: bool) {
        *self == *other
    }
}

/// Sums contributions per key: each key with a contribution once, with its sum.
fn group_by_key<K: GroupKey>(c: &Vec<(K, i32)>) -> (r: Vec<(K, i64)>)
    requires
        c@.len() <= MAX_ENTRIES,
    ensures
        forall|a: int| 0 <= a < r@.len() ==> r@[a].1 == sum_for(c@, r@[a].0),
        forall|a: int, b: int| 0 <= a < r@.len() && 0 <= b < r@.len() && a != b ==> r@[a].0 != r@[b].0,
        forall|key: K| has_key(c@, key) <==> exists|a: int| 0 <= a < r@.len() && r@[a].0 == key,
{
    let mut groups: Vec<(K, i64)> = Vec::new();
    let mut i: usize = 0;
    while i < c.len()
        invariant
            i <= c@.len() <= MAX_ENTRIES,
            forall|a: int| 0 <= a < groups@.len() ==> groups@[a].1 == sum_for(c@.subrange(0, i as int), groups@[a].0),
            forall|a: int, b: int|
                0 <= a < groups@.len() && 0 <= b < groups@.len() && a != b ==> groups@[a].0 != groups@[b].0,
            forall|key: K|
                has_key(c@.subrange(0, i as int), key) <==> exists|a: int|
                    0 <= a < groups@.len() && groups@[a].0 == key,
        decreases c@.len() - i,
    {
        let (key, secs) = c[i];
        let ghost pre = c@.subrange(0, i as int);
        let ghost next = c@.subrange(0, i + 1);
        proof {
            assert(next.drop_last() == pre);
            assert(next.last() == (key, secs));
            assert forall|k: K| #[trigger] has_key(next, k) <==> has_key(pre, k) || k == key by {
                if has_key(pre, k) {
                    let j = choose|j: int| 0 <= j < pre.len() && pre[j].0 == k;
                    assert(next[j].0 == k);
                }
                if has_key(next, k) && k != key {
                    let j = choose|j: int| 0 <= j < next.len() && next[j].0 == k;
                    assert(pre[j].0 == k);
                }
                if k == key {
                    assert(next[i as int].0 == k);
                }
            }
        }
        let mut found: Option<usize> = None;
        let mut a: usize = 0;
        while a < groups.len()
            invariant
                a <= groups@.len(),
                found is Some ==> found.unwrap() < groups@.len() && groups@[found.unwrap() as int].0 == key,
                found is None ==> forall|b: int| 0 <= b < a ==> groups@[b].0 != key,
            decreases groups@.len() - a,
        {
            if found.is_none() && groups[a].0.same(&key) {
                found = Some(a);
            }
            a = a + 1;
        }
        let ghost old_groups = groups@;
        match found {
            Some(g) => {
                let total = groups[g].1;
                proof {
                    lemma_sum_bound(pre, key);
                }
                groups.set(g, (key, total + secs as i64));
                proof {
                    assert forall|b: int| 0 <= b < groups@.len() implies groups@[b].1 == sum_for(next, groups@[b].0) by {
                        if b != g {
                            assert(old_groups[b].0 != key);
                        }
                    }
                }
            },
            None => {
                proof {
                    assert(!has_key(pre, key));
                    assert(sum_for(pre, key) == 0) by {
                        lemma_sum_absent(pre, key);
                    }
                }
                groups.push((key, secs as i64));
                proof {
                    assert forall|b: int| 0 <= b < groups@.len() implies groups@[b].1 == sum_for(next, groups@[b].0) by {
                        if b < old_groups.len() {
                            assert(old_groups[b].0 != key);
                        }
                    }
                }
            },
        }
        proof {
            assert forall|k: K| has_key(next, k) <==> exists|b: int| 0 <= b < groups@.len() && groups@[b].0 == k by {
                assert(has_key(next, k) <==> has_key(pre, k) || k == key);
                if has_key(pre, k) {
                    let b = choose|b: int| 0 <= b < old_groups.len() && old_groups[b].0 == k;
                    assert(groups@[b].0 == k);
                }
                if k == key {
                    if found is Some {
                        assert(groups@[found.unwrap() as int].0 == k);
                    } else {
                        assert(groups@[old_groups.len() as int].0 == k);
                    }
                }
                if exists|b: int| 0 <= b < groups@.len() && groups@[b].0 == k {
                    let b = choose|b: int| 0 <= b < groups@.len() && groups@[b].0 == k;
                    if k != key {
                        assert(old_groups[b].0 == k);
                    }
                }
            }
        }
        i = i + 1;
    }
    proof {
        assert(c@.subrange(0, c@.len() as int) == c@);
    }
    groups
}

proof fn lemma_sum_absent<K>(c: Seq<(K, i32)>, key: K)
    requires
        !has_key(c, key),
    ensures
        sum_for(c, key) == 0,
    decreases c.len(),
{
    if c.len() > 0 {
        assert(!has_key(c.drop_last(), key)) by {
            if has_key(c.drop_last(), key) {
                let j = choose|j: int| 0 <= j < c.drop_last().len() && c.drop_last()[j].0 == key;
                assert(c[j].0 == key);
            }
        }
        lemma_sum_absent(c.drop_last(), key);
        assert(c[c.len() - 1].0 != key);
    }
}

/// Elements kept through a reordering are the same elements.
proof fn lemma_same_elements<T>(a: Seq<T>, b: Seq<T>)
    requires
        a.to_multiset() == b.to_multiset(),
    ensures
        forall|x: T| a.contains(x) <==> b.contains(x),
        a.no_duplicates() ==> b.no_duplicates(),
{
    a.to_multiset_ensures();
    b.to_multiset_ensures();
    assert forall|x: T| a.contains(x) <==> b.contains(x) by {
        assert(a.contains(x) <==> a.to_multiset().count(x) > 0);
        assert(b.contains(x) <==> b.to_multiset().count(x) > 0);
    }
    if a.no_duplicates() {
        a.lemma_multiset_has_no_duplicates();
        b.lemma_multiset_has_no_duplicates_conv();
    }
}

/// The window a query resolves to, as inclusive instants.
pub open spec fn window_of(q: AnalyticsQueryPeriod, today: int) -> Option<(i64, i64)> {
    match resolved_days(q.spec_period(), q.start_date, q.end_date, today) {
        Some(w) => Some((clamp_instant(day_start(w.0)), clamp_instant(day_last_second(w.1)))),
        None => None,
    }
}

/// Resolves a query to inclusive instants: from 00:00:00 on its first day to
/// 23:59:59 on its last. A refused query gives the resolver's error.
pub fn resolve_window(q: &AnalyticsQueryPeriod, today: Date) -> (r: Result<(i64, i64), ServiceError>)
    requires
        today.wf(),
    ensures
        match window_of(*q, today.days as int) {
            Some(w) => r is Ok && r.unwrap() == w,
            None => r is Err && r->Err_0 is BadRequest && r->Err_0->BadRequest_0@ == range_error_text(
                q.spec_period(),
                q.start_date,
                q.end_date,
            ),
        },
{
    let range = calculate_date_range(q, today)?;
    Ok(window_bounds(range))
}

impl Store {
    /// `r` is the caller's time in `[lo, hi]` by project: largest total first,
    /// each project with time in the window exactly once with its name and
    /// the sum of its entries' seconds.
    pub open spec fn is_time_by_project(&self, caller: u128, lo: i64, hi: i64, r: Seq<TimeByProjectStat>) -> bool {
        let c = project_contributions(self.time_entries@, self.tasks@, self.projects@, caller, lo, hi);
        &&& ranked_desc(r)
        &&& forall|k: int|
            0 <= k < r.len() ==> (#[trigger] r[k]).total_duration_seconds == sum_for(c, r[k].project_id)
                && row_with_id(self.projects@, r[k].project_id) is Some
                && r[k].project_name == row_with_id(self.projects@, r[k].project_id).unwrap().name
        &&& forall|a: int, b: int|
            0 <= a < r.len() && 0 <= b < r.len() && a != b ==> r[a].project_id != r[b].project_id
        &&& forall|p: u128| has_key(c, p) <==> exists|k: int| 0 <= k < r.len() && r[k].project_id == p
    }

    /// `r` is the caller's time in `[lo, hi]` by day: in calendar order, each
    /// day with time exactly once with the sum of its entries' seconds.
    pub open spec fn is_productivity_trend(&self, caller: u128, lo: i64, hi: i64, r: Seq<ProductivityTrendPoint>) -> bool {
        let c = day_contributions(self.time_entries@, caller, lo, hi);
        &&& forall|a: int, b: int| 0 <= a < b < r.len() ==> r[a].date_point.days < r[b].date_point.days
        &&& forall|k: int|
            0 <= k < r.len() ==> (#[trigger] r[k]).total_duration_seconds == sum_for(c, r[k].date_point.days)
        &&& forall|d: i32| has_key(c, d) <==> exists|k: int| 0 <= k < r.len() && r[k].date_point.days == d
    }

    /// The caller's time by project over the window a query resolves to on `today`.
    pub fn time_by_project_report(&self, caller: u128, q: &AnalyticsQueryPeriod, today: Date) -> (r: Result<
        Vec<TimeByProjectStat>,
        ServiceError,
    >)
        requires
            self.wf(),
            self.time_entries@.len() <= MAX_ENTRIES,
            today.wf(),
        ensures
            match window_of(*q, today.days as int) {
                Some(w) => r is Ok && self.is_time_by_project(caller, w.0, w.1, r.unwrap()@),
                None => r is Err && r->Err_0 is BadRequest && r->Err_0->BadRequest_0@ == range_error_text(
                    q.spec_period(),
                    q.start_date,
                    q.end_date,
                ),
            },
    {
        let (lo, hi) = resolve_window(q, today)?;
        Ok(self.time_by_project(caller, lo, hi))
    }

    /// The caller's time by day over the window a query resolves to on `today`.
    pub fn productivity_trend_report(&self, caller: u128, q: &AnalyticsQueryPeriod, today: Date) -> (r: Result<
        Vec<ProductivityTrendPoint>,
        ServiceError,
    >)
        requires
            self.time_entries@.len() <= MAX_ENTRIES,
            today.wf(),
        ensures
            match window_of(*q, today.days as int) {
                Some(w) => r is Ok && self.is_productivity_trend(caller, w.0, w.1, r.unwrap()@),
                None => r is Err && r->Err_0 is BadRequest && r->Err_0->BadRequest_0@ == range_error_text(
                    q.spec_period(),
                    q.start_date,
                    q.end_date,
                ),
            },
    {
        let (lo, hi) = resolve_window(q, today)?;
        Ok(self.productivity_trend(caller, lo, hi))
    }

    /// What each of the caller's entries in `[lo, hi]` contributes to its project.
    pub fn contributions_by_project(&self, caller: u128, lo: i64, hi: i64) -> (r: Vec<(u128, i32)>)
        requires
            self.wf(),
        ensures
            r@ == project_contributions(self.time_entries@, self.tasks@, self.projects@, caller, lo, hi),
            r@.len() <= self.time_entries@.len(),
    {
        let mut out: Vec<(u128, i32)> = Vec::new();
        let mut i: usize = 0;
        let ghost entries = self.time_entries@;
        while i < self.time_entries.len()
            invariant
                self.wf(),
                entries == self.time_entries@,
                i <= entries.len(),
                out@ == project_contributions(entries.subrange(0, i as int), self.tasks@, self.projects@, caller, lo, hi),
                out@.len() <= i,
            decreases entries.len() - i,
        {
            let e = &self.time_entries[i];
            proof {
                assert(entries.subrange(0, i + 1).drop_last() == entries.subrange(0, i as int));
                assert(entries.subrange(0, i + 1).last() == *e);
            }
            if e.user_id == caller && lo <= e.start_time && e.start_time <= hi {
                match find_id(&self.tasks, e.task_id) {
                    None => {},
                    Some(t) => {
                        proof {
                            lemma_row_with_id(self.tasks@, t as int);
                        }
                        match self.tasks[t].project_id {
                            None => {},
                            Some(p) => {
                                match find_id(&self.projects, p) {
                                    None => {},
                                    Some(k) => {
                                        proof {
                                            lemma_row_with_id(self.projects@, k as int);
                                        }
                                        let secs = match e.duration_seconds {
                                            Some(d) => d,
                                            None => 0,
                                        };
                                        out.push((p, secs));
                                    },
                                }
                            },
                        }
                    },
                }
            }
            i = i + 1;
        }
        proof {
            assert(entries.subrange(0, entries.len() as int) == entries);
        }
        out
    }

    /// What each of the caller's entries in `[lo, hi]` contributes to the day it starts on.
    pub fn contributions_by_day(&self, caller: u128, lo: i64, hi: i64) -> (r: Vec<(i32, i32)>)
        ensures
            r@ == day_contributions(self.time_entries@, caller, lo, hi),
            r@.len() <= self.time_entries@.len(),
    {
        let mut out: Vec<(i32, i32)> = Vec::new();
        let mut i: usize = 0;
        let ghost entries = self.time_entries@;
        while i < self.time_entries.len()
            invariant
                entries == self.time_entries@,
                i <= entries.len(),
                out@ == day_contributions(entries.subrange(0, i as int), caller, lo, hi),
                out@.len() <= i,
            decreases entries.len() - i,
        {
            let e = &self.time_entries[i];
            proof {
                assert(entries.subrange(0, i + 1).drop_last() == entries.subrange(0, i as int));
                assert(entries.subrange(0, i + 1).last() == *e);
            }
            if e.user_id == caller && lo <= e.start_time && e.start_time <= hi {
                let day = date_of_instant(e.start_time);
                let secs = match e.duration_seconds {
                    Some(d) => d,
                    None => 0,
                };
                out.push((day.days, secs));
            }
            i = i + 1;
        }
        proof {
            assert(entries.subrange(0, entries.len() as int) == entries);
        }
        out
    }

    /// The caller's time in `[lo, hi]` by project, largest total first. Only
    /// projects with time in the window appear, each once; an entry without a
    /// duration counts as zero.
    pub fn time_by_project(&self, caller: u128, lo: i64, hi: i64) -> (r: Vec<TimeByProjectStat>)
        requires
            self.wf(),
            self.time_entries@.len() <= MAX_ENTRIES,
        ensures
            self.is_time_by_project(caller, lo, hi, r@),
    {
        let c = self.contributions_by_project(caller, lo, hi);
        let groups = group_by_key(&c);
        let ghost cs = c@;
        let mut stats: Vec<TimeByProjectStat> = Vec::new();
        let mut i: usize = 0;
        while i < groups.len()
            invariant
                self.wf(),
                cs == project_contributions(self.time_entries@, self.tasks@, self.projects@, caller, lo, hi),
                i <= groups@.len(),
                stats@.len() == i,
                forall|a: int| 0 <= a < groups@.len() ==> groups@[a].1 == sum_for(cs, groups@[a].0),
                forall|a: int, b: int| 0 <= a < groups@.len() && 0 <= b < groups@.len() && a != b ==> groups@[a].0 != groups@[b].0,
                forall|key: u128| has_key(cs, key) <==> exists|a: int| 0 <= a < groups@.len() && groups@[a].0 == key,
                forall|a: int| 0 <= a < i ==> (#[trigger] stats@[a]).project_id == groups@[a].0
                    && stats@[a].total_duration_seconds == groups@[a].1
                    && row_with_id(self.projects@, groups@[a].0) is Some
                    && stats@[a].project_name == row_with_id(self.projects@, groups@[a].0).unwrap().name,
            decreases groups@.len() - i,
        {
            let (p, total) = groups[i];
            proof {
                assert(has_key(cs, p));
                lemma_project_key_exists(self.time_entries@, self.tasks@, self.projects@, caller, lo, hi, p);
            }
            let k = find_id(&self.projects, p).unwrap();
            proof {
                lemma_row_with_id(self.projects@, k as int);
            }
            stats.push(TimeByProjectStat {
                project_id: p,
                project_name: self.projects[k].name.clone(),
                total_duration_seconds: total,
            });
            i = i + 1;
        }
        let ghost before = stats@;
        proof {
            assert forall|a: int, b: int| 0 <= a < before.len() && 0 <= b < before.len() && a != b implies before[a] != before[b] by {
                assert(before[a].project_id != before[b].project_id);
            }
            assert(before.no_duplicates());
        }
        let sorted = sort_by_rank_desc(stats);
        proof {
            lemma_same_elements(before, sorted@);
            let r = sorted@;
            assert forall|a: int, b: int| 0 <= a < r.len() && 0 <= b < r.len() && a != b implies r[a].project_id != r[b].project_id by {
                assert(r.contains(r[a]));
                assert(r.contains(r[b]));
                let x = choose|x: int| 0 <= x < before.len() && before[x] == r[a];
                let y = choose|y: int| 0 <= y < before.len() && before[y] == r[b];
                if r[a].project_id == r[b].project_id {
                    assert(x == y);
                }
            }
            assert forall|p: u128| has_key(cs, p) <==> exists|k: int| 0 <= k < r.len() && r[k].project_id == p by {
                if has_key(cs, p) {
                    let a = choose|a: int| 0 <= a < groups@.len() && groups@[a].0 == p;
                    assert(before.contains(before[a]));
                    assert(r.contains(before[a]));
                }
                if exists|k: int| 0 <= k < r.len() && r[k].project_id == p {
                    let k = choose|k: int| 0 <= k < r.len() && r[k].project_id == p;
                    assert(r.contains(r[k]));
                    let x = choose|x: int| 0 <= x < before.len() && before[x] == r[k];
                    assert(groups@[x].0 == p);
                }
            }
            assert forall|k: int| 0 <= k < r.len() implies (#[trigger] r[k]).total_duration_seconds == sum_for(cs, r[k].project_id)
                && row_with_id(self.projects@, r[k].project_id) is Some
                && r[k].project_name == row_with_id(self.projects@, r[k].project_id).unwrap().name by {
                assert(r.contains(r[k]));
                let x = choose|x: int| 0 <= x < before.len() && before[x] == r[k];
            }
        }
        sorted
    }

    /// The caller's time in `[lo, hi]` by the day each entry starts on, in
    /// calendar order. Days without time are absent, not zero.
    pub fn productivity_trend(&self, caller: u128, lo: i64, hi: i64) -> (r: Vec<ProductivityTrendPoint>)
        requires
            self.time_entries@.len() <= MAX_ENTRIES,
        ensures
            self.is_productivity_trend(caller, lo, hi, r@),
    {
        let c = self.contributions_by_day(caller, lo, hi);
        let groups = group_by_key(&c);
        let ghost cs = c@;
        let mut points: Vec<ProductivityTrendPoint> = Vec::new();
        let mut i: usize = 0;
        while i < groups.len()
            invariant
                i <= groups@.len(),
                points@.len() == i,
                forall|a: int| 0 <= a < i ==> (#[trigger] points@[a]).date_point.days == groups@[a].0
                    && points@[a].total_duration_seconds == groups@[a].1,
            decreases groups@.len() - i,
        {
            let (d, total) = groups[i];
            points.push(ProductivityTrendPoint { date_point: Date { days: d }, total_duration_seconds: total });
            i = i + 1;
        }
        let ghost before = points@;
        proof {
            assert forall|a: int, b: int| 0 <= a < before.len() && 0 <= b < before.len() && a != b implies before[a] != before[b] by {
                assert(before[a].date_point.days != before[b].date_point.days);
            }
            assert(before.no_duplicates());
        }
        let sorted = sort_by_rank_desc(points);
        proof {
            lemma_same_elements(before, sorted@);
            let r = sorted@;
            assert forall|a: int, b: int| 0 <= a < b < r.len() implies r[a].date_point.days < r[b].date_point.days by {
                assert(r.contains(r[a]));
                assert(r.contains(r[b]));
                let x = choose|x: int| 0 <= x < before.len() && before[x] == r[a];
                let y = choose|y: int| 0 <= y < before.len() && before[y] == r[b];
                assert(r[a].rank() >= r[b].rank());
                if r[a].date_point.days == r[b].date_point.days {
                    assert(x == y);
                    assert(r[a] == r[b]);
                    assert(sorted@.no_duplicates());
                }
            }
            assert forall|d: i32| has_key(cs, d) <==> exists|k: int| 0 <= k < r.len() && r[k].date_point.days == d by {
                if has_key(cs, d) {
                    let a = choose|a: int| 0 <= a < groups@.len() && groups@[a].0 == d;
                    assert(before.contains(before[a]));
                    assert(r.contains(before[a]));
                }
                if exists|k: int| 0 <= k < r.len() && r[k].date_point.days == d {
                    let k = choose|k: int| 0 <= k < r.len() && r[k].date_point.days == d;
                    assert(r.contains(r[k]));
                    let x = choose|x: int| 0 <= x < before.len() && before[x] == r[k];
                    assert(groups@[x].0 == d);
                }
            }
            assert forall|k: int| 0 <= k < r.len() implies (#[trigger] r[k]).total_duration_seconds == sum_for(cs, r[k].date_point.days) by {
                assert(r.contains(r[k]));
                let x = choose|x: int| 0 <= x < before.len() && before[x] == r[k];
            }
        }
        sorted
    }
}

/// A project that some contribution is keyed by exists.
proof fn lemma_project_key_exists(
    entries: Seq<TimeEntry>,
    tasks: Seq<Task>,
    projects: Seq<Project>,
    caller: u128,
    lo: i64,
    hi: i64,
    p: u128,
)
    requires
        has_key(project_contributions(entries, tasks, projects, caller, lo, hi), p),
    ensures
        row_with_id(projects, p) is Some,
    decreases entries.len(),
{
    let c = project_contributions(entries, tasks, projects, caller, lo, hi);
    if entries.len() > 0 {
        let prev = project_contributions(entries.drop_last(), tasks, projects, caller, lo, hi);
        let j = choose|j: int| 0 <= j < c.len() && c[j].0 == p;
        if j < prev.len() {
            assert(prev[j].0 == p);
            lemma_project_key_exists(entries.drop_last(), tasks, projects, caller, lo, hi, p);
        }
    }
}

} // verus!
