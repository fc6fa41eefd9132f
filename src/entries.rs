//! Time entries: their services, and the rule that derives a duration from an
//! entry's start and end where none was given.

use crate::calendar::MICROS_PER_SECOND;
use crate::error::ServiceError;
use crate::guard::{
    find_id, find_owned, get_owned, id_taken, lemma_unique_after_push, lemma_unique_after_remove,
    lemma_unique_after_update, owns, remove_owned, visible,
};
use crate::model::{
    CreateTimeEntryPayload, Owned, TimeEntry, UpdateTimeEntryChangeset, UpdateTimeEntryPayload,
};
use crate::patch::{Patch, patch_of, patched, replace, replaced};
use crate::rank::{Ranked, ranked_desc, sort_by_rank_desc};
use crate::store::{Store, entry_missing_text, missing, not_found, task_missing_text};
use vstd::prelude::*;

verus! {

/// The filters of a time-entry listing; the bounds are on the start instant
/// and inclusive.
#[derive(Debug, Clone, Copy, PartialEq, Eq, Structural)]
pub struct ListTimeEntriesQuery {
    pub task_id: Option<u128>,
    pub date_from: Option<i64>,
    pub date_to: Option<i64>,
}

/// Whole seconds from `start` to a later `end`, as a 32-bit count.
pub open spec fn seconds_between(start: int, end: int) -> i32 {
    ((end - start) / (MICROS_PER_SECOND as int)) as i32
}

/// The duration kept on a new entry: the one given, else, where the end is
/// after the start, the whole seconds between them.
pub open spec fn derived_duration(start: int, end: Option<i64>, given: Option<i32>) -> Option<i32> {
    if given is Some {
        given
    } else if end is Some && end.unwrap() > start {
        Some(seconds_between(start, end.unwrap() as int))
    } else {
        None
    }
}

/// What an update does to the duration. Where the duration key is absent and
/// the update sets an end later than the entry's start after the update (the
/// new start if one is given, else the current one), the whole seconds between
/// them; otherwise what the key says: null clears, a value assigns.
pub open spec fn duration_update(
    start: Option<i64>,
    end: Option<Option<i64>>,
    given: Option<Option<i32>>,
    current_start: i64,
) -> Patch<i32> {
    let start_after = replaced(start, current_start);
    if given is None && end is Some && end.unwrap() is Some && end.unwrap().unwrap() > start_after {
        Patch::Assign(seconds_between(start_after as int, end.unwrap().unwrap() as int))
    } else {
        patch_of(given)
    }
}

/// An entry after a changeset.
pub open spec fn entry_after(e: TimeEntry, cs: UpdateTimeEntryChangeset) -> TimeEntry {
    TimeEntry {
        start_time: replaced(cs.start_time, e.start_time),
        end_time: patched(cs.end_time, e.end_time),
        duration_seconds: patched(cs.duration_seconds, e.duration_seconds),
        is_pomodoro_session: replaced(cs.is_pomodoro_session, e.is_pomodoro_session),
        updated_at: cs.updated_at,
        ..e
    }
}

/// An update whose keys are all absent leaves an entry as it was, but for
/// the time of its last update: no duration is derived without a new end.
pub proof fn lemma_empty_entry_update(e: TimeEntry, now: i64)
    ensures
        entry_after(
            e,
            UpdateTimeEntryChangeset {
                start_time: None,
                end_time: patch_of(None::<Option<i64>>),
                duration_seconds: duration_update(None, None, None, e.start_time),
                is_pomodoro_session: None,
                updated_at: now,
            },
        ) == (TimeEntry { updated_at: now, ..e }),
{
}

/// The test that an entry is the caller's and passes a listing's filters.
pub open spec fn entry_filter(caller: u128, q: ListTimeEntriesQuery) -> spec_fn(TimeEntry) -> bool {
    |e: TimeEntry|
        e.user_id == caller && (q.task_id is None || e.task_id == q.task_id.unwrap()) && (
        q.date_from is None || e.start_time >= q.date_from.unwrap()) && (q.date_to is None
            || e.start_time <= q.date_to.unwrap())
}

impl Ranked for TimeEntry {
    open spec fn rank(&self) -> int {
        self.start_time as int
    }

    fn rank_of(&self) -> (r: i64) {
        self.start_time
    }
}

/// Whole seconds from `start` to a later `end`.
fn whole_seconds(start: i64, end: i64) -> (r: i32)
    requires
        end > start,
    ensures
        r == seconds_between(start as int, end as int),
{
    ((end as i128 - start as i128) / (MICROS_PER_SECOND as i128)) as i32
}

/// The duration to keep on a new entry.
pub fn derive_duration(start: i64, end: Option<i64>, given: Option<i32>) -> (r: Option<i32>)
    ensures
        r == derived_duration(start as int, end, given),
{
    match given {
        Some(d) => Some(d),
        None => match end {
            Some(e) if e > start => Some(whole_seconds(start, e)),
            _ => None,
        },
    }
}

impl UpdateTimeEntryChangeset {
    /// The changeset of an update payload for an entry that starts at
    /// `current_start` before the update, stamped with the time of the update.
    pub fn from_payload(payload: UpdateTimeEntryPayload, current_start: i64, now: i64) -> (r: Self)
        ensures
            r.start_time == payload.start_time,
            r.end_time == patch_of(payload.end_time),
            r.duration_seconds == duration_update(
                payload.start_time,
                payload.end_time,
                payload.duration_seconds,
                current_start,
            ),
            r.is_pomodoro_session == payload.is_pomodoro_session,
            r.updated_at == now,
    {
        let start_after = replace(payload.start_time, current_start);
        let duration = match (payload.end_time, payload.duration_seconds) {
            (Some(Some(end)), None) if end > start_after => Patch::Assign(
                whole_seconds(start_after, end),
            ),
            (_, given) => Patch::from_field(given),
        };
        UpdateTimeEntryChangeset {
            start_time: payload.start_time,
            end_time: Patch::from_field(payload.end_time),
            duration_seconds: duration,
            is_pomodoro_session: payload.is_pomodoro_session,
            updated_at: now,
        }
    }
}

impl Store {
    /// Only the time entries differ between the two stores.
    pub open spec fn same_but_entries(&self, other: &Store) -> bool {
        &&& self.projects@ == other.projects@
        &&& self.tasks@ == other.tasks@
        &&& self.labels@ == other.labels@
        &&& self.task_labels@ == other.task_labels@
    }

    /// Records time against one of the caller's tasks, under a fresh
    /// identifier. A missing duration is derived from the start and end.
    pub fn create_time_entry(
        &mut self,
        caller: u128,
        id: u128,
        payload: CreateTimeEntryPayload,
        now: i64,
    ) -> (r: Result<TimeEntry, ServiceError>)
        requires
            old(self).wf(),
        ensures
            final(self).wf(),
            r is Ok <==> visible(old(self).tasks@, payload.task_id, caller) && !id_taken(
                old(self).time_entries@,
                id,
            ),
            !visible(old(self).tasks@, payload.task_id, caller) ==> r is Err && missing(r->Err_0, task_missing_text()),
            visible(old(self).tasks@, payload.task_id, caller) && id_taken(old(self).time_entries@, id)
                ==> r is Err && r->Err_0 is ConflictError,
            r is Err ==> final(self).same_as(old(self)),
            r is Ok ==> r.unwrap() == (TimeEntry {
                id,
                user_id: caller,
                task_id: payload.task_id,
                start_time: payload.start_time,
                end_time: payload.end_time,
                duration_seconds: derived_duration(
                    payload.start_time as int,
                    payload.end_time,
                    payload.duration_seconds,
                ),
                is_pomodoro_session: replaced(payload.is_pomodoro_session, false),
                created_at: now,
                updated_at: now,
            }) && final(self).time_entries@ == old(self).time_entries@.push(r.unwrap())
                && final(self).same_but_entries(old(self)),
    {
        if find_owned(&self.tasks, payload.task_id, caller).is_none() {
            return Err(not_found("Task not found or not owned by user"));
        }
        if find_id(&self.time_entries, id).is_some() {
            return Err(ServiceError::ConflictError(String::from_str("An item with this id already exists")));
        }
        let entry = TimeEntry {
            id,
            user_id: caller,
            task_id: payload.task_id,
            start_time: payload.start_time,
            end_time: payload.end_time,
            duration_seconds: derive_duration(payload.start_time, payload.end_time, payload.duration_seconds),
            is_pomodoro_session: replace(payload.is_pomodoro_session, false),
            created_at: now,
            updated_at: now,
        };
        proof {
            lemma_unique_after_push(self.time_entries@, entry);
        }
        self.time_entries.push(entry.duplicate());
        Ok(entry)
    }

    /// The caller's entry with identifier `id`.
    pub fn get_time_entry(&self, caller: u128, id: u128) -> (r: Result<TimeEntry, ServiceError>)
        ensures
            r is Ok <==> visible(self.time_entries@, id, caller),
            r is Ok ==> self.time_entries@.contains(r.unwrap()) && r.unwrap().id == id
                && r.unwrap().user_id == caller,
            r is Err ==> missing(r->Err_0, entry_missing_text()),
    {
        match get_owned(&self.time_entries, id, caller) {
            Some(e) => Ok(e),
            None => Err(not_found("TimeEntry not found or not owned by user")),
        }
    }

    /// The caller's entries that pass the filters, the latest start first.
    pub fn list_time_entries(&self, caller: u128, query: ListTimeEntriesQuery) -> (r: Vec<TimeEntry>)
        ensures
            r@.to_multiset() == self.time_entries@.filter(entry_filter(caller, query)).to_multiset(),
            ranked_desc(r@),
    {
        let ghost pred = entry_filter(caller, query);
        let mut matching: Vec<TimeEntry> = Vec::new();
        let mut i: usize = 0;
        while i < self.time_entries.len()
            invariant
                i <= self.time_entries@.len(),
                pred == entry_filter(caller, query),
                matching@ == self.time_entries@.subrange(0, i as int).filter(pred),
            decreases self.time_entries@.len() - i,
        {
            proof {
                assert(self.time_entries@.subrange(0, i + 1) == self.time_entries@.subrange(
                    0,
                    i as int,
                ).push(self.time_entries@[i as int]));
                self.time_entries@.subrange(0, i as int).lemma_filter_push(
                    self.time_entries@[i as int],
                    pred,
                );
            }
            let e = &self.time_entries[i];
            let keep = e.user_id == caller && match query.task_id {
                None => true,
                Some(t) => e.task_id == t,
            } && match query.date_from {
                None => true,
                Some(f) => e.start_time >= f,
            } && match query.date_to {
                None => true,
                Some(t) => e.start_time <= t,
            };
            if keep {
                matching.push(e.duplicate());
            }
            i = i + 1;
        }
        proof {
            assert(self.time_entries@.subrange(0, self.time_entries@.len() as int)
                == self.time_entries@);
        }
        sort_by_rank_desc(matching)
    }

    /// Applies an update payload to the caller's entry with identifier `id`;
    /// where the duration key is absent, a duration is derived from the new
    /// end and the entry's start after the update.
    pub fn update_time_entry(
        &mut self,
        caller: u128,
        id: u128,
        payload: UpdateTimeEntryPayload,
        now: i64,
    ) -> (r: Result<TimeEntry, ServiceError>)
        requires
            old(self).wf(),
        ensures
            final(self).wf(),
            r is Ok <==> visible(old(self).time_entries@, id, caller),
            r is Err ==> missing(r->Err_0, entry_missing_text()) && final(self).same_as(old(self)),
            r is Ok ==> exists|i: int|
                {
                    &&& owns(old(self).time_entries@, i, id, caller)
                    &&& r.unwrap() == entry_after(
                        old(self).time_entries@[i],
                        UpdateTimeEntryChangeset {
                            start_time: payload.start_time,
                            end_time: patch_of(payload.end_time),
                            duration_seconds: duration_update(
                                payload.start_time,
                                payload.end_time,
                                payload.duration_seconds,
                                old(self).time_entries@[i].start_time,
                            ),
                            is_pomodoro_session: payload.is_pomodoro_session,
                            updated_at: now,
                        },
                    )
                    &&& final(self).time_entries@ == old(self).time_entries@.update(i, r.unwrap())
                },
            r is Ok ==> final(self).same_but_entries(old(self)),
    {
        match find_owned(&self.time_entries, id, caller) {
            None => Err(not_found("TimeEntry not found or not owned by user")),
            Some(i) => {
                let cur = self.time_entries[i].duplicate();
                let changes = UpdateTimeEntryChangeset::from_payload(payload, cur.start_time, now);
                let updated = TimeEntry {
                    start_time: replace(changes.start_time, cur.start_time),
                    end_time: changes.end_time.apply(cur.end_time),
                    duration_seconds: changes.duration_seconds.apply(cur.duration_seconds),
                    is_pomodoro_session: replace(changes.is_pomodoro_session, cur.is_pomodoro_session),
                    updated_at: changes.updated_at,
                    ..cur
                };
                proof {
                    lemma_unique_after_update(old(self).time_entries@, i as int, updated);
                }
                self.time_entries.set(i, updated.duplicate());
                Ok(updated)
            },
        }
    }

    /// Removes the caller's entry with identifier `id`.
    pub fn delete_time_entry(&mut self, caller: u128, id: u128) -> (r: Result<(), ServiceError>)
        requires
            old(self).wf(),
        ensures
            final(self).wf(),
            r is Ok <==> visible(old(self).time_entries@, id, caller),
            r is Err ==> missing(r->Err_0, entry_missing_text()) && final(self).same_as(old(self)),
            r is Ok ==> exists|i: int|
                owns(old(self).time_entries@, i, id, caller) && final(self).time_entries@ == old(
                    self,
                ).time_entries@.remove(i),
            r is Ok ==> final(self).same_but_entries(old(self)),
    {
        if remove_owned(&mut self.time_entries, id, caller) {
            proof {
                let i = choose|i: int|
                    owns(old(self).time_entries@, i, id, caller) && self.time_entries@ == old(
                        self,
                    ).time_entries@.remove(i);
                lemma_unique_after_remove(old(self).time_entries@, i);
            }
            Ok(())
        } else {
            Err(not_found("TimeEntry not found or not owned by user"))
        }
    }
}

} // verus!
