//! The rows that the service keeps, the payloads that create and change them,
//! and the changesets that the payloads translate to.
//!
//! Identifiers are 128-bit values; instants are microseconds since
//! 1970-01-01 00:00:00 UTC; calendar days are `Date`s.

use crate::calendar::Date;
use crate::patch::{Patch, patch_of};
use vstd::prelude::*;

verus! {

/// A row that belongs to one identity and is found by its identifier.
pub trait Owned {
    spec fn spec_id(&self) -> u128;

    spec fn spec_owner(&self) -> u128;

    fn id_of(&self) -> (r: u128)
        ensures
            r == self.spec_id(),
    ;

    fn owner_of(&self) -> (r: u128)
        ensures
            r == self.spec_owner(),
    ;

    fn duplicate(&self) -> (r: Self) where Self: Sized
        ensures
            r == *self,
    ;
}

pub fn clone_text(s: &Option<String>) -> (r: Option<String>)
    ensures
        r == *s,
{
    match s {
        Some(t) => Some(t.clone()),
        None => None,
    }
}

#[derive(Debug, Clone)]
pub struct Project {
    pub id: u128,
    pub user_id: u128,
    pub name: String,
    pub color: Option<String>,
    pub created_at: i64,
    pub updated_at: i64,
}

#[derive(Debug, Clone)]
pub struct NewProject {
    pub user_id: u128,
    pub name: String,
    pub color: Option<String>,
}

#[derive(Debug, Clone)]
pub struct UpdateProjectChangeset {
    pub name: Option<String>,
    pub color: Patch<String>,
    pub updated_at: i64,
}

#[derive(Debug, Clone)]
pub struct Task {
    pub id: u128,
    pub user_id: u128,
    pub project_id: Option<u128>,
    pub title: String,
    pub description: Option<String>,
    pub status: String,
    pub due_date: Option<Date>,
    pub order: Option<i32>,
    pub created_at: i64,
    pub updated_at: i64,
}

/// A task as callers see it, with its labels.
#[derive(Debug, Clone)]
pub struct TaskApiResponse {
    pub id: u128,
    pub user_id: u128,
    pub project_id: Option<u128>,
    pub title: String,
    pub description: Option<String>,
    pub status: String,
    pub due_date: Option<Date>,
    pub task_order: Option<i32>,
    pub created_at: i64,
    pub updated_at: i64,
    pub labels: Vec<Label>,
}

#[derive(Debug, Clone)]
pub struct NewTask {
    pub user_id: u128,
    pub project_id: Option<u128>,
    pub title: String,
    pub description: Option<String>,
    pub status: Option<String>,
    pub due_date: Option<Date>,
    pub order: Option<i32>,
}

#[derive(Debug, Clone)]
pub struct UpdateTaskChangeset {
    pub project_id: Patch<u128>,
    pub title: Option<String>,
    pub description: Patch<String>,
    pub status: Option<String>,
    pub due_date: Patch<Date>,
    pub order: Patch<i32>,
    pub updated_at: i64,
}

#[derive(Debug, Clone)]
pub struct Label {
    pub id: u128,
    pub user_id: u128,
    pub name: String,
    pub color: Option<String>,
    pub created_at: i64,
    pub updated_at: i64,
}

#[derive(Debug, Clone)]
pub struct NewLabel {
    pub user_id: u128,
    pub name: String,
    pub color: Option<String>,
}

#[derive(Debug, Clone)]
pub struct UpdateLabelChangeset {
    pub name: Option<String>,
    pub color: Patch<String>,
    pub updated_at: i64,
}

/// A link between a task and a label.
#[derive(Debug, Clone, Copy, PartialEq, Eq, Structural)]
pub struct TaskLabel {
    pub task_id: u128,
    pub label_id: u128,
}

#[derive(Debug, Clone, Copy, PartialEq, Eq, Structural)]
pub struct NewTaskLabelAssociation {
    pub task_id: u128,
    pub label_id: u128,
}

/// The label to link to a task.
#[derive(Debug, Clone, Copy, PartialEq, Eq, Structural)]
pub struct AddLabelToTaskPayload {
    pub label_id: u128,
}

#[derive(Debug, Clone)]
pub struct TimeEntry {
    pub id: u128,
    pub user_id: u128,
    pub task_id: u128,
    pub start_time: i64,
    pub end_time: Option<i64>,
    pub duration_seconds: Option<i32>,
    pub is_pomodoro_session: bool,
    pub created_at: i64,
    pub updated_at: i64,
}

#[derive(Debug, Clone)]
pub struct NewTimeEntry {
    pub user_id: u128,
    pub task_id: u128,
    pub start_time: i64,
    pub end_time: Option<i64>,
    pub duration_seconds: Option<i32>,
    pub is_pomodoro_session: Option<bool>,
}

#[derive(Debug, Clone)]
pub struct UpdateTimeEntryChangeset {
    pub start_time: Option<i64>,
    pub end_time: Patch<i64>,
    pub duration_seconds: Patch<i32>,
    pub is_pomodoro_session: Option<bool>,
    pub updated_at: i64,
}

#[derive(Debug, Clone)]
pub struct CreateProjectPayload {
    pub name: String,
    pub color: Option<String>,
}

/// For each nullable field: `None` when the key is absent, `Some(None)` for
/// null, `Some(Some(v))` for a value.
#[derive(Debug, Clone)]
pub struct UpdateProjectPayload {
    pub name: Option<String>,
    pub color: Option<Option<String>>,
}

#[derive(Debug, Clone)]
pub struct CreateTaskPayload {
    pub project_id: Option<u128>,
    pub title: String,
    pub description: Option<String>,
    pub status: Option<String>,
    pub due_date: Option<Date>,
    pub order: Option<i32>,
}

#[derive(Debug, Clone)]
pub struct UpdateTaskPayload {
    pub project_id: Option<Option<u128>>,
    pub title: Option<String>,
    pub description: Option<Option<String>>,
    pub status: Option<String>,
    pub due_date: Option<Option<Date>>,
    pub order: Option<Option<i32>>,
}

#[derive(Debug, Clone)]
pub struct CreateLabelPayload {
    pub name: String,
    pub color: Option<String>,
}

#[derive(Debug, Clone)]
pub struct UpdateLabelPayload {
    pub name: Option<String>,
    pub color: Option<Option<String>>,
}

#[derive(Debug, Clone)]
pub struct CreateTimeEntryPayload {
    pub task_id: u128,
    pub start_time: i64,
    pub end_time: Option<i64>,
    pub duration_seconds: Option<i32>,
    pub is_pomodoro_session: Option<bool>,
}

#[derive(Debug, Clone)]
pub struct UpdateTimeEntryPayload {
    pub start_time: Option<i64>,
    pub end_time: Option<Option<i64>>,
    pub duration_seconds: Option<Option<i32>>,
    pub is_pomodoro_session: Option<bool>,
}

impl Owned for Project {
    fn duplicate(&self) -> (r: Self) {
        Project {
            id: self.id,
            user_id: self.user_id,
            name: self.name.clone(),
            color: clone_text(&self.color),
            created_at: self.created_at,
            updated_at: self.updated_at,
        }
    }

    open spec fn spec_id(&self) -> u128 {
        self.id
    }

    open spec fn spec_owner(&self) -> u128 {
        self.user_id
    }

    fn id_of(&self) -> (r: u128) {
        self.id
    }

    fn owner_of(&self) -> (r: u128) {
        self.user_id
    }
}

impl Owned for Task {
    fn duplicate(&self) -> (r: Self) {
        Task {
            id: self.id,
            user_id: self.user_id,
            project_id: self.project_id,
            title: self.title.clone(),
            description: clone_text(&self.description),
            status: self.status.clone(),
            due_date: self.due_date,
            order: self.order,
            created_at: self.created_at,
            updated_at: self.updated_at,
        }
    }

    open spec fn spec_id(&self) -> u128 {
        self.id
    }

    open spec fn spec_owner(&self) -> u128 {
        self.user_id
    }

    fn id_of(&self) -> (r: u128) {
        self.id
    }

    fn owner_of(&self) -> (r: u128) {
        self.user_id
    }
}

impl Owned for Label {
    fn duplicate(&self) -> (r: Self) {
        Label {
            id: self.id,
            user_id: self.user_id,
            name: self.name.clone(),
            color: clone_text(&self.color),
            created_at: self.created_at,
            updated_at: self.updated_at,
        }
    }

    open spec fn spec_id(&self) -> u128 {
        self.id
    }

    open spec fn spec_owner(&self) -> u128 {
        self.user_id
    }

    fn id_of(&self) -> (r: u128) {
        self.id
    }

    fn owner_of(&self) -> (r: u128) {
        self.user_id
    }
}

impl Owned for TimeEntry {
    fn duplicate(&self) -> (r: Self) {
        TimeEntry {
            id: self.id,
            user_id: self.user_id,
            task_id: self.task_id,
            start_time: self.start_time,
            end_time: self.end_time,
            duration_seconds: self.duration_seconds,
            is_pomodoro_session: self.is_pomodoro_session,
            created_at: self.created_at,
            updated_at: self.updated_at,
        }
    }

    open spec fn spec_id(&self) -> u128 {
        self.id
    }

    open spec fn spec_owner(&self) -> u128 {
        self.user_id
    }

    fn id_of(&self) -> (r: u128) {
        self.id
    }

    fn owner_of(&self) -> (r: u128) {
        self.user_id
    }
}

impl TaskApiResponse {
    /// The response for a task, before its labels are attached.
    pub fn from(task_db: Task) -> (r: TaskApiResponse)
        ensures
            r.id == task_db.id,
            r.user_id == task_db.user_id,
            r.project_id == task_db.project_id,
            r.title == task_db.title,
            r.description == task_db.description,
            r.status == task_db.status,
            r.due_date == task_db.due_date,
            r.task_order == task_db.order,
            r.created_at == task_db.created_at,
            r.updated_at == task_db.updated_at,
            r.labels@.len() == 0,
    {
        TaskApiResponse {
            id: task_db.id,
            user_id: task_db.user_id,
            project_id: task_db.project_id,
            title: task_db.title,
            description: task_db.description,
            status: task_db.status,
            due_date: task_db.due_date,
            task_order: task_db.order,
            created_at: task_db.created_at,
            updated_at: task_db.updated_at,
            labels: Vec::new(),
        }
    }
}

impl UpdateProjectChangeset {
    /// The changeset of an update payload, stamped with the time of the update.
    pub fn from_payload(payload: UpdateProjectPayload, now: i64) -> (r: Self)
        ensures
            r.name == payload.name,
            r.color == patch_of(payload.color),
            r.updated_at == now,
    {
        UpdateProjectChangeset {
            name: payload.name,
            color: Patch::from_field(payload.color),
            updated_at: now,
        }
    }
}

impl UpdateLabelChangeset {
    /// The changeset of an update payload, stamped with the time of the update.
    pub fn from_payload(payload: UpdateLabelPayload, now: i64) -> (r: Self)
        ensures
            r.name == payload.name,
            r.color == patch_of(payload.color),
            r.updated_at == now,
    {
        UpdateLabelChangeset {
            name: payload.name,
            color: Patch::from_field(payload.color),
            updated_at: now,
        }
    }
}

impl UpdateTaskChangeset {
    /// The changeset of an update payload, stamped with the time of the update.
    pub fn from_payload(payload: UpdateTaskPayload, now: i64) -> (r: Self)
        ensures
            r.project_id == patch_of(payload.project_id),
            r.title == payload.title,
            r.description == patch_of(payload.description),
            r.status == payload.status,
            r.due_date == patch_of(payload.due_date),
            r.order == patch_of(payload.order),
            r.updated_at == now,
    {
        UpdateTaskChangeset {
            project_id: Patch::from_field(payload.project_id),
            title: payload.title,
            description: Patch::from_field(payload.description),
            status: payload.status,
            due_date: Patch::from_field(payload.due_date),
            order: Patch::from_field(payload.order),
            updated_at: now,
        }
    }
}

} // verus!
