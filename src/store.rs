//! The resource services over an owner-scoped store of rows: projects, labels,
//! tasks with their labels, and time entries.

use crate::error::ServiceError;
use crate::guard::{
    find_id, find_owned, get_owned, id_taken, lemma_unique_after_push, lemma_unique_after_remove,
    lemma_unique_after_update, list_owned, owned_by, owns, remove_owned, unique_ids, visible,
};
use crate::model::{
    CreateLabelPayload, CreateProjectPayload, Label, Owned, Project, TaskLabel, Task, TimeEntry,
    UpdateLabelChangeset, UpdateProjectChangeset,
};
use crate::patch::{patch_of, patched, replace, replaced};
use crate::text::{sort_by_name, sorted_by_name};
use vstd::prelude::*;

verus! {

/// Every row the service keeps. Identifiers are unique within each table and
/// a task is linked to a label at most once.
#[derive(Debug)]
pub struct Store {
    pub projects: Vec<Project>,
    pub tasks: Vec<Task>,
    pub labels: Vec<Label>,
    pub task_labels: Vec<TaskLabel>,
    pub time_entries: Vec<TimeEntry>,
}

/// No link between a task and a label is kept twice.
pub open spec fn unique_pairs(links: Seq<TaskLabel>) -> bool {
    forall|i: int, j: int| 0 <= i < links.len() && 0 <= j < links.len() && i != j ==> links[i] != links[j]
}

/// A project after a changeset.
pub open spec fn project_after(p: Project, cs: UpdateProjectChangeset) -> Project {
    Project {
        id: p.id,
        user_id: p.user_id,
        name: replaced(cs.name, p.name),
        color: patched(cs.color, p.color),
        created_at: p.created_at,
        updated_at: cs.updated_at,
    }
}

/// A label after a changeset.
pub open spec fn label_after(l: Label, cs: UpdateLabelChangeset) -> Label {
    Label {
        id: l.id,
        user_id: l.user_id,
        name: replaced(cs.name, l.name),
        color: patched(cs.color, l.color),
        created_at: l.created_at,
        updated_at: cs.updated_at,
    }
}

/// An update whose keys are all absent leaves a project as it was, but for
/// the time of its last update.
pub proof fn lemma_empty_project_update(p: Project, now: i64)
    ensures
        project_after(
            p,
            UpdateProjectChangeset { name: None, color: patch_of(None::<Option<String>>), updated_at: now },
        ) == (Project { updated_at: now, ..p }),
{
}

/// An update whose keys are all absent leaves a label as it was, but for the
/// time of its last update.
pub proof fn lemma_empty_label_update(l: Label, now: i64)
    ensures
        label_after(
            l,
            UpdateLabelChangeset { name: None, color: patch_of(None::<Option<String>>), updated_at: now },
        ) == (Label { updated_at: now, ..l }),
{
}

/// `e` is a not-found failure with exactly the message `text`, which names
/// only the kind of row: it tells nothing of any row that exists.
pub open spec fn missing(e: ServiceError, text: Seq<char>) -> bool {
    e is NotFound && e->NotFound_0@ == text
}

pub open spec fn project_missing_text() -> Seq<char> {
    "Project not found or not owned by user"@
}

pub open spec fn label_missing_text() -> Seq<char> {
    "Label not found or not owned by user"@
}

pub open spec fn task_missing_text() -> Seq<char> {
    "Task not found or not owned by user"@
}

pub open spec fn entry_missing_text() -> Seq<char> {
    "TimeEntry not found or not owned by user"@
}

pub open spec fn link_missing_text() -> Seq<char> {
    "Association not found, or task not owned by user"@
}

pub fn not_found(what: &str) -> (r: ServiceError)
    ensures
        r is NotFound,
        r->NotFound_0@ == what@,
{
    ServiceError::NotFound(String::from_str(what))
}

fn id_conflict() -> (r: ServiceError)
    ensures
        r is ConflictError,
{
    ServiceError::ConflictError(String::from_str("An item with this id already exists"))
}

impl Store {
    pub open spec fn wf(&self) -> bool {
        &&& unique_ids(self.projects@)
        &&& unique_ids(self.tasks@)
        &&& unique_ids(self.labels@)
        &&& unique_ids(self.time_entries@)
        &&& unique_pairs(self.task_labels@)
    }

    /// The two stores hold the same rows.
    pub open spec fn same_as(&self, other: &Store) -> bool {
        &&& self.projects@ == other.projects@
        &&& self.same_but_projects(other)
    }

    /// Only the projects differ between the two stores.
    pub open spec fn same_but_projects(&self, other: &Store) -> bool {
        &&& self.tasks@ == other.tasks@
        &&& self.labels@ == other.labels@
        &&& self.task_labels@ == other.task_labels@
        &&& self.time_entries@ == other.time_entries@
    }

    /// Only the labels differ between the two stores.
    pub open spec fn same_but_labels(&self, other: &Store) -> bool {
        &&& self.projects@ == other.projects@
        &&& self.tasks@ == other.tasks@
        &&& self.task_labels@ == other.task_labels@
        &&& self.time_entries@ == other.time_entries@
    }

    pub fn new() -> (r: Store)
        ensures
            r.wf(),
            r.projects@.len() == 0,
            r.tasks@.len() == 0,
            r.labels@.len() == 0,
            r.task_labels@.len() == 0,
            r.time_entries@.len() == 0,
    {
        Store {
            projects: Vec::new(),
            tasks: Vec::new(),
            labels: Vec::new(),
            task_labels: Vec::new(),
            time_entries: Vec::new(),
        }
    }

    // ----- projects -----

    /// Creates a project of `caller`'s under a fresh identifier.
    pub fn create_project(
        &mut self,
        caller: u128,
        id: u128,
        payload: CreateProjectPayload,
        now: i64,
    ) -> (r: Result<Project, ServiceError>)
        requires
            old(self).wf(),
        ensures
            final(self).wf(),
            r is Err <==> id_taken(old(self).projects@, id),
            r is Err ==> r->Err_0 is ConflictError && final(self).same_as(old(self)),
            r is Ok ==> r.unwrap() == (Project {
                id,
                user_id: caller,
                name: payload.name,
                color: payload.color,
                created_at: now,
                updated_at: now,
            }) && final(self).projects@ == old(self).projects@.push(r.unwrap())
                && final(self).same_but_projects(old(self)),
    {
        if find_id(&self.projects, id).is_some() {
            return Err(id_conflict());
        }
        let project = Project {
            id,
            user_id: caller,
            name: payload.name,
            color: payload.color,
            created_at: now,
            updated_at: now,
        };
        proof {
            lemma_unique_after_push(self.projects@, project);
        }
        self.projects.push(project.duplicate());
        Ok(project)
    }

    /// The caller's project with identifier `id`.
    pub fn get_project(&self, caller: u128, id: u128) -> (r: Result<Project, ServiceError>)
        ensures
            r is Ok <==> visible(self.projects@, id, caller),
            r is Ok ==> self.projects@.contains(r.unwrap()) && r.unwrap().id == id
                && r.unwrap().user_id == caller,
            r is Err ==> missing(r->Err_0, project_missing_text()),
    {
        match get_owned(&self.projects, id, caller) {
            Some(p) => Ok(p),
            None => Err(not_found("Project not found or not owned by user")),
        }
    }

    /// The caller's projects.
    pub fn list_projects(&self, caller: u128) -> (r: Vec<Project>)
        ensures
            r@ == owned_by(self.projects@, caller),
    {
        list_owned(&self.projects, caller)
    }

    /// Applies a changeset to the caller's project with identifier `id`.
    pub fn update_project(&mut self, caller: u128, id: u128, changes: UpdateProjectChangeset) -> (r:
        Result<Project, ServiceError>)
        requires
            old(self).wf(),
        ensures
            final(self).wf(),
            r is Ok <==> visible(old(self).projects@, id, caller),
            r is Err ==> missing(r->Err_0, project_missing_text()) && final(self).same_as(old(self)),
            r is Ok ==> exists|i: int|
                owns(old(self).projects@, i, id, caller) && r.unwrap() == project_after(
                    old(self).projects@[i],
                    changes,
                ) && final(self).projects@ == old(self).projects@.update(i, r.unwrap()),
            r is Ok ==> final(self).same_but_projects(old(self)),
    {
        match find_owned(&self.projects, id, caller) {
            None => Err(not_found("Project not found or not owned by user")),
            Some(i) => {
                let cur = self.projects[i].duplicate();
                let updated = Project {
                    id: cur.id,
                    user_id: cur.user_id,
                    name: replace(changes.name, cur.name),
                    color: changes.color.apply(cur.color),
                    created_at: cur.created_at,
                    updated_at: changes.updated_at,
                };
                self.projects.set(i, updated.duplicate());
                proof {
                    lemma_unique_after_update(old(self).projects@, i as int, updated);
                }
                Ok(updated)
            },
        }
    }

    /// Removes the caller's project with identifier `id`.
    pub fn delete_project(&mut self, caller: u128, id: u128) -> (r: Result<(), ServiceError>)
        requires
            old(self).wf(),
        ensures
            final(self).wf(),
            r is Ok <==> visible(old(self).projects@, id, caller),
            r is Err ==> missing(r->Err_0, project_missing_text()) && final(self).same_as(old(self)),
            r is Ok ==> exists|i: int|
                owns(old(self).projects@, i, id, caller) && final(self).projects@ == old(
                    self,
                ).projects@.remove(i),
            r is Ok ==> final(self).same_but_projects(old(self)),
    {
        if remove_owned(&mut self.projects, id, caller) {
            proof {
                let i = choose|i: int|
                    owns(old(self).projects@, i, id, caller) && self.projects@ == old(
                        self,
                    ).projects@.remove(i);
                lemma_unique_after_remove(old(self).projects@, i);
            }
            Ok(())
        } else {
            Err(not_found("Project not found or not owned by user"))
        }
    }

    // ----- labels -----

    /// Creates a label of `caller`'s under a fresh identifier.
    pub fn create_label(
        &mut self,
        caller: u128,
        id: u128,
        payload: CreateLabelPayload,
        now: i64,
    ) -> (r: Result<Label, ServiceError>)
        requires
            old(self).wf(),
        ensures
            final(self).wf(),
            r is Err <==> id_taken(old(self).labels@, id),
            r is Err ==> r->Err_0 is ConflictError && final(self).same_as(old(self)),
            r is Ok ==> r.unwrap() == (Label {
                id,
                user_id: caller,
                name: payload.name,
                color: payload.color,
                created_at: now,
                updated_at: now,
            }) && final(self).labels@ == old(self).labels@.push(r.unwrap())
                && final(self).same_but_labels(old(self)),
    {
        if find_id(&self.labels, id).is_some() {
            return Err(id_conflict());
        }
        let label = Label {
            id,
            user_id: caller,
            name: payload.name,
            color: payload.color,
            created_at: now,
            updated_at: now,
        };
        proof {
            lemma_unique_after_push(self.labels@, label);
        }
        self.labels.push(label.duplicate());
        Ok(label)
    }

    /// The caller's label with identifier `id`.
    pub fn get_label(&self, caller: u128, id: u128) -> (r: Result<Label, ServiceError>)
        ensures
            r is Ok <==> visible(self.labels@, id, caller),
            r is Ok ==> self.labels@.contains(r.unwrap()) && r.unwrap().id == id
                && r.unwrap().user_id == caller,
            r is Err ==> missing(r->Err_0, label_missing_text()),
    {
        match get_owned(&self.labels, id, caller) {
            Some(p) => Ok(p),
            None => Err(not_found("Label not found or not owned by user")),
        }
    }

    /// The caller's labels, ordered by name.
    pub fn list_labels(&self, caller: u128) -> (r: Vec<Label>)
        ensures
            r@.to_multiset() == owned_by(self.labels@, caller).to_multiset(),
            sorted_by_name(r@),
    {
        sort_by_name(list_owned(&self.labels, caller))
    }

    /// Applies a changeset to the caller's label with identifier `id`.
    pub fn update_label(&mut self, caller: u128, id: u128, changes: UpdateLabelChangeset) -> (r:
        Result<Label, ServiceError>)
        requires
            old(self).wf(),
        ensures
            final(self).wf(),
            r is Ok <==> visible(old(self).labels@, id, caller),
            r is Err ==> missing(r->Err_0, label_missing_text()) && final(self).same_as(old(self)),
            r is Ok ==> exists|i: int|
                owns(old(self).labels@, i, id, caller) && r.unwrap() == label_after(
                    old(self).labels@[i],
                    changes,
                ) && final(self).labels@ == old(self).labels@.update(i, r.unwrap()),
            r is Ok ==> final(self).same_but_labels(old(self)),
    {
        match find_owned(&self.labels, id, caller) {
            None => Err(not_found("Label not found or not owned by user")),
            Some(i) => {
                let cur = self.labels[i].duplicate();
                let updated = Label {
                    id: cur.id,
                    user_id: cur.user_id,
                    name: replace(changes.name, cur.name),
                    color: changes.color.apply(cur.color),
                    created_at: cur.created_at,
                    updated_at: changes.updated_at,
                };
                self.labels.set(i, updated.duplicate());
                proof {
                    lemma_unique_after_update(old(self).labels@, i as int, updated);
                }
                Ok(updated)
            },
        }
    }

    /// Removes the caller's label with identifier `id`.
    pub fn delete_label(&mut self, caller: u128, id: u128) -> (r: Result<(), ServiceError>)
        requires
            old(self).wf(),
        ensures
            final(self).wf(),
            r is Ok <==> visible(old(self).labels@, id, caller),
            r is Err ==> missing(r->Err_0, label_missing_text()) && final(self).same_as(old(self)),
            r is Ok ==> exists|i: int|
                owns(old(self).labels@, i, id, caller) && final(self).labels@ == old(
                    self,
                ).labels@.remove(i),
            r is Ok ==> final(self).same_but_labels(old(self)),
    {
        if remove_owned(&mut self.labels, id, caller) {
            proof {
                let i = choose|i: int|
                    owns(old(self).labels@, i, id, caller) && self.labels@ == old(
                        self,
                    ).labels@.remove(i);
                lemma_unique_after_remove(old(self).labels@, i);
            }
            Ok(())
        } else {
            Err(not_found("Label not found or not owned by user"))
        }
    }
}

} // verus!
