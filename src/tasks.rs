//! Task services and the association manager: tasks, the labels linked to
//! them, and the toggle between pending and completed.

use crate::error::ServiceError;
use crate::guard::{
    find_id, find_owned, get_owned, id_taken, lemma_unique_after_push, lemma_unique_after_remove,
    lemma_unique_after_update, owns, remove_owned, visible,
};
use crate::model::{CreateTaskPayload, Label, Owned, Task, TaskApiResponse, TaskLabel, UpdateTaskChangeset};
use crate::paging::{PaginatedResponse, PaginationParams, paginate, offset_of, pages_for, positive_or, DEFAULT_PAGE, DEFAULT_PER_PAGE};
use crate::patch::{patch_of, patched, replace, replaced};
use crate::rank::{Ranked, ranked_desc, sort_by_rank_desc};
use crate::store::{
    Store, label_missing_text, link_missing_text, missing, not_found, task_missing_text, unique_pairs,
};
use crate::text::{sort_by_name, sorted_by_name};
use vstd::prelude::*;

verus! {

pub open spec fn status_pending() -> Seq<char> {
    "pending"@
}

pub open spec fn status_completed() -> Seq<char> {
    "completed"@
}

/// The status a toggle moves to: "pending" from exactly "completed",
/// "completed" from anything else.
pub open spec fn toggled(status: Seq<char>) -> Seq<char> {
    if status == status_completed() {
        status_pending()
    } else {
        status_completed()
    }
}

/// A task after a changeset.
pub open spec fn task_after(t: Task, cs: UpdateTaskChangeset) -> Task {
    Task {
        id: t.id,
        user_id: t.user_id,
        project_id: patched(cs.project_id, t.project_id),
        title: replaced(cs.title, t.title),
        description: patched(cs.description, t.description),
        status: replaced(cs.status, t.status),
        due_date: patched(cs.due_date, t.due_date),
        order: patched(cs.order, t.order),
        created_at: t.created_at,
        updated_at: cs.updated_at,
    }
}

/// An update whose keys are all absent leaves a task as it was, but for the
/// time of its last update.
pub proof fn lemma_empty_task_update(t: Task, now: i64)
    ensures
        task_after(
            t,
            UpdateTaskChangeset {
                project_id: patch_of(None::<Option<u128>>),
                title: None,
                description: patch_of(None::<Option<String>>),
                status: None,
                due_date: patch_of(None::<Option<crate::calendar::Date>>),
                order: patch_of(None::<Option<i32>>),
                updated_at: now,
            },
        ) == (Task { updated_at: now, ..t }),
{
}

/// The label with identifier `id`, whoever owns it.
pub open spec fn label_row(labels: Seq<Label>, id: u128) -> Option<Label> {
    if id_taken(labels, id) {
        Some(labels[choose|k: int| 0 <= k < labels.len() && labels[k].spec_id() == id])
    } else {
        None
    }
}

/// The labels linked to a task, in the order in which the links were made.
pub open spec fn labels_of(links: Seq<TaskLabel>, labels: Seq<Label>, task: u128) -> Seq<Label>
    decreases links.len(),
{
    if links.len() == 0 {
        Seq::empty()
    } else {
        let prev = labels_of(links.drop_last(), labels, task);
        let l = links.last();
        if l.task_id == task && label_row(labels, l.label_id) is Some {
            prev.push(label_row(labels, l.label_id).unwrap())
        } else {
            prev
        }
    }
}

/// The links after adding one: unchanged where it is already there.
pub open spec fn with_link(links: Seq<TaskLabel>, link: TaskLabel) -> Seq<TaskLabel> {
    if links.contains(link) {
        links
    } else {
        links.push(link)
    }
}

/// The test that a link does not belong to `task`.
pub open spec fn link_of_other(task: u128) -> spec_fn(TaskLabel) -> bool {
    |l: TaskLabel| l.task_id != task
}

/// The filters and the page of a task listing.
#[derive(Debug, Clone)]
pub struct TaskQueryParams {
    pub project_id: Option<u128>,
    pub status: Option<String>,
    pub page: Option<i64>,
    pub per_page: Option<i64>,
}

impl TaskQueryParams {
    pub open spec fn spec_status(&self) -> Option<Seq<char>> {
        match self.status {
            Some(s) => Some(s@),
            None => None,
        }
    }
}

/// The test that a task is the caller's and passes the listing's filters.
pub open spec fn task_filter(caller: u128, project: Option<u128>, status: Option<Seq<char>>) -> spec_fn(
    Task,
) -> bool {
    |t: Task|
        t.user_id == caller && (project is None || t.project_id == project) && (status is None
            || t.status@ == status.unwrap())
}

/// The tasks a listing selects, in the order in which they are kept.
pub open spec fn selected_tasks(rows: Seq<Task>, caller: u128, q: TaskQueryParams) -> Seq<Task> {
    rows.filter(task_filter(caller, q.project_id, q.spec_status()))
}

/// `sorted` holds the tasks of `selected`, the most recently created first.
pub open spec fn newest_first(sorted: Seq<Task>, selected: Seq<Task>) -> bool {
    sorted.to_multiset() == selected.to_multiset() && ranked_desc(sorted)
}

impl Ranked for Task {
    open spec fn rank(&self) -> int {
        self.created_at as int
    }

    fn rank_of(&self) -> (r: i64) {
        self.created_at
    }
}

/// The items of one page of a listing.
pub open spec fn page_of<T>(items: Seq<T>, page: int, per_page: int) -> Seq<T> {
    items.subrange(
        vstd::math::min(offset_of(page, per_page), items.len() as int),
        vstd::math::min(offset_of(page, per_page) + per_page, items.len() as int),
    )
}

/// A response carries a task's fields and the given labels.
pub open spec fn describes(r: TaskApiResponse, t: Task, labels: Seq<Label>) -> bool {
    &&& r.id == t.id
    &&& r.user_id == t.user_id
    &&& r.project_id == t.project_id
    &&& r.title == t.title
    &&& r.description == t.description
    &&& r.status == t.status
    &&& r.due_date == t.due_date
    &&& r.task_order == t.order
    &&& r.created_at == t.created_at
    &&& r.updated_at == t.updated_at
    &&& r.labels@ == labels
}

/// Adding a link twice leaves the links as adding it once did, and the link
/// is then kept exactly once.
pub proof fn lemma_add_label_idempotent(links: Seq<TaskLabel>, link: TaskLabel)
    requires
        unique_pairs(links),
    ensures
        with_link(with_link(links, link), link) == with_link(links, link),
        unique_pairs(with_link(links, link)),
        exists|i: int|
            0 <= i < with_link(links, link).len() && with_link(links, link)[i] == link && forall|j: int|
                0 <= j < with_link(links, link).len() && with_link(links, link)[j] == link ==> j == i,
{
    let once = with_link(links, link);
    if !links.contains(link) {
        assert(once[links.len() as int] == link);
        assert(once.contains(link));
        assert forall|a: int, b: int| 0 <= a < once.len() && 0 <= b < once.len() && a != b implies once[a]
            != once[b] by {
            if a < links.len() && b < links.len() {
            } else if a < links.len() {
                assert(links.contains(once[a]));
            } else {
                assert(links.contains(once[b]));
            }
        }
    }
    assert(once.contains(link));
    let i = choose|i: int| 0 <= i < once.len() && once[i] == link;
    assert forall|j: int| 0 <= j < once.len() && once[j] == link implies j == i by {}
}

/// The position of a link, if it is kept.
fn find_link(links: &Vec<TaskLabel>, link: TaskLabel) -> (r: Option<usize>)
    ensures
        r is Some ==> r.unwrap() < links@.len() && links@[r.unwrap() as int] == link,
        r is None ==> !links@.contains(link),
{
    let mut i: usize = 0;
    while i < links.len()
        invariant
            i <= links@.len(),
            forall|k: int| 0 <= k < i ==> links@[k] != link,
        decreases links@.len() - i,
    {
        if links[i] == link {
            return Some(i);
        }
        i = i + 1;
    }
    None
}

/// The links of every task but `task`.
fn links_without_task(links: &Vec<TaskLabel>, task: u128) -> (r: Vec<TaskLabel>)
    requires
        unique_pairs(links@),
    ensures
        r@ == links@.filter(link_of_other(task)),
        unique_pairs(r@),
{
    let mut out: Vec<TaskLabel> = Vec::new();
    let mut i: usize = 0;
    while i < links.len()
        invariant
            i <= links@.len(),
            unique_pairs(links@),
            out@ == links@.subrange(0, i as int).filter(link_of_other(task)),
            unique_pairs(out@),
            forall|k: int| 0 <= k < out@.len() ==> exists|j: int| 0 <= j < i && links@[j] == #[trigger] out@[k],
        decreases links@.len() - i,
    {
        proof {
            assert(links@.subrange(0, i + 1) == links@.subrange(0, i as int).push(links@[i as int]));
            links@.subrange(0, i as int).lemma_filter_push(links@[i as int], link_of_other(task));
        }
        let link = links[i];
        if link.task_id != task {
            let ghost before = out@;
            out.push(link);
            proof {
                assert forall|a: int, b: int|
                    0 <= a < out@.len() && 0 <= b < out@.len() && a != b implies out@[a] != out@[b] by {
                    if a < before.len() && b < before.len() {
                    } else if a < before.len() {
                        let j = choose|j: int| 0 <= j < i && links@[j] == #[trigger] before[a];
                        assert(links@[j] != links@[i as int]);
                    } else if b < before.len() {
                        let j = choose|j: int| 0 <= j < i && links@[j] == #[trigger] before[b];
                        assert(links@[j] != links@[i as int]);
                    }
                }
                assert forall|k: int| 0 <= k < out@.len() implies exists|j: int|
                    0 <= j < i + 1 && links@[j] == #[trigger] out@[k] by {
                    if k < before.len() {
                        let j = choose|j: int| 0 <= j < i && links@[j] == #[trigger] before[k];
                        assert(links@[j] == out@[k]);
                    } else {
                        assert(links@[i as int] == out@[k]);
                    }
                }
            }
        }
        i = i + 1;
    }
    proof {
        assert(links@.subrange(0, links@.len() as int) == links@);
    }
    out
}

impl Store {
    /// Only the tasks and the links differ between the two stores.
    pub open spec fn same_but_tasks(&self, other: &Store) -> bool {
        &&& self.projects@ == other.projects@
        &&& self.labels@ == other.labels@
        &&& self.time_entries@ == other.time_entries@
    }

    /// The labels linked to a task, whoever asks.
    pub fn labels_for(&self, task_id: u128) -> (r: Vec<Label>)
        requires
            self.wf(),
        ensures
            r@ == labels_of(self.task_labels@, self.labels@, task_id),
    {
        let mut out: Vec<Label> = Vec::new();
        let mut i: usize = 0;
        let ghost links = self.task_labels@;
        while i < self.task_labels.len()
            invariant
                self.wf(),
                links == self.task_labels@,
                i <= links.len(),
                out@ == labels_of(links.subrange(0, i as int), self.labels@, task_id),
            decreases links.len() - i,
        {
            let link = self.task_labels[i];
            proof {
                assert(links.subrange(0, i + 1).drop_last() == links.subrange(0, i as int));
                assert(links.subrange(0, i + 1).last() == link);
            }
            if link.task_id == task_id {
                match find_id(&self.labels, link.label_id) {
                    Some(k) => {
                        proof {
                            assert(id_taken(self.labels@, link.label_id));
                            let c = choose|c: int|
                                0 <= c < self.labels@.len() && self.labels@[c].spec_id() == link.label_id;
                            assert(c == k);
                        }
                        out.push(self.labels[k].duplicate());
                    },
                    None => {},
                }
            }
            i = i + 1;
        }
        proof {
            assert(links.subrange(0, links.len() as int) == links);
        }
        out
    }

    /// A task's response, with its labels.
    fn respond(&self, task: Task) -> (r: TaskApiResponse)
        requires
            self.wf(),
        ensures
            describes(r, task, labels_of(self.task_labels@, self.labels@, task.id)),
    {
        let labels = self.labels_for(task.id);
        let mut response = TaskApiResponse::from(task);
        response.labels = labels;
        response
    }

    /// Creates a task of `caller`'s under a fresh identifier; a task created
    /// without a status is pending, and a new task has no labels.
    pub fn create_task(&mut self, caller: u128, id: u128, payload: CreateTaskPayload, now: i64) -> (r:
        Result<TaskApiResponse, ServiceError>)
        requires
            old(self).wf(),
        ensures
            final(self).wf(),
            r is Err <==> id_taken(old(self).tasks@, id),
            r is Err ==> r->Err_0 is ConflictError && final(self).same_as(old(self)),
            r is Ok ==> ({
                    let t = final(self).tasks@.last();
                    &&& t.id == id
                    &&& t.user_id == caller
                    &&& t.project_id == payload.project_id
                    &&& t.title == payload.title
                    &&& t.description == payload.description
                    &&& t.status@ == (match payload.status {
                        Some(s) => s@,
                        None => status_pending(),
                    })
                    &&& t.due_date == payload.due_date
                    &&& t.order == payload.order
                    &&& t.created_at == now
                    &&& t.updated_at == now
                    &&& final(self).tasks@ == old(self).tasks@.push(t)
                    &&& describes(r.unwrap(), t, Seq::empty())
                }),
            r is Ok ==> final(self).same_but_tasks(old(self)) && final(self).task_labels@ == old(
                self,
            ).task_labels@,
    {
        if find_id(&self.tasks, id).is_some() {
            return Err(ServiceError::ConflictError(String::from_str("An item with this id already exists")));
        }
        let status = match payload.status {
            Some(s) => s,
            None => String::from_str("pending"),
        };
        let task = Task {
            id,
            user_id: caller,
            project_id: payload.project_id,
            title: payload.title,
            description: payload.description,
            status,
            due_date: payload.due_date,
            order: payload.order,
            created_at: now,
            updated_at: now,
        };
        proof {
            lemma_unique_after_push(self.tasks@, task);
        }
        self.tasks.push(task.duplicate());
        let ghost t = task;
        let response = TaskApiResponse::from(task);
        proof {
            assert(response.labels@ =~= Seq::<Label>::empty());
            assert(describes(response, t, Seq::empty()));
            assert(self.tasks@ == old(self).tasks@.push(t));
        }
        Ok(response)
    }

    /// The caller's task with identifier `id`, with its labels.
    pub fn get_task(&self, caller: u128, id: u128) -> (r: Result<TaskApiResponse, ServiceError>)
        requires
            self.wf(),
        ensures
            r is Ok <==> visible(self.tasks@, id, caller),
            r is Ok ==> exists|i: int|
                owns(self.tasks@, i, id, caller) && describes(
                    r.unwrap(),
                    self.tasks@[i],
                    labels_of(self.task_labels@, self.labels@, id),
                ),
            r is Err ==> missing(r->Err_0, task_missing_text()),
    {
        match get_owned(&self.tasks, id, caller) {
            Some(t) => Ok(self.respond(t)),
            None => Err(not_found("Task not found or not owned by user")),
        }
    }

    /// Applies a changeset to the caller's task with identifier `id`.
    pub fn update_task(&mut self, caller: u128, id: u128, changes: UpdateTaskChangeset) -> (r: Result<
        TaskApiResponse,
        ServiceError,
    >)
        requires
            old(self).wf(),
        ensures
            final(self).wf(),
            r is Ok <==> visible(old(self).tasks@, id, caller),
            r is Err ==> missing(r->Err_0, task_missing_text()) && final(self).same_as(old(self)),
            r is Ok ==> exists|i: int|
                {
                    &&& owns(old(self).tasks@, i, id, caller)
                    &&& final(self).tasks@ == old(self).tasks@.update(
                        i,
                        task_after(old(self).tasks@[i], changes),
                    )
                    &&& describes(
                        r.unwrap(),
                        task_after(old(self).tasks@[i], changes),
                        labels_of(old(self).task_labels@, old(self).labels@, id),
                    )
                },
            r is Ok ==> final(self).same_but_tasks(old(self)) && final(self).task_labels@ == old(
                self,
            ).task_labels@,
    {
        match find_owned(&self.tasks, id, caller) {
            None => Err(not_found("Task not found or not owned by user")),
            Some(i) => {
                let cur = self.tasks[i].duplicate();
                let updated = Task {
                    id: cur.id,
                    user_id: cur.user_id,
                    project_id: changes.project_id.apply(cur.project_id),
                    title: replace(changes.title, cur.title),
                    description: changes.description.apply(cur.description),
                    status: replace(changes.status, cur.status),
                    due_date: changes.due_date.apply(cur.due_date),
                    order: changes.order.apply(cur.order),
                    created_at: cur.created_at,
                    updated_at: changes.updated_at,
                };
                proof {
                    lemma_unique_after_update(old(self).tasks@, i as int, updated);
                }
                self.tasks.set(i, updated.duplicate());
                Ok(self.respond(updated))
            },
        }
    }

    /// Moves the caller's task with identifier `id` between pending and
    /// completed.
    pub fn toggle_task_completion(&mut self, caller: u128, id: u128, now: i64) -> (r: Result<
        TaskApiResponse,
        ServiceError,
    >)
        requires
            old(self).wf(),
        ensures
            final(self).wf(),
            r is Ok <==> visible(old(self).tasks@, id, caller),
            r is Err ==> missing(r->Err_0, task_missing_text()) && final(self).same_as(old(self)),
            r is Ok ==> exists|i: int, t: Task|
                {
                    &&& owns(old(self).tasks@, i, id, caller)
                    &&& t.status@ == toggled(old(self).tasks@[i].status@)
                    &&& t == (Task { status: t.status, updated_at: now, ..old(self).tasks@[i] })
                    &&& final(self).tasks@ == old(self).tasks@.update(i, t)
                    &&& describes(r.unwrap(), t, labels_of(old(self).task_labels@, old(self).labels@, id))
                },
            r is Ok ==> final(self).same_but_tasks(old(self)) && final(self).task_labels@ == old(
                self,
            ).task_labels@,
    {
        match find_owned(&self.tasks, id, caller) {
            None => Err(not_found("Task not found or not owned by user")),
            Some(i) => {
                let cur = self.tasks[i].duplicate();
                let new_status = if cur.status == String::from_str("completed") {
                    String::from_str("pending")
                } else {
                    String::from_str("completed")
                };
                let updated = Task { status: new_status, updated_at: now, ..cur };
                proof {
                    lemma_unique_after_update(old(self).tasks@, i as int, updated);
                }
                self.tasks.set(i, updated.duplicate());
                Ok(self.respond(updated))
            },
        }
    }

    /// Removes the caller's task with identifier `id`, and first every link
    /// between it and a label.
    pub fn delete_task(&mut self, caller: u128, id: u128) -> (r: Result<(), ServiceError>)
        requires
            old(self).wf(),
        ensures
            final(self).wf(),
            r is Ok <==> visible(old(self).tasks@, id, caller),
            r is Err ==> missing(r->Err_0, task_missing_text()) && final(self).same_as(old(self)),
            r is Ok ==> exists|i: int|
                owns(old(self).tasks@, i, id, caller) && final(self).tasks@ == old(
                    self,
                ).tasks@.remove(i),
            r is Ok ==> final(self).task_labels@ == old(self).task_labels@.filter(link_of_other(id)),
            r is Ok ==> final(self).same_but_tasks(old(self)),
    {
        if find_owned(&self.tasks, id, caller).is_none() {
            return Err(not_found("Task not found or not owned by user"));
        }
        self.task_labels = links_without_task(&self.task_labels, id);
        let removed = remove_owned(&mut self.tasks, id, caller);
        proof {
            let i = choose|i: int|
                owns(old(self).tasks@, i, id, caller) && self.tasks@ == old(self).tasks@.remove(i);
            lemma_unique_after_remove(old(self).tasks@, i);
        }
        Ok(())
    }

    /// Each response describes the task at the same position, with its labels.
    pub open spec fn describes_page(&self, items: Seq<TaskApiResponse>, shown: Seq<Task>) -> bool {
        &&& items.len() == shown.len()
        &&& forall|k: int|
            0 <= k < shown.len() ==> describes(
                #[trigger] items[k],
                shown[k],
                labels_of(self.task_labels@, self.labels@, shown[k].id),
            )
    }

    /// A page of the caller's tasks that pass the filters, the most recently
    /// created first, each with its labels. A missing or non-positive page or
    /// page size falls back to its default.
    pub fn list_tasks(&self, caller: u128, query: &TaskQueryParams) -> (r: PaginatedResponse<
        TaskApiResponse,
    >)
        requires
            self.wf(),
            self.tasks@.len() <= i64::MAX,
        ensures
            ({
                let selected = selected_tasks(self.tasks@, caller, *query);
                let page = positive_or(query.page, DEFAULT_PAGE);
                let per_page = positive_or(query.per_page, DEFAULT_PER_PAGE);
                &&& r.total_items == selected.len()
                &&& r.total_pages == pages_for(selected.len() as int, per_page as int)
                &&& r.page == page
                &&& r.per_page == per_page
                &&& exists|sorted: Seq<Task>|
                    #[trigger] newest_first(sorted, selected) && self.describes_page(
                        r.items@,
                        page_of(sorted, page as int, per_page as int),
                    )
            }),
    {
        let params = PaginationParams::from_query(query.page, query.per_page);
        let ghost pred = task_filter(caller, query.project_id, query.spec_status());
        let mut matching: Vec<Task> = Vec::new();
        let mut i: usize = 0;
        while i < self.tasks.len()
            invariant
                i <= self.tasks@.len(),
                pred == task_filter(caller, query.project_id, query.spec_status()),
                matching@ == self.tasks@.subrange(0, i as int).filter(pred),
            decreases self.tasks@.len() - i,
        {
            proof {
                assert(self.tasks@.subrange(0, i + 1) == self.tasks@.subrange(0, i as int).push(
                    self.tasks@[i as int],
                ));
                self.tasks@.subrange(0, i as int).lemma_filter_push(self.tasks@[i as int], pred);
            }
            let t = &self.tasks[i];
            let keep = t.user_id == caller && match query.project_id {
                None => true,
                Some(p) => t.project_id == Some(p),
            } && match &query.status {
                None => true,
                Some(st) => t.status == *st,
            };
            if keep {
                matching.push(t.duplicate());
            }
            i = i + 1;
        }
        proof {
            assert(self.tasks@.subrange(0, self.tasks@.len() as int) == self.tasks@);
        }
        let ghost selected = matching@;
        let newest = sort_by_rank_desc(matching);
        proof {
            newest@.to_multiset_ensures();
            selected.to_multiset_ensures();
            assert(newest_first(newest@, selected));
        }
        let ghost sorted = newest@;
        let page = paginate(newest, params);
        let ghost shown = page.items@;
        let mut items: Vec<TaskApiResponse> = Vec::new();
        let mut rest = page.items;
        let n = rest.len();
        let mut k: usize = 0;
        while rest.len() > 0
            invariant
                self.wf(),
                n == shown.len(),
                k + rest@.len() == shown.len(),
                rest@ == shown.subrange(k as int, shown.len() as int),
                items@.len() == k,
                forall|j: int|
                    0 <= j < k ==> describes(
                        #[trigger] items@[j],
                        shown[j],
                        labels_of(self.task_labels@, self.labels@, shown[j].id),
                    ),
            decreases rest@.len(),
        {
            let t = rest.remove(0);
            proof {
                assert(t == shown[k as int]);
                assert(rest@ =~= shown.subrange(k + 1, shown.len() as int));
            }
            let resp = self.respond(t);
            items.push(resp);
            k = k + 1;
        }
        proof {
            assert(shown == page_of(sorted, params.page as int, params.per_page as int));
            assert(self.describes_page(items@, shown));
            assert(selected == selected_tasks(self.tasks@, caller, *query));
            assert(sorted.len() == selected.len());
            assert(page.total_items == selected.len());
            assert(newest_first(sorted, selected));
        }
        PaginatedResponse {
            items,
            total_items: page.total_items,
            total_pages: page.total_pages,
            page: page.page,
            per_page: page.per_page,
        }
    }

    // ----- the association manager -----

    /// Links the caller's task to the caller's label. Linking a pair that is
    /// already linked succeeds without a write; the result tells whether a
    /// link was made.
    pub fn add_label_to_task(&mut self, caller: u128, task_id: u128, label_id: u128) -> (r: Result<
        bool,
        ServiceError,
    >)
        requires
            old(self).wf(),
        ensures
            final(self).wf(),
            r is Ok <==> visible(old(self).tasks@, task_id, caller) && visible(
                old(self).labels@,
                label_id,
                caller,
            ),
            r is Err ==> final(self).same_as(old(self)),
            !visible(old(self).tasks@, task_id, caller) ==> r is Err && missing(r->Err_0, task_missing_text()),
            visible(old(self).tasks@, task_id, caller) && !visible(old(self).labels@, label_id, caller)
                ==> r is Err && missing(r->Err_0, label_missing_text()),
            r is Ok ==> r.unwrap() == !old(self).task_labels@.contains(
                TaskLabel { task_id, label_id },
            ),
            r is Ok ==> final(self).task_labels@ == with_link(
                old(self).task_labels@,
                TaskLabel { task_id, label_id },
            ),
            r is Ok ==> final(self).same_but_tasks(old(self)) && final(self).tasks@ == old(
                self,
            ).tasks@,
    {
        if find_owned(&self.tasks, task_id, caller).is_none() {
            return Err(not_found("Task not found or not owned by user"));
        }
        if find_owned(&self.labels, label_id, caller).is_none() {
            return Err(not_found("Label not found or not owned by user"));
        }
        let link = TaskLabel { task_id, label_id };
        match find_link(&self.task_labels, link) {
            Some(_) => {
                proof {
                    lemma_add_label_idempotent(self.task_labels@, link);
                }
                Ok(false)
            },
            None => {
                proof {
                    lemma_add_label_idempotent(self.task_labels@, link);
                }
                self.task_labels.push(link);
                Ok(true)
            },
        }
    }

    /// The labels linked to the caller's task, ordered by name.
    pub fn list_labels_for_task(&self, caller: u128, task_id: u128) -> (r: Result<
        Vec<Label>,
        ServiceError,
    >)
        requires
            self.wf(),
        ensures
            r is Ok <==> visible(self.tasks@, task_id, caller),
            r is Ok ==> r.unwrap()@.to_multiset() == labels_of(self.task_labels@, self.labels@, task_id).to_multiset(),
            r is Ok ==> sorted_by_name(r.unwrap()@),
            r is Err ==> missing(r->Err_0, task_missing_text()),
    {
        if find_owned(&self.tasks, task_id, caller).is_none() {
            return Err(not_found("Task not found or not owned by user"));
        }
        Ok(sort_by_name(self.labels_for(task_id)))
    }

    /// Removes the link between the caller's task and a label. A task the
    /// caller cannot see and a link that is not there both read as not found.
    pub fn remove_label_from_task(&mut self, caller: u128, task_id: u128, label_id: u128) -> (r:
        Result<(), ServiceError>)
        requires
            old(self).wf(),
        ensures
            final(self).wf(),
            r is Ok <==> visible(old(self).tasks@, task_id, caller) && old(
                self,
            ).task_labels@.contains(TaskLabel { task_id, label_id }),
            r is Err ==> final(self).same_as(old(self)),
            !visible(old(self).tasks@, task_id, caller) ==> r is Err && missing(r->Err_0, task_missing_text()),
            visible(old(self).tasks@, task_id, caller) && !old(self).task_labels@.contains(
                TaskLabel { task_id, label_id },
            ) ==> r is Err && missing(r->Err_0, link_missing_text()),
            r is Ok ==> exists|i: int|
                0 <= i < old(self).task_labels@.len() && old(self).task_labels@[i] == (TaskLabel {
                    task_id,
                    label_id,
                }) && final(self).task_labels@ == old(self).task_labels@.remove(i),
            r is Ok ==> final(self).same_but_tasks(old(self)) && final(self).tasks@ == old(
                self,
            ).tasks@,
    {
        if find_owned(&self.tasks, task_id, caller).is_none() {
            return Err(not_found("Task not found or not owned by user"));
        }
        match find_link(&self.task_labels, TaskLabel { task_id, label_id }) {
            None => Err(
                not_found("Association not found, or task not owned by user"),
            ),
            Some(i) => {
                self.task_labels.remove(i);
                proof {
                    let s = self.task_labels@;
                    let o = old(self).task_labels@;
                    assert forall|a: int, b: int| 0 <= a < s.len() && 0 <= b < s.len() && a != b implies s[a]
                        != s[b] by {
                        let oa = if a < i { a } else { a + 1 };
                        let ob = if b < i { b } else { b + 1 };
                        assert(s[a] == o[oa]);
                        assert(s[b] == o[ob]);
                    }
                }
                Ok(())
            },
        }
    }
}

} // verus!
