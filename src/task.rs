//! The task entity, the draft a task is created from, and the patch that updates one.
use crate::timestamp::{is_timestamp_text, local_now, timestamp_text, Timestamp};
use vstd::prelude::*;

verus! {

/// Where a statement of the task table is kept, relative to the working directory.
pub enum QueryPath {
    Create,
    Insert,
}

impl QueryPath {
    pub open spec fn path_text(&self) -> Seq<char> {
        match self {
            QueryPath::Create => "src/db/sql/create.sql"@,
            QueryPath::Insert => "src/db/sql/add.sql"@,
        }
    }

    /// The relative path of the statement's file.
    pub fn as_pathbuf(&self) -> (r: String)
        ensures
            r@ == self.path_text(),
    {
        match self {
            QueryPath::Create => "src/db/sql/create.sql".to_owned(),
            QueryPath::Insert => "src/db/sql/add.sql".to_owned(),
        }
    }
}

/// The stage a task is in.
#[derive(Clone, Copy, Debug, PartialEq, Eq)]
pub enum Status {
    New,
    InProcess,
    Completed,
}

impl Status {
    /// The label stored for the status.
    pub open spec fn label(self) -> Seq<char> {
        match self {
            Status::New => "Новая"@,
            Status::InProcess => "В работе"@,
            Status::Completed => "Завершена"@,
        }
    }

    /// The stored label of the status.
    pub fn to_string(&self) -> (r: String)
        ensures
            r@ == self.label(),
    {
        match self {
            Status::New => "Новая".to_owned(),
            Status::InProcess => "В работе".to_owned(),
            Status::Completed => "Завершена".to_owned(),
        }
    }
}

/// A stored task. `deleted` is 0 for an active task and 1 for a soft-deleted one.
#[derive(Debug)]
pub struct Task {
    pub id: u64,
    pub title: String,
    pub description: String,
    pub create_date: String,
    pub status: String,
    pub deleted: u8,
}

/// What a new task is made of, before the table gives it an id.
#[derive(Debug)]
pub struct AddTask {
    pub title: String,
    pub description: String,
    pub create_date: String,
    pub status: String,
    pub deleted: u8,
}

/// A set of field updates: a present field overwrites, an absent one is kept.
#[derive(Debug)]
pub struct UpdateTask {
    pub title: Option<String>,
    pub description: Option<String>,
    pub status: Option<String>,
    pub deleted: Option<u8>,
}

pub open spec fn keep_or<T>(update: Option<T>, current: T) -> T {
    match update {
        Some(v) => v,
        None => current,
    }
}

impl Task {
    /// The task after `p`: each present field of `p` replaces the task's, the id and
    /// the creation date stay.
    pub open spec fn patched(self, p: UpdateTask) -> Task {
        Task {
            id: self.id,
            title: keep_or(p.title, self.title),
            description: keep_or(p.description, self.description),
            create_date: self.create_date,
            status: keep_or(p.status, self.status),
            deleted: keep_or(p.deleted, self.deleted),
        }
    }

    /// The task with the given id made from a draft.
    pub open spec fn from_draft(id: u64, draft: AddTask) -> Task {
        Task {
            id,
            title: draft.title,
            description: draft.description,
            create_date: draft.create_date,
            status: draft.status,
            deleted: draft.deleted,
        }
    }

    /// Applies a patch to the task.
    pub fn from(self, update_task: UpdateTask) -> (r: Self)
        ensures
            r == self.patched(update_task),
    {
        Task {
            id: self.id,
            title: match update_task.title {
                Some(t) => t,
                None => self.title,
            },
            description: match update_task.description {
                Some(d) => d,
                None => self.description,
            },
            create_date: self.create_date,
            status: match update_task.status {
                Some(s) => s,
                None => self.status,
            },
            deleted: match update_task.deleted {
                Some(d) => d,
                None => self.deleted,
            },
        }
    }

    /// A field-by-field copy of the task.
    pub fn copied(&self) -> (r: Task)
        ensures
            r == *self,
    {
        Task {
            id: self.id,
            title: self.title.clone(),
            description: self.description.clone(),
            create_date: self.create_date.clone(),
            status: self.status.clone(),
            deleted: self.deleted,
        }
    }
}

impl AddTask {
    /// Whether the draft is a new, active task with the given title and description
    /// created at `date`.
    pub open spec fn is_new_draft(self, title: String, description: String, date: Seq<char>) -> bool {
        &&& self.title == title
        &&& self.description == description
        &&& self.create_date@ == date
        &&& self.status@ == Status::New.label()
        &&& self.deleted == 0
    }

    /// A draft created at `moment`. There is none when the year has no four-digit form.
    pub fn at(title: String, description: String, moment: Timestamp) -> (r: Option<AddTask>)
        requires
            moment.fields_in_range(),
        ensures
            r is Some <==> moment.year_has_four_digits(),
            r matches Some(d) ==> d.is_new_draft(title, description, timestamp_text(moment)),
    {
        if moment.year < 0 || moment.year > 9999 {
            return None;
        }
        Some(
            AddTask {
                title,
                description,
                create_date: moment.to_text(),
                status: Status::New.to_string(),
                deleted: 0,
            },
        )
    }

    /// A draft created now, by the local clock. There is none when the clock reads a
    /// year without a four-digit form.
    pub fn new(title: String, description: String) -> (r: Option<AddTask>)
        ensures
            r matches Some(d) ==> {
                &&& d.title == title
                &&& d.description == description
                &&& d.status@ == Status::New.label()
                &&& d.deleted == 0
                &&& is_timestamp_text(d.create_date@)
            },
    {
        let now = local_now();
        let r = AddTask::at(title, description, now);
        proof {
            crate::timestamp::lemma_timestamp_text_shape(now);
        }
        r
    }
}

impl UpdateTask {
    pub open spec fn is_empty(self) -> bool {
        self.title is None && self.description is None && self.status is None && self.deleted is None
    }
}

impl Default for UpdateTask {
    /// The patch that changes nothing.
    fn default() -> (r: Self)
        ensures
            r.is_empty(),
    {
        UpdateTask { title: None, description: None, status: None, deleted: None }
    }
}

/// A patch with every field absent leaves a task as it is.
pub proof fn lemma_empty_patch_keeps_task(t: Task, p: UpdateTask)
    requires
        p.is_empty(),
    ensures
        t.patched(p) == t,
{
}

/// A patch that holds only a status changes the status alone.
pub proof fn lemma_status_patch_changes_status_only(t: Task, p: UpdateTask)
    requires
        p.title is None,
        p.description is None,
        p.deleted is None,
        p.status is Some,
    ensures
        t.patched(p).status == p.status->0,
        t.patched(p).id == t.id,
        t.patched(p).title == t.title,
        t.patched(p).description == t.description,
        t.patched(p).create_date == t.create_date,
        t.patched(p).deleted == t.deleted,
{
}

} // verus!
