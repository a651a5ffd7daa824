//! The task table: rows kept in ascending id order, with the store's lookups,
//! inserts, soft deletes and patches.
use crate::task::{AddTask, Task, UpdateTask};
use vstd::prelude::*;

verus! {

broadcast use vstd::seq_lib::group_filter_ensures;

/// Why a store operation failed.
#[derive(Clone, Copy, Debug, PartialEq, Eq, Structural)]
pub enum StoreError {
    /// The database could not be opened or reached.
    ConnectionFailure,
    /// No row matches a single-row lookup.
    NotFound,
    /// A statement was malformed, broke a constraint, or no id is left.
    QueryFailure,
}

/// Whether `p` is a prefix of `s`.
pub open spec fn has_prefix(p: Seq<char>, s: Seq<char>) -> bool {
    p.len() <= s.len() && s.take(p.len() as int) =~= p
}

/// Lexical order of texts from position `i` on, by character code.
pub open spec fn text_le_from(a: Seq<char>, b: Seq<char>, i: int) -> bool
    decreases a.len() - i,
{
    if i < 0 || i >= a.len() {
        true
    } else if i >= b.len() {
        false
    } else if a[i] != b[i] {
        (a[i] as u32) < (b[i] as u32)
    } else {
        text_le_from(a, b, i + 1)
    }
}

/// `a` comes no later than `b` in lexical order.
pub open spec fn text_le(a: Seq<char>, b: Seq<char>) -> bool {
    text_le_from(a, b, 0)
}

/// The rows a title search for `prefix` keeps.
pub open spec fn title_pred(prefix: Seq<char>) -> spec_fn(Task) -> bool {
    |t: Task| has_prefix(prefix, t.title@)
}

/// The rows a date search from `start` to `end`, both included, keeps.
pub open spec fn date_pred(start: Seq<char>, end: Seq<char>) -> spec_fn(Task) -> bool {
    |t: Task| text_le(start, t.create_date@) && text_le(t.create_date@, end)
}

/// The task marked as deleted.
pub open spec fn marked_deleted(t: Task) -> Task {
    Task {
        id: t.id,
        title: t.title,
        description: t.description,
        create_date: t.create_date,
        status: t.status,
        deleted: 1,
    }
}

pub open spec fn ids_ascending(rows: Seq<Task>) -> bool {
    forall|i: int, j: int| 0 <= i < j < rows.len() ==> rows[i].id < rows[j].id
}

/// Whether `p` is a prefix of `s`, character by character.
pub fn starts_with(s: &str, p: &str) -> (r: bool)
    ensures
        r == has_prefix(p@, s@),
{
    let ls = s.unicode_len();
    let lp = p.unicode_len();
    if lp > ls {
        return false;
    }
    let mut i: usize = 0;
    while i < lp
        invariant
            lp == p@.len(),
            ls == s@.len(),
            lp <= ls,
            i <= lp,
            forall|j: int| 0 <= j < i ==> s@[j] == p@[j],
        decreases lp - i,
    {
        if s.get_char(i) != p.get_char(i) {
            assert(s@.take(lp as int)[i as int] != p@[i as int]);
            return false;
        }
        i += 1;
    }
    assert(s@.take(lp as int) =~= p@);
    true
}

/// Whether `a` comes no later than `b` in lexical order.
pub fn text_le_exec(a: &str, b: &str) -> (r: bool)
    ensures
        r == text_le(a@, b@),
{
    let la = a.unicode_len();
    let lb = b.unicode_len();
    let mut i: usize = 0;
    while i < la && i < lb
        invariant
            la == a@.len(),
            lb == b@.len(),
            i <= la,
            i <= lb,
            text_le(a@, b@) == text_le_from(a@, b@, i as int),
        decreases la - i,
    {
        let ca = a.get_char(i);
        let cb = b.get_char(i);
        if ca != cb {
            return (ca as u32) < (cb as u32);
        }
        i += 1;
    }
    i == la
}

/// The tasks, in ascending id order.
pub struct TaskTable {
    pub rows: Vec<Task>,
}

impl TaskTable {
    /// Ids rise strictly from row to row, so no id occurs twice.
    pub open spec fn wf(&self) -> bool {
        ids_ascending(self.rows@)
    }

    /// The id the next insert assigns: one past the last, or 1 in an empty table.
    pub open spec fn next_id(&self) -> int {
        if self.rows@.len() == 0 {
            1
        } else {
            self.rows@.last().id + 1
        }
    }

    pub open spec fn has_id(&self, id: u64) -> bool {
        exists|i: int| 0 <= i < self.rows@.len() && self.rows@[i].id == id
    }

    /// The row with the given id, if there is one.
    pub open spec fn lookup(&self, id: u64) -> Option<Task> {
        if self.has_id(id) {
            Some(self.rows@[choose|i: int| 0 <= i < self.rows@.len() && self.rows@[i].id == id])
        } else {
            None
        }
    }

    /// An empty table.
    pub fn new() -> (r: TaskTable)
        ensures
            r.wf(),
            r.rows@ == Seq::<Task>::empty(),
    {
        TaskTable { rows: Vec::new() }
    }

    /// A table of the given rows, which must come in strictly ascending id order.
    pub fn from_rows(rows: Vec<Task>) -> (r: Result<TaskTable, StoreError>)
        ensures
            r is Ok <==> ids_ascending(rows@),
            r matches Ok(t) ==> t.rows@ == rows@ && t.wf(),
            r matches Err(e) ==> e == StoreError::QueryFailure,
    {
        let n = rows.len();
        let mut i: usize = 1;
        if n == 0 {
            return Ok(TaskTable { rows });
        }
        while i < n
            invariant
                n == rows@.len(),
                1 <= i <= n,
                forall|a: int, b: int| 0 <= a < b < i ==> rows@[a].id < rows@[b].id,
            decreases n - i,
        {
            if rows[i - 1].id >= rows[i].id {
                return Err(StoreError::QueryFailure);
            }
            proof {
                assert forall|a: int, b: int| 0 <= a < b < i + 1 implies rows@[a].id < rows@[b].id by {
                    if b == i && a < i - 1 {
                        assert(rows@[a].id < rows@[i - 1].id);
                    }
                }
            }
            i += 1;
        }
        Ok(TaskTable { rows })
    }

    /// Index of the row with the given id.
    fn position(&self, id: u64) -> (r: Option<usize>)
        requires
            self.wf(),
        ensures
            r is Some <==> self.has_id(id),
            r matches Some(i) ==> i < self.rows@.len() && self.rows@[i as int].id == id,
    {
        let mut i: usize = 0;
        while i < self.rows.len()
            invariant
                i <= self.rows@.len(),
                forall|j: int| 0 <= j < i ==> self.rows@[j].id != id,
            decreases self.rows@.len() - i,
        {
            if self.rows[i].id == id {
                return Some(i);
            }
            i += 1;
        }
        None
    }

    /// Appends a task made from `draft` under the next id and returns that id. Fails
    /// with `QueryFailure`, changing nothing, when the ids are used up.
    pub fn insert(&mut self, draft: AddTask) -> (r: Result<u64, StoreError>)
        requires
            old(self).wf(),
        ensures
            final(self).wf(),
            r is Ok <==> old(self).next_id() <= u64::MAX,
            r matches Ok(id) ==> id == old(self).next_id() && final(self).rows@ == old(
                self,
            ).rows@.push(Task::from_draft(id, draft)),
            r matches Err(e) ==> e == StoreError::QueryFailure && final(self).rows@ == old(
                self,
            ).rows@,
    {
        let n = self.rows.len();
        let id: u64 = if n == 0 {
            1
        } else {
            let last = self.rows[n - 1].id;
            if last == u64::MAX {
                return Err(StoreError::QueryFailure);
            }
            last + 1
        };
        self.rows.push(
            Task {
                id,
                title: draft.title,
                description: draft.description,
                create_date: draft.create_date,
                status: draft.status,
                deleted: draft.deleted,
            },
        );
        Ok(id)
    }

    /// The row with the given id, or `NotFound`.
    pub fn find_by_id(&self, id: u64) -> (r: Result<Task, StoreError>)
        requires
            self.wf(),
        ensures
            r == match self.lookup(id) {
                Some(t) => Ok(t),
                None => Err(StoreError::NotFound),
            },
    {
        match self.position(id) {
            Some(i) => {
                let t = self.rows[i].copied();
                proof {
                    let k = choose|k: int| 0 <= k < self.rows@.len() && self.rows@[k].id == id;
                    assert(k == i as int) by {
                        if k < i as int {
                            assert(self.rows@[k].id < self.rows@[i as int].id);
                        } else if k > i as int {
                            assert(self.rows@[i as int].id < self.rows@[k].id);
                        }
                    }
                }
                Ok(t)
            },
            None => Err(StoreError::NotFound),
        }
    }

    /// The rows whose title starts with `prefix`, active and deleted alike, in table
    /// order.
    pub fn find_by_title_prefix(&self, prefix: &str) -> (r: Vec<Task>)
        ensures
            r@ == self.rows@.filter(title_pred(prefix@)),
    {
        let mut out: Vec<Task> = Vec::new();
        let mut i: usize = 0;
        while i < self.rows.len()
            invariant
                i <= self.rows@.len(),
                out@ == self.rows@.take(i as int).filter(title_pred(prefix@)),
            decreases self.rows@.len() - i,
        {
            let keep = starts_with(self.rows[i].title.as_str(), prefix);
            if keep {
                out.push(self.rows[i].copied());
            }
            proof {
                assert(self.rows@.take(i + 1).drop_last() =~= self.rows@.take(i as int));
                reveal(Seq::filter);
            }
            i += 1;
        }
        assert(self.rows@.take(i as int) =~= self.rows@);
        out
    }

    /// The rows created from `start` to `end`, both included, by lexical order of
    /// the creation date, in table order.
    pub fn find_between_dates(&self, start: &str, end: &str) -> (r: Vec<Task>)
        ensures
            r@ == self.rows@.filter(date_pred(start@, end@)),
    {
        let mut out: Vec<Task> = Vec::new();
        let mut i: usize = 0;
        while i < self.rows.len()
            invariant
                i <= self.rows@.len(),
                out@ == self.rows@.take(i as int).filter(date_pred(start@, end@)),
            decreases self.rows@.len() - i,
        {
            let date = self.rows[i].create_date.as_str();
            if text_le_exec(start, date) && text_le_exec(date, end) {
                out.push(self.rows[i].copied());
            }
            proof {
                assert(self.rows@.take(i + 1).drop_last() =~= self.rows@.take(i as int));
                reveal(Seq::filter);
            }
            i += 1;
        }
        assert(self.rows@.take(i as int) =~= self.rows@);
        out
    }

    /// Marks the row with the given id as deleted. An id that no row has is no
    /// error: nothing changes.
    pub fn soft_delete(&mut self, id: u64) -> (r: Result<(), StoreError>)
        requires
            old(self).wf(),
        ensures
            r is Ok,
            final(self).wf(),
            final(self).rows@ == old(self).rows@.map_values(
                |t: Task|
                    if t.id == id {
                        marked_deleted(t)
                    } else {
                        t
                    },
            ),
    {
        let ghost before = self.rows@;
        match self.position(id) {
            Some(i) => {
                let t = self.rows[i].copied();
                self.rows[i] = Task {
                    id: t.id,
                    title: t.title,
                    description: t.description,
                    create_date: t.create_date,
                    status: t.status,
                    deleted: 1,
                };
                proof {
                    assert forall|j: int| 0 <= j < before.len() && j != i implies before[j].id
                        != id by {
                        if j < i {
                            assert(before[j].id < before[i as int].id);
                        } else {
                            assert(before[i as int].id < before[j].id);
                        }
                    }
                }
            },
            None => {},
        }
        assert(self.rows@ =~= before.map_values(
            |t: Task|
                if t.id == id {
                    marked_deleted(t)
                } else {
                    t
                },
        ));
        Ok(())
    }

    /// Applies `patch` to the row with the given id. A missing id is reported as
    /// `NotFound` and changes nothing.
    pub fn apply_patch(&mut self, id: u64, patch: UpdateTask) -> (r: Result<(), StoreError>)
        requires
            old(self).wf(),
        ensures
            final(self).wf(),
            r is Ok <==> old(self).has_id(id),
            r matches Err(e) ==> e == StoreError::NotFound,
            final(self).rows@ == old(self).rows@.map_values(
                |t: Task|
                    if t.id == id {
                        t.patched(patch)
                    } else {
                        t
                    },
            ),
    {
        let ghost before = self.rows@;
        let ghost p = patch;
        match self.position(id) {
            Some(i) => {
                let t = self.rows[i].copied();
                self.rows[i] = t.from(patch);
                proof {
                    assert forall|j: int| 0 <= j < before.len() && j != i implies before[j].id
                        != id by {
                        if j < i {
                            assert(before[j].id < before[i as int].id);
                        } else {
                            assert(before[i as int].id < before[j].id);
                        }
                    }
                    assert(self.rows@ =~= before.map_values(
                        |t: Task|
                            if t.id == id {
                                t.patched(p)
                            } else {
                                t
                            },
                    ));
                }
                Ok(())
            },
            None => {
                assert(self.rows@ =~= before.map_values(
                    |t: Task|
                        if t.id == id {
                            t.patched(p)
                        } else {
                            t
                        },
                ));
                Err(StoreError::NotFound)
            },
        }
    }
}

/// A row inserted under the next id is found again under that id, with the fields
/// of its draft.
pub proof fn lemma_insert_then_find(before: TaskTable, after: TaskTable, draft: AddTask, id: u64)
    requires
        before.wf(),
        id == before.next_id(),
        after.rows@ == before.rows@.push(Task::from_draft(id, draft)),
    ensures
        after.wf(),
        after.lookup(id) == Some(Task::from_draft(id, draft)),
        after.lookup(id)->0.title == draft.title,
        after.lookup(id)->0.description == draft.description,
        after.lookup(id)->0.create_date == draft.create_date,
        after.lookup(id)->0.status == draft.status,
        after.lookup(id)->0.deleted == draft.deleted,
{
    let n = before.rows@.len();
    assert(after.rows@[n as int].id == id);
    assert(after.has_id(id));
    let k = choose|k: int| 0 <= k < after.rows@.len() && after.rows@[k].id == id;
    if k < n {
        assert(before.rows@[k].id <= before.rows@.last().id) by {
            if k < n - 1 {
                assert(before.rows@[k].id < before.rows@[n - 1].id);
            }
        }
    }
    assert(k == n);
    assert forall|a: int, b: int| 0 <= a < b < after.rows@.len() implies after.rows@[a].id
        < after.rows@[b].id by {
        if b == n && a < n - 1 {
            assert(before.rows@[a].id < before.rows@[n - 1].id);
        }
    }
}

/// Patching with a patch whose fields are all absent leaves every row as it was.
pub proof fn lemma_empty_patch_keeps_rows(rows: Seq<Task>, id: u64, p: UpdateTask)
    requires
        p.is_empty(),
    ensures
        rows.map_values(
            |t: Task|
                if t.id == id {
                    t.patched(p)
                } else {
                    t
                },
        ) == rows,
{
    assert(rows.map_values(
        |t: Task|
            if t.id == id {
                t.patched(p)
            } else {
                t
            },
    ) =~= rows);
}

/// Soft-deleting an id that no row has changes no row.
pub proof fn lemma_soft_delete_missing_id_changes_nothing(t: TaskTable, id: u64)
    requires
        !t.has_id(id),
    ensures
        t.rows@.map_values(
            |r: Task|
                if r.id == id {
                    marked_deleted(r)
                } else {
                    r
                },
        ) == t.rows@,
{
    assert(t.rows@.map_values(
        |r: Task|
            if r.id == id {
                marked_deleted(r)
            } else {
                r
            },
    ) =~= t.rows@);
}

/// The empty prefix keeps every row, active and deleted alike.
pub proof fn lemma_empty_prefix_keeps_all(rows: Seq<Task>)
    ensures
        rows.filter(title_pred(Seq::<char>::empty())) == rows,
    decreases rows.len(),
{
    reveal(Seq::filter);
    if rows.len() > 0 {
        lemma_empty_prefix_keeps_all(rows.drop_last());
        assert(has_prefix(Seq::<char>::empty(), rows.last().title@));
        assert(rows.drop_last().push(rows.last()) =~= rows);
    }
}

/// Lexical order is reflexive, so a date search includes both of its ends.
pub proof fn lemma_text_le_reflexive(a: Seq<char>, i: int)
    requires
        0 <= i,
    ensures
        text_le_from(a, a, i),
    decreases a.len() - i,
{
    if i < a.len() {
        lemma_text_le_reflexive(a, i + 1);
    }
}

/// A date search returns only rows dated within its bounds, and every such row.
pub proof fn lemma_date_search_bounds(rows: Seq<Task>, start: Seq<char>, end: Seq<char>)
    ensures
        forall|i: int|
            0 <= i < rows.filter(date_pred(start, end)).len() ==> {
                let d = #[trigger] rows.filter(date_pred(start, end))[i].create_date@;
                text_le(start, d) && text_le(d, end)
            },
        forall|i: int|
            0 <= i < rows.len() && text_le(start, rows[i].create_date@) && text_le(
                rows[i].create_date@,
                end,
            ) ==> #[trigger] rows.filter(date_pred(start, end)).contains(rows[i]),
        text_le(start, start),
        text_le(end, end),
{
    lemma_text_le_reflexive(start, 0);
    lemma_text_le_reflexive(end, 0);
    assert forall|i: int|
        0 <= i < rows.filter(date_pred(start, end)).len() implies {
        let d = #[trigger] rows.filter(date_pred(start, end))[i].create_date@;
        text_le(start, d) && text_le(d, end)
    } by {
        assert(date_pred(start, end)(rows.filter(date_pred(start, end))[i]));
    }
    assert forall|i: int|
        0 <= i < rows.len() && text_le(start, rows[i].create_date@) && text_le(
            rows[i].create_date@,
            end,
        ) implies #[trigger] rows.filter(date_pred(start, end)).contains(rows[i]) by {
        assert(date_pred(start, end)(rows[i]));
    }
}

} // verus!
