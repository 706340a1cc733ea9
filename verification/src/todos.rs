//! Owner-scoped storage of to-do entries.
//!
//! The store models the todos table: every read and every mutation is
//! filtered by the pair (owning user id, todo id), so one user's
//! operations can never touch another user's rows.  Rows carry a
//! server-assigned id and creation time; ids are unique and creation
//! times are non-decreasing in insertion order.

use vstd::prelude::*;

verus! {

/// One row of the todos table.
pub struct Todo {
    pub todo_id: u64,
    pub user_id: u64,
    pub content: String,
    pub done: bool,
    pub created_at: i64,
}

/// Mathematical image of a row.
pub struct TodoView {
    pub todo_id: u64,
    pub user_id: u64,
    pub content: Seq<char>,
    pub done: bool,
    pub created_at: i64,
}

impl View for Todo {
    type V = TodoView;

    open spec fn view(&self) -> TodoView {
        TodoView {
            todo_id: self.todo_id,
            user_id: self.user_id,
            content: self.content@,
            done: self.done,
            created_at: self.created_at,
        }
    }
}

impl Clone for Todo {
    fn clone(&self) -> (r: Self)
        ensures
            r@ == self@,
    {
        Todo {
            todo_id: self.todo_id,
            user_id: self.user_id,
            content: self.content.clone(),
            done: self.done,
            created_at: self.created_at,
        }
    }
}

/// The row is the one addressed by an owner-scoped request.
pub open spec fn row_matches(t: TodoView, user_id: u64, todo_id: u64) -> bool {
    t.user_id == user_id && t.todo_id == todo_id
}

/// Some row is addressed by the request.
pub open spec fn has_row(s: Seq<TodoView>, user_id: u64, todo_id: u64) -> bool {
    exists|i: int| 0 <= i < s.len() && row_matches(s[i], user_id, todo_id)
}

/// The subsequence of rows owned by `user_id`, in table order.
pub open spec fn owned_by(s: Seq<TodoView>, user_id: u64) -> Seq<TodoView>
    decreases s.len(),
{
    if s.len() == 0 {
        Seq::empty()
    } else {
        let rest = owned_by(s.drop_last(), user_id);
        if s.last().user_id == user_id {
            rest.push(s.last())
        } else {
            rest
        }
    }
}

/// The table after an owner-scoped toggle of the completion flag.
pub open spec fn toggled(s: Seq<TodoView>, user_id: u64, todo_id: u64) -> Seq<TodoView> {
    Seq::new(
        s.len(),
        |i: int|
            if row_matches(s[i], user_id, todo_id) {
                TodoView {
                    todo_id: s[i].todo_id,
                    user_id: s[i].user_id,
                    content: s[i].content,
                    done: !s[i].done,
                    created_at: s[i].created_at,
                }
            } else {
                s[i]
            },
    )
}

/// The table after an owner-scoped rewrite of the content.
pub open spec fn rewritten(
    s: Seq<TodoView>,
    user_id: u64,
    todo_id: u64,
    content: Seq<char>,
) -> Seq<TodoView> {
    Seq::new(
        s.len(),
        |i: int|
            if row_matches(s[i], user_id, todo_id) {
                TodoView {
                    todo_id: s[i].todo_id,
                    user_id: s[i].user_id,
                    content: content,
                    done: s[i].done,
                    created_at: s[i].created_at,
                }
            } else {
                s[i]
            },
    )
}

/// The table after an owner-scoped delete, in table order.
pub open spec fn without_row(s: Seq<TodoView>, user_id: u64, todo_id: u64) -> Seq<TodoView>
    decreases s.len(),
{
    if s.len() == 0 {
        Seq::empty()
    } else {
        let rest = without_row(s.drop_last(), user_id, todo_id);
        if row_matches(s.last(), user_id, todo_id) {
            rest
        } else {
            rest.push(s.last())
        }
    }
}

/// No two rows share an id.
pub open spec fn ids_unique(s: Seq<TodoView>) -> bool {
    forall|i: int, j: int| 0 <= i < j < s.len() ==> s[i].todo_id != s[j].todo_id
}

/// Creation times never decrease along the table.
pub open spec fn time_ordered(s: Seq<TodoView>) -> bool {
    forall|i: int, j: int| 0 <= i <= j < s.len() ==> s[i].created_at <= s[j].created_at
}

/// The todos table, with the id and clock state the server assigns from.
pub struct TodoStore {
    pub rows: Vec<Todo>,
    pub next_id: u64,
    pub last_time: i64,
}

impl View for TodoStore {
    type V = Seq<TodoView>;

    open spec fn view(&self) -> Seq<TodoView> {
        self.rows@.map_values(|t: Todo| t@)
    }
}

impl TodoStore {
    /// Well-formedness: unique ids below the id counter, creation times
    /// non-decreasing and bounded by the last assigned time.
    pub open spec fn wf(&self) -> bool {
        &&& ids_unique(self@)
        &&& time_ordered(self@)
        &&& forall|i: int| 0 <= i < self@.len() ==> (#[trigger] self@[i]).todo_id < self.next_id
        &&& forall|i: int| 0 <= i < self@.len() ==> (#[trigger] self@[i]).created_at <= self.last_time
    }

    pub fn new() -> (s: Self)
        ensures
            s@ == Seq::<TodoView>::empty(),
            s.next_id == 0,
            s.last_time == i64::MIN,
            s.wf(),
    {
        let s = TodoStore { rows: Vec::new(), next_id: 0, last_time: i64::MIN };
        proof {
            assert(s@ =~= Seq::<TodoView>::empty());
        }
        s
    }

    /// Insert a row for `user_id` with a fresh id, `done` false, and a
    /// server-assigned creation time that never runs backwards.
    pub fn create_todo(&mut self, user_id: u64, content: String, now: i64) -> (t: Todo)
        requires
            old(self).wf(),
            old(self).next_id < u64::MAX,
        ensures
            final(self).wf(),
            t@.user_id == user_id,
            t@.content == content@,
            t@.done == false,
            (t@.created_at == if now > old(self).last_time {
                now
            } else {
                old(self).last_time
            }),
            forall|i: int| 0 <= i < old(self)@.len()
                ==> (#[trigger] old(self)@[i]).todo_id != t@.todo_id,
            final(self)@ == old(self)@.push(t@),
    {
        let stamp = if now > self.last_time {
            now
        } else {
            self.last_time
        };
        let t = Todo {
            todo_id: self.next_id,
            user_id,
            content,
            done: false,
            created_at: stamp,
        };
        let copy = t.clone();
        self.rows.push(t);
        self.next_id = self.next_id + 1;
        self.last_time = stamp;
        proof {
            assert(self@ =~= old(self)@.push(copy@));
        }
        copy
    }

    /// All rows owned by `user_id`, in creation order.
    pub fn get_todos(&self, user_id: u64) -> (r: Vec<Todo>)
        requires
            self.wf(),
        ensures
            r@.map_values(|t: Todo| t@) == owned_by(self@, user_id),
            time_ordered(r@.map_values(|t: Todo| t@)),
            forall|a: int| 0 <= a < r@.len() ==> (#[trigger] r@[a])@.user_id == user_id,
    {
        let ghost vs = self@;
        let mut r: Vec<Todo> = Vec::new();
        let n = self.rows.len();
        let mut i: usize = 0;
        while i < n
            invariant
                n == self.rows.len(),
                vs == self@,
                n == vs.len(),
                0 <= i <= n,
                r@.map_values(|t: Todo| t@) == owned_by(vs.subrange(0, i as int), user_id),
            decreases n - i,
        {
            let ghost pre = r@.map_values(|t: Todo| t@);
            if self.rows[i].user_id == user_id {
                let copy = self.rows[i].clone();
                r.push(copy);
                proof {
                    assert(r@.map_values(|t: Todo| t@) =~= pre.push(vs[i as int]));
                }
            }
            proof {
                assert(vs.subrange(0, i as int + 1).drop_last() =~= vs.subrange(0, i as int));
                assert(vs.subrange(0, i as int + 1).last() == vs[i as int]);
            }
            i = i + 1;
        }
        proof {
            assert(vs.subrange(0, n as int) =~= vs);
            lemma_owned_by_elements(vs, user_id);
            lemma_owned_by_ordered(vs, user_id);
            assert forall|a: int| 0 <= a < r@.len() implies (#[trigger] r@[a])@.user_id
                == user_id by {
                assert(r@.map_values(|t: Todo| t@)[a] == r@[a]@);
            }
        }
        r
    }

    /// The row addressed by `(user_id, todo_id)`, if the caller owns it.
    /// An id owned by someone else and an absent id are alike: `None`.
    pub fn get_todo_by_id(&self, user_id: u64, todo_id: u64) -> (r: Option<Todo>)
        ensures
            (match r {
                Some(t) => self@.contains(t@) && row_matches(t@, user_id, todo_id),
                None => !has_row(self@, user_id, todo_id),
            }),
    {
        let n = self.rows.len();
        let mut i: usize = 0;
        while i < n
            invariant
                n == self.rows.len(),
                n == self@.len(),
                0 <= i <= n,
                forall|j: int| 0 <= j < i ==> !row_matches(self@[j], user_id, todo_id),
            decreases n - i,
        {
            if self.rows[i].user_id == user_id && self.rows[i].todo_id == todo_id {
                let copy = self.rows[i].clone();
                proof {
                    assert(self@[i as int] == copy@);
                }
                return Some(copy);
            }
            i = i + 1;
        }
        None
    }

    /// Flip the completion flag of the addressed row, atomically at the
    /// table.  Returns whether any row was affected.
    pub fn toggle_todo_by_id(&mut self, user_id: u64, todo_id: u64) -> (r: bool)
        requires
            old(self).wf(),
        ensures
            final(self).wf(),
            final(self)@ == toggled(old(self)@, user_id, todo_id),
            r == has_row(old(self)@, user_id, todo_id),
    {
        let ghost vs = self@;
        let mut out: Vec<Todo> = Vec::new();
        let mut found = false;
        let n = self.rows.len();
        let mut i: usize = 0;
        while i < n
            invariant
                n == self.rows.len(),
                vs == self@,
                n == vs.len(),
                0 <= i <= n,
                out@.len() == i,
                forall|j: int| 0 <= j < i ==> (#[trigger] out@[j])@ == toggled(vs, user_id, todo_id)[j],
                found == exists|j: int| 0 <= j < i && row_matches(vs[j], user_id, todo_id),
            decreases n - i,
        {
            proof {
                assert(vs[i as int] == self.rows@[i as int]@);
            }
            if self.rows[i].user_id == user_id && self.rows[i].todo_id == todo_id {
                let mut copy = self.rows[i].clone();
                copy.done = !copy.done;
                out.push(copy);
                found = true;
            } else {
                out.push(self.rows[i].clone());
            }
            i = i + 1;
        }
        self.rows = out;
        proof {
            assert(self@ =~= toggled(vs, user_id, todo_id));
            lemma_toggled_wf(vs, user_id, todo_id, old(self).next_id, old(self).last_time);
        }
        found
    }

    /// Rewrite the content of the addressed row.  Returns whether any
    /// row was affected.
    pub fn update_todo_by_id(&mut self, user_id: u64, todo_id: u64, content: String) -> (r: bool)
        requires
            old(self).wf(),
        ensures
            final(self).wf(),
            final(self)@ == rewritten(old(self)@, user_id, todo_id, content@),
            r == has_row(old(self)@, user_id, todo_id),
    {
        let ghost vs = self@;
        let mut out: Vec<Todo> = Vec::new();
        let mut found = false;
        let n = self.rows.len();
        let mut i: usize = 0;
        while i < n
            invariant
                n == self.rows.len(),
                vs == self@,
                n == vs.len(),
                0 <= i <= n,
                out@.len() == i,
                forall|j: int| 0 <= j < i
                    ==> (#[trigger] out@[j])@ == rewritten(vs, user_id, todo_id, content@)[j],
                found == exists|j: int| 0 <= j < i && row_matches(vs[j], user_id, todo_id),
            decreases n - i,
        {
            proof {
                assert(vs[i as int] == self.rows@[i as int]@);
            }
            if self.rows[i].user_id == user_id && self.rows[i].todo_id == todo_id {
                let mut copy = self.rows[i].clone();
                copy.content = content.clone();
                out.push(copy);
                found = true;
            } else {
                out.push(self.rows[i].clone());
            }
            i = i + 1;
        }
        self.rows = out;
        proof {
            assert(self@ =~= rewritten(vs, user_id, todo_id, content@));
            lemma_rewritten_wf(vs, user_id, todo_id, content@, old(self).next_id, old(self).last_time);
        }
        found
    }

    /// Remove the addressed row.  Returns whether any row was affected.
    pub fn delete_todo_by_id(&mut self, user_id: u64, todo_id: u64) -> (r: bool)
        requires
            old(self).wf(),
        ensures
            final(self).wf(),
            final(self)@ == without_row(old(self)@, user_id, todo_id),
            r == has_row(old(self)@, user_id, todo_id),
    {
        let ghost vs = self@;
        let mut out: Vec<Todo> = Vec::new();
        let mut found = false;
        let n = self.rows.len();
        let mut i: usize = 0;
        while i < n
            invariant
                n == self.rows.len(),
                vs == self@,
                n == vs.len(),
                0 <= i <= n,
                out@.map_values(|t: Todo| t@) == without_row(vs.subrange(0, i as int), user_id, todo_id),
                found == exists|j: int| 0 <= j < i && row_matches(vs[j], user_id, todo_id),
            decreases n - i,
        {
            let ghost pre = out@.map_values(|t: Todo| t@);
            if self.rows[i].user_id == user_id && self.rows[i].todo_id == todo_id {
                found = true;
            } else {
                let copy = self.rows[i].clone();
                out.push(copy);
                proof {
                    assert(out@.map_values(|t: Todo| t@) =~= pre.push(vs[i as int]));
                }
            }
            proof {
                assert(vs.subrange(0, i as int + 1).drop_last() =~= vs.subrange(0, i as int));
                assert(vs.subrange(0, i as int + 1).last() == vs[i as int]);
            }
            i = i + 1;
        }
        self.rows = out;
        proof {
            assert(vs.subrange(0, n as int) =~= vs);
            lemma_without_row_wf(vs, user_id, todo_id);
            assert forall|a: int| 0 <= a < self@.len() implies (#[trigger] self@[a]).todo_id
                < self.next_id && self@[a].created_at <= self.last_time by {
                lemma_without_row_elements(vs, user_id, todo_id);
                let w = without_row(vs, user_id, todo_id);
                let i = choose|i: int| 0 <= i < vs.len() && vs[i] == w[a];
                assert(vs[i].todo_id < self.next_id);
            }
        }
        found
    }
}

/// Every row of the owner's listing is a row of the table and is owned
/// by the owner.
pub proof fn lemma_owned_by_elements(s: Seq<TodoView>, user_id: u64)
    ensures
        forall|a: int| 0 <= a < owned_by(s, user_id).len()
            ==> s.contains(#[trigger] owned_by(s, user_id)[a])
                && owned_by(s, user_id)[a].user_id == user_id,
    decreases s.len(),
{
    if s.len() > 0 {
        lemma_owned_by_elements(s.drop_last(), user_id);
        let rest = owned_by(s.drop_last(), user_id);
        assert forall|a: int| 0 <= a < owned_by(s, user_id).len() implies s.contains(
            #[trigger] owned_by(s, user_id)[a],
        ) && owned_by(s, user_id)[a].user_id == user_id by {
            if a < rest.len() {
                let x = rest[a];
                assert(s.drop_last().contains(x));
                let i = choose|i: int| 0 <= i < s.drop_last().len() && s.drop_last()[i] == x;
                assert(s[i] == x);
            } else {
                assert(owned_by(s, user_id)[a] == s.last());
                assert(s[s.len() - 1] == s.last());
            }
        }
    }
}

/// A listing drawn from a time-ordered table is time-ordered: the order
/// in which the owner created the rows is the order in which they come
/// back.
pub proof fn lemma_owned_by_ordered(s: Seq<TodoView>, user_id: u64)
    requires
        time_ordered(s),
    ensures
        time_ordered(owned_by(s, user_id)),
    decreases s.len(),
{
    if s.len() > 0 {
        lemma_owned_by_ordered(s.drop_last(), user_id);
        lemma_owned_by_elements(s.drop_last(), user_id);
        let rest = owned_by(s.drop_last(), user_id);
        if s.last().user_id == user_id {
            assert forall|i: int, j: int| 0 <= i <= j < rest.push(s.last()).len() implies rest.push(
                s.last(),
            )[i].created_at <= rest.push(s.last())[j].created_at by {
                if j < rest.len() {
                } else if i < rest.len() {
                    let x = rest[i];
                    assert(s.drop_last().contains(x));
                    let k = choose|k: int| 0 <= k < s.drop_last().len() && s.drop_last()[k] == x;
                    assert(s[k].created_at <= s[s.len() - 1].created_at);
                }
            }
        }
    }
}

/// Appending a row extends its owner's listing by that row and leaves
/// every other owner's listing unchanged.
pub proof fn lemma_owned_by_push(s: Seq<TodoView>, t: TodoView, user_id: u64)
    ensures
        t.user_id == user_id ==> owned_by(s.push(t), user_id) == owned_by(s, user_id).push(t),
        t.user_id != user_id ==> owned_by(s.push(t), user_id) == owned_by(s, user_id),
{
    assert(s.push(t).drop_last() =~= s);
    assert(s.push(t).last() == t);
}

/// Appending any number of rows owned by one user extends that user's
/// listing by exactly those rows, in the order they were appended.
pub proof fn lemma_listing_after_creations(s: Seq<TodoView>, added: Seq<TodoView>, user_id: u64)
    requires
        forall|i: int| 0 <= i < added.len() ==> (#[trigger] added[i]).user_id == user_id,
    ensures
        owned_by(s + added, user_id) == owned_by(s, user_id) + added,
    decreases added.len(),
{
    if added.len() == 0 {
        assert(s + added =~= s);
        assert(owned_by(s, user_id) + added =~= owned_by(s, user_id));
    } else {
        let head = added.drop_last();
        let last = added.last();
        assert(forall|i: int| 0 <= i < head.len() ==> (#[trigger] head[i]).user_id == user_id);
        lemma_listing_after_creations(s, head, user_id);
        assert(s + added =~= (s + head).push(last));
        lemma_owned_by_push(s + head, last, user_id);
        assert(owned_by(s, user_id) + added =~= (owned_by(s, user_id) + head).push(last));
    }
}

/// A toggle addressed to no row of the table leaves it unchanged.
pub proof fn lemma_toggled_absent(s: Seq<TodoView>, user_id: u64, todo_id: u64)
    requires
        !has_row(s, user_id, todo_id),
    ensures
        toggled(s, user_id, todo_id) == s,
{
    assert(toggled(s, user_id, todo_id) =~= s);
}

/// A rewrite addressed to no row of the table leaves it unchanged.
pub proof fn lemma_rewritten_absent(s: Seq<TodoView>, user_id: u64, todo_id: u64, content: Seq<char>)
    requires
        !has_row(s, user_id, todo_id),
    ensures
        rewritten(s, user_id, todo_id, content) == s,
{
    assert(rewritten(s, user_id, todo_id, content) =~= s);
}

/// A delete addressed to no row of the table leaves it unchanged.
pub proof fn lemma_without_row_absent(s: Seq<TodoView>, user_id: u64, todo_id: u64)
    requires
        !has_row(s, user_id, todo_id),
    ensures
        without_row(s, user_id, todo_id) == s,
    decreases s.len(),
{
    if s.len() > 0 {
        assert(forall|i: int| 0 <= i < s.drop_last().len()
            ==> !row_matches(#[trigger] s.drop_last()[i], user_id, todo_id));
        lemma_without_row_absent(s.drop_last(), user_id, todo_id);
        assert(!row_matches(s[s.len() - 1], user_id, todo_id));
        assert(without_row(s, user_id, todo_id) =~= s);
    }
}

/// Toggling the same addressed row twice returns the table to its
/// original state.
pub proof fn lemma_toggle_twice(s: Seq<TodoView>, user_id: u64, todo_id: u64)
    ensures
        toggled(toggled(s, user_id, todo_id), user_id, todo_id) == s,
{
    assert(toggled(toggled(s, user_id, todo_id), user_id, todo_id) =~= s);
}

/// A row owned by one user is out of reach of every other user: the
/// other user's lookup misses, and the other user's toggle, rewrite and
/// delete all leave the table unchanged.
pub proof fn lemma_cross_user_no_access(
    s: Seq<TodoView>,
    owner: u64,
    other: u64,
    todo_id: u64,
    content: Seq<char>,
)
    requires
        ids_unique(s),
        has_row(s, owner, todo_id),
        other != owner,
    ensures
        !has_row(s, other, todo_id),
        toggled(s, other, todo_id) == s,
        rewritten(s, other, todo_id, content) == s,
        without_row(s, other, todo_id) == s,
{
    let i = choose|i: int| 0 <= i < s.len() && row_matches(s[i], owner, todo_id);
    assert forall|j: int| 0 <= j < s.len() implies !row_matches(#[trigger] s[j], other, todo_id) by {
        if s[j].todo_id == todo_id {
            if i < j {
                assert(s[i].todo_id != s[j].todo_id);
            } else if j < i {
                assert(s[j].todo_id != s[i].todo_id);
            }
        }
    }
    lemma_toggled_absent(s, other, todo_id);
    lemma_rewritten_absent(s, other, todo_id, content);
    lemma_without_row_absent(s, other, todo_id);
}

/// Every row surviving a delete is a row of the original table.
pub proof fn lemma_without_row_elements(s: Seq<TodoView>, user_id: u64, todo_id: u64)
    ensures
        forall|a: int| 0 <= a < without_row(s, user_id, todo_id).len()
            ==> s.contains(#[trigger] without_row(s, user_id, todo_id)[a]),
    decreases s.len(),
{
    if s.len() > 0 {
        lemma_without_row_elements(s.drop_last(), user_id, todo_id);
        let rest = without_row(s.drop_last(), user_id, todo_id);
        assert forall|a: int| 0 <= a < without_row(s, user_id, todo_id).len() implies s.contains(
            #[trigger] without_row(s, user_id, todo_id)[a],
        ) by {
            if a < rest.len() {
                let x = rest[a];
                assert(s.drop_last().contains(x));
                let i = choose|i: int| 0 <= i < s.drop_last().len() && s.drop_last()[i] == x;
                assert(s[i] == x);
            } else {
                assert(without_row(s, user_id, todo_id)[a] == s.last());
                assert(s[s.len() - 1] == s.last());
            }
        }
    }
}

/// A delete preserves id uniqueness and time order.
pub proof fn lemma_without_row_wf(s: Seq<TodoView>, user_id: u64, todo_id: u64)
    requires
        ids_unique(s),
        time_ordered(s),
    ensures
        ids_unique(without_row(s, user_id, todo_id)),
        time_ordered(without_row(s, user_id, todo_id)),
    decreases s.len(),
{
    if s.len() > 0 {
        lemma_without_row_wf(s.drop_last(), user_id, todo_id);
        lemma_without_row_elements(s.drop_last(), user_id, todo_id);
        let rest = without_row(s.drop_last(), user_id, todo_id);
        let w = without_row(s, user_id, todo_id);
        if !row_matches(s.last(), user_id, todo_id) {
            assert forall|i: int, j: int| 0 <= i < j < w.len() implies w[i].todo_id
                != w[j].todo_id by {
                if j == rest.len() {
                    let x = rest[i];
                    assert(s.drop_last().contains(x));
                    let k = choose|k: int| 0 <= k < s.drop_last().len() && s.drop_last()[k] == x;
                    assert(s[k].todo_id != s[s.len() - 1].todo_id);
                }
            }
            assert forall|i: int, j: int| 0 <= i <= j < w.len() implies w[i].created_at
                <= w[j].created_at by {
                if j == rest.len() && i < rest.len() {
                    let x = rest[i];
                    assert(s.drop_last().contains(x));
                    let k = choose|k: int| 0 <= k < s.drop_last().len() && s.drop_last()[k] == x;
                    assert(s[k].created_at <= s[s.len() - 1].created_at);
                }
            }
        }
    }
}

/// A toggle keeps ids, owners and creation times pointwise, so it
/// preserves well-formedness bounds.
proof fn lemma_toggled_wf(s: Seq<TodoView>, user_id: u64, todo_id: u64, id_bound: u64, time_bound: i64)
    requires
        ids_unique(s),
        time_ordered(s),
        forall|i: int| 0 <= i < s.len() ==> (#[trigger] s[i]).todo_id < id_bound,
        forall|i: int| 0 <= i < s.len() ==> (#[trigger] s[i]).created_at <= time_bound,
    ensures
        ids_unique(toggled(s, user_id, todo_id)),
        time_ordered(toggled(s, user_id, todo_id)),
        forall|i: int| 0 <= i < s.len()
            ==> (#[trigger] toggled(s, user_id, todo_id)[i]).todo_id < id_bound,
        forall|i: int| 0 <= i < s.len()
            ==> (#[trigger] toggled(s, user_id, todo_id)[i]).created_at <= time_bound,
{
    assert(forall|i: int| 0 <= i < s.len()
        ==> (#[trigger] toggled(s, user_id, todo_id)[i]).todo_id == s[i].todo_id
            && toggled(s, user_id, todo_id)[i].created_at == s[i].created_at);
}

/// A rewrite keeps ids, owners and creation times pointwise, so it
/// preserves well-formedness bounds.
proof fn lemma_rewritten_wf(
    s: Seq<TodoView>,
    user_id: u64,
    todo_id: u64,
    content: Seq<char>,
    id_bound: u64,
    time_bound: i64,
)
    requires
        ids_unique(s),
        time_ordered(s),
        forall|i: int| 0 <= i < s.len() ==> (#[trigger] s[i]).todo_id < id_bound,
        forall|i: int| 0 <= i < s.len() ==> (#[trigger] s[i]).created_at <= time_bound,
    ensures
        ids_unique(rewritten(s, user_id, todo_id, content)),
        time_ordered(rewritten(s, user_id, todo_id, content)),
        forall|i: int| 0 <= i < s.len()
            ==> (#[trigger] rewritten(s, user_id, todo_id, content)[i]).todo_id < id_bound,
        forall|i: int| 0 <= i < s.len()
            ==> (#[trigger] rewritten(s, user_id, todo_id, content)[i]).created_at <= time_bound,
{
    assert(forall|i: int| 0 <= i < s.len()
        ==> (#[trigger] rewritten(s, user_id, todo_id, content)[i]).todo_id == s[i].todo_id
            && rewritten(s, user_id, todo_id, content)[i].created_at == s[i].created_at);
}

} // verus!
