use vstd::prelude::*;
use vstd::pervasive::VecAdditionalExecFns;
use crate::repositories::RepositoryError;

verus! {

/// Mathematical value of a stored todo record.
pub ghost struct TodoView {
    pub id: int,
    pub text: Seq<char>,
    pub completed: bool,
}

/// A todo record: a unique positive id assigned by the store, a text, and a
/// completion flag that starts out false.
#[derive(Debug)]
pub struct Todo {
    pub id: i32,
    pub text: String,
    pub completed: bool,
}

impl View for Todo {
    type V = TodoView;

    open spec fn view(&self) -> TodoView {
        TodoView { id: self.id as int, text: self.text@, completed: self.completed }
    }
}

impl Todo {
    pub fn new(id: i32, text: String) -> (t: Todo)
        ensures
            t@ == (TodoView { id: id as int, text: text@, completed: false }),
    {
        Todo { id, text, completed: false }
    }
}

impl Clone for Todo {
    fn clone(&self) -> (t: Todo)
        ensures
            t@ == self@,
    {
        Todo { id: self.id, text: self.text.clone(), completed: self.completed }
    }
}

impl PartialEq for Todo {
    fn eq(&self, other: &Todo) -> (r: bool) {
        self.id == other.id && self.text == other.text && self.completed == other.completed
    }
}

impl vstd::std_specs::cmp::PartialEqSpecImpl for Todo {
    open spec fn obeys_eq_spec() -> bool {
        true
    }

    open spec fn eq_spec(&self, other: &Todo) -> bool {
        self@ == other@
    }
}

/// Input payload for creating a todo; only the text is supplied by the client.
#[derive(Debug)]
pub struct CreateTodo {
    pub text: String,
}

impl View for CreateTodo {
    type V = Seq<char>;

    open spec fn view(&self) -> Seq<char> {
        self.text@
    }
}

impl CreateTodo {
    pub fn new(text: String) -> (c: CreateTodo)
        ensures
            c@ == text@,
    {
        CreateTodo { text }
    }
}

/// Mathematical value of an update payload.
pub ghost struct UpdateTodoView {
    pub text: Option<Seq<char>>,
    pub completed: Option<bool>,
}

/// Patch payload for updating a todo: a field left `None` means "no change".
#[derive(Debug)]
pub struct UpdateTodo {
    pub text: Option<String>,
    pub completed: Option<bool>,
}

impl View for UpdateTodo {
    type V = UpdateTodoView;

    open spec fn view(&self) -> UpdateTodoView {
        UpdateTodoView {
            text: match self.text {
                Some(s) => Some(s@),
                None => None,
            },
            completed: self.completed,
        }
    }
}

impl UpdateTodo {
    pub fn new(text: Option<String>, completed: Option<bool>) -> (u: UpdateTodo)
        ensures
            u@.text == (match text {
                Some(s) => Some(s@),
                None => None::<Seq<char>>,
            }),
            u@.completed == completed,
    {
        UpdateTodo { text, completed }
    }
}

/// The record after applying a patch: fields present in the patch replace the
/// stored ones, fields absent from it are retained, and the id never changes.
pub open spec fn apply_patch(t: TodoView, p: UpdateTodoView) -> TodoView {
    TodoView {
        id: t.id,
        text: match p.text {
            Some(s) => s,
            None => t.text,
        },
        completed: match p.completed {
            Some(c) => c,
            None => t.completed,
        },
    }
}

/// Some stored record carries the given id.
pub open spec fn has_id(s: Seq<TodoView>, id: int) -> bool {
    exists|i: int| 0 <= i < s.len() && (#[trigger] s[i]).id == id
}

/// The position of the record carrying the given id (meaningful when `has_id`
/// holds and ids are in increasing order, which makes them unique).
pub open spec fn idx_of(s: Seq<TodoView>, id: int) -> int {
    choose|i: int| 0 <= i < s.len() && (#[trigger] s[i]).id == id
}

/// Ids appear in strictly increasing order of creation.
pub open spec fn ids_increasing(s: Seq<TodoView>) -> bool {
    forall|i: int, j: int|
        0 <= i < j < s.len() ==> (#[trigger] s[i]).id < (#[trigger] s[j]).id
}

/// Storage-technology-independent interface for todo records: every adapter
/// offers the same create/find/all/update/delete contract, over the sequence
/// of stored records in insertion order.
pub trait TodoRepository: Sized {
    /// The stored records, in insertion order.
    spec fn todos(&self) -> Seq<TodoView>;

    /// The id the store will assign to the record created next.
    spec fn next_id(&self) -> int;

    /// Well-formedness of the store.
    spec fn inv(&self) -> bool;

    /// Whether this adapter can ever report `StoreError`.
    spec fn fallible() -> bool;

    /// Every stored id is positive and below `next_id`, and ids appear in
    /// strictly increasing order, so no id is ever reused after a deletion.
    proof fn inv_properties(&self)
        requires
            self.inv(),
        ensures
            0 < self.next_id(),
            ids_increasing(self.todos()),
            forall|i: int|
                0 <= i < self.todos().len() ==> 0 < (#[trigger] self.todos()[i]).id
                    < self.next_id(),
    ;

    /// Append a fresh record holding the payload's text, not yet completed,
    /// under an id strictly greater than every id handed out before.
    fn create(&mut self, payload: CreateTodo) -> (r: Result<Todo, RepositoryError>)
        requires
            old(self).inv(),
            old(self).next_id() < i32::MAX,
        ensures
            final(self).inv(),
            match r {
                Ok(t) => {
                    &&& t@ == (TodoView {
                        id: old(self).next_id(),
                        text: payload@,
                        completed: false,
                    })
                    &&& final(self).todos() == old(self).todos().push(t@)
                    &&& final(self).next_id() == old(self).next_id() + 1
                    &&& forall|i: int|
                        0 <= i < old(self).todos().len()
                            ==> (#[trigger] old(self).todos()[i]).id < t@.id
                },
                Err(e) => {
                    &&& e == RepositoryError::StoreError
                    &&& Self::fallible()
                    &&& final(self).todos() == old(self).todos()
                    &&& final(self).next_id() == old(self).next_id()
                },
            },
    ;

    /// Look up the record with the given id.
    fn find(&self, id: i32) -> (r: Result<Todo, RepositoryError>)
        requires
            self.inv(),
        ensures
            match r {
                Ok(t) => {
                    &&& has_id(self.todos(), id as int)
                    &&& t@ == self.todos()[idx_of(self.todos(), id as int)]
                },
                Err(e) => match e {
                    RepositoryError::NotFound(missing) => missing == id && !has_id(
                        self.todos(),
                        id as int,
                    ),
                    RepositoryError::StoreError => Self::fallible(),
                },
            },
    ;

    /// All stored records, in insertion order.
    fn all(&self) -> (r: Result<Vec<Todo>, RepositoryError>)
        requires
            self.inv(),
        ensures
            match r {
                Ok(ts) => {
                    &&& ts@.len() == self.todos().len()
                    &&& forall|i: int|
                        0 <= i < ts@.len() ==> (#[trigger] ts@[i])@ == self.todos()[i]
                },
                Err(e) => e == RepositoryError::StoreError && Self::fallible(),
            },
    ;

    /// Rewrite the record with the given id by the patch; its id is kept and
    /// fields absent from the patch are retained.
    fn update(&mut self, id: i32, payload: UpdateTodo) -> (r: Result<Todo, RepositoryError>)
        requires
            old(self).inv(),
        ensures
            final(self).inv(),
            final(self).next_id() == old(self).next_id(),
            match r {
                Ok(t) => {
                    &&& has_id(old(self).todos(), id as int)
                    &&& t@ == apply_patch(
                        old(self).todos()[idx_of(old(self).todos(), id as int)],
                        payload@,
                    )
                    &&& final(self).todos() == old(self).todos().update(
                        idx_of(old(self).todos(), id as int),
                        t@,
                    )
                },
                Err(e) => {
                    &&& final(self).todos() == old(self).todos()
                    &&& match e {
                        RepositoryError::NotFound(missing) => missing == id && !has_id(
                            old(self).todos(),
                            id as int,
                        ),
                        RepositoryError::StoreError => Self::fallible(),
                    }
                },
            },
    ;

    /// Remove the record with the given id.
    fn delete(&mut self, id: i32) -> (r: Result<(), RepositoryError>)
        requires
            old(self).inv(),
        ensures
            final(self).inv(),
            final(self).next_id() == old(self).next_id(),
            match r {
                Ok(_) => {
                    &&& has_id(old(self).todos(), id as int)
                    &&& final(self).todos() == old(self).todos().remove(
                        idx_of(old(self).todos(), id as int),
                    )
                },
                Err(e) => {
                    &&& final(self).todos() == old(self).todos()
                    &&& match e {
                        RepositoryError::NotFound(missing) => missing == id && !has_id(
                            old(self).todos(),
                            id as int,
                        ),
                        RepositoryError::StoreError => Self::fallible(),
                    }
                },
            },
    ;
}

/// In-memory adapter: one owned vector in insertion order plus a monotonic id
/// counter; deterministic, for use without a live database connection.
/// Mutating access is serialised by exclusive references; a concurrent HTTP
/// layer shares one instance behind its own mutual-exclusion guard.
#[derive(Debug)]
pub struct TodoRepositoryForMemory {
    store: Vec<Todo>,
    counter: i32,
}

impl TodoRepositoryForMemory {
    pub fn new() -> (r: TodoRepositoryForMemory)
        ensures
            r.inv(),
            r.todos() == Seq::<TodoView>::empty(),
            r.next_id() == 1,
    {
        let r = TodoRepositoryForMemory { store: Vec::new(), counter: 1 };
        proof {
            assert(r.todos() =~= Seq::<TodoView>::empty());
        }
        r
    }
}

impl TodoRepository for TodoRepositoryForMemory {
    closed spec fn todos(&self) -> Seq<TodoView> {
        self.store@.map_values(|t: Todo| t@)
    }

    closed spec fn next_id(&self) -> int {
        self.counter as int
    }

    closed spec fn inv(&self) -> bool {
        &&& 0 < self.counter
        &&& forall|i: int|
            0 <= i < self.store@.len() ==> 0 < (#[trigger] self.store@[i])@.id < self.counter
        &&& forall|i: int, j: int|
            0 <= i < j < self.store@.len() ==> (#[trigger] self.store@[i])@.id
                < (#[trigger] self.store@[j])@.id
    }

    open spec fn fallible() -> bool {
        false
    }

    proof fn inv_properties(&self) {
        assert forall|i: int| 0 <= i < self.todos().len() implies 0
            < (#[trigger] self.todos()[i]).id < self.next_id() by {
            assert(self.todos()[i] == self.store@[i]@);
        }
        assert forall|i: int, j: int| 0 <= i < j < self.todos().len() implies (
        #[trigger] self.todos()[i]).id < (#[trigger] self.todos()[j]).id by {
            assert(self.todos()[i] == self.store@[i]@);
            assert(self.todos()[j] == self.store@[j]@);
        }
    }

    fn create(&mut self, payload: CreateTodo) -> (r: Result<Todo, RepositoryError>) {
        let id = self.counter;
        self.counter = id + 1;
        let t = Todo { id, text: payload.text, completed: false };
        let stored = t.clone();
        self.store.push(stored);
        proof {
            assert(self.todos() =~= old(self).todos().push(t@));
            assert forall|i: int|
                0 <= i < old(self).todos().len() implies (#[trigger] old(self).todos()[i]).id
                < t@.id by {
                assert(old(self).todos()[i] == old(self).store@[i]@);
            }
        }
        Ok(t)
    }

    fn find(&self, id: i32) -> (r: Result<Todo, RepositoryError>) {
        let n = self.store.len();
        let mut j: usize = 0;
        while j < n
            invariant
                self.inv(),
                n == self.store@.len(),
                j <= n,
                forall|k: int| 0 <= k < j ==> (#[trigger] self.store@[k])@.id != id as int,
            decreases n - j,
        {
            if self.store[j].id == id {
                let t = self.store[j].clone();
                proof {
                    self.inv_properties();
                    assert(self.todos()[j as int] == self.store@[j as int]@);
                    lemma_idx_of(self.todos(), id as int, j as int);
                }
                return Ok(t);
            }
            j += 1;
        }
        proof {
            assert forall|k: int| 0 <= k < self.todos().len() implies (
            #[trigger] self.todos()[k]).id != id as int by {
                assert(self.todos()[k] == self.store@[k]@);
            }
        }
        Err(RepositoryError::NotFound(id))
    }

    fn all(&self) -> (r: Result<Vec<Todo>, RepositoryError>) {
        let n = self.store.len();
        let mut out: Vec<Todo> = Vec::new();
        let mut j: usize = 0;
        while j < n
            invariant
                n == self.store@.len(),
                j <= n,
                out@.len() == j,
                forall|k: int| 0 <= k < j ==> (#[trigger] out@[k])@ == self.store@[k]@,
            decreases n - j,
        {
            out.push(self.store[j].clone());
            j += 1;
        }
        proof {
            assert forall|i: int| 0 <= i < out@.len() implies (#[trigger] out@[i])@
                == self.todos()[i] by {
                assert(self.todos()[i] == self.store@[i]@);
            }
        }
        Ok(out)
    }

    fn update(&mut self, id: i32, payload: UpdateTodo) -> (r: Result<Todo, RepositoryError>) {
        let n = self.store.len();
        let mut j: usize = 0;
        while j < n
            invariant
                self == old(self),
                self.inv(),
                n == self.store@.len(),
                j <= n,
                forall|k: int| 0 <= k < j ==> (#[trigger] self.store@[k])@.id != id as int,
            decreases n - j,
        {
            if self.store[j].id == id {
                let new_text = match &payload.text {
                    Some(s) => s.clone(),
                    None => self.store[j].text.clone(),
                };
                let new_completed = match payload.completed {
                    Some(c) => c,
                    None => self.store[j].completed,
                };
                let t = Todo { id, text: new_text, completed: new_completed };
                let stored = t.clone();
                proof {
                    old(self).inv_properties();
                    assert(old(self).todos()[j as int] == old(self).store@[j as int]@);
                    lemma_idx_of(old(self).todos(), id as int, j as int);
                }
                self.store.set(j, stored);
                proof {
                    assert(self.todos() =~= old(self).todos().update(j as int, t@));
                    assert forall|a: int, b: int|
                        0 <= a < b < self.store@.len() implies (#[trigger] self.store@[a])@.id
                        < (#[trigger] self.store@[b])@.id by {
                        assert(old(self).store@[a]@.id < old(self).store@[b]@.id);
                    }
                    assert forall|a: int|
                        0 <= a < self.store@.len() implies 0 < (#[trigger] self.store@[a])@.id
                        < self.counter by {
                        assert(0 < old(self).store@[a]@.id < old(self).counter);
                    }
                }
                return Ok(t);
            }
            j += 1;
        }
        proof {
            assert forall|k: int| 0 <= k < self.todos().len() implies (
            #[trigger] self.todos()[k]).id != id as int by {
                assert(self.todos()[k] == self.store@[k]@);
            }
        }
        Err(RepositoryError::NotFound(id))
    }

    fn delete(&mut self, id: i32) -> (r: Result<(), RepositoryError>) {
        let n = self.store.len();
        let mut j: usize = 0;
        while j < n
            invariant
                self == old(self),
                self.inv(),
                n == self.store@.len(),
                j <= n,
                forall|k: int| 0 <= k < j ==> (#[trigger] self.store@[k])@.id != id as int,
            decreases n - j,
        {
            if self.store[j].id == id {
                proof {
                    old(self).inv_properties();
                    assert(old(self).todos()[j as int] == old(self).store@[j as int]@);
                    lemma_idx_of(old(self).todos(), id as int, j as int);
                }
                self.store.remove(j);
                proof {
                    assert(self.todos() =~= old(self).todos().remove(j as int));
                    assert forall|a: int, b: int|
                        0 <= a < b < self.store@.len() implies (#[trigger] self.store@[a])@.id
                        < (#[trigger] self.store@[b])@.id by {
                        if b < j {
                            assert(self.store@[a] == old(self).store@[a]);
                            assert(self.store@[b] == old(self).store@[b]);
                        } else if a < j <= b {
                            assert(self.store@[a] == old(self).store@[a]);
                            assert(self.store@[b] == old(self).store@[b + 1]);
                        } else {
                            assert(self.store@[a] == old(self).store@[a + 1]);
                            assert(self.store@[b] == old(self).store@[b + 1]);
                        }
                    }
                    assert forall|a: int|
                        0 <= a < self.store@.len() implies 0 < (#[trigger] self.store@[a])@.id
                        < self.counter by {
                        if a < j {
                            assert(self.store@[a] == old(self).store@[a]);
                        } else {
                            assert(self.store@[a] == old(self).store@[a + 1]);
                        }
                    }
                }
                return Ok(());
            }
            j += 1;
        }
        proof {
            assert forall|k: int| 0 <= k < self.todos().len() implies (
            #[trigger] self.todos()[k]).id != id as int by {
                assert(self.todos()[k] == self.store@[k]@);
            }
        }
        Err(RepositoryError::NotFound(id))
    }
}

/// With ids in increasing order, the position of a record found at `j` is the
/// one `idx_of` names: ids are unique, so there is no other.
proof fn lemma_idx_of(s: Seq<TodoView>, id: int, j: int)
    requires
        ids_increasing(s),
        0 <= j < s.len(),
        s[j].id == id,
    ensures
        has_id(s, id),
        idx_of(s, id) == j,
{
    assert(has_id(s, id));
    let k = idx_of(s, id);
    assert(0 <= k < s.len() && s[k].id == id);
    if k < j {
        assert(s[k].id < s[j].id);
    } else if j < k {
        assert(s[j].id < s[k].id);
    }
}

/// Law: after a create, looking up the created id finds exactly the created
/// record.
pub proof fn lemma_create_then_find(s: Seq<TodoView>, t: TodoView)
    requires
        forall|i: int| 0 <= i < s.len() ==> (#[trigger] s[i]).id < t.id,
    ensures
        has_id(s.push(t), t.id),
        s.push(t)[idx_of(s.push(t), t.id)] == t,
{
    let s2 = s.push(t);
    assert(s2[s.len() as int] == t);
    assert(has_id(s2, t.id));
    let k = idx_of(s2, t.id);
    assert(0 <= k < s2.len() && s2[k].id == t.id);
    if k < s.len() {
        assert(s2[k] == s[k]);
    }
}

/// Law: deleting an id removes it for good: the remaining records hold no
/// record with that id, so a following lookup reports `NotFound`.
pub proof fn lemma_delete_then_find(s: Seq<TodoView>, id: int)
    requires
        ids_increasing(s),
        has_id(s, id),
    ensures
        !has_id(s.remove(idx_of(s, id)), id),
{
    let j = idx_of(s, id);
    assert(0 <= j < s.len() && s[j].id == id);
    let s2 = s.remove(j);
    assert forall|k: int| 0 <= k < s2.len() implies (#[trigger] s2[k]).id != id by {
        if k < j {
            assert(s2[k] == s[k]);
            assert(s[k].id < s[j].id);
        } else {
            assert(s2[k] == s[k + 1]);
            assert(s[j].id < s[k + 1].id);
        }
    }
}

/// Law: a patch never changes the id; fields present in the patch replace the
/// stored ones and fields absent from it are retained.
pub proof fn lemma_patch_fields(t: TodoView, p: UpdateTodoView)
    ensures
        apply_patch(t, p).id == t.id,
        p.text is None ==> apply_patch(t, p).text == t.text,
        p.completed is None ==> apply_patch(t, p).completed == t.completed,
        p.text matches Some(s) ==> apply_patch(t, p).text == s,
        p.completed matches Some(c) ==> apply_patch(t, p).completed == c,
{
}

/// Law: with ids in strictly increasing order, stored records are pairwise
/// distinct by id.
pub proof fn lemma_ids_distinct(s: Seq<TodoView>)
    requires
        ids_increasing(s),
    ensures
        forall|i: int, j: int|
            0 <= i < s.len() && 0 <= j < s.len() && i != j ==> (#[trigger] s[i]).id
                != (#[trigger] s[j]).id,
{
    assert forall|i: int, j: int|
        0 <= i < s.len() && 0 <= j < s.len() && i != j implies (#[trigger] s[i]).id != (
    #[trigger] s[j]).id by {
        if i < j {
            assert(s[i].id < s[j].id);
        } else {
            assert(s[j].id < s[i].id);
        }
    }
}

} // verus!
