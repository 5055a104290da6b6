use vstd::prelude::*;
use crate::repositories::RepositoryError;

verus! {

/// Mathematical value of a stored label record.
pub ghost struct LabelView {
    pub id: int,
    pub name: Seq<char>,
}

/// A label record: a unique positive id assigned by the store and a name.
#[derive(Debug)]
pub struct Label {
    pub id: i32,
    pub name: String,
}

impl View for Label {
    type V = LabelView;

    open spec fn view(&self) -> LabelView {
        LabelView { id: self.id as int, name: self.name@ }
    }
}

impl Label {
    pub fn new(id: i32, name: String) -> (l: Label)
        ensures
            l@ == (LabelView { id: id as int, name: name@ }),
    {
        Label { id, name }
    }
}

impl Clone for Label {
    fn clone(&self) -> (l: Label)
        ensures
            l@ == self@,
    {
        Label { id: self.id, name: self.name.clone() }
    }
}

impl PartialEq for Label {
    fn eq(&self, other: &Label) -> (r: bool) {
        self.id == other.id && self.name == other.name
    }
}

impl vstd::std_specs::cmp::PartialEqSpecImpl for Label {
    open spec fn obeys_eq_spec() -> bool {
        true
    }

    open spec fn eq_spec(&self, other: &Label) -> bool {
        self@ == other@
    }
}

/// Some stored label carries the given id.
pub open spec fn has_id(s: Seq<LabelView>, id: int) -> bool {
    exists|i: int| 0 <= i < s.len() && (#[trigger] s[i]).id == id
}

/// The position of the label carrying the given id (meaningful when `has_id`
/// holds and ids are in increasing order, which makes them unique).
pub open spec fn idx_of(s: Seq<LabelView>, id: int) -> int {
    choose|i: int| 0 <= i < s.len() && (#[trigger] s[i]).id == id
}

/// Ids appear in strictly increasing order of creation.
pub open spec fn ids_increasing(s: Seq<LabelView>) -> bool {
    forall|i: int, j: int|
        0 <= i < j < s.len() ==> (#[trigger] s[i]).id < (#[trigger] s[j]).id
}

/// Storage-technology-independent interface for label records: create by
/// name, list all, delete by id.
pub trait LabelRepository: Sized {
    /// The stored labels, in insertion order.
    spec fn labels(&self) -> Seq<LabelView>;

    /// The id the store will assign to the label created next.
    spec fn next_id(&self) -> int;

    /// Well-formedness of the store.
    spec fn inv(&self) -> bool;

    /// Whether this adapter can ever report `StoreError`.
    spec fn fallible() -> bool;

    /// Every stored id is positive and below `next_id`, and ids appear in
    /// strictly increasing order, so no id is ever reused after a deletion.
    proof fn inv_properties(&self)
        requires
            self.inv(),
        ensures
            0 < self.next_id(),
            ids_increasing(self.labels()),
            forall|i: int|
                0 <= i < self.labels().len() ==> 0 < (#[trigger] self.labels()[i]).id
                    < self.next_id(),
    ;

    /// Append a fresh label with the given name, under an id strictly greater
    /// than every id handed out before.
    fn create(&mut self, name: String) -> (r: Result<Label, RepositoryError>)
        requires
            old(self).inv(),
            old(self).next_id() < i32::MAX,
        ensures
            final(self).inv(),
            match r {
                Ok(l) => {
                    &&& l@ == (LabelView { id: old(self).next_id(), name: name@ })
                    &&& final(self).labels() == old(self).labels().push(l@)
                    &&& final(self).next_id() == old(self).next_id() + 1
                    &&& forall|i: int|
                        0 <= i < old(self).labels().len()
                            ==> (#[trigger] old(self).labels()[i]).id < l@.id
                },
                Err(e) => {
                    &&& e == RepositoryError::StoreError
                    &&& Self::fallible()
                    &&& final(self).labels() == old(self).labels()
                    &&& final(self).next_id() == old(self).next_id()
                },
            },
    ;

    /// All stored labels, in insertion order.
    fn all(&self) -> (r: Result<Vec<Label>, RepositoryError>)
        requires
            self.inv(),
        ensures
            match r {
                Ok(ls) => {
                    &&& ls@.len() == self.labels().len()
                    &&& forall|i: int|
                        0 <= i < ls@.len() ==> (#[trigger] ls@[i])@ == self.labels()[i]
                },
                Err(e) => e == RepositoryError::StoreError && Self::fallible(),
            },
    ;

    /// Remove the label with the given id.
    fn delete(&mut self, id: i32) -> (r: Result<(), RepositoryError>)
        requires
            old(self).inv(),
        ensures
            final(self).inv(),
            final(self).next_id() == old(self).next_id(),
            match r {
                Ok(_) => {
                    &&& has_id(old(self).labels(), id as int)
                    &&& final(self).labels() == old(self).labels().remove(
                        idx_of(old(self).labels(), id as int),
                    )
                },
                Err(e) => {
                    &&& final(self).labels() == old(self).labels()
                    &&& match e {
                        RepositoryError::NotFound(missing) => missing == id && !has_id(
                            old(self).labels(),
                            id as int,
                        ),
                        RepositoryError::StoreError => Self::fallible(),
                    }
                },
            },
    ;
}

/// In-memory adapter: one owned vector in insertion order plus a monotonic id
/// counter; deterministic, for use without a live database connection.
/// Mutating access is serialised by exclusive references; a concurrent HTTP
/// layer shares one instance behind its own mutual-exclusion guard.
#[derive(Debug)]
pub struct LabelRepositoryForMemory {
    store: Vec<Label>,
    counter: i32,
}

impl LabelRepositoryForMemory {
    pub fn new() -> (r: LabelRepositoryForMemory)
        ensures
            r.inv(),
            r.labels() == Seq::<LabelView>::empty(),
            r.next_id() == 1,
    {
        let r = LabelRepositoryForMemory { store: Vec::new(), counter: 1 };
        proof {
            assert(r.labels() =~= Seq::<LabelView>::empty());
        }
        r
    }
}

impl LabelRepository for LabelRepositoryForMemory {
    closed spec fn labels(&self) -> Seq<LabelView> {
        self.store@.map_values(|l: Label| l@)
    }

    closed spec fn next_id(&self) -> int {
        self.counter as int
    }

    closed spec fn inv(&self) -> bool {
        &&& 0 < self.counter
        &&& forall|i: int|
            0 <= i < self.store@.len() ==> 0 < (#[trigger] self.store@[i])@.id < self.counter
        &&& forall|i: int, j: int|
            0 <= i < j < self.store@.len() ==> (#[trigger] self.store@[i])@.id
                < (#[trigger] self.store@[j])@.id
    }

    open spec fn fallible() -> bool {
        false
    }

    proof fn inv_properties(&self) {
        assert forall|i: int| 0 <= i < self.labels().len() implies 0
            < (#[trigger] self.labels()[i]).id < self.next_id() by {
            assert(self.labels()[i] == self.store@[i]@);
        }
        assert forall|i: int, j: int| 0 <= i < j < self.labels().len() implies (
        #[trigger] self.labels()[i]).id < (#[trigger] self.labels()[j]).id by {
            assert(self.labels()[i] == self.store@[i]@);
            assert(self.labels()[j] == self.store@[j]@);
        }
    }

    fn create(&mut self, name: String) -> (r: Result<Label, RepositoryError>) {
        let id = self.counter;
        self.counter = id + 1;
        let l = Label { id, name };
        let stored = l.clone();
        self.store.push(stored);
        proof {
            assert(self.labels() =~= old(self).labels().push(l@));
            assert forall|i: int|
                0 <= i < old(self).labels().len() implies (#[trigger] old(self).labels()[i]).id
                < l@.id by {
                assert(old(self).labels()[i] == old(self).store@[i]@);
            }
        }
        Ok(l)
    }

    fn all(&self) -> (r: Result<Vec<Label>, RepositoryError>) {
        let n = self.store.len();
        let mut out: Vec<Label> = Vec::new();
        let mut j: usize = 0;
        while j < n
            invariant
                n == self.store@.len(),
                j <= n,
                out@.len() == j,
                forall|k: int| 0 <= k < j ==> (#[trigger] out@[k])@ == self.store@[k]@,
            decreases n - j,
        {
            out.push(self.store[j].clone());
            j += 1;
        }
        proof {
            assert forall|i: int| 0 <= i < out@.len() implies (#[trigger] out@[i])@
                == self.labels()[i] by {
                assert(self.labels()[i] == self.store@[i]@);
            }
        }
        Ok(out)
    }

    fn delete(&mut self, id: i32) -> (r: Result<(), RepositoryError>) {
        let n = self.store.len();
        let mut j: usize = 0;
        while j < n
            invariant
                self == old(self),
                self.inv(),
                n == self.store@.len(),
                j <= n,
                forall|k: int| 0 <= k < j ==> (#[trigger] self.store@[k])@.id != id as int,
            decreases n - j,
        {
            if self.store[j].id == id {
                proof {
                    old(self).inv_properties();
                    assert(old(self).labels()[j as int] == old(self).store@[j as int]@);
                    lemma_label_idx_of(old(self).labels(), id as int, j as int);
                }
                self.store.remove(j);
                proof {
                    assert(self.labels() =~= old(self).labels().remove(j as int));
                    assert forall|a: int, b: int|
                        0 <= a < b < self.store@.len() implies (#[trigger] self.store@[a])@.id
                        < (#[trigger] self.store@[b])@.id by {
                        if b < j {
                            assert(self.store@[a] == old(self).store@[a]);
                            assert(self.store@[b] == old(self).store@[b]);
                        } else if a < j <= b {
                            assert(self.store@[a] == old(self).store@[a]);
                            assert(self.store@[b] == old(self).store@[b + 1]);
                        } else {
                            assert(self.store@[a] == old(self).store@[a + 1]);
                            assert(self.store@[b] == old(self).store@[b + 1]);
                        }
                    }
                    assert forall|a: int|
                        0 <= a < self.store@.len() implies 0 < (#[trigger] self.store@[a])@.id
                        < self.counter by {
                        if a < j {
                            assert(self.store@[a] == old(self).store@[a]);
                        } else {
                            assert(self.store@[a] == old(self).store@[a + 1]);
                        }
                    }
                }
                return Ok(());
            }
            j += 1;
        }
        proof {
            assert forall|k: int| 0 <= k < self.labels().len() implies (
            #[trigger] self.labels()[k]).id != id as int by {
                assert(self.labels()[k] == self.store@[k]@);
            }
        }
        Err(RepositoryError::NotFound(id))
    }
}

/// With ids in increasing order, the position of a label found at `j` is the
/// one `idx_of` names: ids are unique, so there is no other.
proof fn lemma_label_idx_of(s: Seq<LabelView>, id: int, j: int)
    requires
        ids_increasing(s),
        0 <= j < s.len(),
        s[j].id == id,
    ensures
        has_id(s, id),
        idx_of(s, id) == j,
{
    assert(has_id(s, id));
    let k = idx_of(s, id);
    assert(0 <= k < s.len() && s[k].id == id);
    if k < j {
        assert(s[k].id < s[j].id);
    } else if j < k {
        assert(s[j].id < s[k].id);
    }
}

} // verus!
