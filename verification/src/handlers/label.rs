use vstd::prelude::*;
use crate::handlers::{
    STATUS_CREATED, STATUS_INTERNAL_SERVER_ERROR, STATUS_NOT_FOUND, STATUS_NO_CONTENT, STATUS_OK,
};
use crate::repositories::RepositoryError;
use crate::repositories::label::{has_id, idx_of, Label, LabelRepository, LabelView};

verus! {

/// POST /labels: store a fresh label with the decoded name.
/// 201 with the created label on success; 500 when the adapter's write fails.
pub fn create_label<R: LabelRepository>(repo: &mut R, name: String) -> (r: Result<
    (u16, Label),
    u16,
>)
    requires
        old(repo).inv(),
        old(repo).next_id() < i32::MAX,
    ensures
        final(repo).inv(),
        match r {
            Ok((status, l)) => {
                &&& status == STATUS_CREATED
                &&& l@ == (LabelView { id: old(repo).next_id(), name: name@ })
                &&& final(repo).labels() == old(repo).labels().push(l@)
                &&& final(repo).next_id() == old(repo).next_id() + 1
                &&& forall|i: int|
                    0 <= i < old(repo).labels().len() ==> (#[trigger] old(repo).labels()[i]).id
                        < l@.id
            },
            Err(status) => {
                &&& status == STATUS_INTERNAL_SERVER_ERROR
                &&& R::fallible()
                &&& final(repo).labels() == old(repo).labels()
                &&& final(repo).next_id() == old(repo).next_id()
            },
        },
{
    match repo.create(name) {
        Ok(l) => Ok((STATUS_CREATED, l)),
        Err(_) => Err(STATUS_INTERNAL_SERVER_ERROR),
    }
}

/// GET /labels — 200 with every stored label in insertion order; 500 on a
/// store failure.
pub fn all_label<R: LabelRepository>(repo: &R) -> (r: Result<(u16, Vec<Label>), u16>)
    requires
        repo.inv(),
    ensures
        match r {
            Ok((status, ls)) => {
                &&& status == STATUS_OK
                &&& ls@.len() == repo.labels().len()
                &&& forall|i: int| 0 <= i < ls@.len() ==> (#[trigger] ls@[i])@ == repo.labels()[i]
            },
            Err(status) => status == STATUS_INTERNAL_SERVER_ERROR && R::fallible(),
        },
{
    match repo.all() {
        Ok(ls) => Ok((STATUS_OK, ls)),
        Err(_) => Err(STATUS_INTERNAL_SERVER_ERROR),
    }
}

/// DELETE /labels/:id — 204 with no body; 404 when the id is absent; 500 on a
/// store failure.
pub fn delete_label<R: LabelRepository>(repo: &mut R, id: i32) -> (status: u16)
    requires
        old(repo).inv(),
    ensures
        final(repo).inv(),
        final(repo).next_id() == old(repo).next_id(),
        status == STATUS_NO_CONTENT || status == STATUS_NOT_FOUND || status
            == STATUS_INTERNAL_SERVER_ERROR,
        status == STATUS_NO_CONTENT ==> has_id(old(repo).labels(), id as int) && final(repo).labels() == old(repo).labels().remove(idx_of(old(repo).labels(), id as int)),
        status == STATUS_NOT_FOUND ==> !has_id(old(repo).labels(), id as int) && final(repo).labels() == old(repo).labels(),
        status == STATUS_INTERNAL_SERVER_ERROR ==> R::fallible() && final(repo).labels() == old(repo).labels(),
{
    match repo.delete(id) {
        Ok(_) => STATUS_NO_CONTENT,
        Err(RepositoryError::NotFound(_)) => STATUS_NOT_FOUND,
        Err(RepositoryError::StoreError) => STATUS_INTERNAL_SERVER_ERROR,
    }
}

} // verus!
