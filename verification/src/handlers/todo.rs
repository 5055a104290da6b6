use vstd::prelude::*;
use crate::handlers::{
    STATUS_CREATED, STATUS_INTERNAL_SERVER_ERROR, STATUS_NOT_FOUND, STATUS_NO_CONTENT, STATUS_OK,
};
use crate::repositories::RepositoryError;
use crate::repositories::todo::{
    apply_patch, has_id, idx_of, CreateTodo, Todo, TodoRepository, TodoView, UpdateTodo,
};

verus! {

/// POST /todos: store a fresh record built from the decoded payload.
/// 201 with the created record on success; 500 when the adapter's write fails.
pub fn create_todo<R: TodoRepository>(repo: &mut R, payload: CreateTodo) -> (r: Result<
    (u16, Todo),
    u16,
>)
    requires
        old(repo).inv(),
        old(repo).next_id() < i32::MAX,
    ensures
        final(repo).inv(),
        match r {
            Ok((status, t)) => {
                &&& status == STATUS_CREATED
                &&& t@ == (TodoView { id: old(repo).next_id(), text: payload@, completed: false })
                &&& final(repo).todos() == old(repo).todos().push(t@)
                &&& final(repo).next_id() == old(repo).next_id() + 1
                &&& forall|i: int|
                    0 <= i < old(repo).todos().len() ==> (#[trigger] old(repo).todos()[i]).id
                        < t@.id
            },
            Err(status) => {
                &&& status == STATUS_INTERNAL_SERVER_ERROR
                &&& R::fallible()
                &&& final(repo).todos() == old(repo).todos()
                &&& final(repo).next_id() == old(repo).next_id()
            },
        },
{
    match repo.create(payload) {
        Ok(t) => Ok((STATUS_CREATED, t)),
        Err(_) => Err(STATUS_INTERNAL_SERVER_ERROR),
    }
}

/// GET /todos/:id — 200 with the record; 404 when the id is absent; 500 on a
/// store failure.
pub fn find_todo<R: TodoRepository>(repo: &R, id: i32) -> (r: Result<(u16, Todo), u16>)
    requires
        repo.inv(),
    ensures
        match r {
            Ok((status, t)) => {
                &&& status == STATUS_OK
                &&& has_id(repo.todos(), id as int)
                &&& t@ == repo.todos()[idx_of(repo.todos(), id as int)]
            },
            Err(status) => {
                &&& (status == STATUS_NOT_FOUND || status == STATUS_INTERNAL_SERVER_ERROR)
                &&& (status == STATUS_NOT_FOUND ==> !has_id(repo.todos(), id as int))
                &&& (status == STATUS_INTERNAL_SERVER_ERROR ==> R::fallible())
            },
        },
{
    match repo.find(id) {
        Ok(t) => Ok((STATUS_OK, t)),
        Err(RepositoryError::NotFound(_)) => Err(STATUS_NOT_FOUND),
        Err(RepositoryError::StoreError) => Err(STATUS_INTERNAL_SERVER_ERROR),
    }
}

/// GET /todos — 200 with every stored record in insertion order; 500 on a
/// store failure.
pub fn all_todo<R: TodoRepository>(repo: &R) -> (r: Result<(u16, Vec<Todo>), u16>)
    requires
        repo.inv(),
    ensures
        match r {
            Ok((status, ts)) => {
                &&& status == STATUS_OK
                &&& ts@.len() == repo.todos().len()
                &&& forall|i: int| 0 <= i < ts@.len() ==> (#[trigger] ts@[i])@ == repo.todos()[i]
            },
            Err(status) => status == STATUS_INTERNAL_SERVER_ERROR && R::fallible(),
        },
{
    match repo.all() {
        Ok(ts) => Ok((STATUS_OK, ts)),
        Err(_) => Err(STATUS_INTERNAL_SERVER_ERROR),
    }
}

/// PATCH /todos/:id — 200 with the patched record (id kept, absent fields
/// retained); 404 when the id is absent; 500 on a store failure.
pub fn update_todo<R: TodoRepository>(repo: &mut R, id: i32, payload: UpdateTodo) -> (r: Result<
    (u16, Todo),
    u16,
>)
    requires
        old(repo).inv(),
    ensures
        final(repo).inv(),
        final(repo).next_id() == old(repo).next_id(),
        match r {
            Ok((status, t)) => {
                &&& status == STATUS_OK
                &&& has_id(old(repo).todos(), id as int)
                &&& t@ == apply_patch(
                    old(repo).todos()[idx_of(old(repo).todos(), id as int)],
                    payload@,
                )
                &&& final(repo).todos() == old(repo).todos().update(
                    idx_of(old(repo).todos(), id as int),
                    t@,
                )
            },
            Err(status) => {
                &&& (status == STATUS_NOT_FOUND || status == STATUS_INTERNAL_SERVER_ERROR)
                &&& (status == STATUS_NOT_FOUND ==> !has_id(old(repo).todos(), id as int))
                &&& (status == STATUS_INTERNAL_SERVER_ERROR ==> R::fallible())
                &&& final(repo).todos() == old(repo).todos()
            },
        },
{
    match repo.update(id, payload) {
        Ok(t) => Ok((STATUS_OK, t)),
        Err(RepositoryError::NotFound(_)) => Err(STATUS_NOT_FOUND),
        Err(RepositoryError::StoreError) => Err(STATUS_INTERNAL_SERVER_ERROR),
    }
}

/// DELETE /todos/:id — 204 with no body; 404 when the id is absent; 500 on a
/// store failure.
pub fn delete_todo<R: TodoRepository>(repo: &mut R, id: i32) -> (status: u16)
    requires
        old(repo).inv(),
    ensures
        final(repo).inv(),
        final(repo).next_id() == old(repo).next_id(),
        status == STATUS_NO_CONTENT || status == STATUS_NOT_FOUND || status
            == STATUS_INTERNAL_SERVER_ERROR,
        status == STATUS_NO_CONTENT ==> has_id(old(repo).todos(), id as int) && final(repo).todos() == old(repo).todos().remove(idx_of(old(repo).todos(), id as int)),
        status == STATUS_NOT_FOUND ==> !has_id(old(repo).todos(), id as int) && final(repo).todos() == old(repo).todos(),
        status == STATUS_INTERNAL_SERVER_ERROR ==> R::fallible() && final(repo).todos() == old(repo).todos(),
{
    match repo.delete(id) {
        Ok(_) => STATUS_NO_CONTENT,
        Err(RepositoryError::NotFound(_)) => STATUS_NOT_FOUND,
        Err(RepositoryError::StoreError) => STATUS_INTERNAL_SERVER_ERROR,
    }
}

} // verus!
