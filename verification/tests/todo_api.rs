use my_todo::handlers::todo::{all_todo, create_todo, delete_todo, find_todo, update_todo};
use my_todo::handlers::root;
use my_todo::repositories::todo::{
    CreateTodo, Todo, TodoRepository, TodoRepositoryForMemory, UpdateTodo,
};
use my_todo::repositories::RepositoryError;

#[test]
fn should_return_hello_world() {
    let body = root();
    assert_eq!(body, "Hello, world!");
}

#[test]
fn should_created_todo() {
    let expected = Todo::new(1, "should_return_created_todo".to_string());

    let mut repository = TodoRepositoryForMemory::new();
    let (status, todo) = create_todo(
        &mut repository,
        CreateTodo::new("should_return_created_todo".to_string()),
    )
    .expect("failed create todo");

    assert_eq!(201, status);
    assert_eq!(expected, todo);
}

#[test]
fn should_find_todo() {
    let expected = Todo::new(1, "should_find_todo".to_string());

    let mut repository = TodoRepositoryForMemory::new();
    repository
        .create(CreateTodo::new("should_find_todo".to_string()))
        .expect("failed create todo");

    let (status, todo) = find_todo(&repository, 1).expect("failed find todo");
    assert_eq!(200, status);
    assert_eq!(expected, todo);
}

#[test]
fn should_get_all_todo() {
    let expected = Todo::new(1, "should_get_all_todo".to_string());

    let mut repository = TodoRepositoryForMemory::new();
    repository
        .create(CreateTodo::new("should_get_all_todo".to_string()))
        .expect("failed create todo");

    let (status, todos) = all_todo(&repository).expect("failed list todos");
    assert_eq!(200, status);
    assert_eq!(vec![expected], todos);
}

#[test]
fn should_updated_todo() {
    let expected = Todo::new(1, "should_updated_todo".to_string());

    let mut repository = TodoRepositoryForMemory::new();
    repository
        .create(CreateTodo::new("before_update_todo".to_string()))
        .expect("failed create todo");

    let patch = UpdateTodo::new(Some("should_updated_todo".to_string()), Some(false));
    let (status, todo) = update_todo(&mut repository, 1, patch).expect("failed update todo");
    assert_eq!(200, status);
    assert_eq!(expected, todo);
}

#[test]
fn should_deleted_todo() {
    let mut repository = TodoRepositoryForMemory::new();
    repository
        .create(CreateTodo::new("should_deleted_todo".to_string()))
        .expect("failed create todo");

    let status = delete_todo(&mut repository, 1);
    assert_eq!(204, status);
}

#[test]
fn created_ids_strictly_increase() {
    let mut repository = TodoRepositoryForMemory::new();
    let a = repository
        .create(CreateTodo::new("first".to_string()))
        .expect("failed create todo");
    let b = repository
        .create(CreateTodo::new("second".to_string()))
        .expect("failed create todo");
    let c = repository
        .create(CreateTodo::new("third".to_string()))
        .expect("failed create todo");
    assert!(a.id > 0);
    assert!(b.id > a.id);
    assert!(c.id > b.id);
    assert_eq!((1, 2, 3), (a.id, b.id, c.id));
}

#[test]
fn create_then_find_returns_equal_todo() {
    let mut repository = TodoRepositoryForMemory::new();
    repository
        .create(CreateTodo::new("alpha".to_string()))
        .expect("failed create todo");
    let created = repository
        .create(CreateTodo::new("beta".to_string()))
        .expect("failed create todo");
    let found = repository.find(created.id).expect("failed find todo");
    assert_eq!(created, found);
}

#[test]
fn delete_then_find_yields_not_found() {
    let mut repository = TodoRepositoryForMemory::new();
    let created = repository
        .create(CreateTodo::new("doomed".to_string()))
        .expect("failed create todo");
    repository.delete(created.id).expect("failed delete todo");
    let result = repository.find(created.id);
    assert_eq!(Err(RepositoryError::NotFound(created.id)), result);
}

#[test]
fn update_preserves_id_and_absent_fields() {
    let mut repository = TodoRepositoryForMemory::new();
    let created = repository
        .create(CreateTodo::new("keep me".to_string()))
        .expect("failed create todo");

    let only_completed = repository
        .update(created.id, UpdateTodo::new(None, Some(true)))
        .expect("failed update todo");
    assert_eq!(created.id, only_completed.id);
    assert_eq!("keep me", only_completed.text);
    assert!(only_completed.completed);

    let only_text = repository
        .update(created.id, UpdateTodo::new(Some("new text".to_string()), None))
        .expect("failed update todo");
    assert_eq!(created.id, only_text.id);
    assert_eq!("new text", only_text.text);
    assert!(only_text.completed);

    let untouched = repository
        .update(created.id, UpdateTodo::new(None, None))
        .expect("failed update todo");
    assert_eq!(created.id, untouched.id);
    assert_eq!("new text", untouched.text);
    assert!(untouched.completed);
}

#[test]
fn all_after_n_creates_returns_n_distinct_todos() {
    let mut repository = TodoRepositoryForMemory::new();
    for text in ["one", "two", "three"] {
        repository
            .create(CreateTodo::new(text.to_string()))
            .expect("failed create todo");
    }
    let todos = repository.all().expect("failed list todos");
    assert_eq!(3, todos.len());
    for i in 0..todos.len() {
        for j in 0..todos.len() {
            if i != j {
                assert_ne!(todos[i].id, todos[j].id);
            }
        }
    }
}

#[test]
fn update_missing_todo_yields_not_found() {
    let mut repository = TodoRepositoryForMemory::new();
    let result = repository.update(7, UpdateTodo::new(Some("ghost".to_string()), None));
    assert_eq!(Err(RepositoryError::NotFound(7)), result);
}

#[test]
fn delete_missing_todo_yields_not_found() {
    let mut repository = TodoRepositoryForMemory::new();
    let result = repository.delete(3);
    assert_eq!(Err(RepositoryError::NotFound(3)), result);
}
