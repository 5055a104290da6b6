use my_todo::handlers::todo::{create_todo, delete_todo, find_todo, update_todo};
use my_todo::handlers::label::create_label;
use my_todo::handlers::parse_id;
use my_todo::repositories::label::{Label, LabelRepositoryForMemory};
use my_todo::repositories::todo::{
    CreateTodo, Todo, TodoRepository, TodoRepositoryForMemory, UpdateTodo,
};

#[test]
fn post_todos_returns_201_with_created_body() {
    let mut repository = TodoRepositoryForMemory::new();
    let (status, todo) =
        create_todo(&mut repository, CreateTodo::new("buy milk".to_string())).expect("create failed");
    assert_eq!(201, status);
    assert_eq!(Todo::new(1, "buy milk".to_string()), todo);
    assert_eq!(1, todo.id);
    assert_eq!("buy milk", todo.text);
    assert!(!todo.completed);
}

#[test]
fn get_missing_todo_returns_404() {
    let repository = TodoRepositoryForMemory::new();
    let result = find_todo(&repository, 999);
    assert_eq!(Err(404), result);
}

#[test]
fn delete_todo_returns_204_then_get_returns_404() {
    let mut repository = TodoRepositoryForMemory::new();
    repository
        .create(CreateTodo::new("only one".to_string()))
        .expect("create failed");
    let status = delete_todo(&mut repository, 1);
    assert_eq!(204, status);
    let result = find_todo(&repository, 1);
    assert_eq!(Err(404), result);
}

#[test]
fn patch_todo_returns_200_with_updated_fields() {
    let mut repository = TodoRepositoryForMemory::new();
    repository
        .create(CreateTodo::new("old".to_string()))
        .expect("create failed");
    let patch = UpdateTodo::new(Some("new".to_string()), Some(true));
    let (status, todo) = update_todo(&mut repository, 1, patch).expect("update failed");
    assert_eq!(200, status);
    assert_eq!(1, todo.id);
    assert_eq!("new", todo.text);
    assert!(todo.completed);
}

#[test]
fn post_labels_returns_201_with_created_body() {
    let mut repository = LabelRepositoryForMemory::new();
    let (status, label) =
        create_label(&mut repository, "urgent".to_string()).expect("create failed");
    assert_eq!(201, status);
    assert_eq!(Label::new(1, "urgent".to_string()), label);
}

#[test]
fn numeric_path_parameters_parse() {
    assert_eq!(Some(1), parse_id("1"));
    assert_eq!(Some(999), parse_id("999"));
    assert_eq!(Some(42), parse_id("00042"));
    assert_eq!(Some(-5), parse_id("-5"));
    assert_eq!(Some(2147483647), parse_id("2147483647"));
    assert_eq!(Some(-2147483648), parse_id("-2147483648"));
}

#[test]
fn non_numeric_path_parameters_are_rejected() {
    assert_eq!(None, parse_id(""));
    assert_eq!(None, parse_id("abc"));
    assert_eq!(None, parse_id("12x"));
    assert_eq!(None, parse_id("-"));
    assert_eq!(None, parse_id("--1"));
    assert_eq!(None, parse_id("2147483648"));
    assert_eq!(None, parse_id("-2147483649"));
}
