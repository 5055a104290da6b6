use my_todo::handlers::label::{all_label, create_label, delete_label};
use my_todo::repositories::label::{Label, LabelRepository, LabelRepositoryForMemory};
use my_todo::repositories::RepositoryError;

#[test]
fn should_created_label() {
    let expected = Label::new(1, "should_created_label".to_string());

    let mut repository = LabelRepositoryForMemory::new();
    let (status, label) =
        create_label(&mut repository, "should_created_label".to_string()).expect("failed create Label");

    assert_eq!(201, status);
    assert_eq!(expected, label);
}

#[test]
fn should_get_all_label() {
    let expected = Label::new(1, "should_get_all_label".to_string());

    let mut repository = LabelRepositoryForMemory::new();
    repository
        .create("should_get_all_label".to_string())
        .expect("failed create Label");

    let (status, labels) = all_label(&repository).expect("failed list labels");
    assert_eq!(200, status);
    assert_eq!(vec![expected], labels);
}

#[test]
fn should_deleted_label() {
    let mut repository = LabelRepositoryForMemory::new();
    repository
        .create("delete_label".to_string())
        .expect("failed create Label");

    let status = delete_label(&mut repository, 1);
    assert_eq!(204, status);
}

#[test]
fn created_label_ids_strictly_increase() {
    let mut repository = LabelRepositoryForMemory::new();
    let a = repository.create("red".to_string()).expect("failed create Label");
    let b = repository.create("green".to_string()).expect("failed create Label");
    assert!(a.id > 0);
    assert!(b.id > a.id);
}

#[test]
fn delete_missing_label_yields_not_found() {
    let mut repository = LabelRepositoryForMemory::new();
    let result = repository.delete(5);
    assert_eq!(Err(RepositoryError::NotFound(5)), result);
}
