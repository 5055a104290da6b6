#[test]
fn add_test() {
    assert_eq!(2, my_todo::add(1, 1));
}

#[test]
fn sub_test() {
    assert_eq!(9, my_todo::sub(10, 1));
}
