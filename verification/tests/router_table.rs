use my_todo::router::{route, Method, RouteMatch};

#[test]
fn root_route_matches() {
    assert_eq!(RouteMatch::Root, route(Method::Get, "/"));
}

#[test]
fn todo_collection_routes_match() {
    assert_eq!(RouteMatch::CreateTodo, route(Method::Post, "/todos"));
    assert_eq!(RouteMatch::ListTodos, route(Method::Get, "/todos"));
}

#[test]
fn todo_item_routes_match() {
    assert_eq!(RouteMatch::FindTodo(999), route(Method::Get, "/todos/999"));
    assert_eq!(RouteMatch::UpdateTodo(1), route(Method::Patch, "/todos/1"));
    assert_eq!(RouteMatch::DeleteTodo(1), route(Method::Delete, "/todos/1"));
}

#[test]
fn label_routes_match() {
    assert_eq!(RouteMatch::CreateLabel, route(Method::Post, "/labels"));
    assert_eq!(RouteMatch::ListLabels, route(Method::Get, "/labels"));
    assert_eq!(RouteMatch::DeleteLabel(1), route(Method::Delete, "/labels/1"));
}

#[test]
fn malformed_ids_are_rejected_with_bad_request() {
    assert_eq!(RouteMatch::BadRequest, route(Method::Get, "/todos/abc"));
    assert_eq!(RouteMatch::BadRequest, route(Method::Patch, "/todos/12x"));
    assert_eq!(RouteMatch::BadRequest, route(Method::Delete, "/labels/x"));
    assert_eq!(RouteMatch::BadRequest, route(Method::Get, "/todos/2147483648"));
}

#[test]
fn unknown_paths_are_not_found() {
    assert_eq!(RouteMatch::NotFound, route(Method::Get, "/nope"));
    assert_eq!(RouteMatch::NotFound, route(Method::Get, "/todos/"));
    assert_eq!(RouteMatch::NotFound, route(Method::Get, "/todos/1/2"));
    assert_eq!(RouteMatch::NotFound, route(Method::Get, ""));
}

#[test]
fn unbound_methods_are_not_allowed() {
    assert_eq!(RouteMatch::MethodNotAllowed, route(Method::Delete, "/todos"));
    assert_eq!(RouteMatch::MethodNotAllowed, route(Method::Post, "/todos/1"));
    assert_eq!(RouteMatch::MethodNotAllowed, route(Method::Get, "/labels/1"));
    assert_eq!(RouteMatch::MethodNotAllowed, route(Method::Post, "/"));
}
