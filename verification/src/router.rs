use vstd::prelude::*;
use vstd::string::StrSliceExecFns;
use crate::handlers::{id_str_value, parse_id, valid_id_str};

verus! {

/// HTTP methods the route table distinguishes.
#[derive(Clone, Copy, Debug, PartialEq, Eq, Structural)]
pub enum Method {
    Get,
    Post,
    Patch,
    Delete,
}

/// Outcome of matching a request line against the route table: the handler to
/// run with its decoded id, or the error class the HTTP layer answers with
/// (400 for a malformed id, 405 for a known path with an unbound method, 404
/// for an unknown path).
#[derive(Clone, Copy, Debug, PartialEq, Eq, Structural)]
pub enum RouteMatch {
    Root,
    CreateTodo,
    ListTodos,
    FindTodo(i32),
    UpdateTodo(i32),
    DeleteTodo(i32),
    CreateLabel,
    ListLabels,
    DeleteLabel(i32),
    BadRequest,
    MethodNotAllowed,
    NotFound,
}

/// The characters form a single path segment: no separator occurs.
pub open spec fn single_segment(s: Seq<char>) -> bool {
    forall|i: int| 0 <= i < s.len() ==> s[i] != '/'
}

/// An item path under the given collection prefix: the prefix, then one
/// non-empty segment.
pub open spec fn item_path(p: Seq<char>, prefix: Seq<char>) -> bool {
    &&& p.len() > prefix.len()
    &&& p.subrange(0, prefix.len() as int) == prefix
    &&& single_segment(p.skip(prefix.len() as int))
}

/// The service's route table: which handler a method and path select, with
/// the id a parameterised path carries.
pub open spec fn spec_route(m: Method, p: Seq<char>) -> RouteMatch {
    if p == "/"@ {
        if m == Method::Get {
            RouteMatch::Root
        } else {
            RouteMatch::MethodNotAllowed
        }
    } else if p == "/todos"@ {
        if m == Method::Post {
            RouteMatch::CreateTodo
        } else if m == Method::Get {
            RouteMatch::ListTodos
        } else {
            RouteMatch::MethodNotAllowed
        }
    } else if item_path(p, "/todos/"@) {
        let rest = p.skip("/todos/"@.len() as int);
        if m == Method::Get {
            if valid_id_str(rest) {
                RouteMatch::FindTodo(id_str_value(rest) as i32)
            } else {
                RouteMatch::BadRequest
            }
        } else if m == Method::Patch {
            if valid_id_str(rest) {
                RouteMatch::UpdateTodo(id_str_value(rest) as i32)
            } else {
                RouteMatch::BadRequest
            }
        } else if m == Method::Delete {
            if valid_id_str(rest) {
                RouteMatch::DeleteTodo(id_str_value(rest) as i32)
            } else {
                RouteMatch::BadRequest
            }
        } else {
            RouteMatch::MethodNotAllowed
        }
    } else if p == "/labels"@ {
        if m == Method::Post {
            RouteMatch::CreateLabel
        } else if m == Method::Get {
            RouteMatch::ListLabels
        } else {
            RouteMatch::MethodNotAllowed
        }
    } else if item_path(p, "/labels/"@) {
        let rest = p.skip("/labels/"@.len() as int);
        if m == Method::Delete {
            if valid_id_str(rest) {
                RouteMatch::DeleteLabel(id_str_value(rest) as i32)
            } else {
                RouteMatch::BadRequest
            }
        } else {
            RouteMatch::MethodNotAllowed
        }
    } else {
        RouteMatch::NotFound
    }
}

/// Character-wise string equality.
fn str_eq(a: &str, b: &str) -> (r: bool)
    ensures
        r == (a@ == b@),
{
    let n = a.unicode_len();
    let m = b.unicode_len();
    if n != m {
        return false;
    }
    let mut i: usize = 0;
    while i < n
        invariant
            n == a@.len(),
            n == b@.len(),
            i <= n,
            forall|k: int| 0 <= k < i ==> a@[k] == b@[k],
        decreases n - i,
    {
        if a.get_char(i) != b.get_char(i) {
            return false;
        }
        i += 1;
    }
    proof {
        assert(a@ =~= b@);
    }
    true
}

/// Whether the string begins with the given prefix.
fn is_prefix(s: &str, prefix: &str) -> (r: bool)
    ensures
        r == (s@.len() >= prefix@.len() && s@.subrange(0, prefix@.len() as int) == prefix@),
{
    let n = s.unicode_len();
    let m = prefix.unicode_len();
    if n < m {
        return false;
    }
    let mut i: usize = 0;
    while i < m
        invariant
            n == s@.len(),
            m == prefix@.len(),
            m <= n,
            i <= m,
            forall|k: int| 0 <= k < i ==> s@[k] == prefix@[k],
        decreases m - i,
    {
        if s.get_char(i) != prefix.get_char(i) {
            proof {
                assert(s@.subrange(0, m as int)[i as int] == s@[i as int]);
            }
            return false;
        }
        i += 1;
    }
    proof {
        assert(s@.subrange(0, m as int) =~= prefix@);
    }
    true
}

/// Whether the string is one path segment (holds no separator).
fn check_single_segment(s: &str) -> (r: bool)
    ensures
        r == single_segment(s@),
{
    let n = s.unicode_len();
    let mut i: usize = 0;
    while i < n
        invariant
            n == s@.len(),
            i <= n,
            forall|k: int| 0 <= k < i ==> s@[k] != '/',
        decreases n - i,
    {
        if s.get_char(i) == '/' {
            return false;
        }
        i += 1;
    }
    true
}

/// The id segment of an item path under the given prefix, or `None` when the
/// path is no such item path.
fn item_rest<'a>(path: &'a str, prefix: &'a str) -> (r: Option<&'a str>)
    ensures
        r is Some <==> item_path(path@, prefix@),
        r matches Some(rest) ==> rest@ == path@.skip(prefix@.len() as int),
{
    let n = path.unicode_len();
    let plen = prefix.unicode_len();
    if n <= plen {
        return None;
    }
    if !is_prefix(path, prefix) {
        return None;
    }
    let rest = path.substring_char(plen, n);
    proof {
        assert(rest@ =~= path@.skip(plen as int));
    }
    if !check_single_segment(rest) {
        return None;
    }
    Some(rest)
}

/// Match one request line against the route table, as the HTTP layer must
/// before running any handler.
pub fn route(method: Method, path: &str) -> (r: RouteMatch)
    ensures
        r == spec_route(method, path@),
{
    if str_eq(path, "/") {
        return if method == Method::Get {
            RouteMatch::Root
        } else {
            RouteMatch::MethodNotAllowed
        };
    }
    if str_eq(path, "/todos") {
        return if method == Method::Post {
            RouteMatch::CreateTodo
        } else if method == Method::Get {
            RouteMatch::ListTodos
        } else {
            RouteMatch::MethodNotAllowed
        };
    }
    match item_rest(path, "/todos/") {
        Some(rest) => {
            let id = parse_id(rest);
            return if method == Method::Get {
                match id {
                    Some(v) => RouteMatch::FindTodo(v),
                    None => RouteMatch::BadRequest,
                }
            } else if method == Method::Patch {
                match id {
                    Some(v) => RouteMatch::UpdateTodo(v),
                    None => RouteMatch::BadRequest,
                }
            } else if method == Method::Delete {
                match id {
                    Some(v) => RouteMatch::DeleteTodo(v),
                    None => RouteMatch::BadRequest,
                }
            } else {
                RouteMatch::MethodNotAllowed
            };
        },
        None => {},
    }
    if str_eq(path, "/labels") {
        return if method == Method::Post {
            RouteMatch::CreateLabel
        } else if method == Method::Get {
            RouteMatch::ListLabels
        } else {
            RouteMatch::MethodNotAllowed
        };
    }
    match item_rest(path, "/labels/") {
        Some(rest) => {
            let id = parse_id(rest);
            return if method == Method::Delete {
                match id {
                    Some(v) => RouteMatch::DeleteLabel(v),
                    None => RouteMatch::BadRequest,
                }
            } else {
                RouteMatch::MethodNotAllowed
            };
        },
        None => {},
    }
    RouteMatch::NotFound
}

} // verus!
