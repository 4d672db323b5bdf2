use todo_fragments::counter::Counter;
use todo_fragments::db::{empty, todos, Store};
use todo_fragments::routes::{dispatch, Method, Response};

fn fresh() -> (Store, Counter) {
    (empty(), Counter::new())
}

fn call(
    store: &mut Store,
    counter: &mut Counter,
    method: Method,
    path: &str,
    body: Option<&str>,
) -> Response {
    dispatch(store, counter, method, path, body)
}

const ITEM_ONE: &str = "<li id=\"1\"><input value=\"buy milk\" name=\"text\" hx-put=\"/todos/1\" /><button hx-delete=\"/todos/1\" hx-target=\"closest li\" hx-swap=\"outerHTML\">delete</button></li>";

#[test]
fn create_then_list_fragment() {
    let (mut s, mut c) = fresh();
    let r = call(&mut s, &mut c, Method::Post, "/todos", Some("id=1&text=buy+milk"));
    assert_eq!(r.status, 201);
    assert_eq!(r.body, ITEM_ONE);
    let r = call(&mut s, &mut c, Method::Get, "/todos", None);
    assert_eq!(r.status, 200);
    assert_eq!(r.body, format!("<ul>{}</ul>", ITEM_ONE));
}

#[test]
fn duplicate_create_is_bad_request() {
    let (mut s, mut c) = fresh();
    let r = call(&mut s, &mut c, Method::Post, "/todos", Some("id=1&text=a"));
    assert_eq!(r.status, 201);
    let r = call(&mut s, &mut c, Method::Post, "/todos", Some("id=1&text=a"));
    assert_eq!(r.status, 400);
    assert_eq!(r.body, "");
    assert_eq!(todos(&s).len(), 1);
}

#[test]
fn update_missing_then_present() {
    let (mut s, mut c) = fresh();
    let r = call(&mut s, &mut c, Method::Put, "/todos/1", Some("id=1&text=b"));
    assert_eq!(r.status, 404);
    let r = call(&mut s, &mut c, Method::Post, "/todos", Some("id=1&text=a"));
    assert_eq!(r.status, 201);
    let r = call(&mut s, &mut c, Method::Put, "/todos/1", Some("id=1&text=b"));
    assert_eq!(r.status, 204);
    assert_eq!(r.body, "");
    let all = todos(&s);
    assert_eq!(all.len(), 1);
    assert_eq!(all[0].text, "b");
}

#[test]
fn delete_routes() {
    let (mut s, mut c) = fresh();
    let r = call(&mut s, &mut c, Method::Delete, "/todos/1", None);
    assert_eq!(r.status, 404);
    call(&mut s, &mut c, Method::Post, "/todos", Some("id=1&text=a"));
    let r = call(&mut s, &mut c, Method::Delete, "/todos/1", None);
    assert_eq!(r.status, 200);
    let r = call(&mut s, &mut c, Method::Delete, "/todos/1", None);
    assert_eq!(r.status, 404);
    assert_eq!(todos(&s).len(), 0);
}

#[test]
fn counter_net_effect() {
    let (mut s, mut c) = fresh();
    let r = call(&mut s, &mut c, Method::Get, "/counter/-", None);
    assert_eq!(r.status, 200);
    assert_eq!(r.body, "<div id=\"counter\">-1</div>");
    call(&mut s, &mut c, Method::Get, "/counter/+", None);
    let r = call(&mut s, &mut c, Method::Get, "/counter/+", None);
    assert_eq!(r.status, 200);
    assert_eq!(r.body, "<div id=\"counter\">1</div>");
    assert_eq!(c.get(), 1);
}

#[test]
fn main_page_route() {
    let (mut s, mut c) = fresh();
    let r = call(&mut s, &mut c, Method::Get, "/", None);
    assert_eq!(r.status, 200);
    assert!(r.body.starts_with("<!DOCTYPE html>"));
    assert!(r.body.contains("<div id=\"todos\"><ul></ul></div>"));
}

#[test]
fn greeting_route() {
    let (mut s, mut c) = fresh();
    let r = call(&mut s, &mut c, Method::Get, "/hello/world", None);
    assert_eq!(r.status, 200);
    assert_eq!(r.body, "Hello, world!");
    let r = call(&mut s, &mut c, Method::Get, "/hello/a/b", None);
    assert_eq!(r.status, 404);
}

#[test]
fn unmatched_requests_are_not_found() {
    let (mut s, mut c) = fresh();
    assert_eq!(call(&mut s, &mut c, Method::Get, "/nope", None).status, 404);
    assert_eq!(call(&mut s, &mut c, Method::Put, "/todos/abc", Some("id=1&text=a")).status, 404);
    assert_eq!(call(&mut s, &mut c, Method::Delete, "/todos/", None).status, 404);
    assert_eq!(call(&mut s, &mut c, Method::Post, "/", Some("id=1&text=a")).status, 404);
    assert_eq!(call(&mut s, &mut c, Method::Post, "/counter/+", None).status, 404);
}

#[test]
fn malformed_bodies_are_bad_requests() {
    let (mut s, mut c) = fresh();
    assert_eq!(call(&mut s, &mut c, Method::Post, "/todos", None).status, 400);
    assert_eq!(call(&mut s, &mut c, Method::Post, "/todos", Some("id=1")).status, 400);
    assert_eq!(call(&mut s, &mut c, Method::Post, "/todos", Some("id=x&text=a")).status, 400);
    assert_eq!(call(&mut s, &mut c, Method::Post, "/todos", Some("a=1&b=2")).status, 400);
    assert_eq!(call(&mut s, &mut c, Method::Put, "/todos/1", None).status, 400);
    assert_eq!(todos(&s).len(), 0);
}

#[test]
fn body_fields_accepted_in_either_order() {
    let (mut s, mut c) = fresh();
    let r = call(&mut s, &mut c, Method::Post, "/todos", Some("text=buy+milk&id=1"));
    assert_eq!(r.status, 201);
    assert_eq!(r.body, ITEM_ONE);
}

#[test]
fn update_addresses_record_by_path_id() {
    let (mut s, mut c) = fresh();
    call(&mut s, &mut c, Method::Post, "/todos", Some("id=1&text=a"));
    call(&mut s, &mut c, Method::Post, "/todos", Some("id=2&text=b"));
    let r = call(&mut s, &mut c, Method::Put, "/todos/2", Some("id=2&text=second"));
    assert_eq!(r.status, 204);
    let all = todos(&s);
    assert_eq!(all[0].text, "a");
    assert_eq!(all[1].text, "second");
}
