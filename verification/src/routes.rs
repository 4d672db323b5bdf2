//! The route dispatcher: an ordered table of `(method, path pattern)`
//! entries, evaluated first match wins. A matched handler makes at most
//! one store or counter operation, renders at most one fragment, and maps
//! the outcome to a status code; a request that matches nothing, or whose
//! typed path variable fails to read, gets the no-route status.

use crate::counter::{counter_dec, counter_inc, Counter};
use crate::db::{create_todo, delete_todo, has_id, store_create, store_delete, store_update,
    todos, update_todo, Store, TodoView};
use crate::form::{parse_todo_form, spec_parse_form};
use crate::render::{render_counter, render_greeting, render_item, render_main,
    render_todo_list, spec_render_counter, spec_render_greeting, spec_render_item,
    spec_render_main, spec_render_todo_list};
use crate::text::{all_dec_digits, dec_value, parse_usize, starts_with, str_contains_char,
    str_eq, str_starts_with, str_tail};
use vstd::prelude::*;
use vstd::string::StrSliceExecFns;

verus! {

/// An HTTP verb of the route table.
#[derive(Clone, Copy, PartialEq, Eq, Structural)]
pub enum Method {
    Get,
    Post,
    Put,
    Delete,
}

/// A response: a status code and a body.
pub struct Response {
    pub status: u16,
    pub body: String,
}

/// The whole observable outcome of one dispatched request: the store and
/// counter afterwards, and the response.
pub ghost struct Outcome {
    pub store: Seq<TodoView>,
    pub counter: i64,
    pub status: u16,
    pub body: Seq<char>,
}

/// The path addresses one record: the literal `/todos/` prefix followed
/// by one id segment that is a decimal numeral in range. Anything else is
/// a match failure, not an error.
pub open spec fn is_item_path(p: Seq<char>) -> bool {
    starts_with(p, "/todos/"@) && {
        let seg = p.skip("/todos/"@.len() as int);
        seg.len() > 0 && all_dec_digits(seg) && dec_value(seg) <= usize::MAX as nat
    }
}

/// The id that an item path addresses.
pub open spec fn item_path_id(p: Seq<char>) -> usize {
    dec_value(p.skip("/todos/"@.len() as int)) as usize
}

/// The path greets one name: the literal `/hello/` prefix followed by a
/// single segment.
pub open spec fn is_hello_path(p: Seq<char>) -> bool {
    starts_with(p, "/hello/"@) && !p.skip("/hello/"@.len() as int).contains('/')
}

/// The greeted name.
pub open spec fn hello_name(p: Seq<char>) -> Seq<char> {
    p.skip("/hello/"@.len() as int)
}

/// The record in the request body, if one is present and well-formed.
pub open spec fn spec_body_record(b: Option<Seq<char>>) -> Option<TodoView> {
    match b {
        Some(bb) => spec_parse_form(bb),
        None => None,
    }
}

/// The view of an optional request body.
pub open spec fn body_view(b: Option<&str>) -> Option<Seq<char>> {
    match b {
        Some(bb) => Some(bb@),
        None => None,
    }
}

/// The route table, as one ordered decision: what one request does to the
/// store and the counter, and what it answers. Patterns are tried in
/// order; the first structural match wins.
pub open spec fn spec_dispatch(
    s: Seq<TodoView>,
    c: i64,
    m: Method,
    p: Seq<char>,
    b: Option<Seq<char>>,
) -> Outcome {
    if m == Method::Get && p == "/"@ {
        Outcome { store: s, counter: c, status: 200, body: spec_render_main(s) }
    } else if m == Method::Get && p == "/todos"@ {
        Outcome { store: s, counter: c, status: 200, body: spec_render_todo_list(s) }
    } else if m == Method::Post && p == "/todos"@ {
        match spec_body_record(b) {
            Some(t) => if has_id(s, t.id) {
                Outcome { store: s, counter: c, status: 400, body: Seq::empty() }
            } else {
                Outcome {
                    store: store_create(s, t),
                    counter: c,
                    status: 201,
                    body: spec_render_item(t),
                }
            },
            None => Outcome { store: s, counter: c, status: 400, body: Seq::empty() },
        }
    } else if m == Method::Put && is_item_path(p) {
        match spec_body_record(b) {
            Some(t) => if has_id(s, item_path_id(p)) {
                Outcome {
                    store: store_update(s, item_path_id(p), t),
                    counter: c,
                    status: 204,
                    body: Seq::empty(),
                }
            } else {
                Outcome { store: s, counter: c, status: 404, body: Seq::empty() }
            },
            None => Outcome { store: s, counter: c, status: 400, body: Seq::empty() },
        }
    } else if m == Method::Delete && is_item_path(p) {
        if has_id(s, item_path_id(p)) {
            Outcome {
                store: store_delete(s, item_path_id(p)),
                counter: c,
                status: 200,
                body: Seq::empty(),
            }
        } else {
            Outcome { store: s, counter: c, status: 404, body: Seq::empty() }
        }
    } else if m == Method::Get && p == "/counter/-"@ {
        Outcome {
            store: s,
            counter: counter_dec(c),
            status: 200,
            body: spec_render_counter(counter_dec(c)),
        }
    } else if m == Method::Get && p == "/counter/+"@ {
        Outcome {
            store: s,
            counter: counter_inc(c),
            status: 200,
            body: spec_render_counter(counter_inc(c)),
        }
    } else if m == Method::Get && is_hello_path(p) {
        Outcome { store: s, counter: c, status: 200, body: spec_render_greeting(hello_name(p)) }
    } else {
        Outcome { store: s, counter: c, status: 404, body: Seq::empty() }
    }
}

/// A PUT keeps ids unique when the body's id is the addressed one or is
/// otherwise fresh; every other route keeps them unique unconditionally.
pub open spec fn put_keeps_unique(s: Seq<TodoView>, p: Seq<char>, b: Option<Seq<char>>) -> bool {
    match spec_body_record(b) {
        Some(t) => t.id == item_path_id(p) || !has_id(s, t.id),
        None => true,
    }
}

/// Reads the typed id variable out of an item path.
fn match_item_path(path: &str) -> (r: Option<usize>)
    ensures
        match r {
            Some(id) => is_item_path(path@) && id == item_path_id(path@),
            None => !is_item_path(path@),
        },
{
    let pre = "/todos/";
    if !str_starts_with(path, pre) {
        return None;
    }
    let plen = pre.unicode_len();
    let seg = str_tail(path, plen);
    parse_usize(seg)
}

/// Reads the name variable out of a greeting path.
fn match_hello_path<'a>(path: &'a str) -> (r: Option<&'a str>)
    ensures
        match r {
            Some(name) => is_hello_path(path@) && name@ == hello_name(path@),
            None => !is_hello_path(path@),
        },
{
    let pre = "/hello/";
    if !str_starts_with(path, pre) {
        return None;
    }
    let plen = pre.unicode_len();
    let name = str_tail(path, plen);
    if str_contains_char(name, '/') {
        None
    } else {
        Some(name)
    }
}

/// Dispatches one request against the route table: the store, the
/// counter, and the response come out exactly as `spec_dispatch` says.
pub fn dispatch(
    store: &mut Store,
    counter: &mut Counter,
    method: Method,
    path: &str,
    body: Option<&str>,
) -> (r: Response)
    ensures
        ({
            let out = spec_dispatch(
                old(store)@,
                old(counter).value,
                method,
                path@,
                body_view(body),
            );
            &&& final(store)@ == out.store
            &&& final(counter).value == out.counter
            &&& r.status == out.status
            &&& r.body@ == out.body
        }),
        old(store).wf() && (method == Method::Put ==> put_keeps_unique(
            old(store)@,
            path@,
            body_view(body),
        )) ==> final(store).wf(),
{
    if method == Method::Get && str_eq(path, "/") {
        let snapshot = todos(store);
        Response { status: 200, body: render_main(&snapshot) }
    } else if method == Method::Get && str_eq(path, "/todos") {
        let snapshot = todos(store);
        Response { status: 200, body: render_todo_list(&snapshot) }
    } else if method == Method::Post && str_eq(path, "/todos") {
        let rec = match body {
            Some(b) => parse_todo_form(b),
            None => None,
        };
        match rec {
            Some(t) => {
                let rendered = render_item(&t);
                match create_todo(store, t) {
                    Ok(()) => Response { status: 201, body: rendered },
                    Err(()) => Response { status: 400, body: String::new() },
                }
            },
            None => Response { status: 400, body: String::new() },
        }
    } else if method == Method::Put {
        match match_item_path(path) {
            Some(id) => {
                let rec = match body {
                    Some(b) => parse_todo_form(b),
                    None => None,
                };
                match rec {
                    Some(t) => match update_todo(store, id, t) {
                        Ok(()) => Response { status: 204, body: String::new() },
                        Err(()) => Response { status: 404, body: String::new() },
                    },
                    None => Response { status: 400, body: String::new() },
                }
            },
            None => Response { status: 404, body: String::new() },
        }
    } else if method == Method::Delete {
        match match_item_path(path) {
            Some(id) => match delete_todo(store, id) {
                Ok(()) => Response { status: 200, body: String::new() },
                Err(()) => Response { status: 404, body: String::new() },
            },
            None => Response { status: 404, body: String::new() },
        }
    } else if method == Method::Get && str_eq(path, "/counter/-") {
        counter.decrement();
        let v = counter.get();
        Response { status: 200, body: render_counter(v) }
    } else if method == Method::Get && str_eq(path, "/counter/+") {
        counter.increment();
        let v = counter.get();
        Response { status: 200, body: render_counter(v) }
    } else {
        match match_hello_path(path) {
            Some(name) => {
                if method == Method::Get {
                    Response { status: 200, body: render_greeting(name) }
                } else {
                    Response { status: 404, body: String::new() }
                }
            },
            None => Response { status: 404, body: String::new() },
        }
    }
}

} // verus!
