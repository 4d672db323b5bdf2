//! The component tree: pure, typed rendering units that turn record and
//! counter values into HTML strings. A parent's output embeds its
//! children's output verbatim, in declaration order; each record's item
//! fragment carries the record's id as a DOM-addressable attribute, which
//! partial updates are targeted at.

use crate::db::{views_of, ToDo, TodoView};
use crate::text::{dec_digits, dec_int, i64_to_dec, usize_to_dec};
use vstd::prelude::*;
use vstd::string::StringExecFns;

verus! {

/// The page shell: a head carrying the title, and a body wrapping the
/// children verbatim.
pub open spec fn spec_render_template(title: Seq<char>, children: Seq<char>) -> Seq<char> {
    "<!DOCTYPE html><html><head><title>"@ + title
        + "</title><meta name=\"color-scheme\" content=\"dark light\" /></head><body><main>"@
        + children + "</main></body></html>"@
}

/// One record's item fragment. The leading `li` carries the record's id.
pub open spec fn spec_render_item(t: TodoView) -> Seq<char> {
    "<li id=\""@ + dec_digits(t.id as nat) + "\"><input value=\""@ + t.text
        + "\" name=\"text\" hx-put=\"/todos/"@ + dec_digits(t.id as nat)
        + "\" /><button hx-delete=\"/todos/"@ + dec_digits(t.id as nat)
        + "\" hx-target=\"closest li\" hx-swap=\"outerHTML\">delete</button></li>"@
}

/// The item fragments of all records, concatenated in sequence order; an
/// empty sequence yields no output.
pub open spec fn spec_render_items(s: Seq<TodoView>) -> Seq<char>
    decreases s.len(),
{
    if s.len() == 0 {
        Seq::empty()
    } else {
        spec_render_item(s[0]) + spec_render_items(s.drop_first())
    }
}

/// The list fragment: the item fragments inside one `ul`.
pub open spec fn spec_render_todo_list(s: Seq<TodoView>) -> Seq<char> {
    "<ul>"@ + spec_render_items(s) + "</ul>"@
}

/// The full page: the shell around the heading, the add form, and the
/// list fragment inside its addressable container.
pub open spec fn spec_render_main(s: Seq<TodoView>) -> Seq<char> {
    spec_render_template(
        "ToDos App"@,
        "<h1>ToDos App</h1><button hx-get=\"/todos\" hx-target=\"#todos\">refresh</button><form hx-post=\"/todos\" hx-target=\"#todos > ul\" hx-swap=\"beforeend\"><input type=\"text\" name=\"text\" /><button type=\"submit\">add</button></form><div id=\"todos\">"@
            + spec_render_todo_list(s) + "</div>"@,
    )
}

/// The counter fragment, carrying its stable id and the rendered value.
pub open spec fn spec_render_counter(v: i64) -> Seq<char> {
    "<div id=\"counter\">"@ + dec_int(v as int) + "</div>"@
}

/// The plain-text greeting.
pub open spec fn spec_render_greeting(name: Seq<char>) -> Seq<char> {
    "Hello, "@ + name + "!"@
}

/// Renders the page shell around `children`.
pub fn render_template(title: &str, children: &str) -> (r: String)
    ensures
        r@ == spec_render_template(title@, children@),
{
    let mut r = String::from_str("<!DOCTYPE html><html><head><title>");
    r.append(title);
    r.append("</title><meta name=\"color-scheme\" content=\"dark light\" /></head><body><main>");
    r.append(children);
    r.append("</main></body></html>");
    proof {
        assert(r@ =~= spec_render_template(title@, children@));
    }
    r
}

/// Renders one record's item fragment.
pub fn render_item(t: &ToDo) -> (r: String)
    ensures
        r@ == spec_render_item(t@),
{
    let id_digits = usize_to_dec(t.id);
    let mut r = String::from_str("<li id=\"");
    r.append(id_digits.as_str());
    r.append("\"><input value=\"");
    r.append(t.text.as_str());
    r.append("\" name=\"text\" hx-put=\"/todos/");
    r.append(id_digits.as_str());
    r.append("\" /><button hx-delete=\"/todos/");
    r.append(id_digits.as_str());
    r.append("\" hx-target=\"closest li\" hx-swap=\"outerHTML\">delete</button></li>");
    proof {
        assert(r@ =~= spec_render_item(t@));
    }
    r
}

/// Renders the list fragment for a snapshot of records, in order.
pub fn render_todo_list(items: &Vec<ToDo>) -> (r: String)
    ensures
        r@ == spec_render_todo_list(views_of(items@)),
{
    let ghost vs = views_of(items@);
    let mut r = String::from_str("<ul>");
    let n = items.len();
    let mut i: usize = 0;
    proof {
        assert(vs.skip(0) =~= vs);
    }
    while i < n
        invariant
            i <= n,
            n == items@.len(),
            vs == views_of(items@),
            "<ul>"@ + spec_render_items(vs) =~= r@ + spec_render_items(vs.skip(i as int)),
        decreases n - i,
    {
        let item = render_item(&items[i]);
        r.append(item.as_str());
        proof {
            let rest = vs.skip(i as int);
            assert(rest[0] == vs[i as int]);
            assert(rest.drop_first() =~= vs.skip(i + 1));
            assert(spec_render_items(rest) == spec_render_item(vs[i as int])
                + spec_render_items(vs.skip(i + 1)));
        }
        i = i + 1;
    }
    proof {
        assert(vs.skip(n as int) =~= Seq::<TodoView>::empty());
        assert(spec_render_items(vs.skip(n as int)) =~= Seq::<char>::empty());
        assert(r@ =~= "<ul>"@ + spec_render_items(vs));
    }
    r.append("</ul>");
    proof {
        assert(r@ =~= spec_render_todo_list(vs));
    }
    r
}

/// Renders the full page for a snapshot of records.
pub fn render_main(items: &Vec<ToDo>) -> (r: String)
    ensures
        r@ == spec_render_main(views_of(items@)),
{
    let list = render_todo_list(items);
    let mut children = String::from_str(
        "<h1>ToDos App</h1><button hx-get=\"/todos\" hx-target=\"#todos\">refresh</button><form hx-post=\"/todos\" hx-target=\"#todos > ul\" hx-swap=\"beforeend\"><input type=\"text\" name=\"text\" /><button type=\"submit\">add</button></form><div id=\"todos\">",
    );
    children.append(list.as_str());
    children.append("</div>");
    let r = render_template("ToDos App", children.as_str());
    proof {
        assert(children@ =~= "<h1>ToDos App</h1><button hx-get=\"/todos\" hx-target=\"#todos\">refresh</button><form hx-post=\"/todos\" hx-target=\"#todos > ul\" hx-swap=\"beforeend\"><input type=\"text\" name=\"text\" /><button type=\"submit\">add</button></form><div id=\"todos\">"@
                + spec_render_todo_list(views_of(items@)) + "</div>"@);
    }
    r
}

/// Renders the counter fragment.
pub fn render_counter(v: i64) -> (r: String)
    ensures
        r@ == spec_render_counter(v),
{
    let digits = i64_to_dec(v);
    let mut r = String::from_str("<div id=\"counter\">");
    r.append(digits.as_str());
    r.append("</div>");
    proof {
        assert(r@ =~= spec_render_counter(v));
    }
    r
}

/// Renders the greeting.
pub fn render_greeting(name: &str) -> (r: String)
    ensures
        r@ == spec_render_greeting(name@),
{
    let mut r = String::from_str("Hello, ");
    r.append(name);
    r.append("!");
    proof {
        assert(r@ =~= spec_render_greeting(name@));
    }
    r
}

} // verus!
