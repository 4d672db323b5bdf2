use todo_fragments::counter::Counter;
use todo_fragments::db::ToDo;
use todo_fragments::render::{render_counter, render_greeting, render_item, render_main,
    render_template, render_todo_list};
use todo_fragments::text::{i64_to_dec, parse_usize, usize_to_dec};

fn item(id: usize, text: &str) -> ToDo {
    ToDo { id, text: text.to_string() }
}

const ITEM_ONE: &str = "<li id=\"1\"><input value=\"buy milk\" name=\"text\" hx-put=\"/todos/1\" /><button hx-delete=\"/todos/1\" hx-target=\"closest li\" hx-swap=\"outerHTML\">delete</button></li>";

#[test]
fn item_fragment_carries_id_and_text() {
    assert_eq!(render_item(&item(1, "buy milk")), ITEM_ONE);
}

#[test]
fn empty_list_renders_empty_ul() {
    assert_eq!(render_todo_list(&Vec::new()), "<ul></ul>");
}

#[test]
fn list_concatenates_items_in_order() {
    let items = vec![item(1, "a"), item(2, "b")];
    let one = render_item(&items[0]);
    let two = render_item(&items[1]);
    assert_eq!(render_todo_list(&items), format!("<ul>{}{}</ul>", one, two));
}

#[test]
fn render_is_deterministic() {
    let items = vec![item(3, "same"), item(4, "again")];
    assert_eq!(render_todo_list(&items), render_todo_list(&items));
    assert_eq!(render_main(&items), render_main(&items));
    assert_eq!(render_counter(-17), render_counter(-17));
    assert_eq!(render_greeting("x"), render_greeting("x"));
}

#[test]
fn template_wraps_children_verbatim() {
    let page = render_template("T", "<p>hi</p>");
    assert_eq!(
        page,
        "<!DOCTYPE html><html><head><title>T</title><meta name=\"color-scheme\" content=\"dark light\" /></head><body><main><p>hi</p></main></body></html>"
    );
}

#[test]
fn main_page_embeds_list_fragment() {
    let items = vec![item(1, "buy milk")];
    let page = render_main(&items);
    let list = render_todo_list(&items);
    assert!(page.contains(&list));
    assert!(page.starts_with("<!DOCTYPE html>"));
    assert!(page.contains("<div id=\"todos\">"));
}

#[test]
fn counter_fragment_exact() {
    assert_eq!(render_counter(0), "<div id=\"counter\">0</div>");
    assert_eq!(render_counter(1), "<div id=\"counter\">1</div>");
    assert_eq!(render_counter(-5), "<div id=\"counter\">-5</div>");
}

#[test]
fn greeting_exact() {
    assert_eq!(render_greeting("world"), "Hello, world!");
    assert_eq!(render_greeting(""), "Hello, !");
}

#[test]
fn decimal_rendering_exact() {
    assert_eq!(usize_to_dec(0), "0");
    assert_eq!(usize_to_dec(42), "42");
    assert_eq!(usize_to_dec(1000), "1000");
    assert_eq!(i64_to_dec(-1), "-1");
    assert_eq!(i64_to_dec(i64::MIN), i64::MIN.to_string());
    assert_eq!(i64_to_dec(i64::MAX), i64::MAX.to_string());
}

#[test]
fn decimal_parsing_exact() {
    assert_eq!(parse_usize("0"), Some(0));
    assert_eq!(parse_usize("007"), Some(7));
    assert_eq!(parse_usize("123456"), Some(123456));
    assert_eq!(parse_usize(""), None);
    assert_eq!(parse_usize("12a"), None);
    assert_eq!(parse_usize("-3"), None);
    assert_eq!(parse_usize("99999999999999999999999999"), None);
    assert_eq!(parse_usize(&usize::MAX.to_string()), Some(usize::MAX));
}

#[test]
fn counter_wraps_at_ends() {
    let mut c = Counter::new();
    assert_eq!(c.get(), 0);
    c.decrement();
    assert_eq!(c.get(), -1);
    c.value = i64::MAX;
    c.increment();
    assert_eq!(c.get(), i64::MIN);
    c.decrement();
    assert_eq!(c.get(), i64::MAX);
}
