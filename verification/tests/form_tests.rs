use todo_fragments::form::{form_decode_str, parse_todo_form};

#[test]
fn plain_body_parses() {
    let t = parse_todo_form("id=1&text=hello").expect("well-formed body");
    assert_eq!(t.id, 1);
    assert_eq!(t.text, "hello");
}

#[test]
fn fields_in_either_order() {
    let t = parse_todo_form("text=hello&id=9").expect("well-formed body");
    assert_eq!(t.id, 9);
    assert_eq!(t.text, "hello");
}

#[test]
fn plus_decodes_to_space() {
    let t = parse_todo_form("id=1&text=buy+milk").expect("well-formed body");
    assert_eq!(t.text, "buy milk");
}

#[test]
fn percent_escapes_decode() {
    assert_eq!(form_decode_str("a%26b").as_deref(), Some("a&b"));
    assert_eq!(form_decode_str("%41%42c").as_deref(), Some("ABc"));
    assert_eq!(form_decode_str("").as_deref(), Some(""));
    let t = parse_todo_form("id=2&text=a%3Db").expect("well-formed body");
    assert_eq!(t.text, "a=b");
}

#[test]
fn bad_escapes_fail() {
    assert_eq!(form_decode_str("%4"), None);
    assert_eq!(form_decode_str("%zz"), None);
    assert_eq!(form_decode_str("100%"), None);
    assert_eq!(form_decode_str("%FF"), None);
    assert!(parse_todo_form("id=1&text=%G1").is_none());
}

#[test]
fn wrong_shapes_are_rejected() {
    assert!(parse_todo_form("").is_none());
    assert!(parse_todo_form("id=1").is_none());
    assert!(parse_todo_form("id=1&text=a&extra=b").is_none());
    assert!(parse_todo_form("id=1&textual=a").is_none());
    assert!(parse_todo_form("id&text=a").is_none());
    assert!(parse_todo_form("id=&text=a").is_none());
    assert!(parse_todo_form("id=12x&text=a").is_none());
    assert!(parse_todo_form("id=99999999999999999999999999&text=a").is_none());
}

#[test]
fn numeric_text_is_fine() {
    let t = parse_todo_form("id=0&text=123").expect("well-formed body");
    assert_eq!(t.id, 0);
    assert_eq!(t.text, "123");
}
