use todo_fragments::db::{create_todo, delete_todo, empty, todos, update_todo, ToDo};

fn item(id: usize, text: &str) -> ToDo {
    ToDo { id, text: text.to_string() }
}

#[test]
fn create_then_list() {
    let mut store = empty();
    assert!(create_todo(&mut store, item(1, "buy milk")).is_ok());
    let all = todos(&store);
    assert_eq!(all.len(), 1);
    assert_eq!(all[0].id, 1);
    assert_eq!(all[0].text, "buy milk");
}

#[test]
fn duplicate_create_conflicts() {
    let mut store = empty();
    assert!(create_todo(&mut store, item(1, "a")).is_ok());
    assert!(create_todo(&mut store, item(1, "b")).is_err());
    let all = todos(&store);
    assert_eq!(all.len(), 1);
    assert_eq!(all[0].text, "a");
}

#[test]
fn distinct_ids_both_appear() {
    let mut store = empty();
    assert!(create_todo(&mut store, item(1, "a")).is_ok());
    assert!(create_todo(&mut store, item(2, "b")).is_ok());
    let all = todos(&store);
    assert_eq!(all.len(), 2);
    assert_eq!(all[0].id, 1);
    assert_eq!(all[1].id, 2);
}

#[test]
fn update_missing_fails_and_changes_nothing() {
    let mut store = empty();
    assert!(update_todo(&mut store, 1, item(1, "b")).is_err());
    assert_eq!(todos(&store).len(), 0);
    assert!(create_todo(&mut store, item(2, "x")).is_ok());
    assert!(update_todo(&mut store, 1, item(1, "b")).is_err());
    let all = todos(&store);
    assert_eq!(all.len(), 1);
    assert_eq!(all[0].id, 2);
    assert_eq!(all[0].text, "x");
}

#[test]
fn update_keeps_position() {
    let mut store = empty();
    assert!(create_todo(&mut store, item(1, "a")).is_ok());
    assert!(create_todo(&mut store, item(2, "b")).is_ok());
    assert!(create_todo(&mut store, item(3, "c")).is_ok());
    assert!(update_todo(&mut store, 2, item(2, "changed")).is_ok());
    let all = todos(&store);
    assert_eq!(all.len(), 3);
    assert_eq!(all[1].id, 2);
    assert_eq!(all[1].text, "changed");
    assert_eq!(all[0].text, "a");
    assert_eq!(all[2].text, "c");
}

#[test]
fn delete_missing_fails_and_changes_nothing() {
    let mut store = empty();
    assert!(delete_todo(&mut store, 7).is_err());
    assert!(create_todo(&mut store, item(1, "a")).is_ok());
    assert!(delete_todo(&mut store, 7).is_err());
    assert_eq!(todos(&store).len(), 1);
}

#[test]
fn delete_twice_succeeds_once() {
    let mut store = empty();
    assert!(create_todo(&mut store, item(5, "gone")).is_ok());
    assert!(delete_todo(&mut store, 5).is_ok());
    assert!(delete_todo(&mut store, 5).is_err());
    assert_eq!(todos(&store).len(), 0);
}

#[test]
fn delete_keeps_order_of_survivors() {
    let mut store = empty();
    assert!(create_todo(&mut store, item(1, "a")).is_ok());
    assert!(create_todo(&mut store, item(2, "b")).is_ok());
    assert!(create_todo(&mut store, item(3, "c")).is_ok());
    assert!(delete_todo(&mut store, 2).is_ok());
    let all = todos(&store);
    assert_eq!(all.len(), 2);
    assert_eq!(all[0].id, 1);
    assert_eq!(all[1].id, 3);
}
