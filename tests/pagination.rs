use swapi_relay::connection::{select_window, Connection, PageError, PageInfo};

fn person_id(n: u32) -> String {
    format!("https://swapi.dev/api/people/{}/", n)
}

fn five() -> Vec<String> {
    (1..=5).map(person_id).collect()
}

fn keys(ids: &[String]) -> Vec<u32> {
    ids.iter()
        .map(|s| swapi_relay::ident::extract_key(s).unwrap())
        .collect()
}

fn check_info(p: &PageInfo, prev: bool, next: bool, start: Option<u32>, end: Option<u32>) {
    assert_eq!(p.has_previous_page, prev);
    assert_eq!(p.has_next_page, next);
    assert_eq!(p.start_cursor, start.map(person_id));
    assert_eq!(p.end_cursor, end.map(person_id));
}

#[derive(Debug, PartialEq)]
struct Loaded(String);

fn load_all(id: &String) -> Option<Loaded> {
    Some(Loaded(id.clone()))
}

#[test]
fn first_two_of_five() {
    let w = select_window(&five(), None, Some(2), None, None).unwrap();
    assert_eq!(keys(&w.ids), vec![1, 2]);
    check_info(&w.page_info, false, true, Some(1), Some(2));
}

#[test]
fn last_two_after_second() {
    let w = select_window(&five(), Some(person_id(2)), None, None, Some(2)).unwrap();
    assert_eq!(keys(&w.ids), vec![4, 5]);
    check_info(&w.page_info, true, false, Some(4), Some(5));
}

#[test]
fn before_first_is_empty() {
    let w = select_window(&five(), None, None, Some(person_id(1)), None).unwrap();
    assert!(w.ids.is_empty());
    check_info(&w.page_info, false, false, None, None);
}

#[test]
fn first_then_last_compose() {
    let w = select_window(&five(), None, Some(2), None, Some(1)).unwrap();
    assert_eq!(keys(&w.ids), vec![2]);
    check_info(&w.page_info, true, true, Some(2), Some(2));
}

#[test]
fn no_arguments_gives_everything() {
    let w = select_window(&five(), None, None, None, None).unwrap();
    assert_eq!(keys(&w.ids), vec![1, 2, 3, 4, 5]);
    check_info(&w.page_info, false, false, Some(1), Some(5));
}

#[test]
fn after_and_before_together() {
    let w = select_window(&five(), Some(person_id(1)), None, Some(person_id(5)), None).unwrap();
    assert_eq!(keys(&w.ids), vec![2, 3, 4]);
    check_info(&w.page_info, false, false, Some(2), Some(4));
}

#[test]
fn bounds_need_not_be_members() {
    let ids: Vec<String> = [10, 20, 30].into_iter().map(person_id).collect();
    let w = select_window(&ids, Some(person_id(15)), None, Some(person_id(25)), None).unwrap();
    assert_eq!(keys(&w.ids), vec![20]);
}

#[test]
fn order_of_input_is_kept() {
    let ids: Vec<String> = [3, 1, 4, 2].into_iter().map(person_id).collect();
    let w = select_window(&ids, Some(person_id(1)), None, None, None).unwrap();
    assert_eq!(keys(&w.ids), vec![3, 4, 2]);
    // The flags compare keys, not positions.
    assert!(!w.page_info.has_previous_page);
    assert!(!w.page_info.has_next_page);
}

#[test]
fn first_zero_is_empty() {
    let w = select_window(&five(), None, Some(0), None, None).unwrap();
    assert!(w.ids.is_empty());
    check_info(&w.page_info, false, false, None, None);
}

#[test]
fn last_zero_is_empty() {
    let w = select_window(&five(), Some(person_id(1)), None, None, Some(0)).unwrap();
    assert!(w.ids.is_empty());
    check_info(&w.page_info, false, false, None, None);
}

#[test]
fn first_larger_than_list() {
    let w = select_window(&five(), None, Some(i32::MAX), None, Some(3)).unwrap();
    assert_eq!(keys(&w.ids), vec![3, 4, 5]);
    check_info(&w.page_info, true, false, Some(3), Some(5));
}

#[test]
fn empty_list() {
    let w = select_window(&[], None, Some(3), None, None).unwrap();
    assert!(w.ids.is_empty());
    check_info(&w.page_info, false, false, None, None);
}

#[test]
fn negative_first_is_invalid() {
    let r = select_window(&five(), None, Some(-1), None, None);
    assert_eq!(r.err(), Some(PageError::InvalidArgument));
    let r = select_window(&five(), Some("junk".to_string()), None, None, Some(-3));
    assert_eq!(r.err(), Some(PageError::InvalidArgument));
}

#[test]
fn malformed_cursor_is_rejected() {
    let r = select_window(&five(), Some("junk".to_string()), None, None, None);
    assert_eq!(r.err(), Some(PageError::MalformedIdentifier));
    let r = select_window(&five(), None, None, Some("https://swapi.dev/api/people/".to_string()), None);
    assert_eq!(r.err(), Some(PageError::MalformedIdentifier));
}

#[test]
fn malformed_identifier_in_list_is_rejected() {
    let mut ids = five();
    ids.push("https://swapi.dev/api/people/six/".to_string());
    let r = select_window(&ids, None, Some(1), None, None);
    assert_eq!(r.err(), Some(PageError::MalformedIdentifier));
}

#[test]
fn same_arguments_same_page() {
    let a = select_window(&five(), Some(person_id(1)), Some(3), None, Some(2)).unwrap();
    let b = select_window(&five(), Some(person_id(1)), Some(3), None, Some(2)).unwrap();
    assert_eq!(a.ids, b.ids);
    assert_eq!(a.page_info.has_previous_page, b.page_info.has_previous_page);
    assert_eq!(a.page_info.has_next_page, b.page_info.has_next_page);
    assert_eq!(a.page_info.start_cursor, b.page_info.start_cursor);
    assert_eq!(a.page_info.end_cursor, b.page_info.end_cursor);
}

#[test]
fn connection_loads_each_edge() {
    let c = Connection::new(&five(), load_all, None, Some(2), None, None).unwrap();
    assert_eq!(c.edges.len(), 2);
    assert_eq!(c.edges[0].cursor, person_id(1));
    assert_eq!(c.edges[0].node, Some(Loaded(person_id(1))));
    assert_eq!(c.edges[1].cursor, person_id(2));
    assert_eq!(c.edges[1].node, Some(Loaded(person_id(2))));
    check_info(&c.page_info, false, true, Some(1), Some(2));
}

#[test]
fn connection_reports_missing_node() {
    let load = |id: &String| {
        if id == &person_id(3) {
            None
        } else {
            Some(Loaded(id.clone()))
        }
    };
    let r = Connection::new(&five(), load, None, None, None, None);
    assert!(matches!(r, Err(PageError::IntegrityViolation)));
    let c = Connection::new(&five(), load, Some(person_id(3)), None, None, None).unwrap();
    assert_eq!(c.edges.len(), 2);
}

#[test]
fn connection_passes_errors_through() {
    let r = Connection::new(&five(), load_all, None, None, None, Some(-1));
    assert!(matches!(r, Err(PageError::InvalidArgument)));
}
