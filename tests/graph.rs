use swapi_relay::connection::PageError;
use swapi_relay::node::{ConnectionEdge, Film, NodeError, NodeRecord, NodeValue, Person};
use swapi_relay::schema::{ConnectionField, EdgeField};
use swapi_relay::store::{Query, Store};

fn person_id(n: u32) -> String {
    format!("https://swapi.dev/api/people/{}/", n)
}

fn film_id(n: u32) -> String {
    format!("https://swapi.dev/api/films/{}/", n)
}

fn sample() -> Store {
    let mut store = Store::new();
    let characters: Vec<String> = (1..=5).map(person_id).collect();
    store.insert(
        film_id(1),
        NodeRecord::Film(Film::new(film_id(1), "A New Hope".to_string(), characters)),
    );
    for n in 1..=5 {
        store.insert(
            person_id(n),
            NodeRecord::Person(Person::new(person_id(n), format!("Name {}", n), vec![film_id(1)])),
        );
    }
    store.insert("https://swapi.dev/api/planets/1/".to_string(), NodeRecord::Planet);
    store
}

#[test]
fn store_lookup_and_replace() {
    let mut store = Store::new();
    assert!(store.get(&person_id(1)).is_none());
    store.insert(person_id(1), NodeRecord::Planet);
    assert!(matches!(store.get(&person_id(1)), Some(NodeRecord::Planet)));
    store.insert(
        person_id(1),
        NodeRecord::Person(Person::new(person_id(1), "Luke".to_string(), vec![])),
    );
    match store.get(&person_id(1)) {
        Some(NodeRecord::Person(p)) => assert_eq!(p.name(), "Luke"),
        _ => panic!("expected a person"),
    }
    assert!(store.get(&person_id(2)).is_none());
}

#[test]
fn query_node_by_category() {
    let store = sample();
    match Query::node(&store, &film_id(1)) {
        Ok(Some(NodeValue::Film(f))) => {
            assert_eq!(f.title(), "A New Hope");
            assert_eq!(f.id(), &film_id(1));
            assert_eq!(f.characters.len(), 5);
        }
        _ => panic!("expected a film"),
    }
    match Query::node(&store, &person_id(2)) {
        Ok(Some(NodeValue::Person(p))) => assert_eq!(p.name(), "Name 2"),
        _ => panic!("expected a person"),
    }
    assert!(matches!(Query::node(&store, &person_id(9)), Ok(None)));
    assert!(matches!(
        Query::node(&store, "https://swapi.dev/api/planets/1/"),
        Err(NodeError::UnsupportedCategory)
    ));
}

#[test]
fn typed_lookups() {
    let store = sample();
    assert_eq!(Query::film(&store, &film_id(1)).unwrap().title(), "A New Hope");
    assert!(Query::film(&store, &person_id(1)).is_none());
    assert!(Query::film(&store, "https://swapi.dev/api/planets/1/").is_none());
    assert_eq!(Query::person(&store, &person_id(3)).unwrap().name(), "Name 3");
    assert!(Query::person(&store, &film_id(1)).is_none());
    assert!(Query::person(&store, &person_id(8)).is_none());
}

#[test]
fn node_from_record() {
    let f = Film::new(film_id(2), "Empire".to_string(), vec![]);
    assert!(matches!(NodeValue::from_record(NodeRecord::Film(f)), Ok(NodeValue::Film(_))));
    for rec in [
        NodeRecord::Planet,
        NodeRecord::Species,
        NodeRecord::Starship,
        NodeRecord::Vehicle,
    ] {
        assert!(matches!(
            NodeValue::from_record(rec),
            Err(NodeError::UnsupportedCategory)
        ));
    }
}

#[test]
fn film_characters_page() {
    let store = sample();
    let film = Query::film(&store, &film_id(1)).unwrap();
    let c = film.characters(&store, None, Some(2), None, None).unwrap();
    let names: Vec<&str> = c
        .edges
        .iter()
        .map(|e| e.node.as_ref().unwrap().name().as_str())
        .collect();
    assert_eq!(names, vec!["Name 1", "Name 2"]);
    assert_eq!(c.edges[1].cursor, person_id(2));
    assert!(c.page_info.has_next_page);
    assert!(!c.page_info.has_previous_page);
}

#[test]
fn person_films_page() {
    let store = sample();
    let person = Query::person(&store, &person_id(4)).unwrap();
    let c = person.films(&store, None, None, None, Some(1)).unwrap();
    assert_eq!(c.edges.len(), 1);
    assert_eq!(c.edges[0].node.as_ref().unwrap().title(), "A New Hope");
    assert_eq!(c.page_info.start_cursor, Some(film_id(1)));
}

#[test]
fn wrong_category_is_integrity_violation() {
    let store = sample();
    let film = Film::new(
        film_id(9),
        "Odd".to_string(),
        vec![person_id(1), "https://swapi.dev/api/planets/1/".to_string()],
    );
    let r = film.characters(&store, None, None, None, None);
    assert!(matches!(r, Err(PageError::IntegrityViolation)));
    let r = film.characters(&store, None, Some(1), None, None);
    assert_eq!(r.unwrap().edges.len(), 1);
}

#[test]
fn type_names() {
    assert_eq!(Film::connection_type_name(), "FilmConnection");
    assert_eq!(Film::edge_type_name(), "FilmEdge");
    assert_eq!(Person::connection_type_name(), "PersonConnection");
    assert_eq!(Person::edge_type_name(), "PersonEdge");
}

#[test]
fn field_catalogues() {
    let names: Vec<&str> = ConnectionField::all().iter().map(|f| f.name()).collect();
    assert_eq!(names, vec!["edges", "pageInfo"]);
    let names: Vec<&str> = EdgeField::all().iter().map(|f| f.name()).collect();
    assert_eq!(names, vec!["node", "cursor"]);
    assert_eq!(ConnectionField::from_name("edges"), Some(ConnectionField::Edges));
    assert_eq!(ConnectionField::from_name("pageInfo"), Some(ConnectionField::PageInfo));
    assert_eq!(ConnectionField::from_name("pageinfo"), None);
    assert_eq!(EdgeField::from_name("node"), Some(EdgeField::Node));
    assert_eq!(EdgeField::from_name("cursor"), Some(EdgeField::Cursor));
    assert_eq!(EdgeField::from_name("edges"), None);
}

#[test]
fn characters_twice_same_result() {
    let store = sample();
    let film = Query::film(&store, &film_id(1)).unwrap();
    let a = film.characters(&store, Some(person_id(1)), Some(3), None, Some(2)).unwrap();
    let b = film.characters(&store, Some(person_id(1)), Some(3), None, Some(2)).unwrap();
    let ids = |c: &swapi_relay::connection::Connection<Person>| -> Vec<String> {
        c.edges.iter().map(|e| e.node.as_ref().unwrap().id().clone()).collect()
    };
    assert_eq!(ids(&a), vec![person_id(3), person_id(4)]);
    assert_eq!(ids(&a), ids(&b));
    assert_eq!(a.page_info.start_cursor, b.page_info.start_cursor);
    assert_eq!(a.page_info.end_cursor, b.page_info.end_cursor);
    assert_eq!(a.page_info.has_previous_page, b.page_info.has_previous_page);
    assert_eq!(a.page_info.has_next_page, b.page_info.has_next_page);
    assert!(a.page_info.has_previous_page);
    assert!(a.page_info.has_next_page);
}

#[test]
fn characters_with_zero_first() {
    let store = sample();
    let film = Query::film(&store, &film_id(1)).unwrap();
    let c = film.characters(&store, None, Some(0), None, None).unwrap();
    assert!(c.edges.is_empty());
    assert!(!c.page_info.has_previous_page);
    assert!(!c.page_info.has_next_page);
    assert_eq!(c.page_info.start_cursor, None);
}
