use swapi_relay::ident::{decode_cursor, encode_cursor, extract_key, str_eq, IdError};

#[test]
fn extracts_trailing_number() {
    assert_eq!(extract_key("https://swapi.dev/api/people/1/"), Ok(1));
    assert_eq!(extract_key("https://swapi.dev/api/films/42/"), Ok(42));
    assert_eq!(extract_key("https://swapi.dev/api/starships/007/"), Ok(7));
}

#[test]
fn extracts_largest_key() {
    assert_eq!(extract_key("https://swapi.dev/api/people/4294967295/"), Ok(u32::MAX));
}

#[test]
fn rejects_key_over_u32() {
    assert_eq!(
        extract_key("https://swapi.dev/api/people/4294967296/"),
        Err(IdError::MalformedIdentifier)
    );
}

#[test]
fn rejects_malformed_shapes() {
    let bad = [
        "",
        "https://swapi.dev/api/",
        "https://swapi.dev/api/people/",
        "https://swapi.dev/api/people/1",
        "https://swapi.dev/api//1/",
        "https://swapi.dev/api/people//",
        "https://swapi.dev/api/people/x1/",
        "https://swapi.dev/api/a/b/1/",
        "http://swapi.dev/api/people/1/",
        "https://example.com/api/people/1/",
    ];
    for id in bad {
        assert_eq!(extract_key(id), Err(IdError::MalformedIdentifier), "{}", id);
    }
}

#[test]
fn cursor_is_the_identifier() {
    let id = "https://swapi.dev/api/films/3/";
    assert_eq!(encode_cursor(id), id.to_string());
}

#[test]
fn cursor_round_trip() {
    for id in [
        "https://swapi.dev/api/people/1/",
        "https://swapi.dev/api/films/6/",
        "https://swapi.dev/api/people/bad/",
    ] {
        assert_eq!(decode_cursor(&encode_cursor(id)), extract_key(id));
    }
    assert_eq!(decode_cursor("https://swapi.dev/api/people/12/"), Ok(12));
}

#[test]
fn compares_strings() {
    assert!(str_eq("edges", "edges"));
    assert!(!str_eq("edges", "edge"));
    assert!(!str_eq("edges", "edgeS"));
    assert!(str_eq("", ""));
}
