use imdb_indexer::json::{parse_json, Json, JsonError};

#[test]
fn documents_are_read() {
    let body = r#"{"title":"Дюна","id":438631,"vote_average":7.8,"adult":false,"genres":[{"name":"боевик"},{}],"tagline":null}"#;
    let json = parse_json(body.as_bytes()).unwrap();
    assert_eq!(json.text("title"), Some("Дюна"));
    assert_eq!(json.uint("id"), Some(438631));
    assert_eq!(json.uint("vote_average"), None);
    assert_eq!(json.number_key("vote_average"), Some(tantivy::f64_to_u64(7.8)));
    assert_eq!(json.number_key("id"), Some(tantivy::f64_to_u64(438631.0)));
    assert!(!json.is_true("adult"));
    assert!(matches!(json.get("tagline"), Some(Json::Null)));
    assert!(json.get("missing").is_none());
    let genres = json.list("genres").unwrap();
    assert_eq!(genres.len(), 2);
    assert_eq!(genres[0].text("name"), Some("боевик"));
    assert_eq!(genres[1].text("name"), None);
    assert!(genres[0].get_or("title", "name").is_some());
}

#[test]
fn lists_inside_objects_are_found() {
    let json = parse_json(br#"{"credits":{"cast":[1,2]},"images":7}"#).unwrap();
    assert_eq!(json.list_at("credits", "cast").unwrap().len(), 2);
    assert!(json.list_at("credits", "crew").is_none());
    assert!(json.list_at("images", "logos").is_none());
    assert!(json.list_at("videos", "results").is_none());
}

#[test]
fn a_value_that_is_there_hides_the_other_key() {
    let json = parse_json(br#"{"title":null,"name":"x"}"#).unwrap();
    assert!(matches!(json.get_or("title", "name"), Some(Json::Null)));
    assert_eq!(json.text("title"), None);
}

#[test]
fn negative_numbers_are_no_unsigned_numbers() {
    let json = parse_json(br#"{"a":-1,"b":1e3}"#).unwrap();
    assert_eq!(json.uint("a"), None);
    assert_eq!(json.uint("b"), None);
    assert!(json.number_key("a").unwrap() < json.number_key("b").unwrap());
}

#[test]
fn malformed_bodies_are_refused() {
    assert_eq!(parse_json(b"{").err(), Some(JsonError::Malformed));
    assert_eq!(parse_json(b"").err(), Some(JsonError::Malformed));
    assert_eq!(parse_json(&[0xff]).err(), Some(JsonError::Malformed));
}
