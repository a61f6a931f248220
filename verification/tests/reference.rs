use firebase_rs::path::make_child_path;
use firebase_rs::uri::Uri;
use firebase_rs::utils::check_uri;
use firebase_rs::{Firebase, UrlParseError};

const URI: &str = "https://firebase_id.firebaseio.com";
const URI_WITH_SLASH: &str = "https://firebase_id.firebaseio.com/";
const URI_NON_HTTPS: &str = "http://firebase_id.firebaseio.com/";

#[test]
fn simple() {
    let firebase = Firebase::new(URI).unwrap();
    assert_eq!(URI_WITH_SLASH.to_string(), firebase.get_uri());
}

#[test]
fn non_https() {
    let firebase = Firebase::new(URI_NON_HTTPS).map_err(|e| e.to_string());
    assert_eq!(
        firebase.err(),
        Some(String::from(UrlParseError::NotHttps.to_string()))
    );
}

#[test]
fn with_auth() {
    let firebase = Firebase::auth(URI, "auth_key").unwrap();
    assert_eq!(
        format!("{}/?auth=auth_key", URI.to_string()),
        firebase.get_uri()
    );
}

#[test]
fn with_sse_events() {
    let firebase = Firebase::new(URI).unwrap().at("users");
    let events = firebase.with_realtime_events().unwrap();
    assert_eq!(events.url(), "https://firebase_id.firebaseio.com/users.json");
}

#[test]
fn trailing_slash_is_normalized() {
    let plain = Firebase::new(URI).unwrap();
    let slashed = Firebase::new(URI_WITH_SLASH).unwrap();
    let many = Firebase::new("https://firebase_id.firebaseio.com///").unwrap();
    assert_eq!(plain.get_uri(), slashed.get_uri());
    assert_eq!(plain.get_uri(), many.get_uri());
    let deep = Firebase::new("https://firebase_id.firebaseio.com/users/").unwrap();
    assert_eq!(deep.get_uri(), "https://firebase_id.firebaseio.com/users");
}

#[test]
fn http_is_refused_whatever_the_path() {
    for address in [
        "http://firebase_id.firebaseio.com",
        "http://firebase_id.firebaseio.com/users/alice.json",
        "http://firebase_id.firebaseio.com/?auth=key",
    ] {
        assert!(matches!(Firebase::new(address), Err(UrlParseError::NotHttps)));
        assert!(matches!(
            Firebase::auth(address, "key"),
            Err(UrlParseError::NotHttps)
        ));
    }
}

#[test]
fn unparsable_address_is_a_parse_error() {
    let error = Firebase::new("not a url").err().unwrap();
    assert!(matches!(error, UrlParseError::Parser(_)));
    assert_eq!(
        error.to_string(),
        "Error while parsing the URL: relative URL without a base"
    );
    let error = Firebase::new("http://").err().unwrap();
    assert_eq!(error.to_string(), "Error while parsing the URL: empty host");
}

#[test]
fn error_messages() {
    assert_eq!(UrlParseError::NoPath.to_string(), "URL path is missing.");
    assert_eq!(
        UrlParseError::NotHttps.to_string(),
        "The URL protocol should be https."
    );
}

#[test]
fn check_uri_keeps_the_parsed_url() {
    let uri = check_uri("https://Example.com/a/b/").unwrap();
    assert_eq!(uri.as_str(), "https://example.com/a/b");
    assert_eq!(uri.scheme(), "https");
    assert_eq!(uri.path_segments(), vec!["a".to_string(), "b".to_string()]);
}

#[test]
fn uri_setters() {
    let mut uri = Uri::parse("https://example.com/a?x=1#top").unwrap();
    uri.set_path("b/c d");
    assert_eq!(uri.as_str(), "https://example.com/b/c%20d?x=1#top");
    uri.set_query("y=2");
    assert_eq!(uri.as_str(), "https://example.com/b/c%20d?y=2#top");
    let pairs = vec![
        ("k".to_string(), "v w".to_string()),
        ("l".to_string(), "a&b".to_string()),
    ];
    uri.extend_pairs(&pairs);
    assert_eq!(
        uri.as_str(),
        "https://example.com/b/c%20d?y=2&k=v+w&l=a%26b#top"
    );
    let copy = uri.clone();
    assert_eq!(copy, uri);
    let mailto = Uri::parse("mailto:someone@example.com").unwrap();
    assert_eq!(mailto.scheme(), "mailto");
    assert!(mailto.path_segments().is_empty());
    assert!(Uri::parse("/relative").is_err());
}

#[test]
fn descends_from_the_root() {
    let root = Firebase::new(URI).unwrap();
    let users = root.at("users");
    assert_eq!(
        users.get_uri(),
        "https://firebase_id.firebaseio.com/users.json"
    );
    let user = users.at("USER_ID").at("f69111a8a5258c15286d3d0bd4688c55");
    assert_eq!(
        user.get_uri(),
        "https://firebase_id.firebaseio.com/users/USER_ID/f69111a8a5258c15286d3d0bd4688c55.json"
    );
    assert_eq!(
        root.get_uri(),
        "https://firebase_id.firebaseio.com/",
        "descending makes a new reference"
    );
}

#[test]
fn descending_to_a_suffixed_name_is_descending_to_the_name() {
    let users = Firebase::new(URI).unwrap().at("users");
    assert_eq!(users.at("x.json").get_uri(), users.at("x").get_uri());
    assert_eq!(users.at("x.json.json").get_uri(), users.at("x").get_uri());
    assert_eq!(
        users.at("x").get_uri(),
        "https://firebase_id.firebaseio.com/users/x.json"
    );
}

#[test]
fn descending_keeps_the_query() {
    let reference = Firebase::auth(URI, "secret").unwrap().at("users").at("alice");
    assert_eq!(
        reference.get_uri(),
        "https://firebase_id.firebaseio.com/users/alice.json?auth=secret"
    );
}

#[test]
fn auth_replaces_an_existing_query() {
    let reference = Firebase::auth("https://firebase_id.firebaseio.com/?old=1", "k").unwrap();
    assert_eq!(
        reference.get_uri(),
        "https://firebase_id.firebaseio.com/?auth=k"
    );
}

#[test]
fn only_the_last_parent_segment_loses_its_suffix() {
    let reference = Firebase::new("https://firebase_id.firebaseio.com/a.json/b.json").unwrap();
    assert_eq!(
        reference.at("c").get_uri(),
        "https://firebase_id.firebaseio.com/a.json/b/c.json"
    );
}

#[test]
fn child_paths() {
    let none: Vec<String> = Vec::new();
    assert_eq!(make_child_path(&none, "users"), "users.json");
    let root = vec![String::new()];
    assert_eq!(make_child_path(&root, "users"), "/users.json");
    let parent = vec!["users.json".to_string()];
    assert_eq!(make_child_path(&parent, "alice"), "users/alice.json");
    assert_eq!(make_child_path(&parent, "alice.json"), "users/alice.json");
    assert_eq!(make_child_path(&parent, ""), "users/.json");
    assert_eq!(make_child_path(&parent, ".json"), "users/.json");
    let doubled = vec!["a.json".to_string(), "b.json.json".to_string()];
    assert_eq!(make_child_path(&doubled, "c/d"), "a.json/b/c/d.json");
}

#[test]
fn set_with_key_descends_first() {
    let mut users = Firebase::new(URI).unwrap().at("users");
    let request = users.set_with_key("myKey", "{\"name\":\"\"}".to_string());
    assert_eq!(
        users.get_uri(),
        "https://firebase_id.firebaseio.com/users/myKey.json"
    );
    assert_eq!(request.url, users.get_uri());
    assert_eq!(request.body.as_deref(), Some("{\"name\":\"\"}"));
}

#[test]
fn a_reference_can_be_cloned() {
    let users = Firebase::new(URI).unwrap().at("users");
    let copy = users.clone();
    assert_eq!(copy.get_uri(), users.get_uri());
    assert_eq!(copy.at("a").get_uri(), users.at("a").get_uri());
}

#[test]
fn room_for_a_child_is_tested() {
    let users = Firebase::new(URI).unwrap().at("users");
    assert!(users.has_room_for("alice"));
    assert!(users.has_room_for(""));
    let long = "x".repeat(400_000_000);
    assert!(!users.has_room_for(&long));
}

#[test]
fn a_key_that_the_url_cannot_hold_is_refused() {
    let key = "k".repeat(400_000_000);
    let error = Firebase::auth(URI, &key).err().unwrap();
    assert!(matches!(error, UrlParseError::Parser(_)));
    assert_eq!(
        error.to_string(),
        "Error while parsing the URL: URLs more than 4 GB are not supported"
    );
}

#[test]
fn the_segments_of_a_child_are_those_of_its_path() {
    let child = Firebase::new(URI).unwrap().at("users").at("alice-1").at("pets_2");
    let uri = check_uri(&child.get_uri()).unwrap();
    assert_eq!(
        uri.path_segments(),
        vec![
            "users".to_string(),
            "alice-1".to_string(),
            "pets_2.json".to_string()
        ]
    );
    let mut plain = Uri::parse("https://example.com/old?x=1").unwrap();
    plain.set_path("a/b.c//d/");
    assert_eq!(plain.as_str(), "https://example.com/a/b.c//d/?x=1");
    assert_eq!(
        plain.path_segments(),
        vec![
            "a".to_string(),
            "b.c".to_string(),
            String::new(),
            "d".to_string(),
            String::new()
        ]
    );
    plain.set_path("");
    assert_eq!(plain.path_segments(), vec![String::new()]);
    plain.set_path("//x");
    assert_eq!(plain.path_segments(), vec![String::new(), "x".to_string()]);
}
