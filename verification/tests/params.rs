use firebase_rs::params::Params;
use firebase_rs::uri::Uri;
use firebase_rs::Firebase;
use std::collections::HashMap;

#[test]
fn check_params() {
    let mut params: HashMap<String, String> = HashMap::new();
    params.insert("param_1".to_owned(), "value_1".to_owned());
    params.insert("param_2".to_owned(), "value_2".to_owned());
    let mut param = Params::new(Uri::parse("https://github.com/emreyalvac").unwrap());
    for (key, value) in params.iter() {
        param.add_param(key, value);
    }
    assert_eq!(
        param.finish().get_uri().as_str(),
        "https://github.com/emreyalvac?param_1=value_1&param_2=value_2"
    )
}

#[test]
fn parameters_are_written_in_the_order_of_their_names() {
    let reference = Firebase::new("https://db.example.com").unwrap().at("users");
    let one = reference
        .with_params()
        .order_by("name")
        .limit_to_first(10)
        .finish();
    let other = reference
        .with_params()
        .limit_to_first(10)
        .order_by("name")
        .finish();
    assert_eq!(one.get_uri(), other.get_uri());
    assert_eq!(
        one.get_uri(),
        "https://db.example.com/users.json?limitToFirst=10&orderBy=name"
    );
}

#[test]
fn every_builder_writes_its_own_name() {
    let reference = Firebase::new("https://db.example.com").unwrap().at("users");
    let all = reference
        .with_params()
        .start_at(1)
        .order_by("name")
        .equal_to(5)
        .end_at(4294967295)
        .limit_to_first(0)
        .limit_to_last(7)
        .shallow(true)
        .format()
        .finish();
    assert_eq!(
        all.get_uri(),
        "https://db.example.com/users.json?endAt=4294967295&equalTo=5&format=export\
         &limitToFirst=0&limitToLast=7&orderBy=name&shallow=true&startAt=1"
    );
    let shallow = reference.with_params().shallow(false).finish();
    assert_eq!(
        shallow.get_uri(),
        "https://db.example.com/users.json?shallow=false"
    );
}

#[test]
fn a_name_has_one_value() {
    let reference = Firebase::new("https://db.example.com").unwrap();
    let last = reference
        .with_params()
        .order_by("age")
        .limit_to_first(3)
        .order_by("name")
        .finish();
    assert_eq!(
        last.get_uri(),
        "https://db.example.com/?limitToFirst=3&orderBy=name"
    );
}

#[test]
fn values_are_percent_encoded() {
    let reference = Firebase::new("https://db.example.com").unwrap();
    let encoded = reference
        .with_params()
        .order_by("first name&x=\u{e9}")
        .finish();
    assert_eq!(
        encoded.get_uri(),
        "https://db.example.com/?orderBy=first+name%26x%3D%C3%A9"
    );
}

#[test]
fn no_parameter_leaves_the_reference_as_it_is() {
    let reference = Firebase::auth("https://db.example.com", "key").unwrap().at("a");
    assert_eq!(reference.with_params().finish().get_uri(), reference.get_uri());
    assert_eq!(
        reference.with_params().shallow(true).finish().get_uri(),
        "https://db.example.com/a.json?auth=key&shallow=true"
    );
}

#[test]
fn room_for_a_parameter_is_tested() {
    let reference = Firebase::new("https://db.example.com").unwrap();
    let mut params = reference.with_params();
    assert!(params.has_room_for("orderBy", "name"));
    params.order_by("name");
    assert!(params.has_room_for("orderBy", "age"));
    assert!(params.has_room_for("limitToFirst", "10"));
    let long = "x".repeat(400_000_000);
    assert!(!params.has_room_for("orderBy", &long));
    assert!(!params.has_room_for(&long, ""));
}
