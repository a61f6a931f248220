use firebase_rs::request::{Reply, Request};
use firebase_rs::{Firebase, Method, RequestError, Response};

fn users() -> Firebase {
    Firebase::new("https://db.example.com").unwrap().at("users")
}

fn received(status: u16, etag: Option<&str>, body: &str) -> Reply {
    Reply::Received {
        status,
        etag: etag.map(String::from),
        body: body.to_string(),
    }
}

#[test]
fn an_empty_response() {
    let response = Response::new();
    assert_eq!(response.data, "");
    assert_eq!(response.etag, None);
}

#[test]
fn writes_need_a_payload() {
    for method in [Method::POST, Method::PUT, Method::PATCH] {
        assert_eq!(
            users().request(method, None, false, None),
            Err(RequestError::SerializeError)
        );
        let request = users()
            .request(method, Some("1".to_string()), false, None)
            .unwrap();
        assert_eq!(request.method, method);
        assert_eq!(request.body.as_deref(), Some("1"));
        assert_eq!(request.url, "https://db.example.com/users.json");
    }
}

#[test]
fn reads_and_removals_carry_no_payload() {
    for method in [Method::GET, Method::DELETE] {
        let bare = users().request(method, None, false, None).unwrap();
        assert_eq!(bare.body, None);
        let ignored = users()
            .request(method, Some("1".to_string()), false, None)
            .unwrap();
        assert_eq!(ignored.body, None);
        assert_eq!(ignored.method, method);
    }
}

#[test]
fn concurrency_options_become_headers() {
    let plain = users().request(Method::GET, None, false, None).unwrap();
    assert!(plain.headers().is_empty());
    let asking = users().request(Method::GET, None, true, None).unwrap();
    assert_eq!(
        asking.headers(),
        vec![("X-Firebase-ETag".to_string(), "true".to_string())]
    );
    let conditional = users()
        .request(Method::PUT, Some("2".to_string()), false, Some("tag"))
        .unwrap();
    assert_eq!(
        conditional.headers(),
        vec![("if-match".to_string(), "tag".to_string())]
    );
    let both = Request::plan(
        "https://db.example.com/x.json".to_string(),
        Method::PUT,
        Some("2".to_string()),
        true,
        Some("tag"),
    )
    .unwrap();
    assert_eq!(
        both.headers(),
        vec![
            ("X-Firebase-ETag".to_string(), "true".to_string()),
            ("if-match".to_string(), "tag".to_string())
        ]
    );
}

#[test]
fn the_verbs_of_the_operations() {
    let reference = users();
    assert_eq!(reference.get_as_string().method, Method::GET);
    assert_eq!(reference.get().method, Method::GET);
    assert_eq!(reference.delete().method, Method::DELETE);
    assert_eq!(reference.set("1".to_string()).method, Method::POST);
    assert_eq!(reference.post_json("1".to_string()).method, Method::POST);
    assert_eq!(reference.put_json("1".to_string()).method, Method::PUT);
    assert_eq!(reference.update("1".to_string()).method, Method::PATCH);
    let request = reference.update("{\"a\":1}".to_string());
    assert_eq!(request.body.as_deref(), Some("{\"a\":1}"));
    assert_eq!(request.url, "https://db.example.com/users.json");
    assert!(!request.request_etag);
    assert_eq!(request.if_match, None);
    assert_eq!(reference.delete().body, None);
}

#[test]
fn a_null_read_found_nothing() {
    let read = users().get_as_string();
    assert_eq!(
        read.outcome(received(200, None, "null")),
        Err(RequestError::NotFoundOrNullBody)
    );
    assert_eq!(
        read.outcome(received(200, Some("tag"), "null")),
        Err(RequestError::NotFoundOrNullBody)
    );
}

#[test]
fn a_read_carries_its_body() {
    let read = users().get_as_string();
    assert_eq!(
        read.outcome(received(200, Some("tag"), "{\"a\":1}")),
        Ok(Response {
            data: "{\"a\":1}".to_string(),
            etag: Some("tag".to_string())
        })
    );
    assert_eq!(
        read.outcome(received(200, None, " null")),
        Ok(Response {
            data: " null".to_string(),
            etag: None
        })
    );
}

#[test]
fn a_write_carries_its_body() {
    let write = users().put_json("null".to_string());
    assert_eq!(
        write.outcome(received(200, None, "null")),
        Ok(Response {
            data: "null".to_string(),
            etag: None
        })
    );
}

#[test]
fn a_removal_yields_an_empty_body() {
    let removal = users().delete();
    assert_eq!(
        removal.outcome(received(200, None, "null")),
        Ok(Response {
            data: String::new(),
            etag: None
        })
    );
}

#[test]
fn other_statuses_are_network_errors() {
    let read = users().get_as_string();
    for status in [0, 199, 201, 204, 301, 400, 401, 404, 412, 500] {
        assert_eq!(
            read.outcome(received(status, Some("tag"), "5")),
            Err(RequestError::NetworkError)
        );
    }
    assert_eq!(read.outcome(Reply::Failed), Err(RequestError::NetworkError));
}

#[test]
fn a_failed_precondition_is_a_response_to_a_conditional_request() {
    let conditional = users()
        .request(Method::PUT, Some("6".to_string()), false, Some("old"))
        .unwrap();
    assert_eq!(
        conditional.outcome(received(412, Some("new"), "7")),
        Ok(Response {
            data: "7".to_string(),
            etag: Some("new".to_string())
        })
    );
    let unconditional = users().put_json("6".to_string());
    assert_eq!(
        unconditional.outcome(received(412, Some("new"), "7")),
        Err(RequestError::NetworkError)
    );
    assert_eq!(
        received(412, None, "null").classify(Method::GET, true),
        Ok(Response {
            data: "null".to_string(),
            etag: None
        })
    );
}

#[test]
fn request_error_messages() {
    assert_eq!(RequestError::NotJSON.to_string(), "Invalid JSON");
    assert_eq!(RequestError::NoUTF8.to_string(), "Utf8 error");
    assert_eq!(RequestError::NetworkError.to_string(), "Network error");
    assert_eq!(RequestError::SerializeError.to_string(), "Serialize error");
    assert_eq!(
        RequestError::NotFoundOrNullBody.to_string(),
        "Body is null or record is not found"
    );
    assert_eq!(RequestError::LimitExceeded.to_string(), "Limit exceeded");
}
