use firebase_rs::atomic::{apply_delta, Progress};
use firebase_rs::request::{Reply, Request};
use firebase_rs::{Firebase, Method, RequestError, Response};

fn counter() -> Firebase {
    Firebase::new("https://db.example.com").unwrap().at("counter")
}

/// A server that holds one integer under an entity tag and counts the
/// writes that it was asked for.
struct Server {
    value: i64,
    version: u32,
    writes: u32,
    /// Writes of other clients that arrive just before the next requests.
    races: Vec<i64>,
}

impl Server {
    fn tag(&self) -> String {
        format!("v{}", self.version)
    }

    fn answer(&mut self, request: &Request) -> Reply {
        assert_eq!(request.url, "https://db.example.com/counter.json");
        if let Some(value) = self.races.pop() {
            self.value = value;
            self.version += 1;
        }
        match request.method {
            Method::GET => {
                assert!(request.request_etag);
                Reply::Received {
                    status: 200,
                    etag: Some(self.tag()),
                    body: self.value.to_string(),
                }
            }
            Method::PUT => {
                self.writes += 1;
                if request.if_match == Some(self.tag()) {
                    self.value = request.body.as_ref().unwrap().parse().unwrap();
                    self.version += 1;
                    Reply::Received {
                        status: 200,
                        etag: None,
                        body: self.value.to_string(),
                    }
                } else {
                    Reply::Received {
                        status: 412,
                        etag: Some(self.tag()),
                        body: self.value.to_string(),
                    }
                }
            }
            _ => panic!("unexpected verb"),
        }
    }
}

fn run(
    server: &mut Server,
    value: i64,
    limit_min: Option<i64>,
    limit_max: Option<i64>,
    etag: Option<String>,
) -> Result<Response, RequestError> {
    let (mut state, mut request) =
        counter().update_atomically_by(value, limit_min, limit_max, etag);
    for _ in 0..100 {
        let reply = server.answer(&request);
        match state.advance(reply) {
            Progress::Done(result) => return result,
            Progress::Send(next, following) => {
                state = next;
                request = following;
            }
        }
    }
    panic!("the update did not end");
}

#[test]
fn adds_one_without_contention() {
    let mut server = Server { value: 5, version: 0, writes: 0, races: vec![] };
    let result = run(&mut server, 1, None, None, None);
    assert_eq!(
        result,
        Ok(Response { data: "6".to_string(), etag: None })
    );
    assert_eq!(server.value, 6);
    assert_eq!(server.writes, 1);
}

#[test]
fn stops_at_the_upper_bound_without_a_write() {
    let mut server = Server { value: 5, version: 0, writes: 0, races: vec![] };
    let result = run(&mut server, 1, None, Some(5), None);
    assert_eq!(result, Err(RequestError::LimitExceeded));
    assert_eq!(server.value, 5);
    assert_eq!(server.writes, 0);
}

#[test]
fn retries_with_the_same_change_after_a_conflict() {
    // Another client writes 10 between the read and the write.
    let mut server = Server { value: 5, version: 0, writes: 0, races: vec![] };
    let (state, read) = counter().update_atomically_by(2, None, None, None);
    assert_eq!(read.method, Method::GET);
    let reply = server.answer(&read);
    server.races = vec![10];
    let (state, write) = match state.advance(reply) {
        Progress::Send(state, write) => (state, write),
        Progress::Done(_) => panic!("ended early"),
    };
    assert_eq!(write.method, Method::PUT);
    assert_eq!(write.body.as_deref(), Some("7"));
    assert_eq!(write.if_match.as_deref(), Some("v0"));
    assert!(!write.request_etag);
    let reply = server.answer(&write);
    let (state, again) = match state.advance(reply) {
        Progress::Send(state, again) => (state, again),
        Progress::Done(_) => panic!("ended early"),
    };
    assert_eq!(again.body.as_deref(), Some("12"));
    assert_eq!(again.if_match.as_deref(), Some("v1"));
    let reply = server.answer(&again);
    match state.advance(reply) {
        Progress::Done(result) => {
            assert_eq!(result, Ok(Response { data: "12".to_string(), etag: None }))
        }
        Progress::Send(..) => panic!("did not end"),
    }
    assert_eq!(server.value, 12);
    assert_eq!(server.writes, 2);
}

#[test]
fn a_conflict_may_meet_a_bound() {
    let mut server = Server { value: 3, version: 0, writes: 0, races: vec![] };
    let (state, read) = counter().update_atomically_by(1, None, Some(5), None);
    let reply = server.answer(&read);
    let (state, write) = match state.advance(reply) {
        Progress::Send(state, write) => (state, write),
        Progress::Done(_) => panic!("ended early"),
    };
    server.races = vec![5];
    let reply = server.answer(&write);
    match state.advance(reply) {
        Progress::Done(result) => assert_eq!(result, Err(RequestError::LimitExceeded)),
        Progress::Send(..) => panic!("wrote past the bound"),
    }
    assert_eq!(server.value, 5);
}

#[test]
fn starts_with_a_write_under_a_known_tag() {
    let (state, write) =
        counter().update_atomically_by(9, None, None, Some("v4".to_string()));
    assert_eq!(state.pending(), Method::PUT);
    assert_eq!(write.method, Method::PUT);
    assert_eq!(write.body.as_deref(), Some("9"));
    assert_eq!(write.if_match.as_deref(), Some("v4"));
    let accepted = Reply::Received { status: 200, etag: None, body: "9".to_string() };
    match state.advance(accepted) {
        Progress::Done(result) => {
            assert_eq!(result, Ok(Response { data: "9".to_string(), etag: None }))
        }
        Progress::Send(..) => panic!("did not end"),
    }
}

#[test]
fn reads_again_without_a_tag() {
    let (state, read) = counter().update_atomically_by(1, None, None, None);
    assert_eq!(state.pending(), Method::GET);
    assert!(read.request_etag);
    let untagged = Reply::Received { status: 200, etag: None, body: "5".to_string() };
    match state.advance(untagged) {
        Progress::Send(state, again) => {
            assert_eq!(state.pending(), Method::GET);
            assert_eq!(again, read);
        }
        Progress::Done(_) => panic!("ended early"),
    }
}

#[test]
fn errors_of_a_request_end_the_update() {
    let (state, _) = counter().update_atomically_by(1, None, None, None);
    match state.advance(Reply::Failed) {
        Progress::Done(result) => assert_eq!(result, Err(RequestError::NetworkError)),
        Progress::Send(..) => panic!("went on"),
    }
    let (state, _) = counter().update_atomically_by(1, None, None, None);
    let missing = Reply::Received { status: 200, etag: None, body: "null".to_string() };
    match state.advance(missing) {
        Progress::Done(result) => assert_eq!(result, Err(RequestError::NotFoundOrNullBody)),
        Progress::Send(..) => panic!("went on"),
    }
    let (state, _) = counter().update_atomically_by(1, None, None, None);
    let refused = Reply::Received {
        status: 412,
        etag: Some("t".to_string()),
        body: "5".to_string(),
    };
    match state.advance(refused) {
        Progress::Done(result) => assert_eq!(result, Err(RequestError::NetworkError)),
        Progress::Send(..) => panic!("went on"),
    }
}

#[test]
fn a_body_that_is_no_integer_is_not_json() {
    for body in ["\"five\"", "5.5", "{}", "", "5 6"] {
        let (state, _) = counter().update_atomically_by(1, None, None, None);
        let reply = Reply::Received {
            status: 200,
            etag: Some("t".to_string()),
            body: body.to_string(),
        };
        match state.advance(reply) {
            Progress::Done(result) => assert_eq!(result, Err(RequestError::NotJSON)),
            Progress::Send(..) => panic!("went on"),
        }
    }
}

#[test]
fn reads_the_stored_value_from_the_body() {
    assert_eq!(Firebase::check_current_before_update(1, None, None, "5"), Ok(6));
    assert_eq!(Firebase::check_current_before_update(-3, None, None, " -4 "), Ok(-7));
    assert_eq!(
        Firebase::check_current_before_update(1, None, None, "9223372036854775806"),
        Ok(i64::MAX)
    );
    assert_eq!(
        Firebase::check_current_before_update(1, None, None, "five"),
        Err(RequestError::NotJSON)
    );
    assert_eq!(
        Firebase::check_current_before_update(1, None, Some(5), "5"),
        Err(RequestError::LimitExceeded)
    );
}

#[test]
fn bounds_are_held_against_the_stored_value() {
    let refused = Err(RequestError::LimitExceeded);
    // Upper bound, rising.
    assert_eq!(apply_delta(1, None, Some(5), 4), Ok(5));
    assert_eq!(apply_delta(1, None, Some(5), 5), refused);
    assert_eq!(apply_delta(1, None, Some(5), 6), refused);
    assert_eq!(apply_delta(3, None, Some(5), 4), Ok(7));
    // Upper bound, falling.
    assert_eq!(apply_delta(-1, None, Some(5), 6), Ok(5));
    assert_eq!(apply_delta(-1, None, Some(5), 5), refused);
    assert_eq!(apply_delta(-1, None, Some(5), 4), refused);
    // Upper bound, no change.
    assert_eq!(apply_delta(0, None, Some(5), 5), Ok(5));
    // Lower bound.
    assert_eq!(apply_delta(-1, Some(0), None, 1), Ok(0));
    assert_eq!(apply_delta(-1, Some(0), None, 0), refused);
    assert_eq!(apply_delta(1, Some(0), None, 0), refused);
    assert_eq!(apply_delta(-1, Some(0), None, -1), Ok(-2));
    // Both.
    assert_eq!(apply_delta(1, Some(0), Some(10), 3), Ok(4));
    assert_eq!(apply_delta(1, Some(3), Some(10), 3), refused);
    // No bound.
    assert_eq!(apply_delta(-7, None, None, 3), Ok(-4));
}

#[test]
fn a_sum_beyond_the_integers_is_refused() {
    let refused = Err(RequestError::LimitExceeded);
    assert_eq!(apply_delta(1, None, None, i64::MAX), refused);
    assert_eq!(apply_delta(-1, None, None, i64::MIN), refused);
    assert_eq!(apply_delta(i64::MIN, None, None, -1), refused);
    assert_eq!(apply_delta(1, None, None, i64::MAX - 1), Ok(i64::MAX));
    assert_eq!(apply_delta(i64::MIN, None, None, 0), Ok(i64::MIN));
}

#[test]
fn negative_values_are_written_with_their_sign() {
    let (state, _) = counter().update_atomically_by(-8, None, None, None);
    let reply = Reply::Received { status: 200, etag: Some("t".to_string()), body: "3".to_string() };
    match state.advance(reply) {
        Progress::Send(_, write) => assert_eq!(write.body.as_deref(), Some("-5")),
        Progress::Done(_) => panic!("ended early"),
    }
    let (_, write) = counter().update_atomically_by(i64::MIN, None, None, Some("t".to_string()));
    assert_eq!(write.body.as_deref(), Some("-9223372036854775808"));
}
