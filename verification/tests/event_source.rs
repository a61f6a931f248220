use firebase_rs::event_source::{EventSource, RegisterError};

#[test]
fn a_new_registry_is_empty() {
    let source: EventSource<u8> = EventSource::new();
    assert_eq!(source.len(), 0);
    assert!(!source.contains("put"));
}

#[test]
fn a_name_is_registered_once() {
    let mut source: EventSource<&str> = EventSource::new();
    assert_eq!(source.register_event("put", "first"), Ok(true));
    assert_eq!(source.register_event("patch", "second"), Ok(true));
    assert_eq!(
        source.register_event("put", "third"),
        Err(RegisterError::EventExist)
    );
    assert_eq!(source.len(), 2);
    assert!(source.contains("put"));
    assert!(source.contains("patch"));
    assert!(!source.contains("pu"));
    assert!(!source.contains("Put"));
}

#[test]
fn register_error_message() {
    assert_eq!(RegisterError::EventExist.to_string(), "Event exist");
}
