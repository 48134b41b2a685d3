use webxr_api::{Error, SessionBuilder, SessionId, SessionInit, SessionMode};

fn names(v: &[&str]) -> Vec<String> {
    v.iter().map(|s| s.to_string()).collect()
}

fn init(required: &[&str], optional: &[&str]) -> SessionInit {
    SessionInit { required_features: names(required), optional_features: names(optional) }
}

#[test]
fn immersive_vr_grants_supported_required_only() {
    let i = init(&["local-floor"], &["bounded-floor"]);
    let r = i.validate(SessionMode::ImmersiveVR, &names(&["local-floor"]));
    assert_eq!(r.unwrap(), names(&["local-floor"]));
}

#[test]
fn inline_does_not_default_grant_local() {
    let i = init(&["local"], &[]);
    let r = i.validate(SessionMode::Inline, &names(&[]));
    match r {
        Err(Error::UnsupportedFeature(name)) => assert_eq!(name, "local"),
        other => panic!("unexpected {:?}", other),
    }
}

#[test]
fn immersive_default_grants_local_and_viewer() {
    let i = init(&["local", "viewer"], &["viewer", "local", "hand-tracking"]);
    let r = i.validate(SessionMode::ImmersiveAR, &names(&[]));
    assert_eq!(r.unwrap(), names(&["local", "viewer", "viewer", "local"]));
}

#[test]
fn viewer_is_default_granted_inline() {
    let i = init(&["viewer"], &["local", "viewer"]);
    let r = i.validate(SessionMode::Inline, &names(&[]));
    assert_eq!(r.unwrap(), names(&["viewer", "viewer"]));
}

#[test]
fn first_unsupported_required_is_reported() {
    let i = init(&["local-floor", "hit-test", "anchors"], &[]);
    let r = i.validate(SessionMode::ImmersiveVR, &names(&["local-floor"]));
    match r {
        Err(Error::UnsupportedFeature(name)) => assert_eq!(name, "hit-test"),
        other => panic!("unexpected {:?}", other),
    }
}

#[test]
fn optional_features_keep_request_order() {
    let i = init(&["b"], &["z", "x", "y", "w"]);
    let r = i.validate(SessionMode::ImmersiveVR, &names(&["y", "b", "z"]));
    assert_eq!(r.unwrap(), names(&["b", "z", "y"]));
}

#[test]
fn empty_request_grants_nothing() {
    let i = init(&[], &[]);
    let r = i.validate(SessionMode::ImmersiveVR, &names(&["local-floor"]));
    assert_eq!(r.unwrap(), Vec::<String>::new());
}

#[test]
fn required_kept_verbatim_with_duplicates() {
    let i = init(&["a", "a"], &[]);
    let r = i.validate(SessionMode::Inline, &names(&["a"]));
    assert_eq!(r.unwrap(), names(&["a", "a"]));
}

#[test]
fn builder_carries_its_id() {
    let b: SessionBuilder<u8, u16> = SessionBuilder::new(SessionId(7), 3);
    assert_eq!(*b.frame_sender(), 3);
    assert_eq!(b.id(), SessionId(7));
}

#[test]
fn builder_collects_main_thread_sessions() {
    let mut b: SessionBuilder<u8, u16> = SessionBuilder::new(SessionId(1), 9);
    b.run_on_main_thread(4);
    b.run_on_main_thread(9);
    assert_eq!(b.id(), SessionId(1));
    assert_eq!(*b.frame_sender(), 9);
    assert_eq!(b.into_resident(), vec![4, 9]);
}
