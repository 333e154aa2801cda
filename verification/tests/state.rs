use ig::protocol::{ErrorKind, Failure};
use ig::service::BackendSpec;
use ig::state::{temporary_path, Found, State, Store, VERSION};

fn store() -> Store {
    Store::new("/home/me/.local/state/ig/key")
}

#[test]
fn a_missing_file_is_empty_state_not_an_error() {
    let store = store();
    assert!(store.load(Found::Missing).unwrap().is_empty());
}

#[test]
fn what_was_saved_comes_back() {
    let store = store();
    let mut state = State {
        grants: vec![(22, "abc".into()), (22, "def".into())],
        ..State::default()
    };
    state.binds.insert(22, 2222);
    state.services.insert(
        5432,
        BackendSpec::Tcp {
            upstream: "db:5432".into(),
        },
    );

    let saved = store.save(&state);
    let back = store.load(Found::State(saved)).unwrap();

    assert_eq!(back.grants, state.grants);
    assert_eq!(back.binds, state.binds);
    assert_eq!(back.services.len(), 1);
    // Stamped on save, so an older build meeting this file can tell.
    assert_eq!(back.version, VERSION);
    assert!(!back.is_empty());
}

#[test]
fn a_newer_file_stops_the_daemon_rather_than_being_guessed_at() {
    let store = store();
    let newer = State { version: 999, ..State::default() };
    let err = store.load(Found::State(newer)).unwrap_err().text();
    assert!(err.contains("newer ig"), "unhelpful: {err}");
    assert_eq!(
        err,
        "/home/me/.local/state/ig/key.state.json was written by a newer ig \
         (state version 999, this build understands 1)"
    );
}

#[test]
fn a_file_of_this_version_or_an_older_one_is_read() {
    for version in [0, 1] {
        let state = State { version, ..State::default() };
        assert_eq!(store().load(Found::State(state)).unwrap().version, version);
    }
    let state = State { version: 2, ..State::default() };
    assert!(store().load(Found::State(state)).is_err());
}

#[test]
fn a_file_that_is_no_state_stops_the_daemon() {
    let e = store().load(Found::Unreadable("denied".to_string())).unwrap_err();
    assert_eq!(
        e.text(),
        "failed to read /home/me/.local/state/ig/key.state.json: denied"
    );
    let e = store().load(Found::Garbled("eof".to_string())).unwrap_err();
    assert_eq!(
        e.text(),
        "/home/me/.local/state/ig/key.state.json is not readable state: eof"
    );
    assert_eq!(Failure::kind_of(&e), ErrorKind::Internal);
}

#[test]
fn state_is_kept_beside_the_key() {
    assert_eq!(store().path(), "/home/me/.local/state/ig/key.state.json");
    assert_eq!(temporary_path("/x/key.state.json", 42), "/x/key.state.json.42.tmp");
}
