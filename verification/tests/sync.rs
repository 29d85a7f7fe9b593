use musidex_daemon::domain::encode::{encode_snapshot, EncodeError};
use musidex_daemon::domain::entity::{Snapshot, TagRecord};
use musidex_daemon::domain::fingerprint::fingerprint;
use musidex_daemon::domain::sync::{
    ClientFrame, RefreshOutcome, ServerFrame, SessionAction, SyncBroadcast,
    SyncBroadcastSubscriber, REFRESH_INTERVAL_SECS, REFRESH_QUEUE_CAPACITY,
};

fn tag(id: i32, music_id: i32, key: &str, value: &str) -> TagRecord {
    TagRecord { id, music_id, key: String::from(key), value: String::from(value) }
}

fn library() -> Snapshot {
    Snapshot::new(&vec![1, 2], vec![tag(1, 1, "title", "One"), tag(2, 2, "title", "Two")])
}

fn open_session() -> SyncBroadcastSubscriber {
    let (session, _) = SyncBroadcastSubscriber::open(&Snapshot::default());
    session
}

#[test]
fn fingerprint_depends_on_content_only() {
    assert_eq!(fingerprint(&library()), fingerprint(&library()));
    assert_eq!(fingerprint(&Snapshot::default()), fingerprint(&Snapshot::new(&vec![], vec![])));
}

#[test]
fn fingerprint_sees_the_order_of_rows() {
    let musics_swapped =
        Snapshot::new(&vec![2, 1], vec![tag(1, 1, "title", "One"), tag(2, 2, "title", "Two")]);
    let tags_swapped =
        Snapshot::new(&vec![1, 2], vec![tag(2, 2, "title", "Two"), tag(1, 1, "title", "One")]);
    assert_ne!(fingerprint(&library()), fingerprint(&musics_swapped));
    assert_ne!(fingerprint(&library()), fingerprint(&tags_swapped));
    assert_ne!(fingerprint(&musics_swapped), fingerprint(&tags_swapped));
}

#[test]
fn fingerprint_sees_every_field() {
    let base = Snapshot::new(&vec![1], vec![tag(1, 1, "ab", "c")]);
    let others = [
        Snapshot::new(&vec![2], vec![tag(1, 1, "ab", "c")]),
        Snapshot::new(&vec![1], vec![tag(2, 1, "ab", "c")]),
        Snapshot::new(&vec![1], vec![tag(1, 2, "ab", "c")]),
        Snapshot::new(&vec![1], vec![tag(1, 1, "a", "bc")]),
        Snapshot::new(&vec![1], vec![tag(1, 1, "ab", "")]),
        Snapshot::new(&vec![1], vec![tag(1, 1, "c", "ab")]),
        Snapshot::new(&vec![1], vec![]),
        Snapshot::new(&vec![], vec![tag(1, 1, "ab", "c")]),
        Snapshot::new(&vec![1, 1], vec![tag(1, 1, "ab", "c")]),
        Snapshot::new(&vec![-1], vec![tag(1, 1, "ab", "c")]),
        Snapshot::default(),
    ];
    for other in others.iter() {
        assert_ne!(fingerprint(&base), fingerprint(other), "{:?}", other);
    }
}

#[test]
fn first_snapshot_is_published() {
    let mut broadcast = SyncBroadcast::new();
    match broadcast.refresh(Some(library())) {
        RefreshOutcome::Publish(s) => assert_eq!(s, library()),
        other => panic!("{:?}", other),
    }
}

#[test]
fn first_snapshot_is_published_even_if_empty() {
    let mut broadcast = SyncBroadcast::new();
    match broadcast.refresh(Some(Snapshot::default())) {
        RefreshOutcome::Publish(s) => assert_eq!(s, Snapshot::default()),
        other => panic!("{:?}", other),
    }
    assert!(matches!(broadcast.refresh(Some(Snapshot::default())), RefreshOutcome::Unchanged));
}

#[test]
fn unchanged_data_is_published_once() {
    let mut broadcast = SyncBroadcast::new();
    let mut published = 0;
    for _ in 0..20 {
        match broadcast.refresh(Some(library())) {
            RefreshOutcome::Publish(_) => published += 1,
            RefreshOutcome::Unchanged => {}
            RefreshOutcome::Abandoned => panic!("the fetch did not fail"),
        }
    }
    assert_eq!(published, 1);
    for _ in 0..20 {
        assert!(matches!(broadcast.refresh(Some(library())), RefreshOutcome::Unchanged));
    }
}

#[test]
fn changed_data_is_published_again() {
    let mut broadcast = SyncBroadcast::new();
    assert!(matches!(broadcast.refresh(Some(library())), RefreshOutcome::Publish(_)));
    let reordered =
        Snapshot::new(&vec![2, 1], vec![tag(1, 1, "title", "One"), tag(2, 2, "title", "Two")]);
    match broadcast.refresh(Some(reordered.clone())) {
        RefreshOutcome::Publish(s) => assert_eq!(s, reordered),
        other => panic!("{:?}", other),
    }
    assert!(matches!(broadcast.refresh(Some(reordered)), RefreshOutcome::Unchanged));
    assert!(matches!(broadcast.refresh(Some(library())), RefreshOutcome::Publish(_)));
}

#[test]
fn failed_fetch_is_given_up_and_forgets_nothing() {
    let mut broadcast = SyncBroadcast::new();
    assert!(matches!(broadcast.refresh(None), RefreshOutcome::Abandoned));
    assert!(matches!(broadcast.refresh(Some(library())), RefreshOutcome::Publish(_)));
    assert!(matches!(broadcast.refresh(None), RefreshOutcome::Abandoned));
    assert!(matches!(broadcast.refresh(Some(library())), RefreshOutcome::Unchanged));
}

#[test]
fn scheduler_constants() {
    assert_eq!(REFRESH_QUEUE_CAPACITY, 16);
    assert_eq!(REFRESH_INTERVAL_SECS, 2);
}

#[test]
fn new_session_sends_the_current_snapshot() {
    let (session, action) = SyncBroadcastSubscriber::open(&library());
    assert!(session.is_open());
    let expected = encode_snapshot(&library()).unwrap();
    assert_eq!(action, SessionAction::Send(ServerFrame::Text(expected)));
}

#[test]
fn new_session_sends_the_empty_snapshot_before_any_publish() {
    let (session, action) = SyncBroadcastSubscriber::open(&Snapshot::default());
    assert!(session.is_open());
    assert_eq!(
        action,
        SessionAction::Send(ServerFrame::Text(String::from("{\"musics\":[],\"tags\":[]}")))
    );
}

#[test]
fn ping_is_answered_with_its_payload() {
    let mut session = open_session();
    let action = session.on_message(ClientFrame::Ping(vec![1, 2, 3]));
    assert_eq!(action, SessionAction::Send(ServerFrame::Pong(vec![1, 2, 3])));
    assert!(session.is_open());
    let action = session.on_message(ClientFrame::Ping(vec![]));
    assert_eq!(action, SessionAction::Send(ServerFrame::Pong(vec![])));
    assert!(session.is_open());
}

#[test]
fn refresh_text_asks_for_one_signal() {
    let mut session = open_session();
    let action = session.on_message(ClientFrame::Text(String::from("refresh")));
    assert_eq!(action, SessionAction::RequestRefresh);
    assert!(session.is_open());
}

#[test]
fn other_text_is_ignored() {
    let mut session = open_session();
    for text in ["", "Refresh", "refresh ", " refresh", "refresh\n", "refres", "\"refresh\"", "x"] {
        let action = session.on_message(ClientFrame::Text(String::from(text)));
        assert_eq!(action, SessionAction::Nothing, "{:?}", text);
        assert!(session.is_open());
    }
}

#[test]
fn binary_and_pong_are_ignored() {
    let mut session = open_session();
    assert_eq!(session.on_message(ClientFrame::Binary(vec![9])), SessionAction::Nothing);
    assert_eq!(session.on_message(ClientFrame::Pong(vec![9])), SessionAction::Nothing);
    assert_eq!(
        session.on_message(ClientFrame::Binary(b"refresh".to_vec())),
        SessionAction::Nothing
    );
    assert!(session.is_open());
}

#[test]
fn close_ends_the_session() {
    let mut session = open_session();
    assert_eq!(session.on_message(ClientFrame::Close), SessionAction::Finish);
    assert!(!session.is_open());
}

#[test]
fn closed_session_asks_for_nothing() {
    let mut session = open_session();
    session.on_message(ClientFrame::Close);
    assert_eq!(session.on_message(ClientFrame::Ping(vec![1])), SessionAction::Nothing);
    assert_eq!(
        session.on_message(ClientFrame::Text(String::from("refresh"))),
        SessionAction::Nothing
    );
    assert_eq!(session.on_message(ClientFrame::Close), SessionAction::Nothing);
    assert_eq!(session.on_change(&library()), SessionAction::Nothing);
    assert_eq!(session.on_change_with(Ok(String::from("{}"))), SessionAction::Nothing);
    assert_eq!(session.on_transport_error(), SessionAction::Nothing);
    assert!(!session.is_open());
}

#[test]
fn published_snapshot_is_sent() {
    let mut session = open_session();
    let expected = encode_snapshot(&library()).unwrap();
    assert_eq!(session.on_change(&library()), SessionAction::Send(ServerFrame::Text(expected)));
    assert!(session.is_open());
}

#[test]
fn frames_keep_the_order_of_events() {
    let (mut session, first) = SyncBroadcastSubscriber::open(&Snapshot::default());
    let mut sent = vec![first];
    sent.push(session.on_message(ClientFrame::Ping(vec![7])));
    sent.push(session.on_change(&library()));
    sent.push(session.on_message(ClientFrame::Text(String::from("refresh"))));
    sent.push(session.on_change(&Snapshot::default()));
    assert_eq!(
        sent,
        vec![
            SessionAction::Send(ServerFrame::Text(String::from("{\"musics\":[],\"tags\":[]}"))),
            SessionAction::Send(ServerFrame::Pong(vec![7])),
            SessionAction::Send(ServerFrame::Text(encode_snapshot(&library()).unwrap())),
            SessionAction::RequestRefresh,
            SessionAction::Send(ServerFrame::Text(String::from("{\"musics\":[],\"tags\":[]}"))),
        ]
    );
}

#[test]
fn transport_error_ends_the_session() {
    let mut session = open_session();
    assert_eq!(session.on_transport_error(), SessionAction::Nothing);
    assert!(!session.is_open());
}

#[test]
fn encoding_failure_ends_the_session() {
    let mut session = open_session();
    let action = session.on_change_with(Err(EncodeError::Value { tag: 4 }));
    assert_eq!(action, SessionAction::Abort(EncodeError::Value { tag: 4 }));
    assert!(!session.is_open());
    let (session, action) = SyncBroadcastSubscriber::open_with(Err(EncodeError::Key { tag: 0 }));
    assert_eq!(action, SessionAction::Abort(EncodeError::Key { tag: 0 }));
    assert!(!session.is_open());
    let (session, action) = SyncBroadcastSubscriber::open_with(Ok(String::from("{}")));
    assert_eq!(action, SessionAction::Send(ServerFrame::Text(String::from("{}"))));
    assert!(session.is_open());
}
