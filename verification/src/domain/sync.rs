//! Live synchronisation of the metadata snapshot.
//!
//! Two state machines share the work. The broadcaster looks at every snapshot
//! that a refresh signal made the caller fetch and decides whether clients
//! need to hear about it. A subscriber is one websocket session: it answers
//! the frames of its client and forwards every published snapshot.
//!
//! Both are driven from outside: the caller waits on its timer, queue and
//! socket, hands each event to the state machine and carries out the action
//! that comes back.

use crate::domain::encode::{encode_snapshot, snapshot_json, EncodeError};
use crate::domain::entity::{Snapshot, SnapshotView};
use crate::domain::fingerprint::{fingerprint, spec_fingerprint};
use vstd::prelude::*;
use vstd::string::StringExecFns;

verus! {

/// How many refresh signals may wait in the queue before a sender has to
/// wait itself.
pub const REFRESH_QUEUE_CAPACITY: usize = 16;

/// The pause, in seconds, between two refresh signals of the timer.
pub const REFRESH_INTERVAL_SECS: u64 = 2;

/// What a client has to send, as text, to ask for a refresh.
pub open spec fn refresh_request() -> Seq<char> {
    "refresh"@
}

/// Whether a fetched snapshot has to be published: the fetch succeeded and
/// the fingerprint differs from the one published last, if any.
pub open spec fn publishes(last: Option<u64>, fetched: Option<SnapshotView>) -> bool {
    fetched matches Some(s) && last != Some(spec_fingerprint(s))
}

/// The fingerprint that counts as published after one refresh cycle. A failed
/// fetch leaves it alone.
pub open spec fn last_after_cycle(last: Option<u64>, fetched: Option<SnapshotView>) -> Option<u64> {
    match fetched {
        Some(s) => Some(spec_fingerprint(s)),
        None => last,
    }
}

/// The fingerprint that counts as published after a run of refresh cycles.
pub open spec fn last_after(last: Option<u64>, fetches: Seq<Option<SnapshotView>>) -> Option<u64>
    decreases fetches.len(),
{
    if fetches.len() == 0 {
        last
    } else {
        last_after_cycle(last_after(last, fetches.drop_last()), fetches.last())
    }
}

/// How many snapshots a run of refresh cycles publishes.
pub open spec fn publish_count(last: Option<u64>, fetches: Seq<Option<SnapshotView>>) -> nat
    decreases fetches.len(),
{
    if fetches.len() == 0 {
        0
    } else {
        let before = publish_count(last, fetches.drop_last());
        if publishes(last_after(last, fetches.drop_last()), fetches.last()) {
            before + 1
        } else {
            before
        }
    }
}

/// The view of what a fetch returned.
pub open spec fn fetched_view(fetched: Option<Snapshot>) -> Option<SnapshotView> {
    match fetched {
        Some(s) => Some(s@),
        None => None,
    }
}

/// What the broadcaster decided for one refresh signal.
#[derive(Debug)]
pub enum RefreshOutcome {
    /// The snapshot differs from the one published last: hand it to every
    /// subscriber.
    Publish(Snapshot),
    /// The snapshot has the fingerprint of the one published last: nobody
    /// needs to hear of it.
    Unchanged,
    /// The store could not be read. The cycle is given up; the next signal
    /// tries again.
    Abandoned,
}

/// The publishing side: it remembers the fingerprint of the snapshot that was
/// published last, and it alone changes that memory.
#[derive(Debug)]
pub struct SyncBroadcast {
    last_hash: Option<u64>,
}

impl SyncBroadcast {
    /// The fingerprint of the snapshot published last, or `None` before the
    /// first publication.
    pub closed spec fn last_published(&self) -> Option<u64> {
        self.last_hash
    }

    /// A broadcaster that has published nothing yet.
    pub fn new() -> (b: SyncBroadcast)
        ensures
            b.last_published() is None,
    {
        SyncBroadcast { last_hash: None }
    }

    /// Runs one refresh cycle on what the caller fetched from the store
    /// (`None` when the fetch failed).
    ///
    /// A snapshot is published exactly when its fingerprint differs from the
    /// one published last; the fingerprint is then remembered. The snapshot to
    /// publish is the fetched one.
    pub fn refresh(&mut self, fetched: Option<Snapshot>) -> (outcome: RefreshOutcome)
        ensures
            final(self).last_published() == last_after_cycle(
                old(self).last_published(),
                fetched_view(fetched),
            ),
            match outcome {
                RefreshOutcome::Publish(s) => fetched == Some(s) && publishes(
                    old(self).last_published(),
                    fetched_view(fetched),
                ),
                RefreshOutcome::Unchanged => fetched is Some && !publishes(
                    old(self).last_published(),
                    fetched_view(fetched),
                ),
                RefreshOutcome::Abandoned => fetched is None,
            },
    {
        match fetched {
            None => RefreshOutcome::Abandoned,
            Some(snapshot) => {
                let hash = fingerprint(&snapshot);
                let unchanged = match self.last_hash {
                    Some(last) => last == hash,
                    None => false,
                };
                if unchanged {
                    RefreshOutcome::Unchanged
                } else {
                    self.last_hash = Some(hash);
                    RefreshOutcome::Publish(snapshot)
                }
            },
        }
    }
}

/// However often the store is asked, data that does not change is published
/// at most once.
///
/// Take any run of refresh cycles in which every fetch either fails or
/// returns the same data. The run publishes at most one snapshot, and none at
/// all if that data was the last thing published before the run.
pub proof fn lemma_unchanged_data_is_published_at_most_once(
    last: Option<u64>,
    data: SnapshotView,
    fetches: Seq<Option<SnapshotView>>,
)
    requires
        forall|i: int| 0 <= i < fetches.len() ==> fetches[i] is None || fetches[i] == Some(data),
    ensures
        publish_count(last, fetches) <= 1,
        last == Some(spec_fingerprint(data)) ==> publish_count(last, fetches) == 0,
        publish_count(last, fetches) == 1 ==> last_after(last, fetches) == Some(
            spec_fingerprint(data),
        ),
        publish_count(last, fetches) == 0 ==> last_after(last, fetches) == last,
    decreases fetches.len(),
{
    if fetches.len() > 0 {
        let front = fetches.drop_last();
        assert forall|i: int| 0 <= i < front.len() implies front[i] is None || front[i] == Some(
            data,
        ) by {
            assert(front[i] == fetches[i]);
        }
        lemma_unchanged_data_is_published_at_most_once(last, data, front);
    }
}

/// Two snapshots published one after the other never have the same
/// fingerprint.
pub proof fn lemma_published_fingerprint_is_new(last: Option<u64>, fetched: Option<SnapshotView>)
    requires
        publishes(last, fetched),
    ensures
        last_after_cycle(last, fetched) != last,
        !publishes(last_after_cycle(last, fetched), fetched),
{
}

/// A frame that arrived from the client.
#[derive(Clone, Debug, PartialEq, Eq)]
pub enum ClientFrame {
    Close,
    Ping(Vec<u8>),
    Pong(Vec<u8>),
    Binary(Vec<u8>),
    Text(String),
}

/// What a [`ClientFrame`] holds, as mathematical values.
pub enum ClientFrameView {
    Close,
    Ping(Seq<u8>),
    Pong(Seq<u8>),
    Binary(Seq<u8>),
    Text(Seq<char>),
}

impl View for ClientFrame {
    type V = ClientFrameView;

    open spec fn view(&self) -> ClientFrameView {
        match self {
            ClientFrame::Close => ClientFrameView::Close,
            ClientFrame::Ping(payload) => ClientFrameView::Ping(payload@),
            ClientFrame::Pong(payload) => ClientFrameView::Pong(payload@),
            ClientFrame::Binary(payload) => ClientFrameView::Binary(payload@),
            ClientFrame::Text(text) => ClientFrameView::Text(text@),
        }
    }
}

/// A frame for the client.
#[derive(Clone, Debug, PartialEq, Eq)]
pub enum ServerFrame {
    /// A snapshot as JSON text.
    Text(String),
    /// The answer to a ping, with the ping's payload.
    Pong(Vec<u8>),
}

/// What a [`ServerFrame`] holds, as mathematical values.
pub enum ServerFrameView {
    Text(Seq<char>),
    Pong(Seq<u8>),
}

impl View for ServerFrame {
    type V = ServerFrameView;

    open spec fn view(&self) -> ServerFrameView {
        match self {
            ServerFrame::Text(text) => ServerFrameView::Text(text@),
            ServerFrame::Pong(payload) => ServerFrameView::Pong(payload@),
        }
    }
}

/// What the caller has to do after it handed an event to a session.
#[derive(Clone, Debug, PartialEq, Eq)]
pub enum SessionAction {
    /// Send this frame to the client.
    Send(ServerFrame),
    /// Put one refresh signal into the queue, waiting for room if it is
    /// full. If the queue is gone the failure is ignored.
    RequestRefresh,
    /// Nothing to do.
    Nothing,
    /// The client closed the connection: end the session without error.
    Finish,
    /// The snapshot could not be written as JSON: end the session with this
    /// error and send nothing.
    Abort(EncodeError),
}

/// What a [`SessionAction`] holds, as mathematical values.
pub enum SessionActionView {
    Send(ServerFrameView),
    RequestRefresh,
    Nothing,
    Finish,
    Abort(EncodeError),
}

impl View for SessionAction {
    type V = SessionActionView;

    open spec fn view(&self) -> SessionActionView {
        match self {
            SessionAction::Send(frame) => SessionActionView::Send(frame@),
            SessionAction::RequestRefresh => SessionActionView::RequestRefresh,
            SessionAction::Nothing => SessionActionView::Nothing,
            SessionAction::Finish => SessionActionView::Finish,
            SessionAction::Abort(e) => SessionActionView::Abort(*e),
        }
    }
}

/// Whether a session still serves its client. `Closed` is final.
#[derive(Clone, Copy, Debug, PartialEq, Eq, Structural)]
pub enum SessionState {
    Open,
    Closed,
}

/// Something that happens to a session.
pub enum SessionEvent {
    /// A frame arrived from the client.
    Inbound(ClientFrameView),
    /// A new snapshot was published; this is the outcome of writing it as
    /// JSON.
    Changed(Result<Seq<char>, EncodeError>),
    /// Reading from or writing to the socket failed.
    TransportError,
}

/// The entry of a session, given the outcome of writing the current snapshot
/// as JSON: the text goes out as the first frame.
pub open spec fn session_open(encoded: Result<Seq<char>, EncodeError>) -> (
    SessionState,
    SessionActionView,
) {
    match encoded {
        Ok(text) => (SessionState::Open, SessionActionView::Send(ServerFrameView::Text(text))),
        Err(e) => (SessionState::Closed, SessionActionView::Abort(e)),
    }
}

/// One step of a session: the state after the event, and what the caller has
/// to do.
pub open spec fn session_step(state: SessionState, event: SessionEvent) -> (
    SessionState,
    SessionActionView,
) {
    match state {
        SessionState::Closed => (SessionState::Closed, SessionActionView::Nothing),
        SessionState::Open => match event {
            SessionEvent::Inbound(ClientFrameView::Close) => (
                SessionState::Closed,
                SessionActionView::Finish,
            ),
            SessionEvent::Inbound(ClientFrameView::Ping(payload)) => (
                SessionState::Open,
                SessionActionView::Send(ServerFrameView::Pong(payload)),
            ),
            SessionEvent::Inbound(ClientFrameView::Pong(_)) => (
                SessionState::Open,
                SessionActionView::Nothing,
            ),
            SessionEvent::Inbound(ClientFrameView::Binary(_)) => (
                SessionState::Open,
                SessionActionView::Nothing,
            ),
            SessionEvent::Inbound(ClientFrameView::Text(text)) => if text == refresh_request() {
                (SessionState::Open, SessionActionView::RequestRefresh)
            } else {
                (SessionState::Open, SessionActionView::Nothing)
            },
            SessionEvent::Changed(Ok(text)) => (
                SessionState::Open,
                SessionActionView::Send(ServerFrameView::Text(text)),
            ),
            SessionEvent::Changed(Err(e)) => (SessionState::Closed, SessionActionView::Abort(e)),
            SessionEvent::TransportError => (SessionState::Closed, SessionActionView::Nothing),
        },
    }
}

/// The view of the outcome of writing a snapshot as JSON.
pub open spec fn encoded_view(encoded: Result<String, EncodeError>) -> Result<
    Seq<char>,
    EncodeError,
> {
    match encoded {
        Ok(text) => Ok(text@),
        Err(e) => Err(e),
    }
}

/// One websocket session, seen from the server.
#[derive(Debug)]
pub struct SyncBroadcastSubscriber {
    state: SessionState,
}

impl SyncBroadcastSubscriber {
    /// The state of the session.
    pub closed spec fn state(&self) -> SessionState {
        self.state
    }

    /// Whether the session still serves its client.
    pub fn is_open(&self) -> (open: bool)
        ensures
            open == (self.state() == SessionState::Open),
    {
        match self.state {
            SessionState::Open => true,
            SessionState::Closed => false,
        }
    }

    /// Starts a session from the outcome of writing the current snapshot as
    /// JSON.
    pub fn open_with(encoded: Result<String, EncodeError>) -> (r: (
        SyncBroadcastSubscriber,
        SessionAction,
    ))
        ensures
            (r.0.state(), r.1@) == session_open(encoded_view(encoded)),
    {
        match encoded {
            Ok(text) => (
                SyncBroadcastSubscriber { state: SessionState::Open },
                SessionAction::Send(ServerFrame::Text(text)),
            ),
            Err(e) => (
                SyncBroadcastSubscriber { state: SessionState::Closed },
                SessionAction::Abort(e),
            ),
        }
    }

    /// Starts a session for a client that has just connected.
    ///
    /// The client is told the current snapshot at once, whether or not
    /// anything was ever published: the session is open, and the one action
    /// of the entry is to send that snapshot as JSON text.
    pub fn open(current: &Snapshot) -> (r: (SyncBroadcastSubscriber, SessionAction))
        ensures
            r.0.state() == SessionState::Open,
            r.1@ == SessionActionView::Send(ServerFrameView::Text(snapshot_json(current@))),
            (r.0.state(), r.1@) == session_open(Ok(snapshot_json(current@))),
    {
        SyncBroadcastSubscriber::open_with(encode_snapshot(current))
    }

    /// Handles a frame that arrived from the client.
    ///
    /// A ping is answered by a pong with the same payload. The text
    /// `refresh`, and no other, asks for a refresh signal. A close frame ends
    /// the session. Everything else is ignored.
    pub fn on_message(&mut self, frame: ClientFrame) -> (action: SessionAction)
        ensures
            (final(self).state(), action@) == session_step(
                old(self).state(),
                SessionEvent::Inbound(frame@),
            ),
    {
        match self.state {
            SessionState::Closed => SessionAction::Nothing,
            SessionState::Open => match frame {
                ClientFrame::Close => {
                    self.state = SessionState::Closed;
                    SessionAction::Finish
                },
                ClientFrame::Ping(payload) => SessionAction::Send(ServerFrame::Pong(payload)),
                ClientFrame::Pong(_) => SessionAction::Nothing,
                ClientFrame::Binary(_) => SessionAction::Nothing,
                ClientFrame::Text(text) => {
                    let request = String::from_str("refresh");
                    if text == request {
                        SessionAction::RequestRefresh
                    } else {
                        SessionAction::Nothing
                    }
                },
            },
        }
    }

    /// Handles the publication of a new snapshot, given the outcome of
    /// writing it as JSON.
    pub fn on_change_with(&mut self, encoded: Result<String, EncodeError>) -> (action:
        SessionAction)
        ensures
            (final(self).state(), action@) == session_step(
                old(self).state(),
                SessionEvent::Changed(encoded_view(encoded)),
            ),
    {
        match self.state {
            SessionState::Closed => SessionAction::Nothing,
            SessionState::Open => match encoded {
                Ok(text) => SessionAction::Send(ServerFrame::Text(text)),
                Err(e) => {
                    self.state = SessionState::Closed;
                    SessionAction::Abort(e)
                },
            },
        }
    }

    /// Handles the publication of a new snapshot: an open session sends it to
    /// its client as JSON text and stays open. A closed session does not look
    /// at it.
    pub fn on_change(&mut self, current: &Snapshot) -> (action: SessionAction)
        ensures
            (final(self).state(), action@) == session_step(
                old(self).state(),
                SessionEvent::Changed(Ok(snapshot_json(current@))),
            ),
            old(self).state() == SessionState::Open ==> final(self).state() == SessionState::Open
                && action@ == SessionActionView::Send(
                ServerFrameView::Text(snapshot_json(current@)),
            ),
    {
        match self.state {
            SessionState::Closed => SessionAction::Nothing,
            SessionState::Open => self.on_change_with(encode_snapshot(current)),
        }
    }

    /// Handles a failure of the socket: the session is over. The caller
    /// reports the failure; other sessions are not touched.
    pub fn on_transport_error(&mut self) -> (action: SessionAction)
        ensures
            (final(self).state(), action@) == session_step(
                old(self).state(),
                SessionEvent::TransportError,
            ),
    {
        self.state = SessionState::Closed;
        SessionAction::Nothing
    }
}

/// The state of a session after a run of events.
pub open spec fn state_after(start: SessionState, events: Seq<SessionEvent>) -> SessionState
    decreases events.len(),
{
    if events.len() == 0 {
        start
    } else {
        session_step(state_after(start, events.drop_last()), events.last()).0
    }
}

/// The actions that a run of events asks of the caller, one per event.
pub open spec fn actions_of(start: SessionState, events: Seq<SessionEvent>) -> Seq<
    SessionActionView,
>
    decreases events.len(),
{
    if events.len() == 0 {
        Seq::empty()
    } else {
        actions_of(start, events.drop_last()).push(
            session_step(state_after(start, events.drop_last()), events.last()).1,
        )
    }
}

/// Everything a session asks of the caller, from the entry on: the action of
/// the entry, then one action per event.
pub open spec fn session_actions(
    encoded: Result<Seq<char>, EncodeError>,
    events: Seq<SessionEvent>,
) -> Seq<SessionActionView> {
    seq![session_open(encoded).1] + actions_of(session_open(encoded).0, events)
}

/// A closed session stays closed and asks for nothing.
pub proof fn lemma_closed_is_final(events: Seq<SessionEvent>)
    ensures
        state_after(SessionState::Closed, events) == SessionState::Closed,
        actions_of(SessionState::Closed, events).len() == events.len(),
        forall|i: int|
            0 <= i < events.len() ==> actions_of(SessionState::Closed, events)[i]
                == SessionActionView::Nothing,
    decreases events.len(),
{
    if events.len() > 0 {
        lemma_closed_is_final(events.drop_last());
    }
}

proof fn lemma_actions_len(start: SessionState, events: Seq<SessionEvent>)
    ensures
        actions_of(start, events).len() == events.len(),
    decreases events.len(),
{
    if events.len() > 0 {
        lemma_actions_len(start, events.drop_last());
    }
}

proof fn lemma_text_frames_answer_changes(start: SessionState, events: Seq<SessionEvent>, i: int)
    requires
        0 <= i < events.len(),
    ensures
        actions_of(start, events).len() == events.len(),
        actions_of(start, events)[i] matches SessionActionView::Send(ServerFrameView::Text(t))
            ==> events[i] == SessionEvent::Changed(Ok(t)),
    decreases events.len(),
{
    lemma_actions_len(start, events);
    lemma_actions_len(start, events.drop_last());
    if i < events.len() - 1 {
        lemma_text_frames_answer_changes(start, events.drop_last(), i);
    }
}

/// The first frame of a session is the snapshot that was current when the
/// client connected, whatever happens afterwards, and it is sent once.
///
/// When that snapshot was written as `text`, the first thing the session asks
/// for is to send `text`. Every event then adds exactly one action, and a
/// snapshot is sent again only in answer to a publication: the frame for a
/// change always comes after the first.
pub proof fn lemma_initial_frame_comes_first(text: Seq<char>, events: Seq<SessionEvent>)
    ensures
        session_actions(Ok(text), events).len() == 1 + events.len(),
        session_actions(Ok(text), events)[0] == SessionActionView::Send(
            ServerFrameView::Text(text),
        ),
        forall|i: int|
            0 <= i < events.len() ==> (#[trigger] session_actions(Ok(text), events)[i + 1]
                matches SessionActionView::Send(ServerFrameView::Text(t)) ==> events[i]
                == SessionEvent::Changed(Ok(t))),
{
    lemma_actions_len(SessionState::Open, events);
    assert forall|i: int| 0 <= i < events.len() implies (#[trigger] session_actions(
        Ok(text),
        events,
    )[i + 1] matches SessionActionView::Send(ServerFrameView::Text(t)) ==> events[i]
        == SessionEvent::Changed(Ok(t))) by {
        lemma_text_frames_answer_changes(SessionState::Open, events, i);
    }
}

/// A ping in an open session is answered by one pong with the same payload,
/// and the session stays open.
pub proof fn lemma_ping_is_answered(payload: Seq<u8>)
    ensures
        session_step(SessionState::Open, SessionEvent::Inbound(ClientFrameView::Ping(payload)))
            == (SessionState::Open, SessionActionView::Send(ServerFrameView::Pong(payload))),
{
}

/// The text `refresh` from the client of an open session asks for exactly one
/// refresh signal, and with it for one more cycle of the broadcaster; the
/// session stays open. No other text asks for anything.
pub proof fn lemma_refresh_request_is_one_signal(text: Seq<char>)
    ensures
        session_step(SessionState::Open, SessionEvent::Inbound(ClientFrameView::Text(text))) == (
            SessionState::Open,
            if text == refresh_request() {
                SessionActionView::RequestRefresh
            } else {
                SessionActionView::Nothing
            },
        ),
{
}

} // verus!
