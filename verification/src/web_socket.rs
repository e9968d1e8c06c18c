//! The connection: its identity, the events it reports, the state machine
//! that the connection task follows, and the facade that a polling caller
//! holds.
//!
//! The task itself (the socket, the waiting) lives outside this library. It
//! feeds each thing that happens to [`step`] as a [`TaskEvent`] and does what
//! the returned [`Transition`] says.

use vstd::prelude::*;
use crate::binary::{binary_frame_spec, decode_binary};
use crate::codec::{decode_text, text_frame_spec};
use crate::encode::{call_tree, encode_call_text};
use crate::errors::{ClientError, ClientErrorView};
use crate::json::{json_parse, json_text};
use crate::messages::{
    Frame, FrameView, SpaceDbRequest, SpaceDbRequestView, SpaceDbResponse, SpaceDbResponseView,
};
use crate::ws::{has_host, uri_host, BuildConnection, BuildConnectionView, Protocol};

verus! {

/// The identity of one logical connection: a 128-bit identifier.
#[derive(Debug, Clone, Copy, PartialEq, Eq, Structural)]
pub struct ConnectionHandle {
    pub uuid: u128,
}

/// Whether a 128-bit identifier has the version and variant bits of a random
/// identifier.
pub open spec fn is_random_uuid(uuid: u128) -> bool {
    uuid & 0xF000_C000_0000_0000_0000u128 == 0x4000_8000_0000_0000_0000u128
}

/// `Uuid::new_v4`, then `Uuid::as_u128`: a random identifier. Whatever the
/// random bits are, the version bits say 4 and the variant bits say 10.
#[verifier::external_body]
fn random_uuid() -> (uuid: u128)
    ensures
        is_random_uuid(uuid),
{
    uuid::Uuid::new_v4().as_u128()
}

impl ConnectionHandle {
    /// A handle with a fresh random identifier.
    pub fn new() -> (r: ConnectionHandle)
        ensures
            is_random_uuid(r.uuid),
            r != ConnectionHandle::nil(),
    {
        let uuid = random_uuid();
        assert(uuid != 0) by (bit_vector)
            requires
                uuid & 0xF000_C000_0000_0000_0000u128 == 0x4000_8000_0000_0000_0000u128,
        ;
        ConnectionHandle { uuid }
    }

    /// The handle whose identifier is all zero: the one that stands for no
    /// connection.
    pub open spec fn nil() -> ConnectionHandle {
        ConnectionHandle { uuid: 0 }
    }

    pub fn id(&self) -> (r: u128)
        ensures
            r == self.uuid,
    {
        self.uuid
    }
}

impl Default for ConnectionHandle {
    fn default() -> (r: Self)
        ensures
            r == ConnectionHandle::nil(),
    {
        ConnectionHandle { uuid: 0 }
    }
}

/// An error of the network layer that fits no other kind.
#[derive(Debug, Clone, Copy, PartialEq, Eq, Structural)]
pub enum NetworkError {
    Other,
}

/// What the connection task reports to the facade.
#[derive(Debug, Clone, PartialEq, Eq)]
pub enum NetworkEvent {
    Connected(ConnectionHandle),
    Disconnected(ConnectionHandle),
    Message(ConnectionHandle, SpaceDbResponse),
    Error(Option<ConnectionHandle>, ClientError),
}

pub enum NetworkEventView {
    Connected(ConnectionHandle),
    Disconnected(ConnectionHandle),
    Message(ConnectionHandle, SpaceDbResponseView),
    Error(Option<ConnectionHandle>, ClientErrorView),
}

impl View for NetworkEvent {
    type V = NetworkEventView;

    open spec fn view(&self) -> NetworkEventView {
        match self {
            NetworkEvent::Connected(h) => NetworkEventView::Connected(*h),
            NetworkEvent::Disconnected(h) => NetworkEventView::Disconnected(*h),
            NetworkEvent::Message(h, m) => NetworkEventView::Message(*h, m@),
            NetworkEvent::Error(h, e) => NetworkEventView::Error(*h, e@),
        }
    }
}

/// The view of an optional event.
pub open spec fn event_view(event: Option<NetworkEvent>) -> Option<NetworkEventView> {
    match event {
        Some(e) => Some(e@),
        None => None,
    }
}

/// The view of an optional frame.
pub open spec fn frame_view(frame: Option<Frame>) -> Option<FrameView> {
    match frame {
        Some(f) => Some(f@),
        None => None,
    }
}

/// The frame that a request becomes: a call becomes a text frame with its
/// envelope; `Ping` and `Pong` become none.
pub open spec fn request_frame(msg: SpaceDbRequestView) -> Option<FrameView> {
    match msg {
        SpaceDbRequestView::FunctionCall { name, args } => Some(
            FrameView::Text(json_text(call_tree(name, args))),
        ),
        _ => None,
    }
}

/// Turns a request into the frame to send, if it has one.
pub fn serialize_msg(con: &BuildConnection, msg: SpaceDbRequest) -> (r: Option<Frame>)
    ensures
        frame_view(r) == request_frame(msg@),
{
    match msg {
        SpaceDbRequest::FunctionCall { name, args } => {
            let json = encode_call_text(name.as_str(), &args);
            Some(Frame::Text(json))
        },
        SpaceDbRequest::Ping | SpaceDbRequest::Pong => None,
    }
}

/// The view of what a read from the socket gave.
pub open spec fn inbound_view(msg: Result<Frame, String>) -> Result<FrameView, Seq<char>> {
    match msg {
        Ok(f) => Ok(f@),
        Err(cause) => Err(cause@),
    }
}

/// The event that a decoded frame, or the failure to decode it, becomes.
pub open spec fn decoded_event(
    handle: ConnectionHandle,
    decoded: Result<Option<SpaceDbResponseView>, crate::errors::DecodeError>,
) -> Option<NetworkEventView> {
    match decoded {
        Ok(Some(response)) => Some(NetworkEventView::Message(handle, response)),
        Ok(None) => None,
        Err(e) => Some(NetworkEventView::Error(Some(handle), ClientErrorView::Decode(e))),
    }
}

/// What a text frame decodes to, in the shape of [`decoded_event`]'s argument.
pub open spec fn text_decoded(text: Seq<char>) -> Result<
    Option<SpaceDbResponseView>,
    crate::errors::DecodeError,
> {
    match text_frame_spec(json_parse(text)) {
        Ok(response) => Ok(Some(response)),
        Err(e) => Err(e),
    }
}

/// The event that one read from the socket becomes.
///
/// A text or binary frame is decoded: a response becomes a `Message`, a frame
/// that cannot be decoded becomes an `Error` with the connection's handle,
/// and the connection goes on. Control frames become nothing. A failed read
/// becomes an `Error` without a handle.
pub open spec fn inbound_event(handle: ConnectionHandle, msg: Result<FrameView, Seq<char>>) -> Option<
    NetworkEventView,
> {
    match msg {
        Ok(FrameView::Text(text)) => decoded_event(handle, text_decoded(text)),
        Ok(FrameView::Binary(bytes)) => decoded_event(handle, binary_frame_spec(bytes)),
        Ok(_) => None,
        Err(cause) => Some(NetworkEventView::Error(None, ClientErrorView::Transport(cause))),
    }
}

/// Turns one read from the socket into the event to report, if any.
pub fn process_msg(handle: ConnectionHandle, msg: Result<Frame, String>) -> (r: Option<
    NetworkEvent,
>)
    ensures
        event_view(r) == inbound_event(handle, inbound_view(msg)),
{
    match msg {
        Ok(Frame::Text(txt)) => match decode_text(txt.as_str()) {
            Ok(response) => Some(NetworkEvent::Message(handle, response)),
            Err(e) => Some(NetworkEvent::Error(Some(handle), ClientError::Decode(e))),
        },
        Ok(Frame::Binary(bin)) => match decode_binary(bin.as_slice()) {
            Ok(Some(response)) => Some(NetworkEvent::Message(handle, response)),
            Ok(None) => None,
            Err(e) => Some(NetworkEvent::Error(Some(handle), ClientError::Decode(e))),
        },
        Ok(Frame::Ping(_)) | Ok(Frame::Pong(_)) | Ok(Frame::Raw) => None,
        Ok(Frame::Close) => None,
        Err(err) => Some(NetworkEvent::Error(None, ClientError::Transport(err))),
    }
}

/// The events of one tick, between the poll that collects them and the
/// consumer that takes them.
#[derive(Debug, Clone, PartialEq, Eq)]
pub struct WsMsg {
    pub ev: Vec<NetworkEvent>,
}

impl WsMsg {
    pub fn new() -> (r: Self)
        ensures
            r.ev@ == Seq::<NetworkEvent>::empty(),
    {
        Self { ev: Vec::new() }
    }
}

/// Where a connection stands.
#[derive(Debug, Clone, Copy, PartialEq, Eq, Structural)]
pub enum ConnectionState {
    /// No attempt was made yet.
    Disconnected,
    /// The handshake is under way.
    Connecting,
    /// Frames flow.
    Connected(ConnectionHandle),
    /// The peer closed, or the stream ended.
    Closed,
    /// The handshake failed.
    Errored,
}

/// One thing that happens to the connection task.
#[derive(Debug, PartialEq, Eq)]
pub enum TaskEvent {
    /// The facade asked for a connection.
    Start,
    /// The handshake was accepted; the handle is the new connection's.
    HandshakeAccepted(ConnectionHandle),
    /// The handshake failed, for the reason given.
    HandshakeFailed(String),
    /// The socket yielded a frame, or a read error.
    Inbound(Result<Frame, String>),
    /// The socket's stream ended.
    StreamEnded,
    /// The facade queued a frame to send.
    Outbound(Frame),
    /// A write to the socket failed, for the reason given.
    WriteFailed(String),
}

pub enum TaskEventView {
    Start,
    HandshakeAccepted(ConnectionHandle),
    HandshakeFailed(Seq<char>),
    Inbound(Result<FrameView, Seq<char>>),
    StreamEnded,
    Outbound(FrameView),
    WriteFailed(Seq<char>),
}

impl View for TaskEvent {
    type V = TaskEventView;

    open spec fn view(&self) -> TaskEventView {
        match self {
            TaskEvent::Start => TaskEventView::Start,
            TaskEvent::HandshakeAccepted(h) => TaskEventView::HandshakeAccepted(*h),
            TaskEvent::HandshakeFailed(cause) => TaskEventView::HandshakeFailed(cause@),
            TaskEvent::Inbound(msg) => TaskEventView::Inbound(inbound_view(*msg)),
            TaskEvent::StreamEnded => TaskEventView::StreamEnded,
            TaskEvent::Outbound(f) => TaskEventView::Outbound(f@),
            TaskEvent::WriteFailed(cause) => TaskEventView::WriteFailed(cause@),
        }
    }
}

/// What the task does next.
#[derive(Debug, Clone, PartialEq, Eq)]
pub enum TaskAction {
    /// Wait for the next thing to happen.
    Wait,
    /// Send the upgrade request and wait for its outcome.
    Handshake,
    /// Write this frame to the socket, then wait.
    Write(Frame),
    /// Leave the loop: the connection is over.
    Stop,
}

pub enum TaskActionView {
    Wait,
    Handshake,
    Write(FrameView),
    Stop,
}

impl View for TaskAction {
    type V = TaskActionView;

    open spec fn view(&self) -> TaskActionView {
        match self {
            TaskAction::Wait => TaskActionView::Wait,
            TaskAction::Handshake => TaskActionView::Handshake,
            TaskAction::Write(f) => TaskActionView::Write(f@),
            TaskAction::Stop => TaskActionView::Stop,
        }
    }
}

/// The outcome of one step: the next state, the event to put on the inbound
/// queue, and what the task does next.
#[derive(Debug, Clone, PartialEq, Eq)]
pub struct Transition {
    pub state: ConnectionState,
    pub emit: Option<NetworkEvent>,
    pub action: TaskAction,
}

pub struct TransitionView {
    pub state: ConnectionState,
    pub emit: Option<NetworkEventView>,
    pub action: TaskActionView,
}

impl View for Transition {
    type V = TransitionView;

    open spec fn view(&self) -> TransitionView {
        TransitionView { state: self.state, emit: event_view(self.emit), action: self.action@ }
    }
}

/// The transition relation of the connection task.
///
/// * `Disconnected`, on `Start`: to `Connecting`, and the handshake begins.
/// * `Connecting`: an accepted handshake leads to `Connected` and reports
///   `Connected`; a failed one leads to `Errored` and reports the cause,
///   without a handle.
/// * `Connected`: a close frame or the end of the stream leads to `Closed`
///   and reports `Disconnected`; any other read reports what
///   [`inbound_event`] makes of it; a queued frame is written; a failed write
///   is reported and the connection goes on.
/// * `Closed` and `Errored` are final.
/// * Whatever else happens in a state is ignored.
pub open spec fn step_spec(state: ConnectionState, event: TaskEventView) -> TransitionView {
    match (state, event) {
        (ConnectionState::Closed, _) | (ConnectionState::Errored, _) => TransitionView {
            state,
            emit: None,
            action: TaskActionView::Stop,
        },
        (ConnectionState::Disconnected, TaskEventView::Start) => TransitionView {
            state: ConnectionState::Connecting,
            emit: None,
            action: TaskActionView::Handshake,
        },
        (ConnectionState::Connecting, TaskEventView::HandshakeAccepted(handle)) => TransitionView {
            state: ConnectionState::Connected(handle),
            emit: Some(NetworkEventView::Connected(handle)),
            action: TaskActionView::Wait,
        },
        (ConnectionState::Connecting, TaskEventView::HandshakeFailed(cause)) => TransitionView {
            state: ConnectionState::Errored,
            emit: Some(NetworkEventView::Error(None, ClientErrorView::Transport(cause))),
            action: TaskActionView::Stop,
        },
        (ConnectionState::Connected(handle), TaskEventView::Inbound(Ok(FrameView::Close)))
        | (ConnectionState::Connected(handle), TaskEventView::StreamEnded) => TransitionView {
            state: ConnectionState::Closed,
            emit: Some(NetworkEventView::Disconnected(handle)),
            action: TaskActionView::Stop,
        },
        (ConnectionState::Connected(handle), TaskEventView::Inbound(msg)) => TransitionView {
            state,
            emit: inbound_event(handle, msg),
            action: TaskActionView::Wait,
        },
        (ConnectionState::Connected(handle), TaskEventView::Outbound(frame)) => TransitionView {
            state,
            emit: None,
            action: TaskActionView::Write(frame),
        },
        (ConnectionState::Connected(handle), TaskEventView::WriteFailed(cause)) => TransitionView {
            state,
            emit: Some(
                NetworkEventView::Error(Some(handle), ClientErrorView::Transport(cause)),
            ),
            action: TaskActionView::Wait,
        },
        _ => TransitionView { state, emit: None, action: TaskActionView::Wait },
    }
}

/// One step of the connection task: from where it stands and what happened
/// to where it stands next, what it reports and what it does.
pub fn step(state: ConnectionState, event: TaskEvent) -> (r: Transition)
    ensures
        r@ == step_spec(state, event@),
{
    match state {
        ConnectionState::Closed | ConnectionState::Errored => Transition {
            state,
            emit: None,
            action: TaskAction::Stop,
        },
        ConnectionState::Disconnected => match event {
            TaskEvent::Start => Transition {
                state: ConnectionState::Connecting,
                emit: None,
                action: TaskAction::Handshake,
            },
            _ => Transition { state, emit: None, action: TaskAction::Wait },
        },
        ConnectionState::Connecting => match event {
            TaskEvent::HandshakeAccepted(handle) => Transition {
                state: ConnectionState::Connected(handle),
                emit: Some(NetworkEvent::Connected(handle)),
                action: TaskAction::Wait,
            },
            TaskEvent::HandshakeFailed(cause) => Transition {
                state: ConnectionState::Errored,
                emit: Some(NetworkEvent::Error(None, ClientError::Transport(cause))),
                action: TaskAction::Stop,
            },
            _ => Transition { state, emit: None, action: TaskAction::Wait },
        },
        ConnectionState::Connected(handle) => match event {
            TaskEvent::Inbound(Ok(Frame::Close)) | TaskEvent::StreamEnded => Transition {
                state: ConnectionState::Closed,
                emit: Some(NetworkEvent::Disconnected(handle)),
                action: TaskAction::Stop,
            },
            TaskEvent::Inbound(msg) => Transition {
                state,
                emit: process_msg(handle, msg),
                action: TaskAction::Wait,
            },
            TaskEvent::Outbound(frame) => Transition {
                state,
                emit: None,
                action: TaskAction::Write(frame),
            },
            TaskEvent::WriteFailed(cause) => Transition {
                state,
                emit: Some(NetworkEvent::Error(Some(handle), ClientError::Transport(cause))),
                action: TaskAction::Wait,
            },
            _ => Transition { state, emit: None, action: TaskAction::Wait },
        },
    }
}

/// The state after a run of events.
pub open spec fn run(state: ConnectionState, events: Seq<TaskEventView>) -> ConnectionState
    decreases events.len(),
{
    if events.len() == 0 {
        state
    } else {
        run(step_spec(state, events[0]).state, events.drop_first())
    }
}

/// The events that a run of happenings puts on the inbound queue, in order.
pub open spec fn reports(state: ConnectionState, events: Seq<TaskEventView>) -> Seq<
    NetworkEventView,
>
    decreases events.len(),
{
    if events.len() == 0 {
        Seq::empty()
    } else {
        let first = step_spec(state, events[0]);
        (match first.emit {
            Some(e) => seq![e],
            None => Seq::empty(),
        }) + reports(first.state, events.drop_first())
    }
}

/// The frames that a run of happenings writes to the socket, in order.
pub open spec fn writes(state: ConnectionState, events: Seq<TaskEventView>) -> Seq<FrameView>
    decreases events.len(),
{
    if events.len() == 0 {
        Seq::empty()
    } else {
        let first = step_spec(state, events[0]);
        (match first.action {
            TaskActionView::Write(f) => seq![f],
            _ => Seq::empty(),
        }) + writes(first.state, events.drop_first())
    }
}

/// What happens first is reported first, and written first: a run of
/// happenings followed by another reports what the first run reports, then
/// what the second reports from where the first left off; and the same
/// holds of the frames written.
pub proof fn lemma_order_is_kept(
    state: ConnectionState,
    first: Seq<TaskEventView>,
    then: Seq<TaskEventView>,
)
    ensures
        run(state, first + then) == run(run(state, first), then),
        reports(state, first + then) == reports(state, first) + reports(run(state, first), then),
        writes(state, first + then) == writes(state, first) + writes(run(state, first), then),
    decreases first.len(),
{
    if first.len() == 0 {
        assert(first + then =~= then);
        assert(reports(state, first) + reports(state, then) =~= reports(state, then));
        assert(writes(state, first) + writes(state, then) =~= writes(state, then));
    } else {
        let all = first + then;
        let next = step_spec(state, first[0]).state;
        assert(all[0] == first[0]);
        assert(all.drop_first() =~= first.drop_first() + then);
        lemma_order_is_kept(next, first.drop_first(), then);
        let head = match step_spec(state, first[0]).emit {
            Some(e) => seq![e],
            None => Seq::empty(),
        };
        assert(head + (reports(next, first.drop_first()) + reports(run(state, first), then)) =~= (
        head + reports(next, first.drop_first())) + reports(run(state, first), then));
        let written = match step_spec(state, first[0]).action {
            TaskActionView::Write(f) => seq![f],
            _ => Seq::empty(),
        };
        assert(written + (writes(next, first.drop_first()) + writes(run(state, first), then)) =~= (
        written + writes(next, first.drop_first())) + writes(run(state, first), then));
    }
}

/// Every frame that is queued while the connection lasts is written, in the
/// order in which it was queued, and nothing else is.
pub proof fn lemma_queued_frames_are_written(handle: ConnectionHandle, frames: Seq<FrameView>)
    ensures
        writes(
            ConnectionState::Connected(handle),
            frames.map_values(|f: FrameView| TaskEventView::Outbound(f)),
        ) == frames,
        run(
            ConnectionState::Connected(handle),
            frames.map_values(|f: FrameView| TaskEventView::Outbound(f)),
        ) == ConnectionState::Connected(handle),
    decreases frames.len(),
{
    let state = ConnectionState::Connected(handle);
    let events = frames.map_values(|f: FrameView| TaskEventView::Outbound(f));
    if frames.len() == 0 {
        assert(writes(state, events) =~= frames);
    } else {
        lemma_queued_frames_are_written(handle, frames.drop_first());
        assert(events.drop_first() =~= frames.drop_first().map_values(
            |f: FrameView| TaskEventView::Outbound(f),
        ));
        assert(seq![frames[0]] + frames.drop_first() =~= frames);
    }
}

/// Once a connection is over, nothing is reported and nothing is written.
pub proof fn lemma_nothing_after_the_end(state: ConnectionState, events: Seq<TaskEventView>)
    requires
        state is Closed || state is Errored,
    ensures
        run(state, events) == state,
        reports(state, events) == Seq::<NetworkEventView>::empty(),
        writes(state, events) == Seq::<FrameView>::empty(),
    decreases events.len(),
{
    if events.len() > 0 {
        lemma_nothing_after_the_end(state, events.drop_first());
        assert(Seq::<NetworkEventView>::empty() + Seq::<NetworkEventView>::empty() =~= Seq::<
            NetworkEventView,
        >::empty());
        assert(Seq::<FrameView>::empty() + Seq::<FrameView>::empty() =~= Seq::<FrameView>::empty());
    }
}

/// `Closed` and `Errored` are final: whatever happens, the state stays,
/// nothing is reported and the task is told to stop.
pub proof fn lemma_final_states_absorb(state: ConnectionState, event: TaskEventView)
    requires
        state is Closed || state is Errored,
    ensures
        step_spec(state, event) == (TransitionView {
            state,
            emit: None,
            action: TaskActionView::Stop,
        }),
{
}

/// A connection becomes `Connected` only by an accepted handshake while
/// `Connecting`, and then with the handle of that handshake.
pub proof fn lemma_connected_only_by_handshake(state: ConnectionState, event: TaskEventView)
    requires
        step_spec(state, event).state is Connected,
        !(state is Connected),
    ensures
        state is Connecting,
        event is HandshakeAccepted,
        step_spec(state, event).state == ConnectionState::Connected(event->HandshakeAccepted_0),
        step_spec(state, event).emit == Some(
            NetworkEventView::Connected(event->HandshakeAccepted_0),
        ),
{
}

/// A failed handshake reports an error without a handle and leads to
/// `Errored`; no run of events leads from there to `Connected`.
pub proof fn lemma_failed_handshake_never_connects(cause: Seq<char>, events: Seq<TaskEventView>)
    ensures
        step_spec(ConnectionState::Connecting, TaskEventView::HandshakeFailed(cause)).state
            == ConnectionState::Errored,
        step_spec(ConnectionState::Connecting, TaskEventView::HandshakeFailed(cause)).emit == Some(
            NetworkEventView::Error(None, ClientErrorView::Transport(cause)),
        ),
        run(ConnectionState::Errored, events) == ConnectionState::Errored,
    decreases events.len(),
{
    if events.len() > 0 {
        lemma_failed_handshake_never_connects(cause, events.drop_first());
    }
}

/// While a connection lasts its handle does not change, and every message
/// and every disconnection it reports carries that handle.
pub proof fn lemma_handle_is_stable(handle: ConnectionHandle, event: TaskEventView)
    ensures
        ({
            let next = step_spec(ConnectionState::Connected(handle), event);
            &&& next.state == ConnectionState::Connected(handle) || next.state
                == ConnectionState::Closed
            &&& next.emit matches Some(NetworkEventView::Message(h, _)) ==> h == handle
            &&& next.emit matches Some(NetworkEventView::Disconnected(h)) ==> h == handle
            &&& next.state == ConnectionState::Closed <==> next.emit == Some(
                NetworkEventView::Disconnected(handle),
            )
        }),
{
}

/// A failed write is reported and the connection goes on.
pub proof fn lemma_write_failure_keeps_connection(handle: ConnectionHandle, cause: Seq<char>)
    ensures
        step_spec(ConnectionState::Connected(handle), TaskEventView::WriteFailed(cause)) == (
        TransitionView {
            state: ConnectionState::Connected(handle),
            emit: Some(NetworkEventView::Error(Some(handle), ClientErrorView::Transport(cause))),
            action: TaskActionView::Wait,
        }),
{
}

} // verus!

verus! {

/// What a `JoinHandle` gives as a future where its task failed. The library
/// never holds one; the type is declared because `JoinHandle` names it.
#[verifier::external_type_specification]
#[verifier::external_body]
pub struct ExJoinError(tokio::task::JoinError);

#[verifier::external_type_specification]
#[verifier::external_body]
#[verifier::reject_recursive_types(T)]
pub struct ExJoinHandle<T>(tokio::task::JoinHandle<T>);

#[verifier::external_type_specification]
#[verifier::external_body]
#[verifier::reject_recursive_types(T)]
pub struct ExEventReceiver<T>(crossbeam_channel::Receiver<T>);

#[verifier::external_type_specification]
#[verifier::external_body]
#[verifier::reject_recursive_types(T)]
pub struct ExFrameSender<T>(tokio::sync::mpsc::UnboundedSender<T>);

/// `Receiver::try_recv` of `crossbeam_channel`: the next queued event, or
/// nothing where the queue is empty or its senders are gone. The queue is
/// filled by the connection task, so nothing is claimed of the result.
#[verifier::external_body]
fn poll_queue(rx: &crossbeam_channel::Receiver<NetworkEvent>) -> Option<NetworkEvent> {
    rx.try_recv().ok()
}

/// The frames that a sender has handed to its queue, oldest first.
pub uninterp spec fn handed_on(tx: tokio::sync::mpsc::UnboundedSender<Frame>) -> Seq<FrameView>;

/// `UnboundedSender::send` of `tokio::sync::mpsc`: hands a frame to the
/// connection task without waiting. Where the task's end of the queue is
/// still there, the frame is put behind all that the queue was handed
/// before; where it is gone, the frame is handed back and the queue is as
/// it was. Which of the two it is depends on the task.
#[verifier::external_body]
fn enqueue(tx: &mut tokio::sync::mpsc::UnboundedSender<Frame>, frame: Frame) -> (accepted: bool)
    ensures
        accepted ==> handed_on(*final(tx)) == handed_on(*old(tx)).push(frame@),
        !accepted ==> handed_on(*final(tx)) == handed_on(*old(tx)),
{
    tx.send(frame).is_ok()
}

/// What became of a request that was handed to the facade.
#[derive(Debug, Clone, Copy, PartialEq, Eq, Structural)]
pub enum SendStatus {
    /// The request has no frame: nothing was to be sent.
    NoFrame,
    /// The client has no connection task.
    NotConnected,
    /// The connection task no longer reads its queue.
    Closed,
    /// The frame is in the task's queue.
    Queued,
}

/// The three ends of a running connection task.
struct Task {
    handle: tokio::task::JoinHandle<()>,
    rx: crossbeam_channel::Receiver<NetworkEvent>,
    tx: tokio::sync::mpsc::UnboundedSender<Frame>,
}

/// The facade of a connection: what a caller that polls, and never waits,
/// holds on to.
pub struct Client {
    task: Option<Task>,
    con: BuildConnection,
}

/// The URL of the subscription endpoint of a database on a host.
pub open spec fn subscribe_url(host: Seq<char>, name_or_address: Seq<char>) -> Seq<char> {
    "ws://"@ + host + "/database/subscribe?name_or_address="@ + name_or_address
}

/// What became of a frame, for the answer of the queue.
pub open spec fn status_of(accepted: bool) -> SendStatus {
    if accepted {
        SendStatus::Queued
    } else {
        SendStatus::Closed
    }
}

impl Client {
    /// The join handle of the connection task, if there is a task.
    pub closed spec fn task_handle(&self) -> Option<tokio::task::JoinHandle<()>> {
        match self.task {
            Some(task) => Some(task.handle),
            None => None,
        }
    }

    /// The end of the queue of events that the client reads, if there is a
    /// task.
    pub closed spec fn event_queue(&self) -> Option<crossbeam_channel::Receiver<NetworkEvent>> {
        match self.task {
            Some(task) => Some(task.rx),
            None => None,
        }
    }

    /// The end of the queue of frames that the client writes to, if there
    /// is a task.
    pub closed spec fn frame_queue(&self) -> Option<tokio::sync::mpsc::UnboundedSender<Frame>> {
        match self.task {
            Some(task) => Some(task.tx),
            None => None,
        }
    }

    /// Whether a connection task and both of its queues are present. This
    /// says nothing of whether the task is alive.
    pub open spec fn running(&self) -> bool {
        self.task_handle() is Some && self.event_queue() is Some && self.frame_queue() is Some
    }

    /// The frames that the client has handed to the task it has now, oldest
    /// first; none where it has no task.
    pub open spec fn outbound(&self) -> Seq<FrameView> {
        match self.frame_queue() {
            Some(tx) => handed_on(tx),
            None => Seq::empty(),
        }
    }

    /// The configuration of the connection.
    pub closed spec fn connection(&self) -> BuildConnectionView {
        self.con@
    }

    /// What handing `frame` to the client `before` makes of it, and the
    /// status that is returned.
    ///
    /// A client without a task stays as it is, and the status says so. A
    /// client with a task keeps its task and its configuration; where the
    /// queue took the frame, the frame is the newest that the client has
    /// handed on, and where the task no longer reads its queue, nothing was
    /// handed on.
    pub open spec fn handed(&self, before: &Client, frame: FrameView, status: SendStatus) -> bool {
        &&& self.connection() == before.connection()
        &&& self.task_handle() == before.task_handle()
        &&& self.event_queue() == before.event_queue()
        &&& self.running() == before.running()
        &&& !before.running() <==> status == SendStatus::NotConnected
        &&& before.running() ==> status == SendStatus::Queued || status == SendStatus::Closed
        &&& status == SendStatus::Queued ==> self.outbound() == before.outbound().push(frame)
        &&& status != SendStatus::Queued ==> self.outbound() == before.outbound()
    }

    /// A client for the database `name_or_address` on `host`, not yet
    /// connected. A host and name that do not make a URL with a host are a
    /// configuration error.
    pub fn new(host: &str, name_or_address: &str) -> (r: Result<Self, ClientError>)
        ensures
            match r {
                Ok(client) => {
                    &&& uri_host(subscribe_url(host@, name_or_address@)) is Some
                    &&& !client.running()
                    &&& client.task_handle() is None
                    &&& client.event_queue() is None
                    &&& client.frame_queue() is None
                    &&& client.connection() == (BuildConnectionView {
                        protocol: Protocol::Text,
                        auth: None,
                        url: subscribe_url(host@, name_or_address@),
                    })
                },
                Err(e) => {
                    &&& uri_host(subscribe_url(host@, name_or_address@)) is None
                    &&& e@ == ClientErrorView::Configuration
                },
            },
    {
        let url = "ws://".to_owned().concat(host).concat(
            "/database/subscribe?name_or_address=",
        ).concat(name_or_address);
        if has_host(url.as_str()) {
            Ok(Client { task: None, con: BuildConnection::new(url) })
        } else {
            Err(ClientError::Configuration)
        }
    }

    #[verifier::when_used_as_spec(running)]
    pub fn is_running(&self) -> (r: bool)
        ensures
            r == self.running(),
    {
        self.task.is_some()
    }

    /// The configuration of the connection.
    pub fn con(&self) -> (r: &BuildConnection)
        ensures
            r@ == self.connection(),
    {
        &self.con
    }

    /// Takes over a connection task that was started for `con`: its join
    /// handle, the queue of its events and the queue of frames to send.
    /// They take the place of the task that the client held before, if it
    /// held one; that task is let go of, not drained.
    pub fn connect(
        &mut self,
        con: BuildConnection,
        handle: tokio::task::JoinHandle<()>,
        rx: crossbeam_channel::Receiver<NetworkEvent>,
        tx: tokio::sync::mpsc::UnboundedSender<Frame>,
    )
        ensures
            final(self).running(),
            final(self).connection() == con@,
            final(self).task_handle() == Some(handle),
            final(self).event_queue() == Some(rx),
            final(self).frame_queue() == Some(tx),
    {
        self.con = con;
        self.task = Some(Task { handle, rx, tx });
    }

    /// Takes at most one event from the queue, without waiting. A client
    /// that is not running has none.
    pub fn try_recv(&self) -> (r: Option<NetworkEvent>)
        ensures
            !self.running() ==> r is None,
    {
        match &self.task {
            Some(task) => poll_queue(&task.rx),
            None => None,
        }
    }

    /// Queues the frame of a request, if it has one, without waiting.
    ///
    /// `Ping` and `Pong` have no frame: nothing is handed on and the client
    /// is as it was. For a call, the frame that [`serialize_msg`] makes of
    /// it is handed on as [`Client::send_raw_message`] hands on a frame.
    pub fn send_message(&mut self, msg: SpaceDbRequest) -> (r: SendStatus)
        ensures
            request_frame(msg@) is None <==> r == SendStatus::NoFrame,
            match request_frame(msg@) {
                Some(frame) => final(self).handed(old(self), frame, r),
                None => {
                    &&& final(self).connection() == old(self).connection()
                    &&& final(self).task_handle() == old(self).task_handle()
                    &&& final(self).event_queue() == old(self).event_queue()
                    &&& final(self).frame_queue() == old(self).frame_queue()
                },
            },
    {
        match serialize_msg(&self.con, msg) {
            Some(frame) => self.send_raw_message(frame),
            None => SendStatus::NoFrame,
        }
    }

    /// Queues a frame, without waiting: it is handed to the queue of the
    /// task, behind all that was handed on before. Whether the queue takes
    /// it is the task's to say.
    pub fn send_raw_message(&mut self, msg: Frame) -> (r: SendStatus)
        ensures
            final(self).handed(old(self), msg@, r),
            old(self).frame_queue() is None ==> final(self).frame_queue() is None,
    {
        match self.task.take() {
            Some(task) => {
                let Task { handle, rx, mut tx } = task;
                let accepted = enqueue(&mut tx, msg);
                self.task = Some(Task { handle, rx, tx });
                Client::status(accepted)
            },
            None => SendStatus::NotConnected,
        }
    }

    /// The status for the answer of the queue: queued where it took the
    /// frame, closed where the task no longer reads it.
    pub fn status(accepted: bool) -> (r: SendStatus)
        ensures
            r == status_of(accepted),
    {
        if accepted {
            SendStatus::Queued
        } else {
            SendStatus::Closed
        }
    }
}

} // verus!
