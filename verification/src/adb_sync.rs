//! Pushing a file to a device through the local protocol server.
//!
//! A push is a fixed conversation on one socket: select the device, ask for
//! file-sync mode, announce the remote path, stream the file in chunks and
//! close with the modification time. This module holds the decisions of that
//! conversation and none of its input and output. A driver performs each
//! [`Action`] and reports what happened as an [`Event`]; [`PushSession::step`]
//! answers with the next action until the push is finished.

use crate::address::Ipv4;
use crate::event::{Event, EventView};
use crate::status::{
    reply_next, reply_step, status_kind, ErrorKind, Reply, ReplyStage, ReplyView, StatusError,
    StatusErrorView,
};
use crate::wire::{
    data_frame, done_frame, encode_data, encode_done, encode_send, frame_message, is_okay,
    message, okay, send_frame, CONTROL_PORT, MAX_CHUNK,
};
use vstd::prelude::*;
use vstd::string::StringSliceAdditionalSpecFns;
use vstd::utf8::encode_utf8;

verus! {

/// Why a push did not succeed.
#[derive(Debug, PartialEq, Eq)]
pub enum TransportError {
    /// The local protocol server could not be reached.
    ServerUnreachable,
    /// The device was not found or has not authorised this host.
    DeviceRejected(StatusError),
    /// The device did not enter file-sync mode.
    SyncRejected(StatusError),
    /// The local file or the socket failed.
    Io,
    /// The transfer was sent, but the device did not confirm it.
    NotAcknowledged,
}

/// A [`TransportError`] with its text as sequences of characters.
pub enum TransportErrorView {
    ServerUnreachable,
    DeviceRejected(StatusErrorView),
    SyncRejected(StatusErrorView),
    Io,
    NotAcknowledged,
}

impl View for TransportError {
    type V = TransportErrorView;

    open spec fn view(&self) -> TransportErrorView {
        match self {
            TransportError::ServerUnreachable => TransportErrorView::ServerUnreachable,
            TransportError::DeviceRejected(e) => TransportErrorView::DeviceRejected(e@),
            TransportError::SyncRejected(e) => TransportErrorView::SyncRejected(e@),
            TransportError::Io => TransportErrorView::Io,
            TransportError::NotAcknowledged => TransportErrorView::NotAcknowledged,
        }
    }
}

/// The class of a transport error. A rejection has the class of the reply
/// that brought it: a connectivity error where the server explained its
/// refusal, a protocol error where the explanation could not be made out,
/// and an I/O error where the reply could not be read.
pub open spec fn transport_kind(e: TransportErrorView) -> ErrorKind {
    match e {
        TransportErrorView::ServerUnreachable => ErrorKind::Connectivity,
        TransportErrorView::DeviceRejected(why) => status_kind(why),
        TransportErrorView::SyncRejected(why) => status_kind(why),
        TransportErrorView::Io => ErrorKind::Io,
        TransportErrorView::NotAcknowledged => ErrorKind::Acknowledgement,
    }
}

/// A transport error in words.
pub open spec fn transport_message(e: TransportErrorView) -> Seq<char> {
    match e {
        TransportErrorView::ServerUnreachable => "server not reachable"@,
        TransportErrorView::DeviceRejected(_) => "device not found or unauthorized"@,
        TransportErrorView::SyncRejected(_) => "sync mode rejected"@,
        TransportErrorView::Io => "input or output failed"@,
        TransportErrorView::NotAcknowledged => "transfer not acknowledged"@,
    }
}

impl TransportError {
    /// The class of this error.
    pub fn kind(&self) -> (k: ErrorKind)
        ensures
            k == transport_kind(self@),
    {
        match self {
            TransportError::ServerUnreachable => ErrorKind::Connectivity,
            TransportError::DeviceRejected(why) => why.kind(),
            TransportError::SyncRejected(why) => why.kind(),
            TransportError::Io => ErrorKind::Io,
            TransportError::NotAcknowledged => ErrorKind::Acknowledgement,
        }
    }

    /// The error in words. What the server said of a rejection is found in
    /// the [`StatusError`] that the variant carries.
    pub fn message(&self) -> (text: String)
        ensures
            text@ == transport_message(self@),
    {
        match self {
            TransportError::ServerUnreachable => String::from_str("server not reachable"),
            TransportError::DeviceRejected(_) => String::from_str(
                "device not found or unauthorized",
            ),
            TransportError::SyncRejected(_) => String::from_str("sync mode rejected"),
            TransportError::Io => String::from_str("input or output failed"),
            TransportError::NotAcknowledged => String::from_str("transfer not acknowledged"),
        }
    }
}

/// What the driver is asked to do next.
#[derive(Debug, PartialEq, Eq)]
pub enum Action {
    /// Open the local file and report its size with [`Event::Size`].
    OpenSource,
    /// Open a TCP connection to this host and port; answer [`Event::Done`].
    Connect { host: Ipv4, port: u16 },
    /// Write all of these bytes to the socket; answer [`Event::Done`].
    Send(Vec<u8>),
    /// Read exactly this many bytes from the socket; answer [`Event::Data`].
    Receive(usize),
    /// Read up to this many bytes from the socket and answer with
    /// [`Event::Data`] holding what the buffer has, whether or not the read
    /// filled it.
    ReceiveUpTo(usize),
    /// Read the next bytes of the file, at most this many, and answer with
    /// [`Event::Data`]; no bytes mean the end of the file.
    ReadChunk(usize),
    /// Tell the progress sink how far the push has come; answer
    /// [`Event::Done`].
    Report { sent: u64, total: u64 },
    /// Read the clock; answer [`Event::Time`].
    ReadClock,
    /// The push is over. Close the connection and hand this result on.
    Finish(Result<(), TransportError>),
}

/// An [`Action`] with its bytes and text as mathematical sequences.
pub enum ActionView {
    OpenSource,
    Connect { host: Ipv4, port: u16 },
    Send(Seq<u8>),
    Receive(usize),
    ReceiveUpTo(usize),
    ReadChunk(usize),
    Report { sent: u64, total: u64 },
    ReadClock,
    Finish(Option<TransportErrorView>),
}

impl View for Action {
    type V = ActionView;

    open spec fn view(&self) -> ActionView {
        match self {
            Action::OpenSource => ActionView::OpenSource,
            Action::Connect { host, port } => ActionView::Connect { host: *host, port: *port },
            Action::Send(bytes) => ActionView::Send(bytes@),
            Action::Receive(n) => ActionView::Receive(*n),
            Action::ReceiveUpTo(n) => ActionView::ReceiveUpTo(*n),
            Action::ReadChunk(n) => ActionView::ReadChunk(*n),
            Action::Report { sent, total } => ActionView::Report { sent: *sent, total: *total },
            Action::ReadClock => ActionView::ReadClock,
            Action::Finish(Ok(_)) => ActionView::Finish(None),
            Action::Finish(Err(e)) => ActionView::Finish(Some(e@)),
        }
    }
}

/// Where a push stands: which answer it is waiting for.
#[derive(Clone, Copy, Debug, PartialEq, Eq, Structural)]
pub enum Phase {
    /// The size of the local file.
    Opening,
    /// The connection to the server.
    Connecting,
    /// The writing of the message that selects the device.
    Selecting,
    /// The reply to the message that selects the device.
    SelectReply(ReplyStage),
    /// The writing of the request for file-sync mode.
    Syncing,
    /// The reply to the request for file-sync mode.
    SyncReply(ReplyStage),
    /// The writing of the `SEND` frame.
    Announcing,
    /// The next chunk of the file.
    Reading,
    /// The writing of a `DATA` frame; the count is what will have been sent
    /// once it is written.
    Writing(u64),
    /// The progress sink.
    Reporting,
    /// The clock.
    Timing,
    /// The writing of the `DONE` frame.
    Closing,
    /// The device's confirmation.
    Confirming,
    /// Nothing: the push is over.
    Finished,
}

/// The mathematical state of a push.
pub struct SessionView {
    /// The serial of the device; `None` for any attached device.
    pub serial: Option<Seq<char>>,
    /// The remote path with its permission suffix.
    pub remote_path: Seq<char>,
    pub phase: Phase,
    /// The size of the file as read when it was opened.
    pub total: u64,
    /// The bytes of the file that have been written to the socket.
    pub sent: u64,
    /// Why the push failed, once it has.
    pub failure: Option<TransportErrorView>,
}

/// The text that selects the session's device.
pub open spec fn transport_request(serial: Option<Seq<char>>) -> Seq<char> {
    match serial {
        Some(s) => "host:transport:"@ + s,
        None => "host:transport-any"@,
    }
}

/// The state in which a push begins.
pub open spec fn initial(serial: Option<Seq<char>>, remote_path: Seq<char>) -> SessionView {
    SessionView {
        serial,
        remote_path,
        phase: Phase::Opening,
        total: 0,
        sent: 0,
        failure: None,
    }
}

/// The address of the host itself, at which the protocol server listens.
pub open spec fn local_host() -> Ipv4 {
    Ipv4 { a: 127, b: 0, c: 0, d: 1 }
}

/// The request to connect to the protocol server's control endpoint.
pub open spec fn connect_to_server() -> ActionView {
    ActionView::Connect { host: local_host(), port: CONTROL_PORT }
}

/// The push ends in failure.
pub open spec fn fail(s: SessionView, e: TransportErrorView) -> (SessionView, ActionView) {
    (
        SessionView { phase: Phase::Finished, failure: Some(e), ..s },
        ActionView::Finish(Some(e)),
    )
}

/// The push moves to `phase` and asks for `action`.
pub open spec fn go(s: SessionView, phase: Phase, action: ActionView) -> (
    SessionView,
    ActionView,
) {
    (SessionView { phase, ..s }, action)
}

/// What the reading of a reply asks the driver to do at `stage`.
pub open spec fn reply_request(stage: ReplyStage) -> ActionView {
    match stage {
        ReplyStage::Status => ActionView::Receive(4),
        ReplyStage::Length => ActionView::Receive(4),
        ReplyStage::Message(n) => ActionView::ReceiveUpTo(n as usize),
    }
}

/// The request for file-sync mode, framed.
pub open spec fn sync_message() -> Seq<u8> {
    message(encode_utf8("sync:"@))
}

/// The message that selects the device, framed.
pub open spec fn select_message(serial: Option<Seq<char>>) -> Seq<u8> {
    message(encode_utf8(transport_request(serial)))
}

/// The whole of the protocol: the state and the action that follow when
/// event `e` comes in at state `s`.
///
/// In every phase one kind of event is the answer that lets the push go on.
/// Any other event ends the push with the error of that phase.
pub open spec fn advance(s: SessionView, e: EventView) -> (SessionView, ActionView) {
    match s.phase {
        Phase::Opening => match e {
            EventView::Size(n) => (
                SessionView { phase: Phase::Connecting, total: n, ..s },
                connect_to_server(),
            ),
            _ => fail(s, TransportErrorView::Io),
        },
        Phase::Connecting => match e {
            EventView::Done => go(s, Phase::Selecting, ActionView::Send(select_message(s.serial))),
            _ => fail(s, TransportErrorView::ServerUnreachable),
        },
        Phase::Selecting => match e {
            EventView::Done => go(
                s,
                Phase::SelectReply(ReplyStage::Status),
                reply_request(ReplyStage::Status),
            ),
            _ => fail(s, TransportErrorView::Io),
        },
        Phase::SelectReply(stage) => match reply_next(stage, e) {
            ReplyView::Accepted => go(s, Phase::Syncing, ActionView::Send(sync_message())),
            ReplyView::Continue(next) => go(s, Phase::SelectReply(next), reply_request(next)),
            ReplyView::Refused(why) => fail(s, TransportErrorView::DeviceRejected(why)),
        },
        Phase::Syncing => match e {
            EventView::Done => go(
                s,
                Phase::SyncReply(ReplyStage::Status),
                reply_request(ReplyStage::Status),
            ),
            _ => fail(s, TransportErrorView::Io),
        },
        Phase::SyncReply(stage) => match reply_next(stage, e) {
            ReplyView::Accepted => go(
                s,
                Phase::Announcing,
                ActionView::Send(send_frame(encode_utf8(s.remote_path))),
            ),
            ReplyView::Continue(next) => go(s, Phase::SyncReply(next), reply_request(next)),
            ReplyView::Refused(why) => fail(s, TransportErrorView::SyncRejected(why)),
        },
        Phase::Announcing => match e {
            EventView::Done => go(s, Phase::Reading, ActionView::ReadChunk(MAX_CHUNK)),
            _ => fail(s, TransportErrorView::Io),
        },
        Phase::Reading => match e {
            EventView::Data(chunk) => {
                if chunk.len() == 0 {
                    go(s, Phase::Timing, ActionView::ReadClock)
                } else if chunk.len() <= MAX_CHUNK && s.sent + chunk.len() <= u64::MAX {
                    go(
                        s,
                        Phase::Writing((s.sent + chunk.len()) as u64),
                        ActionView::Send(data_frame(chunk)),
                    )
                } else {
                    fail(s, TransportErrorView::Io)
                }
            },
            _ => fail(s, TransportErrorView::Io),
        },
        Phase::Writing(sent) => match e {
            EventView::Done => (
                SessionView { phase: Phase::Reporting, sent, ..s },
                ActionView::Report { sent, total: s.total },
            ),
            _ => fail(s, TransportErrorView::Io),
        },
        Phase::Reporting => match e {
            EventView::Done => go(s, Phase::Reading, ActionView::ReadChunk(MAX_CHUNK)),
            _ => fail(s, TransportErrorView::Io),
        },
        Phase::Timing => match e {
            EventView::Time(t) => go(s, Phase::Closing, ActionView::Send(done_frame(t))),
            _ => fail(s, TransportErrorView::Io),
        },
        Phase::Closing => match e {
            EventView::Done => go(s, Phase::Confirming, ActionView::Receive(4)),
            _ => fail(s, TransportErrorView::Io),
        },
        Phase::Confirming => match e {
            EventView::Data(word) => {
                if word == okay() {
                    go(s, Phase::Finished, ActionView::Finish(None))
                } else {
                    fail(s, TransportErrorView::NotAcknowledged)
                }
            },
            _ => fail(s, TransportErrorView::NotAcknowledged),
        },
        Phase::Finished => (s, ActionView::Finish(s.failure)),
    }
}

/// Pushes files to one device, or to whichever device is attached.
pub struct AdbPusher {
    device_serial: Option<String>,
}

impl View for AdbPusher {
    type V = Option<Seq<char>>;

    closed spec fn view(&self) -> Option<Seq<char>> {
        match self.device_serial {
            Some(s) => Some(s@),
            None => None,
        }
    }
}

/// The serial that an optional string stands for.
pub open spec fn serial_view(serial: Option<String>) -> Option<Seq<char>> {
    match serial {
        Some(s) => Some(s@),
        None => None,
    }
}

impl AdbPusher {
    /// A pusher for the device with this serial; for any attached device
    /// where there is none.
    pub fn new(serial: Option<String>) -> (pusher: Self)
        ensures
            pusher@ == serial_view(serial),
    {
        Self { device_serial: serial }
    }

    /// The text of the control message that selects this pusher's device.
    pub fn transport_request(&self) -> (text: String)
        ensures
            text@ == transport_request(self@),
    {
        match &self.device_serial {
            Some(s) => String::from_str("host:transport:").concat(s.as_str()),
            None => String::from_str("host:transport-any"),
        }
    }

    /// Begins a push to `remote_path`, which must already carry its
    /// permission suffix. Returns the session and the first thing to do; the
    /// driver then answers every action with [`PushSession::step`] until the
    /// session asks it to finish.
    pub fn push(&self, remote_path: &str) -> (r: (PushSession, Action))
        ensures
            r.0@ == initial(self@, remote_path@),
            r.1@ == ActionView::OpenSource,
    {
        let session = PushSession {
            serial: self.device_serial.clone(),
            remote_path: String::from_str(remote_path),
            phase: Phase::Opening,
            total: 0,
            sent: 0,
            failure: None,
        };
        (session, Action::OpenSource)
    }
}

/// One push in progress.
pub struct PushSession {
    serial: Option<String>,
    remote_path: String,
    phase: Phase,
    total: u64,
    sent: u64,
    failure: Option<TransportError>,
}

impl View for PushSession {
    type V = SessionView;

    closed spec fn view(&self) -> SessionView {
        SessionView {
            serial: serial_view(self.serial),
            remote_path: self.remote_path@,
            phase: self.phase,
            total: self.total,
            sent: self.sent,
            failure: match self.failure {
                Some(e) => Some(e@),
                None => None,
            },
        }
    }
}

/// Copies a status error.
fn copy_status(e: &StatusError) -> (c: StatusError)
    ensures
        c@ == e@,
{
    match e {
        StatusError::Io => StatusError::Io,
        StatusError::Failure(text) => StatusError::Failure(text.clone()),
        StatusError::Malformed => StatusError::Malformed,
    }
}

/// Copies a transport error.
fn copy_error(e: &TransportError) -> (c: TransportError)
    ensures
        c@ == e@,
{
    match e {
        TransportError::ServerUnreachable => TransportError::ServerUnreachable,
        TransportError::DeviceRejected(why) => TransportError::DeviceRejected(copy_status(why)),
        TransportError::SyncRejected(why) => TransportError::SyncRejected(copy_status(why)),
        TransportError::Io => TransportError::Io,
        TransportError::NotAcknowledged => TransportError::NotAcknowledged,
    }
}

/// The request that the reading of a reply makes at `stage`.
fn request_for(stage: ReplyStage) -> (a: Action)
    ensures
        a@ == reply_request(stage),
{
    match stage {
        ReplyStage::Status => Action::Receive(4),
        ReplyStage::Length => Action::Receive(4),
        ReplyStage::Message(n) => Action::ReceiveUpTo(n as usize),
    }
}

impl PushSession {
    /// Where the push stands.
    pub fn phase(&self) -> (p: Phase)
        ensures
            p == self@.phase,
    {
        self.phase
    }

    /// How many bytes of the file have been written to the socket.
    pub fn sent(&self) -> (n: u64)
        ensures
            n == self@.sent,
    {
        self.sent
    }

    /// The size of the file as it was when the push opened it.
    pub fn total(&self) -> (n: u64)
        ensures
            n == self@.total,
    {
        self.total
    }

    /// Ends the push with `e`.
    fn abort(&mut self, e: TransportError) -> (a: Action)
        ensures
            (final(self)@, a@) == fail(old(self)@, e@),
    {
        let copy = copy_error(&e);
        self.phase = Phase::Finished;
        self.failure = Some(e);
        Action::Finish(Err(copy))
    }

    /// Takes in what the driver reports of the last action and decides what
    /// to do next.
    pub fn step(&mut self, event: Event) -> (action: Action)
        ensures
            (final(self)@, action@) == advance(old(self)@, event@),
    {
        match self.phase {
            Phase::Opening => match event {
                Event::Size(n) => {
                    self.total = n;
                    self.phase = Phase::Connecting;
                    Action::Connect { host: Ipv4 { a: 127, b: 0, c: 0, d: 1 }, port: CONTROL_PORT }
                },
                _ => self.abort(TransportError::Io),
            },
            Phase::Connecting => match event {
                Event::Done => {
                    let text = match &self.serial {
                        Some(s) => String::from_str("host:transport:").concat(s.as_str()),
                        None => String::from_str("host:transport-any"),
                    };
                    self.phase = Phase::Selecting;
                    Action::Send(frame_message(text.as_str().as_bytes()))
                },
                _ => self.abort(TransportError::ServerUnreachable),
            },
            Phase::Selecting => match event {
                Event::Done => {
                    self.phase = Phase::SelectReply(ReplyStage::Status);
                    request_for(ReplyStage::Status)
                },
                _ => self.abort(TransportError::Io),
            },
            Phase::SelectReply(stage) => match reply_step(stage, &event) {
                Reply::Accepted => {
                    self.phase = Phase::Syncing;
                    Action::Send(frame_message("sync:".as_bytes()))
                },
                Reply::Continue(next) => {
                    self.phase = Phase::SelectReply(next);
                    request_for(next)
                },
                Reply::Refused(why) => self.abort(TransportError::DeviceRejected(why)),
            },
            Phase::Syncing => match event {
                Event::Done => {
                    self.phase = Phase::SyncReply(ReplyStage::Status);
                    request_for(ReplyStage::Status)
                },
                _ => self.abort(TransportError::Io),
            },
            Phase::SyncReply(stage) => match reply_step(stage, &event) {
                Reply::Accepted => {
                    self.phase = Phase::Announcing;
                    Action::Send(encode_send(self.remote_path.as_str().as_bytes()))
                },
                Reply::Continue(next) => {
                    self.phase = Phase::SyncReply(next);
                    request_for(next)
                },
                Reply::Refused(why) => self.abort(TransportError::SyncRejected(why)),
            },
            Phase::Announcing => match event {
                Event::Done => {
                    self.phase = Phase::Reading;
                    Action::ReadChunk(MAX_CHUNK)
                },
                _ => self.abort(TransportError::Io),
            },
            Phase::Reading => match event {
                Event::Data(chunk) => {
                    let n = chunk.len();
                    if n == 0 {
                        self.phase = Phase::Timing;
                        Action::ReadClock
                    } else if n <= MAX_CHUNK && self.sent <= u64::MAX - (n as u64) {
                        self.phase = Phase::Writing(self.sent + n as u64);
                        Action::Send(encode_data(chunk.as_slice()))
                    } else {
                        self.abort(TransportError::Io)
                    }
                },
                _ => self.abort(TransportError::Io),
            },
            Phase::Writing(sent) => match event {
                Event::Done => {
                    self.sent = sent;
                    self.phase = Phase::Reporting;
                    Action::Report { sent, total: self.total }
                },
                _ => self.abort(TransportError::Io),
            },
            Phase::Reporting => match event {
                Event::Done => {
                    self.phase = Phase::Reading;
                    Action::ReadChunk(MAX_CHUNK)
                },
                _ => self.abort(TransportError::Io),
            },
            Phase::Timing => match event {
                Event::Time(t) => {
                    self.phase = Phase::Closing;
                    Action::Send(encode_done(t))
                },
                _ => self.abort(TransportError::Io),
            },
            Phase::Closing => match event {
                Event::Done => {
                    self.phase = Phase::Confirming;
                    Action::Receive(4)
                },
                _ => self.abort(TransportError::Io),
            },
            Phase::Confirming => match event {
                Event::Data(word) => {
                    if is_okay(word.as_slice()) {
                        self.phase = Phase::Finished;
                        Action::Finish(Ok(()))
                    } else {
                        self.abort(TransportError::NotAcknowledged)
                    }
                },
                _ => self.abort(TransportError::NotAcknowledged),
            },
            Phase::Finished => match &self.failure {
                Some(e) => Action::Finish(Err(copy_error(e))),
                None => Action::Finish(Ok(())),
            },
        }
    }
}

} // verus!
