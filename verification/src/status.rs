//! Reading the server's reply to a control message.
//!
//! A reply starts with a four-byte status word. `OKAY` accepts the message.
//! After any other word the server is expected to explain itself: a four-byte
//! hexadecimal length, then that many bytes of text.

use crate::event::{Event, EventView};
use crate::wire::{
    is_okay, law_length_field_reads, length_field, okay, parse_length, read_length,
};
use vstd::prelude::*;
use vstd::utf8::{
    decode_utf8, encode_utf8, encode_utf8_decode_utf8, encode_utf8_valid_utf8, valid_utf8,
};

verus! {

/// Why a control message was not accepted.
#[derive(Debug, PartialEq, Eq)]
pub enum StatusError {
    /// The status word could not be read.
    Io,
    /// The server refused and said why.
    Failure(String),
    /// The server refused, and no length of an explanation could be read.
    Malformed,
}

/// A [`StatusError`] with its text as a sequence of characters.
pub enum StatusErrorView {
    Io,
    Failure(Seq<char>),
    Malformed,
}

impl View for StatusError {
    type V = StatusErrorView;

    open spec fn view(&self) -> StatusErrorView {
        match self {
            StatusError::Io => StatusErrorView::Io,
            StatusError::Failure(text) => StatusErrorView::Failure(text@),
            StatusError::Malformed => StatusErrorView::Malformed,
        }
    }
}

/// The class that an error falls in.
#[derive(Clone, Copy, Debug, PartialEq, Eq, Structural)]
pub enum ErrorKind {
    /// The server or the device could not be reached or refused the session.
    Connectivity,
    /// The peer did not keep to the protocol.
    Protocol,
    /// A read or a write failed.
    Io,
    /// The transfer was sent but not confirmed.
    Acknowledgement,
}

/// The text that `bytes` decode to as UTF-8 when every malformed sequence is
/// replaced by U+FFFD.
pub uninterp spec fn lossy_text(bytes: Seq<u8>) -> Seq<char>;

/// Decodes the server's explanation with `String::from_utf8_lossy`.
///
/// The contract names the result, which depends on the bytes alone, and
/// claims one thing more of it: bytes that are well-formed UTF-8 decode to
/// the text that they encode.
#[verifier::external_body]
fn decode_lossy(bytes: &[u8]) -> (text: String)
    ensures
        text@ == lossy_text(bytes@),
        valid_utf8(bytes@) ==> text@ == decode_utf8(bytes@),
{
    String::from_utf8_lossy(bytes).into_owned()
}

/// The text of an explanation that arrived as `bytes`: what they encode
/// where they are well-formed UTF-8, and their lossy decoding where they
/// are not.
pub open spec fn explanation(bytes: Seq<u8>) -> Seq<char> {
    if valid_utf8(bytes) {
        decode_utf8(bytes)
    } else {
        lossy_text(bytes)
    }
}

/// Where the reading of a reply stands.
#[derive(Clone, Copy, Debug, PartialEq, Eq, Structural)]
pub enum ReplyStage {
    /// The status word is awaited.
    Status,
    /// The status word was not `OKAY`; the length of the explanation is
    /// awaited.
    Length,
    /// An explanation of this many bytes is awaited.
    Message(u16),
}

/// What one event does to the reading of a reply.
#[derive(Debug, PartialEq, Eq)]
pub enum Reply {
    /// The server accepted the message.
    Accepted,
    /// More has to be read.
    Continue(ReplyStage),
    /// The message was not accepted.
    Refused(StatusError),
}

/// A [`Reply`] with its text as a sequence of characters.
pub enum ReplyView {
    Accepted,
    Continue(ReplyStage),
    Refused(StatusErrorView),
}

impl View for Reply {
    type V = ReplyView;

    open spec fn view(&self) -> ReplyView {
        match self {
            Reply::Accepted => ReplyView::Accepted,
            Reply::Continue(stage) => ReplyView::Continue(*stage),
            Reply::Refused(e) => ReplyView::Refused(e@),
        }
    }
}

/// The bytes that an event brought; none where it brought none.
pub open spec fn event_bytes(e: EventView) -> Seq<u8> {
    match e {
        EventView::Data(bytes) => bytes,
        _ => Seq::empty(),
    }
}

/// How the reading of a reply goes on from `stage` when `e` comes in.
///
/// The status word and the length must arrive whole, as four bytes each. Of
/// the explanation whatever arrived is taken.
pub open spec fn reply_next(stage: ReplyStage, e: EventView) -> ReplyView {
    match stage {
        ReplyStage::Status => {
            if e is Data && event_bytes(e).len() == 4 {
                if event_bytes(e) == okay() {
                    ReplyView::Accepted
                } else {
                    ReplyView::Continue(ReplyStage::Length)
                }
            } else {
                ReplyView::Refused(StatusErrorView::Io)
            }
        },
        ReplyStage::Length => {
            if e is Data && parse_length(event_bytes(e)) is Some {
                ReplyView::Continue(ReplyStage::Message(parse_length(event_bytes(e)).unwrap()))
            } else {
                ReplyView::Refused(StatusErrorView::Malformed)
            }
        },
        ReplyStage::Message(_) => ReplyView::Refused(explained(explanation(event_bytes(e)))),
    }
}

/// The refusal that carries `text` as the server's explanation.
pub open spec fn explained(text: Seq<char>) -> StatusErrorView {
    StatusErrorView::Failure(text)
}

/// Wraps the decoded explanation of a refusal.
pub fn explain(text: String) -> (e: StatusError)
    ensures
        e@ == explained(text@),
{
    StatusError::Failure(text)
}

/// Takes the reading of a reply one event further.
pub fn reply_step(stage: ReplyStage, event: &Event) -> (r: Reply)
    ensures
        r@ == reply_next(stage, event@),
{
    match stage {
        ReplyStage::Status => {
            match event {
                Event::Data(bytes) => {
                    if bytes.len() == 4 {
                        if is_okay(bytes.as_slice()) {
                            Reply::Accepted
                        } else {
                            Reply::Continue(ReplyStage::Length)
                        }
                    } else {
                        Reply::Refused(StatusError::Io)
                    }
                },
                _ => Reply::Refused(StatusError::Io),
            }
        },
        ReplyStage::Length => {
            match event {
                Event::Data(bytes) => {
                    match read_length(bytes.as_slice()) {
                        Some(n) => Reply::Continue(ReplyStage::Message(n)),
                        None => Reply::Refused(StatusError::Malformed),
                    }
                },
                _ => Reply::Refused(StatusError::Malformed),
            }
        },
        ReplyStage::Message(_) => {
            match event {
                Event::Data(bytes) => Reply::Refused(explain(decode_lossy(bytes.as_slice()))),
                _ => {
                    let none: Vec<u8> = Vec::new();
                    Reply::Refused(explain(decode_lossy(none.as_slice())))
                },
            }
        },
    }
}

impl StatusError {
    /// The class of this error: a reply that could not be read is an I/O
    /// error, a refusal that the server explained is a connectivity error,
    /// and a refusal whose explanation could not be made out is a protocol
    /// error.
    pub fn kind(&self) -> (k: ErrorKind)
        ensures
            k == status_kind(self@),
    {
        match self {
            StatusError::Io => ErrorKind::Io,
            StatusError::Failure(_) => ErrorKind::Connectivity,
            StatusError::Malformed => ErrorKind::Protocol,
        }
    }

    /// The error in words.
    pub fn message(&self) -> (text: String)
        ensures
            text@ == status_message(self@),
    {
        match self {
            StatusError::Io => String::from_str("status not readable"),
            StatusError::Failure(explanation) => {
                String::from_str("ADB Error: ").concat(explanation.as_str())
            },
            StatusError::Malformed => String::from_str("server returned failure"),
        }
    }
}

/// The class of a status error.
pub open spec fn status_kind(e: StatusErrorView) -> ErrorKind {
    match e {
        StatusErrorView::Io => ErrorKind::Io,
        StatusErrorView::Failure(_) => ErrorKind::Connectivity,
        StatusErrorView::Malformed => ErrorKind::Protocol,
    }
}

/// A status error in words. A refusal shows the server's explanation.
pub open spec fn status_message(e: StatusErrorView) -> Seq<char> {
    match e {
        StatusErrorView::Io => "status not readable"@,
        StatusErrorView::Failure(text) => "ADB Error: "@ + text,
        StatusErrorView::Malformed => "server returned failure"@,
    }
}

/// `n` zero bytes.
pub open spec fn zeros(n: nat) -> Seq<u8> {
    Seq::new(n, |i: int| 0u8)
}

/// The bytes that a read of `n` bytes at `at` leaves in a zeroed buffer when
/// `stream` is all that the server sends: what there is, then zeros.
pub open spec fn buffer_after(stream: Seq<u8>, at: int, n: nat) -> Seq<u8> {
    if at + n <= stream.len() {
        stream.subrange(at, at + n)
    } else if at <= stream.len() {
        stream.subrange(at, stream.len() as int) + zeros((at + n - stream.len()) as nat)
    } else {
        zeros(n)
    }
}

/// The outcome of reading a reply of which `stream` is all that the server
/// sends: `None` for an accepted message, else the refusal.
pub open spec fn status_of(stream: Seq<u8>) -> Option<StatusErrorView> {
    if stream.len() < 4 {
        Some(StatusErrorView::Io)
    } else if stream.subrange(0, 4) == okay() {
        None
    } else if stream.len() < 8 || parse_length(stream.subrange(4, 8)) is None {
        Some(StatusErrorView::Malformed)
    } else {
        Some(
            explained(
                explanation(
                    buffer_after(stream, 8, parse_length(stream.subrange(4, 8)).unwrap() as nat),
                ),
            ),
        )
    }
}

/// The view of the outcome of reading a reply.
pub open spec fn outcome_view(r: Result<(), StatusError>) -> Option<StatusErrorView> {
    match r {
        Ok(_) => None,
        Err(e) => Some(e@),
    }
}

/// Copies the piece `lo..hi` of `bytes`.
fn copy_bytes(bytes: &[u8], lo: usize, hi: usize) -> (out: Vec<u8>)
    requires
        lo <= hi <= bytes@.len(),
    ensures
        out@ == bytes@.subrange(lo as int, hi as int),
{
    let mut out: Vec<u8> = Vec::new();
    let mut i: usize = lo;
    while i < hi
        invariant
            lo <= i <= hi <= bytes@.len(),
            out@ == bytes@.subrange(lo as int, i as int),
        decreases hi - i,
    {
        out.push(bytes[i]);
        i += 1;
        assert(out@ =~= bytes@.subrange(lo as int, i as int));
    }
    out
}

/// Reads a reply off `stream`, which is all that the server sends. An
/// accepted message takes the status word and no byte more.
pub fn read_status(stream: &[u8]) -> (r: Result<(), StatusError>)
    ensures
        outcome_view(r) == status_of(stream@),
{
    let n = stream.len();
    let word = if n >= 4 {
        Event::Data(copy_bytes(stream, 0, 4))
    } else {
        Event::Failed
    };
    match reply_step(ReplyStage::Status, &word) {
        Reply::Accepted => {
            return Ok(());
        },
        Reply::Refused(e) => {
            return Err(e);
        },
        Reply::Continue(_) => {},
    }
    let field = if n >= 8 {
        Event::Data(copy_bytes(stream, 4, 8))
    } else {
        Event::Failed
    };
    let wanted: usize = match reply_step(ReplyStage::Length, &field) {
        Reply::Continue(ReplyStage::Message(len)) => len as usize,
        Reply::Refused(e) => {
            return Err(e);
        },
        _ => {
            return Err(StatusError::Malformed);
        },
    };
    let have: usize = if n - 8 < wanted {
        n - 8
    } else {
        wanted
    };
    let mut buffer = copy_bytes(stream, 8, 8 + have);
    let ghost got = buffer@;
    let mut k: usize = have;
    while k < wanted
        invariant
            have <= k <= wanted,
            buffer@ == got + zeros((k - have) as nat),
        decreases wanted - k,
    {
        buffer.push(0);
        k += 1;
        assert(buffer@ =~= got + zeros((k - have) as nat));
    }
    proof {
        if have == wanted {
            assert(buffer@ =~= got);
        }
        assert(buffer@ =~= buffer_after(stream@, 8, wanted as nat));
    }
    match reply_step(ReplyStage::Message(wanted as u16), &Event::Data(buffer)) {
        Reply::Refused(e) => Err(e),
        _ => Err(StatusError::Malformed),
    }
}

/// A reply that starts with `OKAY` is accepted, whatever follows.
pub proof fn law_okay_accepted(rest: Seq<u8>)
    ensures
        status_of(okay() + rest) is None,
{
    assert((okay() + rest).subrange(0, 4) =~= okay());
}

/// A refusal that the server explains in well-formed UTF-8 hands on that
/// explanation: a status word other than `OKAY`, the length of the encoded
/// text as a length field, and the encoded text read back as the text.
pub proof fn law_refusal_explained(word: Seq<u8>, text: Seq<char>)
    requires
        word.len() == 4,
        word != okay(),
        encode_utf8(text).len() < 0x10000,
    ensures
        status_of(word + length_field(encode_utf8(text).len()) + encode_utf8(text)) == Some(
            StatusErrorView::Failure(text),
        ),
{
    let payload = encode_utf8(text);
    let field = length_field(payload.len());
    let stream = word + field + payload;
    law_length_field_reads(payload.len());
    assert(field.len() == 4);
    assert(stream.subrange(0, 4) =~= word);
    assert(stream.subrange(4, 8) =~= field);
    assert(buffer_after(stream, 8, payload.len()) =~= payload);
    encode_utf8_valid_utf8(text);
    encode_utf8_decode_utf8(text);
}

} // verus!
