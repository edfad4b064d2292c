//! Messages and their framing: decoding a message from a byte stream,
//! encoding one back into bytes, and the reply owed to each decode outcome.

use crate::wire::{
    decode_body, decode_header, encode_header, header_bytes, header_fields,
    lemma_header_round_trip, HEADER_LEN,
};
use vstd::prelude::*;
use vstd::string::StringSliceAdditionalSpecFns;

verus! {

/// The largest content length a header can carry.
pub const MAX_CONTENT_LENGTH: usize = 0x7fff_ffff;

/// The closed set of message kinds, each with its single-byte wire code.
#[derive(Clone, Copy, Debug, PartialEq, Eq, Structural)]
pub enum MessageType {
    Okay,
    Write,
    Clear,
    Error,
    Ping,
}

impl MessageType {
    /// The wire code of each kind.
    pub open spec fn spec_code(self) -> u8 {
        match self {
            MessageType::Okay => 0x1,
            MessageType::Clear => 0x2,
            MessageType::Write => 0x3,
            MessageType::Error => 0x4,
            MessageType::Ping => 0x5,
        }
    }

    /// The kind that a wire code names, if any.
    pub open spec fn spec_from_code(code: u8) -> Option<MessageType> {
        if code == 0x1 {
            Some(MessageType::Okay)
        } else if code == 0x2 {
            Some(MessageType::Clear)
        } else if code == 0x3 {
            Some(MessageType::Write)
        } else if code == 0x4 {
            Some(MessageType::Error)
        } else if code == 0x5 {
            Some(MessageType::Ping)
        } else {
            None
        }
    }

    /// Whether a message of this kind may carry a body.
    pub open spec fn allows_body(self) -> bool {
        self == MessageType::Write || self == MessageType::Error
    }

    pub fn code(self) -> (r: u8)
        ensures
            r == self.spec_code(),
    {
        match self {
            MessageType::Okay => 0x1,
            MessageType::Clear => 0x2,
            MessageType::Write => 0x3,
            MessageType::Error => 0x4,
            MessageType::Ping => 0x5,
        }
    }

    pub fn from_code(code: u8) -> (r: Option<MessageType>)
        ensures
            r == Self::spec_from_code(code),
    {
        match code {
            0x1 => Some(MessageType::Okay),
            0x2 => Some(MessageType::Clear),
            0x3 => Some(MessageType::Write),
            0x4 => Some(MessageType::Error),
            0x5 => Some(MessageType::Ping),
            _ => None,
        }
    }

    /// The name of the kind, as error descriptions spell it.
    pub open spec fn spec_name(self) -> Seq<u8> {
        match self {
            MessageType::Okay => "Ok".spec_bytes(),
            MessageType::Clear => "Clear".spec_bytes(),
            MessageType::Write => "Write".spec_bytes(),
            MessageType::Error => "Error".spec_bytes(),
            MessageType::Ping => "Ping".spec_bytes(),
        }
    }

    pub fn name(self) -> (r: &'static str)
        ensures
            r.spec_bytes() == self.spec_name(),
    {
        match self {
            MessageType::Okay => "Ok",
            MessageType::Clear => "Clear",
            MessageType::Write => "Write",
            MessageType::Error => "Error",
            MessageType::Ping => "Ping",
        }
    }
}

/// One protocol message. Only `Write` and `Error` carry bytes; an `Error`
/// without bytes carries no detail.
#[derive(Clone, Debug, PartialEq, Eq)]
pub enum Message {
    Okay,
    Write { content: Vec<u8> },
    Clear,
    Error { message: Option<Vec<u8>> },
    Ping,
}

/// A message as a mathematical value.
pub enum MessageView {
    Okay,
    Write(Seq<u8>),
    Clear,
    Error(Option<Seq<u8>>),
    Ping,
}

impl View for Message {
    type V = MessageView;

    open spec fn view(&self) -> MessageView {
        match self {
            Message::Okay => MessageView::Okay,
            Message::Write { content } => MessageView::Write(content@),
            Message::Clear => MessageView::Clear,
            Message::Error { message } => MessageView::Error(
                match message {
                    Some(m) => Some(m@),
                    None => None,
                },
            ),
            Message::Ping => MessageView::Ping,
        }
    }
}

impl MessageView {
    pub open spec fn message_type(self) -> MessageType {
        match self {
            MessageView::Okay => MessageType::Okay,
            MessageView::Write(_) => MessageType::Write,
            MessageView::Clear => MessageType::Clear,
            MessageView::Error(_) => MessageType::Error,
            MessageView::Ping => MessageType::Ping,
        }
    }

    /// The body bytes sent for the message: empty where it carries none.
    pub open spec fn payload(self) -> Seq<u8> {
        match self {
            MessageView::Write(c) => c,
            MessageView::Error(Some(m)) => m,
            _ => Seq::empty(),
        }
    }

    /// Whether the body fits the header's signed 32-bit length.
    pub open spec fn encodable(self) -> bool {
        self.payload().len() <= MAX_CONTENT_LENGTH
    }

    /// Whether decoding can give this value back: an `Error` with an empty
    /// detail is sent as, and read back as, an `Error` without one.
    pub open spec fn canonical(self) -> bool {
        match self {
            MessageView::Error(Some(m)) => m.len() > 0,
            _ => true,
        }
    }

    /// The bytes of the encoded message: header, then body.
    pub open spec fn encoding(self) -> Seq<u8> {
        header_bytes(self.message_type().spec_code(), self.payload().len() as u32)
            + self.payload()
    }
}

impl Message {
    pub fn message_type(&self) -> (r: MessageType)
        ensures
            r == self@.message_type(),
    {
        match self {
            Message::Okay => MessageType::Okay,
            Message::Write { .. } => MessageType::Write,
            Message::Clear => MessageType::Clear,
            Message::Error { .. } => MessageType::Error,
            Message::Ping => MessageType::Ping,
        }
    }
}

/// Why a message could not be decoded.
#[derive(Clone, Copy, Debug, PartialEq, Eq, Structural)]
pub enum DecodeError {
    /// The stream closed after some, but not all, of the header's bytes.
    Truncated,
    /// The header's type code names no known kind.
    UnknownType(u8),
    /// The header's content length is negative.
    NegativeLength,
    /// The stream closed before the body was complete.
    BodyTruncated { expected: usize, got: usize },
    /// A kind that carries no body came with a non-zero content length.
    UnexpectedBody(MessageType),
}

/// Why a message could not be encoded.
#[derive(Clone, Copy, Debug, PartialEq, Eq, Structural)]
pub enum EncodeError {
    /// The body is longer than a header's content length can state.
    LengthOverflow,
}

/// A validated header: a known kind and a non-negative body length.
#[derive(Clone, Copy, Debug, PartialEq, Eq, Structural)]
pub struct Frame {
    pub message_type: MessageType,
    pub content_length: u32,
}

/// What the header step yields for the bytes that arrived toward a header.
pub open spec fn frame_result(head: Seq<u8>) -> Result<Option<Frame>, DecodeError> {
    if head.len() == 0 {
        Ok(None)
    } else if head.len() < HEADER_LEN {
        Err(DecodeError::Truncated)
    } else {
        let (code, length) = header_fields(head);
        match MessageType::spec_from_code(code) {
            None => Err(DecodeError::UnknownType(code)),
            Some(t) => if length < 0 {
                Err(DecodeError::NegativeLength)
            } else {
                Ok(Some(Frame { message_type: t, content_length: length as u32 }))
            },
        }
    }
}

/// What the body step yields for a frame and the bytes that arrived toward
/// its body.
pub open spec fn payload_result(frame: Frame, body: Seq<u8>) -> Result<MessageView, DecodeError> {
    let n = frame.content_length;
    if body.len() < n {
        Err(DecodeError::BodyTruncated { expected: n as usize, got: body.len() as usize })
    } else if n != 0 && !frame.message_type.allows_body() {
        Err(DecodeError::UnexpectedBody(frame.message_type))
    } else {
        match frame.message_type {
            MessageType::Okay => Ok(MessageView::Okay),
            MessageType::Clear => Ok(MessageView::Clear),
            MessageType::Ping => Ok(MessageView::Ping),
            MessageType::Write => Ok(MessageView::Write(body.take(n as int))),
            MessageType::Error => Ok(
                MessageView::Error(
                    if n == 0 {
                        None
                    } else {
                        Some(body.take(n as int))
                    },
                ),
            ),
        }
    }
}

/// At most the first `n` items of `s`: what a read of `n` items gets from a
/// stream holding `s` before it closes.
pub open spec fn prefix(s: Seq<u8>, n: int) -> Seq<u8> {
    if s.len() <= n {
        s
    } else {
        s.take(n)
    }
}

/// What decoding one message yields from a stream that holds `s` and then
/// closes.
pub open spec fn decode_result(s: Seq<u8>) -> Result<Option<MessageView>, DecodeError> {
    match frame_result(prefix(s, HEADER_LEN as int)) {
        Err(e) => Err(e),
        Ok(None) => Ok(None),
        Ok(Some(f)) => match payload_result(
            f,
            prefix(s.skip(HEADER_LEN as int), f.content_length as int),
        ) {
            Err(e) => Err(e),
            Ok(m) => Ok(Some(m)),
        },
    }
}

/// How many bytes decoding one message takes from a stream that holds `s`.
pub open spec fn decode_consumed(s: Seq<u8>) -> nat {
    let head = prefix(s, HEADER_LEN as int);
    match frame_result(head) {
        Ok(Some(f)) => head.len() + prefix(s.skip(HEADER_LEN as int), f.content_length as int).len(),
        _ => head.len(),
    }
}

pub open spec fn result_view(r: Result<Option<Message>, DecodeError>) -> Result<
    Option<MessageView>,
    DecodeError,
> {
    match r {
        Ok(Some(m)) => Ok(Some(m@)),
        Ok(None) => Ok(None),
        Err(e) => Err(e),
    }
}

/// The header step of decoding. `head` holds what the stream delivered toward
/// the eight header bytes before it closed (all eight, if it did not). Nothing
/// means the stream ended cleanly; one to seven bytes are a truncated header.
pub fn decode_frame(head: &[u8]) -> (r: Result<Option<Frame>, DecodeError>)
    ensures
        r == frame_result(head@),
{
    if head.len() == 0 {
        return Ok(None);
    }
    if head.len() < HEADER_LEN {
        return Err(DecodeError::Truncated);
    }
    let (code, length) = decode_header(head);
    match MessageType::from_code(code) {
        None => Err(DecodeError::UnknownType(code)),
        Some(t) => {
            if length < 0 {
                Err(DecodeError::NegativeLength)
            } else {
                Ok(Some(Frame { message_type: t, content_length: length as u32 }))
            }
        },
    }
}

/// The body step of decoding. `body` holds what the stream delivered toward
/// the frame's content length before it closed.
pub fn decode_payload(frame: Frame, body: &[u8]) -> (r: Result<Message, DecodeError>)
    ensures
        match r {
            Ok(m) => payload_result(frame, body@) == Ok::<MessageView, DecodeError>(m@),
            Err(e) => payload_result(frame, body@) == Err::<MessageView, DecodeError>(e),
        },
{
    let n = frame.content_length as usize;
    let content = match decode_body(body, n) {
        None => {
            return Err(DecodeError::BodyTruncated { expected: n, got: body.len() });
        },
        Some(content) => content,
    };
    match frame.message_type {
        MessageType::Okay | MessageType::Clear | MessageType::Ping => {
            if n != 0 {
                return Err(DecodeError::UnexpectedBody(frame.message_type));
            }
        },
        _ => {},
    }
    let message = match frame.message_type {
        MessageType::Okay => Message::Okay,
        MessageType::Clear => Message::Clear,
        MessageType::Ping => Message::Ping,
        MessageType::Write => Message::Write { content },
        MessageType::Error => Message::Error {
            message: if n == 0 {
                None
            } else {
                Some(content)
            },
        },
    };
    Ok(message)
}

/// The bytes a stream holds until it closes, with a read position.
pub struct ByteStream {
    bytes: Vec<u8>,
    pos: usize,
}

impl View for ByteStream {
    type V = Seq<u8>;

    /// The bytes not read yet.
    closed spec fn view(&self) -> Seq<u8> {
        self.bytes@.skip(self.pos as int)
    }
}

impl ByteStream {
    #[verifier::type_invariant]
    spec fn inv(self) -> bool {
        self.pos <= self.bytes@.len()
    }

    pub fn new(bytes: Vec<u8>) -> (r: ByteStream)
        ensures
            r@ == bytes@,
    {
        let r = ByteStream { bytes, pos: 0 };
        assert(r@ =~= r.bytes@);
        r
    }

    pub fn remaining(&self) -> (r: usize)
        ensures
            r == self@.len(),
    {
        proof {
            use_type_invariant(self);
        }
        self.bytes.len() - self.pos
    }

    /// Reads up to `n` bytes: all of them, unless the stream closes first.
    pub fn read_up_to(&mut self, n: usize) -> (r: Vec<u8>)
        ensures
            r@ == prefix(old(self)@, n as int),
            final(self)@ == old(self)@.skip(r@.len() as int),
    {
        proof {
            use_type_invariant(&*self);
        }
        let start = self.pos;
        let len = self.bytes.len();
        let avail = len - start;
        let count = if avail < n {
            avail
        } else {
            n
        };
        let mut out: Vec<u8> = Vec::with_capacity(count);
        let mut i: usize = 0;
        while i < count
            invariant
                start == self.pos,
                len == self.bytes@.len(),
                start + count <= len,
                i <= count,
                out@ == self.bytes@.subrange(start as int, start + i),
            decreases count - i,
        {
            out.push(self.bytes[start + i]);
            i = i + 1;
            assert(out@ =~= self.bytes@.subrange(start as int, start + i));
        }
        let ghost before = self@;
        self.pos = start + count;
        assert(out@ =~= prefix(before, n as int));
        assert(self@ =~= before.skip(count as int));
        out
    }
}

/// Decodes one message from a stream: reads the header, then as many body
/// bytes as it declares. `Ok(None)` means the stream ended before any header
/// byte.
pub fn read_message(stream: &mut ByteStream) -> (r: Result<Option<Message>, DecodeError>)
    ensures
        result_view(r) == decode_result(old(stream)@),
        final(stream)@ == old(stream)@.skip(decode_consumed(old(stream)@) as int),
{
    let ghost s = stream@;
    let head = stream.read_up_to(HEADER_LEN);
    let frame = match decode_frame(head.as_slice()) {
        Err(e) => {
            return Err(e);
        },
        Ok(None) => {
            return Ok(None);
        },
        Ok(Some(frame)) => frame,
    };
    let body = stream.read_up_to(frame.content_length as usize);
    proof {
        assert(s.skip(head@.len() as int) =~= s.skip(HEADER_LEN as int));
        assert(s.skip(head@.len() as int).skip(body@.len() as int) =~= s.skip(
            (head@.len() + body@.len()) as int,
        ));
    }
    match decode_payload(frame, body.as_slice()) {
        Err(e) => Err(e),
        Ok(m) => Ok(Some(m)),
    }
}

/// Appends `src` to `out`.
fn append_bytes(out: &mut Vec<u8>, src: &[u8])
    ensures
        final(out)@ == old(out)@ + src@,
{
    let mut i: usize = 0;
    while i < src.len()
        invariant
            i <= src@.len(),
            out@ == old(out)@ + src@.take(i as int),
        decreases src@.len() - i,
    {
        out.push(src[i]);
        i = i + 1;
        assert(out@ =~= old(out)@ + src@.take(i as int));
    }
    assert(src@.take(src@.len() as int) =~= src@);
}

/// Encodes a message: the header with the kind's code and the body's length,
/// then the body. Fails when the body is too long for the header to state.
pub fn write_message(message: Message) -> (r: Result<Vec<u8>, EncodeError>)
    ensures
        match r {
            Ok(bytes) => message@.encodable() && bytes@ == message@.encoding(),
            Err(e) => e == EncodeError::LengthOverflow && !message@.encodable(),
        },
{
    let code = message.message_type().code();
    let empty: Vec<u8> = Vec::new();
    let content: &Vec<u8> = match &message {
        Message::Write { content } => content,
        Message::Error { message: Some(detail) } => detail,
        _ => &empty,
    };
    assert(content@ == message@.payload());
    if content.len() > MAX_CONTENT_LENGTH {
        return Err(EncodeError::LengthOverflow);
    }
    let mut out = encode_header(code, content.len() as u32);
    append_bytes(&mut out, content.as_slice());
    Ok(out)
}

/// The decimal digits of `n`, in ASCII, most significant first.
pub open spec fn decimal(n: nat) -> Seq<u8>
    decreases n,
{
    if n < 10 {
        seq![(48 + n) as u8]
    } else {
        decimal(n / 10).push((48 + n % 10) as u8)
    }
}

/// Appends the decimal digits of `n` to `out`.
fn push_decimal(out: &mut Vec<u8>, n: usize)
    ensures
        final(out)@ == old(out)@ + decimal(n as nat),
    decreases n,
{
    if n >= 10 {
        push_decimal(out, n / 10);
    }
    out.push(48u8 + (n % 10) as u8);
    assert(out@ =~= old(out)@ + decimal(n as nat));
}

impl DecodeError {
    /// The human-readable description sent back to the peer.
    pub open spec fn description(self) -> Seq<u8> {
        match self {
            DecodeError::Truncated => "Message error: header is truncated".spec_bytes(),
            DecodeError::UnknownType(code) => "Message type not recognized: ".spec_bytes()
                + decimal(code as nat),
            DecodeError::NegativeLength => "Message error: content length is negative".spec_bytes(),
            DecodeError::BodyTruncated { expected, got } => "Message error: body is ".spec_bytes()
                + decimal(got as nat) + " bytes, header states ".spec_bytes() + decimal(
                expected as nat,
            ),
            DecodeError::UnexpectedBody(t) => "Content Length of ".spec_bytes() + t.spec_name()
                + " must be 0".spec_bytes(),
        }
    }

    pub fn describe(&self) -> (r: Vec<u8>)
        ensures
            r@ == self.description(),
    {
        let mut out: Vec<u8> = Vec::new();
        match *self {
            DecodeError::Truncated => {
                append_bytes(&mut out, "Message error: header is truncated".as_bytes());
            },
            DecodeError::UnknownType(code) => {
                append_bytes(&mut out, "Message type not recognized: ".as_bytes());
                push_decimal(&mut out, code as usize);
            },
            DecodeError::NegativeLength => {
                append_bytes(&mut out, "Message error: content length is negative".as_bytes());
            },
            DecodeError::BodyTruncated { expected, got } => {
                append_bytes(&mut out, "Message error: body is ".as_bytes());
                push_decimal(&mut out, got);
                append_bytes(&mut out, " bytes, header states ".as_bytes());
                push_decimal(&mut out, expected);
            },
            DecodeError::UnexpectedBody(t) => {
                append_bytes(&mut out, "Content Length of ".as_bytes());
                append_bytes(&mut out, t.name().as_bytes());
                append_bytes(&mut out, " must be 0".as_bytes());
            },
        }
        assert(out@ =~= self.description());
        out
    }
}

pub open spec fn option_view(r: Option<Message>) -> Option<MessageView> {
    match r {
        Some(m) => Some(m@),
        None => None,
    }
}

/// The reply owed to a decode outcome: nothing once the stream has ended, the
/// message itself for a decoded message, and an `Error` carrying the
/// description for a decode error.
pub open spec fn response_view(outcome: Result<Option<MessageView>, DecodeError>) -> Option<
    MessageView,
> {
    match outcome {
        Ok(None) => None,
        Ok(Some(m)) => Some(m),
        Err(e) => Some(MessageView::Error(Some(e.description()))),
    }
}

/// Decides the reply to one decode outcome. `None` tells the caller to stop
/// serving the connection.
pub fn response_to(outcome: Result<Option<Message>, DecodeError>) -> (r: Option<Message>)
    ensures
        option_view(r) == response_view(result_view(outcome)),
{
    match outcome {
        Ok(None) => None,
        Ok(Some(request)) => Some(request),
        Err(e) => Some(Message::Error { message: Some(e.describe()) }),
    }
}

/// Decoding the encoding of a message gives the message back, and takes
/// exactly its bytes from the stream, whatever follows them.
pub proof fn lemma_round_trip(m: MessageView, rest: Seq<u8>)
    requires
        m.encodable(),
        m.canonical(),
    ensures
        decode_result(m.encoding() + rest) == Ok::<Option<MessageView>, DecodeError>(Some(m)),
        decode_consumed(m.encoding() + rest) == m.encoding().len(),
{
    let p = m.payload();
    let n = p.len() as u32;
    let code = m.message_type().spec_code();
    let s = m.encoding() + rest;
    lemma_header_round_trip(code, n);
    assert(prefix(s, HEADER_LEN as int) =~= header_bytes(code, n));
    assert(s.skip(HEADER_LEN as int) =~= p + rest);
    assert(prefix(p + rest, n as int) =~= p);
    assert(p.take(n as int) =~= p);
}

/// A stream that closes after one to seven bytes holds a truncated header,
/// all of which is consumed.
pub proof fn lemma_truncated_header(s: Seq<u8>)
    requires
        1 <= s.len() < HEADER_LEN,
    ensures
        decode_result(s) == Err::<Option<MessageView>, DecodeError>(DecodeError::Truncated),
        decode_consumed(s) == s.len(),
{
}

/// A header whose type code names no kind is refused with that code, and the
/// reply is an `Error` whose non-empty detail ends with the code in decimal.
pub proof fn lemma_unknown_type_reply(s: Seq<u8>)
    requires
        s.len() >= HEADER_LEN,
        MessageType::spec_from_code(s[0]) is None,
    ensures
        decode_result(s) == Err::<Option<MessageView>, DecodeError>(DecodeError::UnknownType(s[0])),
        response_view(decode_result(s)) == Some(
            MessageView::Error(Some(DecodeError::UnknownType(s[0]).description())),
        ),
        DecodeError::UnknownType(s[0]).description().len() > 0,
        DecodeError::UnknownType(s[0]).description().skip(
            DecodeError::UnknownType(s[0]).description().len() - decimal(s[0] as nat).len(),
        ) == decimal(s[0] as nat),
{
    let d = DecodeError::UnknownType(s[0]).description();
    lemma_decimal_nonempty(s[0] as nat);
    assert(d.skip(d.len() - decimal(s[0] as nat).len()) =~= decimal(s[0] as nat));
}

proof fn lemma_decimal_nonempty(n: nat)
    ensures
        decimal(n).len() >= 1,
    decreases n,
{
    if n >= 10 {
        lemma_decimal_nonempty(n / 10);
    }
}

} // verus!
