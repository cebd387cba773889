//! Messages exchanged between client and server, and their framing on a
//! stream: a 4-byte big-endian payload size followed by the payload.

use vstd::prelude::*;

verus! {

/// Represents messages exchanged between the client and server.
#[derive(Debug)]
pub enum RustopolyMessage {
    /// A text message containing a string.
    Text(String),
    /// A request to end the connection.
    Quit,
}

/// A message with its text taken as characters.
pub enum MessageView {
    Text(Seq<char>),
    Quit,
}

impl View for RustopolyMessage {
    type V = MessageView;

    open spec fn view(&self) -> MessageView {
        match self {
            RustopolyMessage::Text(s) => MessageView::Text(s@),
            RustopolyMessage::Quit => MessageView::Quit,
        }
    }
}

impl RustopolyMessage {
    /// Whether this message asks to end (or confirms the end of) the connection.
    pub fn is_quit(&self) -> (r: bool)
        ensures
            r == (self@ is Quit),
    {
        match self {
            RustopolyMessage::Quit => true,
            RustopolyMessage::Text(_) => false,
        }
    }
}

/// The number that four bytes stand for, most significant byte first.
pub open spec fn be_value(b: Seq<u8>) -> int
    recommends
        b.len() == 4,
{
    b[0] * 0x100_0000 + b[1] * 0x1_0000 + b[2] * 0x100 + b[3]
}

/// The four bytes of `n`, most significant byte first.
pub open spec fn be_bytes(n: u32) -> Seq<u8> {
    seq![
        (n / 0x100_0000) as u8,
        ((n / 0x1_0000) % 0x100) as u8,
        ((n / 0x100) % 0x100) as u8,
        (n % 0x100) as u8,
    ]
}

/// The size header sent before a payload of `len` bytes: the size is
/// taken modulo 2^32, as a `u32`.
pub open spec fn frame_header(len: nat) -> Seq<u8> {
    be_bytes(len as u32)
}

/// Encodes a payload size as the 4-byte header of a frame.
pub fn encode_frame_header(payload_size: u32) -> (r: [u8; 4])
    ensures
        r@ == be_bytes(payload_size),
{
    let r = [
        (payload_size / 0x100_0000) as u8,
        ((payload_size / 0x1_0000) % 0x100) as u8,
        ((payload_size / 0x100) % 0x100) as u8,
        (payload_size % 0x100) as u8,
    ];
    assert(r@ =~= be_bytes(payload_size));
    r
}

/// Decodes the 4-byte header of a frame into the payload size.
pub fn decode_frame_header(header: [u8; 4]) -> (r: u32)
    ensures
        r == be_value(header@),
{
    let b0 = header[0] as u32;
    let b1 = header[1] as u32;
    let b2 = header[2] as u32;
    let b3 = header[3] as u32;
    b0 * 0x100_0000 + b1 * 0x1_0000 + b2 * 0x100 + b3
}

/// A frame: the size header of `payload` followed by `payload`.
pub fn frame_message(payload: &[u8]) -> (r: Vec<u8>)
    ensures
        r@ == frame_header(payload@.len()) + payload@,
{
    let size = payload.len() as u32;
    let header = encode_frame_header(size);
    let mut r: Vec<u8> = Vec::new();
    r.push(header[0]);
    r.push(header[1]);
    r.push(header[2]);
    r.push(header[3]);
    assert(r@ =~= header@);
    let n = payload.len();
    for i in 0..n
        invariant
            n == payload@.len(),
            r@ =~= header@ + payload@.take(i as int),
    {
        r.push(payload[i]);
        assert(payload@.take(i + 1) =~= payload@.take(i as int).push(payload@[i as int]));
    }
    assert(payload@.take(n as int) =~= payload@);
    r
}

/// Decoding an encoded size gives the size back.
pub proof fn lemma_header_decode_encode(n: u32)
    ensures
        be_value(be_bytes(n)) == n,
{
    let b = be_bytes(n);
    assert(b[0] == n / 0x100_0000);
    assert(b[1] == (n / 0x1_0000) % 0x100);
    assert(b[2] == (n / 0x100) % 0x100);
    assert(b[3] == n % 0x100);
}

/// Encoding a decoded header gives the header back.
pub proof fn lemma_header_encode_decode(b: Seq<u8>)
    requires
        b.len() == 4,
    ensures
        0 <= be_value(b) <= u32::MAX,
        be_bytes(be_value(b) as u32) == b,
{
    let (b0, b1, b2, b3) = (b[0] as int, b[1] as int, b[2] as int, b[3] as int);
    let v = be_value(b);
    assert(v == b0 * 0x100_0000 + b1 * 0x1_0000 + b2 * 0x100 + b3);
    assert(v / 0x100_0000 == b0 && (v / 0x1_0000) % 0x100 == b1 && (v / 0x100) % 0x100 == b2
        && v % 0x100 == b3 && 0 <= v <= u32::MAX) by (nonlinear_arith)
        requires
            0 <= b0 < 0x100,
            0 <= b1 < 0x100,
            0 <= b2 < 0x100,
            0 <= b3 < 0x100,
            v == b0 * 0x100_0000 + b1 * 0x1_0000 + b2 * 0x100 + b3,
    ;
    assert(be_bytes(v as u32) =~= b);
}

/// What a receiver reads from a frame is what the sender framed: the
/// header gives the payload's size, and the bytes after it are the
/// payload. It holds for payloads of at most `u32::MAX` bytes.
pub proof fn lemma_frame_roundtrip(payload: Seq<u8>)
    requires
        payload.len() <= u32::MAX,
    ensures
        (frame_header(payload.len()) + payload).len() == 4 + payload.len(),
        be_value((frame_header(payload.len()) + payload).take(4)) == payload.len(),
        (frame_header(payload.len()) + payload).skip(4) == payload,
{
    let f = frame_header(payload.len()) + payload;
    lemma_header_decode_encode(payload.len() as u32);
    assert(f.take(4) =~= frame_header(payload.len()));
    assert(f.skip(4) =~= payload);
}

/// The header carries the size most significant byte first: each header
/// byte is the size's digit in base 256 at its place, from the highest.
pub proof fn lemma_header_big_endian(n: u32)
    ensures
        be_bytes(n).len() == 4,
        be_bytes(n)[0] * 0x100_0000 + be_bytes(n)[1] * 0x1_0000 + be_bytes(n)[2] * 0x100
            + be_bytes(n)[3] == n,
        be_bytes(n)[0] == n / 0x100_0000,
        be_bytes(n)[3] == n % 0x100,
        forall|b: Seq<u8>| b.len() == 4 ==> #[trigger] be_value(b) == b[0] * 0x100_0000 + b[1]
            * 0x1_0000 + b[2] * 0x100 + b[3],
{
    lemma_header_decode_encode(n);
}

} // verus!
