//! Signaling wire protocol: primitive codecs, frame header codec and message
//! builders.
//!
//! All multi-byte integers are big-endian. A string is a 2-byte length
//! followed by its UTF-8 bytes. A socket address is a family byte (4 or 6),
//! the address octets and a 2-byte port.

use vstd::prelude::*;
use vstd::string::StringExecFns;
use vstd::utf8::*;

use crate::error::{res_view, ErrorKind, IoError};
use crate::protocol::msg_type;
use crate::text::{decimal, hex4, push_decimal, push_hex4};

verus! {

broadcast use vstd::seq::group_seq_axioms;

/// Magic bytes identifying an OpenPeer frame.
pub const MAGIC: u16 = 0x4F50;

/// Protocol version byte.
pub const VERSION: u8 = 0x01;

// ---------------------------------------------------------------------------
// Specification of the wire format
// ---------------------------------------------------------------------------

/// The big-endian bytes of a 16-bit integer.
pub open spec fn be16(v: u16) -> Seq<u8> {
    seq![(v / 256) as u8, (v % 256) as u8]
}

/// The 16-bit integer whose big-endian bytes start `b`.
pub open spec fn be16_value(b: Seq<u8>) -> u16 {
    (b[0] * 256 + b[1]) as u16
}

/// The big-endian bytes of a 32-bit integer.
pub open spec fn be32(v: u32) -> Seq<u8> {
    seq![
        (v / 0x100_0000) as u8,
        ((v / 0x1_0000) % 256) as u8,
        ((v / 256) % 256) as u8,
        (v % 256) as u8,
    ]
}

/// The 32-bit integer whose big-endian bytes start `b`.
pub open spec fn be32_value(b: Seq<u8>) -> u32 {
    (b[0] * 0x100_0000 + b[1] * 0x1_0000 + b[2] * 256 + b[3]) as u32
}

/// The UTF-8 bytes of a string.
pub open spec fn utf8(s: Seq<char>) -> Seq<u8> {
    encode_utf8(s)
}

/// The encoding of a string: its byte length as a 16-bit integer (which wraps
/// for strings of 65536 bytes or more), then its UTF-8 bytes.
pub open spec fn string_field(s: Seq<char>) -> Seq<u8> {
    be16(utf8(s).len() as u16) + utf8(s)
}

/// An error as its view: a kind and a message.
pub type ErrorView = (ErrorKind, Seq<char>);

/// The result of decoding a 16-bit integer from the start of `b`.
pub open spec fn spec_decode_u16(b: Seq<u8>) -> Result<u16, ErrorView> {
    if b.len() < 2 {
        Err((ErrorKind::UnexpectedEof, "need 2 bytes for u16"@))
    } else {
        Ok(be16_value(b))
    }
}

/// The result of decoding a 32-bit integer from the start of `b`.
pub open spec fn spec_decode_u32(b: Seq<u8>) -> Result<u32, ErrorView> {
    if b.len() < 4 {
        Err((ErrorKind::UnexpectedEof, "need 4 bytes for u32"@))
    } else {
        Ok(be32_value(b))
    }
}

/// The result of decoding a string field from the start of `b`: the string
/// and the number of bytes it took.
pub open spec fn spec_decode_string(b: Seq<u8>) -> Result<(Seq<char>, usize), ErrorView> {
    if b.len() < 2 {
        Err((ErrorKind::UnexpectedEof, "need 2 bytes for string len"@))
    } else {
        let n = be16_value(b) as int;
        if b.len() < 2 + n {
            Err((ErrorKind::UnexpectedEof, "string content truncated"@))
        } else if !valid_utf8(b.subrange(2, 2 + n)) {
            Err((ErrorKind::InvalidData, "string not valid UTF-8"@))
        } else {
            Ok((decode_utf8(b.subrange(2, 2 + n)), (2 + n) as usize))
        }
    }
}

// ---------------------------------------------------------------------------
// Wire-format primitives
// ---------------------------------------------------------------------------

/// Appends `bytes` to `buf`.
pub(crate) fn append_bytes(buf: &mut Vec<u8>, bytes: &[u8])
    ensures
        final(buf)@ == old(buf)@ + bytes@,
{
    buf.extend_from_slice(bytes);
    proof {
        assert forall|i: int| 0 <= i < final(buf)@.len() implies #[trigger] final(buf)@[i] == (old(
            buf,
        )@ + bytes@)[i] by {
            if i >= old(buf)@.len() {
                assert(cloned::<u8>(bytes@[i - old(buf)@.len()], final(buf)@[i]));
            }
        }
        assert(final(buf)@ =~= old(buf)@ + bytes@);
    }
}

/// Encode a u16 as big-endian bytes.
pub fn encode_u16_be(buf: &mut Vec<u8>, v: u16)
    ensures
        final(buf)@ == old(buf)@ + be16(v),
{
    buf.push((v / 256) as u8);
    buf.push((v % 256) as u8);
    assert(final(buf)@ =~= old(buf)@ + be16(v));
}

/// Decode a u16 from big-endian bytes.
pub fn decode_u16_be(bytes: &[u8]) -> (r: Result<u16, IoError>)
    ensures
        res_view(r) == spec_decode_u16(bytes@),
{
    if bytes.len() < 2 {
        return Err(IoError::new(ErrorKind::UnexpectedEof, "need 2 bytes for u16"));
    }
    Ok((bytes[0] as u16) * 256 + bytes[1] as u16)
}

/// Encode a u32 as big-endian bytes.
pub fn encode_u32_be(buf: &mut Vec<u8>, v: u32)
    ensures
        final(buf)@ == old(buf)@ + be32(v),
{
    buf.push((v / 0x100_0000) as u8);
    buf.push(((v / 0x1_0000) % 256) as u8);
    buf.push(((v / 256) % 256) as u8);
    buf.push((v % 256) as u8);
    assert(final(buf)@ =~= old(buf)@ + be32(v));
}

/// Decode a u32 from big-endian bytes.
pub fn decode_u32_be(bytes: &[u8]) -> (r: Result<u32, IoError>)
    ensures
        res_view(r) == spec_decode_u32(bytes@),
{
    if bytes.len() < 4 {
        return Err(IoError::new(ErrorKind::UnexpectedEof, "need 4 bytes for u32"));
    }
    Ok((bytes[0] as u32) * 0x100_0000 + (bytes[1] as u32) * 0x1_0000 + (bytes[2] as u32) * 256
        + bytes[3] as u32)
}

/// Encode a string as: u16 BE length + UTF-8 bytes.
pub fn encode_string(buf: &mut Vec<u8>, s: &str)
    ensures
        final(buf)@ == old(buf)@ + string_field(s@),
{
    let bytes = s.as_bytes();
    encode_u16_be(buf, bytes.len() as u16);
    append_bytes(buf, bytes);
    assert(final(buf)@ =~= old(buf)@ + string_field(s@));
}

/// `std::str::from_utf8`, with the error dropped: the string whose UTF-8
/// encoding is `bytes`, when `bytes` is valid UTF-8.
#[verifier::external_body]
fn str_from_utf8(bytes: &[u8]) -> (r: Option<&str>)
    ensures
        r is Some <==> valid_utf8(bytes@),
        r matches Some(s) ==> s@ == decode_utf8(bytes@),
{
    std::str::from_utf8(bytes).ok()
}

/// Decode a string from: u16 BE length + UTF-8 bytes. Returns the string
/// and the number of bytes consumed.
pub fn decode_string(bytes: &[u8]) -> (r: Result<(&str, usize), IoError>)
    ensures
        match r {
            Ok((s, n)) => spec_decode_string(bytes@) == Ok::<_, ErrorView>((s@, n)),
            Err(e) => spec_decode_string(bytes@) == Err::<(Seq<char>, usize), _>(e@),
        },
{
    if bytes.len() < 2 {
        return Err(IoError::new(ErrorKind::UnexpectedEof, "need 2 bytes for string len"));
    }
    let len = match decode_u16_be(bytes) {
        Ok(v) => v as usize,
        Err(e) => return Err(e),
    };
    if bytes.len() < 2 + len {
        return Err(IoError::new(ErrorKind::UnexpectedEof, "string content truncated"));
    }
    match str_from_utf8(&bytes[2..2 + len]) {
        Some(s) => Ok((s, 2 + len)),
        None => Err(IoError::new(ErrorKind::InvalidData, "string not valid UTF-8")),
    }
}


// ---------------------------------------------------------------------------
// Socket addresses
// ---------------------------------------------------------------------------

/// An IP address: four octets for IPv4, sixteen for IPv6.
#[derive(Debug, Clone, Copy, PartialEq, Eq)]
pub enum IpAddress {
    V4([u8; 4]),
    V6([u8; 16]),
}

/// A socket address: an IP address and a port.
#[derive(Debug, Clone, Copy, PartialEq, Eq)]
pub struct SocketAddress {
    pub ip: IpAddress,
    pub port: u16,
}

impl View for IpAddress {
    type V = Seq<u8>;

    /// The octets of the address.
    open spec fn view(&self) -> Seq<u8> {
        match self {
            IpAddress::V4(o) => o@,
            IpAddress::V6(o) => o@,
        }
    }
}

impl View for SocketAddress {
    type V = (Seq<u8>, u16);

    /// The octets of the address and the port.
    open spec fn view(&self) -> (Seq<u8>, u16) {
        (self.ip@, self.port)
    }
}

/// The encoding of a socket address given by its octets and port: the
/// family byte (4 for four octets, 6 otherwise), the octets, the port.
pub open spec fn socketaddr_bytes(a: (Seq<u8>, u16)) -> Seq<u8> {
    seq![if a.0.len() == 4 { 4u8 } else { 6u8 }] + a.0 + be16(a.1)
}

/// The result of decoding a socket address from the start of `b`: the
/// octets and port, and the number of bytes it took.
pub open spec fn spec_decode_socketaddr(b: Seq<u8>) -> Result<((Seq<u8>, u16), usize), ErrorView> {
    if b.len() == 0 {
        Err((ErrorKind::UnexpectedEof, "need 1 byte for family"@))
    } else if b[0] == 4 {
        if b.len() < 7 {
            Err((ErrorKind::UnexpectedEof, "need 7 bytes for v4 addr"@))
        } else {
            Ok(((b.subrange(1, 5), be16_value(b.subrange(5, 7))), 7))
        }
    } else if b[0] == 6 {
        if b.len() < 19 {
            Err((ErrorKind::UnexpectedEof, "need 19 bytes for v6 addr"@))
        } else {
            Ok(((b.subrange(1, 17), be16_value(b.subrange(17, 19))), 19))
        }
    } else {
        Err((ErrorKind::InvalidData, "unknown address family: "@ + decimal(b[0] as nat)))
    }
}

/// Encode a socket address (v4: 1+4+2 bytes, v6: 1+16+2 bytes).
pub fn encode_socketaddr(buf: &mut Vec<u8>, addr: &SocketAddress)
    ensures
        final(buf)@ == old(buf)@ + socketaddr_bytes(addr@),
{
    match &addr.ip {
        IpAddress::V4(o) => {
            buf.push(4);
            append_bytes(buf, o.as_slice());
        },
        IpAddress::V6(o) => {
            buf.push(6);
            append_bytes(buf, o.as_slice());
        },
    }
    let port = addr.port;
    buf.push((port / 256) as u8);
    buf.push((port % 256) as u8);
    assert(final(buf)@ =~= old(buf)@ + socketaddr_bytes(addr@));
}

/// Decode a socket address from wire format. Returns the address and the
/// number of bytes consumed.
pub fn decode_socketaddr(bytes: &[u8]) -> (r: Result<(SocketAddress, usize), IoError>)
    ensures
        match r {
            Ok((a, n)) => spec_decode_socketaddr(bytes@) == Ok::<_, ErrorView>((a@, n)),
            Err(e) => spec_decode_socketaddr(bytes@) == Err::<((Seq<u8>, u16), usize), _>(e@),
        },
{
    if bytes.len() == 0 {
        return Err(IoError::new(ErrorKind::UnexpectedEof, "need 1 byte for family"));
    }
    let family = bytes[0];
    if family == 4 {
        if bytes.len() < 7 {
            return Err(IoError::new(ErrorKind::UnexpectedEof, "need 7 bytes for v4 addr"));
        }
        let ip = [bytes[1], bytes[2], bytes[3], bytes[4]];
        let port = (bytes[5] as u16) * 256 + bytes[6] as u16;
        let addr = SocketAddress { ip: IpAddress::V4(ip), port };
        assert(addr@.0 =~= bytes@.subrange(1, 5));
        Ok((addr, 7))
    } else if family == 6 {
        if bytes.len() < 19 {
            return Err(IoError::new(ErrorKind::UnexpectedEof, "need 19 bytes for v6 addr"));
        }
        let ip = [
            bytes[1],
            bytes[2],
            bytes[3],
            bytes[4],
            bytes[5],
            bytes[6],
            bytes[7],
            bytes[8],
            bytes[9],
            bytes[10],
            bytes[11],
            bytes[12],
            bytes[13],
            bytes[14],
            bytes[15],
            bytes[16],
        ];
        let port = (bytes[17] as u16) * 256 + bytes[18] as u16;
        let addr = SocketAddress { ip: IpAddress::V6(ip), port };
        assert(addr@.0 =~= bytes@.subrange(1, 17));
        Ok((addr, 19))
    } else {
        let mut message = String::from_str("unknown address family: ");
        push_decimal(&mut message, family as u64);
        Err(IoError::from_message(ErrorKind::InvalidData, message))
    }
}


// ---------------------------------------------------------------------------
// Frame codec
// ---------------------------------------------------------------------------

/// A decoded frame header.
#[derive(Debug, Clone, Copy, PartialEq, Eq, Structural)]
pub struct FrameHeader {
    /// Magic bytes (must be 0x4F50).
    pub magic: u16,
    /// Protocol version (must be 0x01).
    pub version: u8,
    /// Message type byte.
    pub msg_type: u8,
    /// Payload length in bytes.
    pub payload_len: u32,
}

/// The 8 bytes of a frame header with the given type and payload length.
pub open spec fn header_bytes(msg_type: u8, payload_len: u32) -> Seq<u8> {
    be16(MAGIC) + seq![VERSION, msg_type] + be32(payload_len)
}

/// A whole frame: the header (whose length field is the payload length,
/// wrapped to 32 bits), then the payload.
pub open spec fn frame_bytes(msg_type: u8, payload: Seq<u8>) -> Seq<u8> {
    header_bytes(msg_type, payload.len() as u32) + payload
}

/// The result of decoding a frame header from the start of `b`.
pub open spec fn spec_decode_header(b: Seq<u8>) -> Result<FrameHeader, ErrorView> {
    if b.len() < 8 {
        Err((ErrorKind::UnexpectedEof, "need 8 header bytes, got "@ + decimal(b.len())))
    } else if be16_value(b) != MAGIC {
        Err((ErrorKind::InvalidData, "bad magic: expected 0x4F50, got 0x"@ + hex4(be16_value(b))))
    } else if b[2] != VERSION {
        Err((ErrorKind::InvalidData, "unsupported protocol version: "@ + decimal(b[2] as nat)))
    } else {
        Ok(
            FrameHeader {
                magic: be16_value(b),
                version: b[2],
                msg_type: b[3],
                payload_len: be32_value(b.subrange(4, 8)),
            },
        )
    }
}

/// Encode a frame header into `buf`.
pub fn encode_header(buf: &mut Vec<u8>, msg_type: u8, payload_len: u32)
    ensures
        final(buf)@ == old(buf)@ + header_bytes(msg_type, payload_len),
{
    encode_u16_be(buf, MAGIC);
    buf.push(VERSION);
    buf.push(msg_type);
    encode_u32_be(buf, payload_len);
    assert(final(buf)@ =~= old(buf)@ + header_bytes(msg_type, payload_len));
}

/// Decode a frame header from the beginning of `bytes`.
pub fn decode_header(bytes: &[u8]) -> (r: Result<FrameHeader, IoError>)
    ensures
        res_view(r) == spec_decode_header(bytes@),
        r is Ok <==> bytes@.len() >= 8 && bytes@[0] == 0x4F && bytes@[1] == 0x50 && bytes@[2]
            == 0x01,
        r matches Ok(h) ==> h.magic == MAGIC && h.version == VERSION && h.msg_type == bytes@[3],
        bytes@.len() >= 8 && !(bytes@[0] == 0x4F && bytes@[1] == 0x50 && bytes@[2] == 0x01) ==> (
        r matches Err(e) && e@.0 == ErrorKind::InvalidData),
        bytes@.len() < 8 ==> (r matches Err(e) && e@.0 == ErrorKind::UnexpectedEof),
{
    proof {
        lemma_header_validity(bytes@);
    }
    if bytes.len() < 8 {
        let mut message = String::from_str("need 8 header bytes, got ");
        push_decimal(&mut message, bytes.len() as u64);
        return Err(IoError::from_message(ErrorKind::UnexpectedEof, message));
    }
    let magic = match decode_u16_be(&bytes[0..2]) {
        Ok(v) => v,
        Err(e) => return Err(e),
    };
    if magic != MAGIC {
        let mut message = String::from_str("bad magic: expected 0x4F50, got 0x");
        push_hex4(&mut message, magic);
        return Err(IoError::from_message(ErrorKind::InvalidData, message));
    }
    let version = bytes[2];
    if version != VERSION {
        let mut message = String::from_str("unsupported protocol version: ");
        push_decimal(&mut message, version as u64);
        return Err(IoError::from_message(ErrorKind::InvalidData, message));
    }
    let msg_type = bytes[3];
    let payload_len = match decode_u32_be(&bytes[4..8]) {
        Ok(v) => v,
        Err(e) => return Err(e),
    };
    Ok(FrameHeader { magic, version, msg_type, payload_len })
}

// ---------------------------------------------------------------------------
// Convenience frame builders
// ---------------------------------------------------------------------------

/// Appends a whole frame (header then payload) to `out`.
pub(crate) fn push_frame(out: &mut Vec<u8>, msg_type: u8, payload: &[u8])
    ensures
        final(out)@ == old(out)@ + frame_bytes(msg_type, payload@),
{
    encode_header(out, msg_type, payload.len() as u32);
    append_bytes(out, payload);
    assert(final(out)@ =~= old(out)@ + frame_bytes(msg_type, payload@));
}

/// Encode a full Register message: peer ID string then the 32-byte public key.
pub fn encode_register(peer_id: &str, pubkey: &[u8; 32]) -> (frame: Vec<u8>)
    ensures
        frame@ == frame_bytes(msg_type::REGISTER, string_field(peer_id@) + pubkey@),
{
    let mut payload = Vec::new();
    encode_string(&mut payload, peer_id);
    append_bytes(&mut payload, pubkey.as_slice());
    let mut frame = Vec::new();
    push_frame(&mut frame, msg_type::REGISTER, payload.as_slice());
    assert(frame@ =~= frame_bytes(msg_type::REGISTER, string_field(peer_id@) + pubkey@));
    frame
}

/// Encode a full RegisterAck message: assigned ID string then the public
/// socket address.
pub fn encode_register_ack(assigned_id: &str, public_addr: &SocketAddress) -> (frame: Vec<u8>)
    ensures
        frame@ == frame_bytes(
            msg_type::REGISTER_ACK,
            string_field(assigned_id@) + socketaddr_bytes(public_addr@),
        ),
{
    let mut payload = Vec::new();
    encode_string(&mut payload, assigned_id);
    encode_socketaddr(&mut payload, public_addr);
    let mut frame = Vec::new();
    push_frame(&mut frame, msg_type::REGISTER_ACK, payload.as_slice());
    assert(frame@ =~= frame_bytes(
        msg_type::REGISTER_ACK,
        string_field(assigned_id@) + socketaddr_bytes(public_addr@),
    ));
    frame
}

/// Encode a full Error message: the 16-bit code then the message string.
pub fn encode_error(code: u16, msg: &str) -> (frame: Vec<u8>)
    ensures
        frame@ == frame_bytes(msg_type::ERROR, be16(code) + string_field(msg@)),
{
    let mut payload = Vec::new();
    encode_u16_be(&mut payload, code);
    encode_string(&mut payload, msg);
    let mut frame = Vec::new();
    push_frame(&mut frame, msg_type::ERROR, payload.as_slice());
    assert(frame@ =~= frame_bytes(msg_type::ERROR, be16(code) + string_field(msg@)));
    frame
}

/// Encode a full Heartbeat message (empty payload).
pub fn encode_heartbeat() -> (frame: Vec<u8>)
    ensures
        frame@ == frame_bytes(msg_type::HEARTBEAT, Seq::<u8>::empty()),
{
    let mut frame = Vec::new();
    encode_header(&mut frame, msg_type::HEARTBEAT, 0);
    assert(frame@ =~= frame_bytes(msg_type::HEARTBEAT, Seq::<u8>::empty()));
    frame
}

/// Encode a full Bye message (empty payload).
pub fn encode_bye() -> (frame: Vec<u8>)
    ensures
        frame@ == frame_bytes(msg_type::BYE, Seq::<u8>::empty()),
{
    let mut frame = Vec::new();
    encode_header(&mut frame, msg_type::BYE, 0);
    assert(frame@ =~= frame_bytes(msg_type::BYE, Seq::<u8>::empty()));
    frame
}


// ---------------------------------------------------------------------------
// Laws: what an encoder writes, the matching decoder reads back
// ---------------------------------------------------------------------------

/// Decoding a 16-bit integer from its encoding, whatever follows it, gives
/// the integer back.
pub proof fn lemma_u16_roundtrip(v: u16, rest: Seq<u8>)
    ensures
        spec_decode_u16(be16(v) + rest) == Ok::<u16, ErrorView>(v),
{
    let b = be16(v) + rest;
    assert(b[0] == (v / 256) as u8 && b[1] == (v % 256) as u8);
}

/// Decoding a 32-bit integer from its encoding, whatever follows it, gives
/// the integer back.
pub proof fn lemma_u32_roundtrip(v: u32, rest: Seq<u8>)
    ensures
        spec_decode_u32(be32(v) + rest) == Ok::<u32, ErrorView>(v),
{
    let b = be32(v) + rest;
    assert(b[0] == (v / 0x100_0000) as u8);
    assert(b[1] == ((v / 0x1_0000) % 256) as u8);
    assert(b[2] == ((v / 256) % 256) as u8);
    assert(b[3] == (v % 256) as u8);
}

/// Decoding a string from its encoding, whatever follows it, gives the
/// string back and the length of its encoding, when its UTF-8 bytes fit the
/// 16-bit length field.
pub proof fn lemma_string_roundtrip(s: Seq<char>, rest: Seq<u8>)
    requires
        utf8(s).len() < 65536,
    ensures
        spec_decode_string(string_field(s) + rest) == Ok::<_, ErrorView>(
            (s, (2 + utf8(s).len()) as usize),
        ),
        string_field(s).len() == 2 + utf8(s).len(),
{
    let n = utf8(s).len() as int;
    let b = string_field(s) + rest;
    lemma_u16_roundtrip(n as u16, utf8(s) + rest);
    assert(b =~= be16(n as u16) + (utf8(s) + rest));
    assert(b.subrange(2, 2 + n) =~= utf8(s));
    encode_utf8_valid_utf8(s);
    encode_utf8_decode_utf8(s);
}

/// Decoding a socket address from its encoding, whatever follows it, gives
/// the address back and the length of its encoding (7 for IPv4, 19 for IPv6).
pub proof fn lemma_socketaddr_roundtrip(a: (Seq<u8>, u16), rest: Seq<u8>)
    requires
        a.0.len() == 4 || a.0.len() == 16,
    ensures
        spec_decode_socketaddr(socketaddr_bytes(a) + rest) == Ok::<_, ErrorView>(
            (a, (3 + a.0.len()) as usize),
        ),
        socketaddr_bytes(a).len() == 3 + a.0.len(),
{
    let b = socketaddr_bytes(a) + rest;
    let n = a.0.len() as int;
    assert(b.subrange(1, 1 + n) =~= a.0);
    assert(b.subrange(1 + n, 3 + n) =~= be16(a.1));
    lemma_u16_roundtrip(a.1, Seq::empty());
    assert(be16(a.1) + Seq::<u8>::empty() =~= be16(a.1));
}

/// Decoding a frame header from its encoding, whatever follows it, gives
/// back the magic, the version, the message type and the payload length.
pub proof fn lemma_header_roundtrip(msg_type: u8, payload_len: u32, rest: Seq<u8>)
    ensures
        spec_decode_header(header_bytes(msg_type, payload_len) + rest) == Ok::<_, ErrorView>(
            FrameHeader { magic: MAGIC, version: VERSION, msg_type, payload_len },
        ),
        header_bytes(msg_type, payload_len).len() == 8,
{
    let b = header_bytes(msg_type, payload_len) + rest;
    lemma_u16_roundtrip(MAGIC, b.skip(2));
    assert(b =~= be16(MAGIC) + b.skip(2));
    lemma_u32_roundtrip(payload_len, Seq::empty());
    assert(b.subrange(4, 8) =~= be32(payload_len) + Seq::<u8>::empty());
}

/// A whole frame starts with the header of its type and payload length, and
/// its payload follows the first 8 bytes.
pub proof fn lemma_frame_layout(msg_type: u8, payload: Seq<u8>, rest: Seq<u8>)
    requires
        payload.len() <= u32::MAX,
    ensures
        spec_decode_header((frame_bytes(msg_type, payload) + rest).take(8)) == Ok::<_, ErrorView>(
            FrameHeader {
                magic: MAGIC,
                version: VERSION,
                msg_type,
                payload_len: payload.len() as u32,
            },
        ),
        (frame_bytes(msg_type, payload) + rest).skip(8) == payload + rest,
        frame_bytes(msg_type, payload).len() == 8 + payload.len(),
{
    let h = header_bytes(msg_type, payload.len() as u32);
    lemma_header_roundtrip(msg_type, payload.len() as u32, Seq::empty());
    assert((frame_bytes(msg_type, payload) + rest).take(8) =~= h + Seq::<u8>::empty());
    assert((frame_bytes(msg_type, payload) + rest).skip(8) =~= payload + rest);
}


/// The 8 bytes that hold the fields of a header as they stand.
pub open spec fn header_fields_bytes(h: FrameHeader) -> Seq<u8> {
    be16(h.magic) + seq![h.version, h.msg_type] + be32(h.payload_len)
}

/// A header decoded from some bytes is exactly the first 8 of them: nothing
/// is lost in decoding.
pub proof fn lemma_header_reencodes(b: Seq<u8>)
    requires
        spec_decode_header(b) is Ok,
    ensures
        header_fields_bytes(spec_decode_header(b)->Ok_0) == b.take(8),
{
    let h = spec_decode_header(b)->Ok_0;
    let m = b[0] * 256 + b[1];
    assert(h.magic == m);
    assert(m / 256 == b[0] && m % 256 == b[1]);
    let c = b.subrange(4, 8);
    let v = c[0] * 0x100_0000 + c[1] * 0x1_0000 + c[2] * 256 + c[3];
    assert(h.payload_len == v);
    assert(v / 0x100_0000 == c[0]);
    assert((v / 0x1_0000) % 256 == c[1]);
    assert((v / 256) % 256 == c[2]);
    assert(v % 256 == c[3]);
    assert(header_fields_bytes(h) =~= b.take(8));
}


/// A header decodes exactly when there are 8 bytes, the first two are the
/// magic 0x4F 0x50 and the third is version 0x01. A decoded header carries
/// that magic and version, the fourth byte as its type and the next four,
/// big-endian, as its payload length. Too few bytes are an unexpected end of
/// input; a wrong magic or version is invalid data.
pub proof fn lemma_header_validity(b: Seq<u8>)
    ensures
        spec_decode_header(b) is Ok <==> b.len() >= 8 && b[0] == 0x4F && b[1] == 0x50 && b[2]
            == 0x01,
        spec_decode_header(b) matches Ok(h) ==> {
            &&& h.magic == MAGIC
            &&& h.magic == 0x4F50
            &&& h.version == VERSION
            &&& h.version == 0x01
            &&& h.msg_type == b[3]
            &&& h.payload_len == b[4] * 0x100_0000 + b[5] * 0x1_0000 + b[6] * 256 + b[7]
        },
        b.len() < 8 ==> (spec_decode_header(b) matches Err(e) && e.0 == ErrorKind::UnexpectedEof),
        b.len() >= 8 && !(b[0] == 0x4F && b[1] == 0x50 && b[2] == 0x01) ==> (spec_decode_header(
            b,
        ) matches Err(e) && e.0 == ErrorKind::InvalidData),
{
    if b.len() >= 2 {
        let m = b[0] * 256 + b[1];
        assert(m == 0x4F50 <==> b[0] == 0x4F && b[1] == 0x50);
    }
}

} // verus!
