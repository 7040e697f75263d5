use openpeer::config::parse_port;
use openpeer::protocol::codec::{write_frame, FrameDecoder, FrameEncoder};
use openpeer::protocol::messages::{
    decode_header, decode_socketaddr, decode_string, encode_string, IpAddress, SocketAddress,
    MAGIC, VERSION,
};
use openpeer::{Error, ErrorKind, IoError};

fn frame_with_payload(msg_type: u8, payload: &[u8]) -> Vec<u8> {
    let mut out = Vec::new();
    write_frame(&mut out, msg_type, payload);
    out
}

#[test]
fn feed_split_anywhere_gives_the_frame() {
    let payload = b"split me anywhere";
    let frame = frame_with_payload(0x03, payload);
    for k in 0..frame.len() {
        let mut dec = FrameDecoder::new();
        assert!(dec.feed(&frame[..k]).unwrap().is_none(), "split at {}", k);
        let (h, p) = dec.feed(&frame[k..]).unwrap().unwrap();
        assert_eq!(h.msg_type, 0x03);
        assert_eq!(h.payload_len as usize, payload.len());
        assert_eq!(&p[..], payload);
        assert!(dec.is_idle());
    }
}

#[test]
fn feed_byte_by_byte_gives_the_frame() {
    let frame = frame_with_payload(0x06, b"abc");
    let mut dec = FrameDecoder::new();
    for &b in &frame[..frame.len() - 1] {
        assert!(dec.feed(&[b]).unwrap().is_none());
    }
    let (h, p) = dec.feed(&frame[frame.len() - 1..]).unwrap().unwrap();
    assert_eq!(h.magic, MAGIC);
    assert_eq!(h.version, VERSION);
    assert_eq!(&p[..], b"abc");
    assert!(dec.is_idle());
}

#[test]
fn two_frames_in_one_chunk_keep_the_second() {
    let mut both = frame_with_payload(0x01, b"one");
    both.extend_from_slice(&frame_with_payload(0x02, b"two"));
    let mut dec = FrameDecoder::new();
    let (h1, p1) = dec.feed(&both).unwrap().unwrap();
    assert_eq!((h1.msg_type, &p1[..]), (0x01, &b"one"[..]));
    assert!(!dec.is_idle());
    let (h2, p2) = dec.feed(&[]).unwrap().unwrap();
    assert_eq!((h2.msg_type, &p2[..]), (0x02, &b"two"[..]));
    assert!(dec.is_idle());
}

#[test]
fn bad_header_is_an_error_and_keeps_the_bytes() {
    let mut dec = FrameDecoder::new();
    let err = dec.feed(&[0, 0, 1, 1, 0, 0, 0, 0]).unwrap_err();
    assert_eq!(err.kind(), ErrorKind::InvalidData);
    assert_eq!(err.to_string(), "bad magic: expected 0x4F50, got 0x0000");
    assert!(!dec.is_idle());
}

#[test]
fn header_error_messages() {
    let e = decode_header(&[0x4F, 0x50, 0x01]).unwrap_err();
    assert_eq!(e.to_string(), "need 8 header bytes, got 3");
    let e = decode_header(&[0xAB, 0xCD, 0x01, 0x01, 0, 0, 0, 0]).unwrap_err();
    assert_eq!(e.to_string(), "bad magic: expected 0x4F50, got 0xABCD");
    let e = decode_header(&[0x4F, 0x50, 0x99, 0x01, 0, 0, 0, 0]).unwrap_err();
    assert_eq!(e.to_string(), "unsupported protocol version: 153");
    assert_eq!(e.kind(), ErrorKind::InvalidData);
}

#[test]
fn header_payload_len_is_big_endian() {
    let h = decode_header(&[0x4F, 0x50, 0x01, 0x09, 0x01, 0x02, 0x03, 0x04, 0xFF]).unwrap();
    assert_eq!(h.msg_type, 9);
    assert_eq!(h.payload_len, 0x0102_0304);
}

#[test]
fn socketaddr_error_messages() {
    let e = decode_socketaddr(&[5]).unwrap_err();
    assert_eq!(e.kind(), ErrorKind::InvalidData);
    assert_eq!(e.to_string(), "unknown address family: 5");
    let e = decode_socketaddr(&[]).unwrap_err();
    assert_eq!(e.to_string(), "need 1 byte for family");
    let e = decode_socketaddr(&[6, 0, 0]).unwrap_err();
    assert_eq!(e.to_string(), "need 19 bytes for v6 addr");
}

#[test]
fn socketaddr_decoding_ignores_what_follows() {
    let bytes = [4, 10, 0, 0, 7, 0x01, 0xBB, 0xEE, 0xEE];
    let (a, n) = decode_socketaddr(&bytes).unwrap();
    assert_eq!(n, 7);
    assert_eq!(a, SocketAddress { ip: IpAddress::V4([10, 0, 0, 7]), port: 443 });
}

#[test]
fn string_decoding_ignores_what_follows() {
    let mut buf = Vec::new();
    encode_string(&mut buf, "héllo");
    buf.extend_from_slice(&[0xFF, 0xFF]);
    let (s, n) = decode_string(&buf).unwrap();
    assert_eq!(s, "héllo");
    assert_eq!(n, 2 + "héllo".len());
}

#[test]
fn string_length_field_wraps_beyond_u16() {
    let s = "a".repeat(65536);
    let mut buf = Vec::new();
    encode_string(&mut buf, &s);
    assert_eq!(&buf[..2], [0, 0]);
    assert_eq!(buf.len(), 2 + 65536);
    let (decoded, n) = decode_string(&buf).unwrap();
    assert_eq!(decoded, "");
    assert_eq!(n, 2);
}

#[test]
fn encoder_drain_preserves_bytes_in_order() {
    let mut enc = FrameEncoder::new();
    enc.encode(0x01, b"first");
    enc.encode(0x02, b"second");
    let mut expected = frame_with_payload(0x01, b"first");
    expected.extend_from_slice(&frame_with_payload(0x02, b"second"));
    assert_eq!(enc.buffered(), expected.len());
    let mut all = Vec::new();
    let mut chunk = [0xEEu8; 5];
    while !enc.is_empty() {
        let before = enc.buffered();
        let n = enc.drain_into(&mut chunk).unwrap();
        assert_eq!(n, before.min(5));
        assert_eq!(enc.buffered(), before - n);
        all.extend_from_slice(&chunk[..n]);
    }
    assert_eq!(all, expected);
}

#[test]
fn drain_into_leaves_the_rest_of_out_alone() {
    let mut enc = FrameEncoder::new();
    enc.encode(0x07, &[]);
    let mut out = [0xAAu8; 12];
    let n = enc.drain_into(&mut out).unwrap();
    assert_eq!(n, 8);
    assert_eq!(&out[..8], &frame_with_payload(0x07, &[])[..]);
    assert_eq!(&out[8..], &[0xAA; 4]);
    let mut empty: [u8; 0] = [];
    assert_eq!(enc.drain_into(&mut empty).unwrap(), 0);
}

#[test]
fn error_equality_is_an_equivalence() {
    let a = Error::Io(IoError::new(ErrorKind::TimedOut, "x"));
    let b = Error::Io(IoError::new(ErrorKind::TimedOut, "y"));
    let c = Error::Io(IoError::new(ErrorKind::TimedOut, "z"));
    assert_eq!(a, a);
    assert_eq!(a, b);
    assert_eq!(b, a);
    assert_eq!(b, c);
    assert_eq!(a, c);
    assert_eq!(a.clone(), a);
    assert_eq!(a.clone().to_string(), a.to_string());
}

#[test]
fn error_display_is_prefix_then_detail() {
    assert_eq!(Error::Decode("abc".into()).to_string(), "protocol decode error: abc");
    assert_eq!(
        Error::Io(IoError::new(ErrorKind::NotFound, "gone")).to_string(),
        "I/O error: gone"
    );
}

#[test]
fn parse_port_exact_values() {
    assert_eq!(parse_port("65535"), Some(65535));
    assert_eq!(parse_port("65536"), None);
    assert_eq!(parse_port("+0"), Some(0));
    assert_eq!(parse_port("00080"), Some(80));
    assert_eq!(parse_port("+"), None);
}

#[test]
fn decoder_is_idle_exactly_when_nothing_is_pending() {
    let mut stream = frame_with_payload(0x01, b"ab");
    stream.extend_from_slice(&frame_with_payload(0x02, b""));
    stream.extend_from_slice(&frame_with_payload(0x03, b"xyz"));
    let mut answered = Vec::new();
    let mut dec = FrameDecoder::new();
    for (i, chunk) in stream.chunks(3).enumerate() {
        if let Some((h, p)) = dec.feed(chunk).unwrap() {
            answered.extend_from_slice(&frame_with_payload(h.msg_type, &p));
        }
        let fed = ((i + 1) * 3).min(stream.len());
        assert_eq!(dec.is_idle(), answered.len() == fed, "after {} bytes", fed);
        assert_eq!(&answered[..], &stream[..answered.len()]);
    }
    while let Some((h, p)) = dec.feed(&[]).unwrap() {
        answered.extend_from_slice(&frame_with_payload(h.msg_type, &p));
    }
    assert_eq!(answered, stream);
    assert!(dec.is_idle());
}

#[test]
fn io_errors_of_newer_kinds_are_told_apart() {
    let a = Error::Io(IoError::new(ErrorKind::NotADirectory, "x"));
    let b = Error::Io(IoError::new(ErrorKind::IsADirectory, "x"));
    let c = Error::Io(IoError::new(ErrorKind::StorageFull, "x"));
    assert_ne!(a, b);
    assert_ne!(b, c);
    assert_eq!(c.clone(), c);
}
