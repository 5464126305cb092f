use webplatform::marshal::c_bytes;
use webplatform::marshal::decode_host_text;
use webplatform::marshal::decode_text;
use webplatform::marshal::marshal_arg;
use webplatform::MarshalArena;
use webplatform::MarshalError;
use webplatform::MarshalledArg;
use webplatform::SnippetArg;

#[test]
fn marshal_appends_terminated_buffer() {
    let mut arena = MarshalArena::new();
    let idx = arena.push_str("hello").unwrap();
    assert_eq!(idx, 0);
    assert_eq!(arena.len(), 1);
    assert_eq!(arena.buffer(0).as_slice(), b"hello\0");
}

#[test]
fn marshal_rejects_interior_nul() {
    let mut arena = MarshalArena::new();
    let r = arena.push_str("he\0llo");
    assert_eq!(r, Err(MarshalError::InteriorNul));
    assert_eq!(arena.len(), 0);
}

#[test]
fn marshal_round_trip_ascii() {
    let mut arena = MarshalArena::new();
    let idx = arena.push_str("Hello, world! ~printable~").unwrap();
    let back = decode_host_text(arena.buffer(idx).as_slice()).unwrap();
    assert_eq!(back, "Hello, world! ~printable~");
}

#[test]
fn marshal_round_trip_multibyte() {
    let text = "héllo — grüß dich, 日本語 ✓";
    let mut arena = MarshalArena::new();
    let idx = arena.push_str(text).unwrap();
    let back = decode_host_text(arena.buffer(idx).as_slice()).unwrap();
    assert_eq!(back, text);
}

#[test]
fn marshal_empty_string() {
    let mut arena = MarshalArena::new();
    let idx = arena.push_str("").unwrap();
    assert_eq!(arena.buffer(idx).as_slice(), b"\0");
    let back = decode_host_text(arena.buffer(idx).as_slice()).unwrap();
    assert_eq!(back, "");
}

#[test]
fn release_frees_all_buffers_together() {
    let mut arena = MarshalArena::new();
    arena.push_str("a").unwrap();
    arena.push_str("b").unwrap();
    assert_eq!(arena.len(), 2);
    arena.release_all();
    assert_eq!(arena.len(), 0);
}

#[test]
fn decode_invalid_utf8_is_error_not_crash() {
    let bad: Vec<u8> = vec![0xff, 0xfe, b'o', b'k'];
    assert!(decode_text(bad.as_slice()).is_err());
    let bad_terminated: Vec<u8> = vec![0xc3, 0x28, 0];
    assert!(decode_host_text(bad_terminated.as_slice()).is_err());
}

#[test]
fn decode_valid_utf8() {
    let ok: Vec<u8> = b"ok".to_vec();
    assert_eq!(decode_text(ok.as_slice()).unwrap(), "ok");
}

#[test]
fn c_bytes_cuts_at_first_terminator() {
    let buf: Vec<u8> = vec![b'a', b'b', 0, b'c', 0];
    assert_eq!(c_bytes(buf.as_slice()), b"ab".to_vec());
    let unterminated: Vec<u8> = vec![b'x', b'y'];
    assert_eq!(c_bytes(unterminated.as_slice()), b"xy".to_vec());
    let empty: Vec<u8> = vec![0];
    assert_eq!(c_bytes(empty.as_slice()), Vec::<u8>::new());
}

#[test]
fn marshal_arg_int_passes_through() {
    let mut arena = MarshalArena::new();
    let r = marshal_arg(&mut arena, &SnippetArg::Int(-7)).unwrap();
    assert_eq!(r, MarshalledArg::Int(-7));
    assert_eq!(arena.len(), 0);
}

#[test]
fn marshal_arg_text_goes_through_arena() {
    let mut arena = MarshalArena::new();
    arena.push_str("first").unwrap();
    let r = marshal_arg(&mut arena, &SnippetArg::Text(String::from("second"))).unwrap();
    assert_eq!(r, MarshalledArg::Buffer(1));
    assert_eq!(arena.buffer(1).as_slice(), b"second\0");
}
