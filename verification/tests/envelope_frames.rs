use chatproto::codec::serialize;
use chatproto::envelope::{frame_envelope, parse_envelope, seal, unseal, UnsealError};
use chatproto::frames::FrameBuffer;
use chatproto::packet::{MessageCreate, Packet};
use openssl::rsa::Rsa;

#[test]
fn envelope_framing_round_trips() {
    let asym = vec![1u8, 2, 3];
    let sym = vec![9u8; 40];
    let framed = frame_envelope(&asym, &sym).unwrap();
    assert_eq!(framed.len(), 4 + asym.len() + sym.len());
    assert_eq!(&framed[0..2], &(asym.len() as u16).to_le_bytes());
    assert_eq!(&framed[2..4], &(sym.len() as u16).to_le_bytes());
    let (a, s) = parse_envelope(&framed).unwrap();
    assert_eq!(a, asym);
    assert_eq!(s, sym);
}

#[test]
fn envelope_framing_rejects_oversize_and_malformed() {
    let big = vec![0u8; 70000];
    assert!(frame_envelope(&big, &[]).is_err());
    assert!(parse_envelope(&[1, 0]).is_err());
    // Length fields that do not cover the buffer exactly.
    assert!(parse_envelope(&[2, 0, 1, 0, 0xaa]).is_err());
}

#[test]
fn seal_then_unseal_with_matching_key_round_trips() {
    let rsa = Rsa::generate(2048).unwrap();
    let public = Rsa::public_key_from_pem(&rsa.public_key_to_pem().unwrap()).unwrap();
    let p = Packet::MessageCreate(MessageCreate { channel: 0, text: b"secret hello".to_vec() });
    let sealed = seal(&p, &public).unwrap();
    // The symmetric part is a real ciphertext, not the body passed through:
    // CBC pads to a block boundary, so even the length differs.
    let (_, sym) = parse_envelope(&sealed).unwrap();
    assert_ne!(sym, serialize(&p).unwrap());
    let opened = unseal(&sealed, &rsa).unwrap();
    assert_eq!(opened, serialize(&p).unwrap());
}

#[test]
fn seal_fails_fast_on_an_oversized_body() {
    let rsa = Rsa::generate(2048).unwrap();
    let public = Rsa::public_key_from_pem(&rsa.public_key_to_pem().unwrap()).unwrap();
    // A body past the 16-bit frame limit draws the size-limit error.
    let big = Packet::MessageCreate(MessageCreate { channel: 0, text: vec![7u8; 70000] });
    assert_eq!(seal(&big, &public), Err(chatproto::envelope::SealError::TooLarge));
    // An ordinary packet never does.
    let small = Packet::MessageCreate(MessageCreate { channel: 0, text: vec![7u8; 16] });
    assert!(seal(&small, &public).is_ok());
}

#[test]
fn unseal_with_wrong_key_fails_without_panic() {
    let rsa = Rsa::generate(2048).unwrap();
    let public = Rsa::public_key_from_pem(&rsa.public_key_to_pem().unwrap()).unwrap();
    let other = Rsa::generate(2048).unwrap();
    let p = Packet::MessageCreate(MessageCreate { channel: 0, text: b"secret".to_vec() });
    let sealed = seal(&p, &public).unwrap();
    match unseal(&sealed, &other) {
        Err(UnsealError::Crypto) => {},
        Err(UnsealError::Malformed) => panic!("framing was fine; only the key was wrong"),
        Ok(_) => panic!("a non-matching private key must not open the envelope"),
    }
}

#[test]
fn frame_buffer_reassembles_split_reads() {
    let mut fb = FrameBuffer::new();
    // Frame one: body [7, 8]; frame two: body [9].
    let stream = vec![2u8, 0, 7, 8, 1, 0, 9];
    assert!(fb.feed(&stream[0..1]).is_empty());
    assert!(fb.feed(&stream[1..3]).is_empty());
    let first = fb.feed(&stream[3..5]);
    assert_eq!(first, vec![vec![7u8, 8]]);
    let second = fb.feed(&stream[5..7]);
    assert_eq!(second, vec![vec![9u8]]);
    assert!(fb.feed(&[]).is_empty());
}

#[test]
fn frame_buffer_emits_all_complete_frames_at_once() {
    let mut fb = FrameBuffer::new();
    let frames = fb.feed(&[1, 0, 5, 0, 0, 2, 0, 6, 7, 3, 0, 8]);
    // The zero-length frame in the middle carries an empty body.
    assert_eq!(frames, vec![vec![5u8], vec![], vec![6u8, 7]]);
    // The unfinished third frame waits for its last two bytes.
    let rest = fb.feed(&[9, 10]);
    assert_eq!(rest, vec![vec![8u8, 9, 10]]);
}
