//! The hybrid envelope wrapping every outbound packet.
//!
//! A fresh symmetric key and IV encrypt the packet body; the server's public
//! key encrypts the key and IV; both ciphertexts travel framed as
//! `[asym_len: u16][sym_len: u16][asym][sym]`, little-endian. The framing
//! layer is verified outright, with its own round trip; the cipher calls go
//! through trusted wrappers around openssl, whose ciphertexts the contracts
//! name but never describe. Only the server can unseal what `seal` built;
//! `unseal` is the receiving side, used here against our own key pair and
//! for private messages addressed to us.
use vstd::prelude::*;
use vstd::bytes::*;
use vstd::slice::{slice_subrange, slice_to_vec};
use crate::packet::Packet;
use crate::codec::{serialize, enc_packet};

verus! {

broadcast use vstd::seq_lib::group_seq_lib_default, vstd::group_vstd_default;

/// The RSA key type of the openssl crate, carrying its public/private marker.
#[verifier::external_type_specification]
#[verifier::external_body]
#[verifier::reject_recursive_types(T)]
pub struct ExRsa<T>(openssl::rsa::Rsa<T>);

/// Marker for an RSA key holding only the public half.
#[verifier::external_type_specification]
#[verifier::external_body]
pub struct ExPublic(openssl::pkey::Public);

/// Marker for an RSA key holding the private half.
#[verifier::external_type_specification]
#[verifier::external_body]
pub struct ExPrivate(openssl::pkey::Private);

/// Sealing failed.
#[derive(Clone, Copy, Debug, PartialEq, Eq)]
pub enum SealError {
    /// The packet body is too long for the envelope's 16-bit length
    /// fields; nothing is truncated.
    TooLarge,
    /// A cipher refused, or the key's asymmetric ciphertext outgrew its
    /// length field.
    Crypto,
}

/// Unsealing failed.
#[derive(Clone, Copy, Debug, PartialEq, Eq)]
pub enum UnsealError {
    /// The envelope framing is malformed.
    Malformed,
    /// The key did not fit or a cipher refused: wrong recipient, or a
    /// corrupted ciphertext.
    Crypto,
}

// ---------------------------------------------------------------------------
// The envelope framing, fully verified.
// ---------------------------------------------------------------------------
pub open spec fn spec_envelope(asym: Seq<u8>, sym: Seq<u8>) -> Seq<u8> {
    spec_u16_to_le_bytes(asym.len() as u16) + spec_u16_to_le_bytes(sym.len() as u16) + asym + sym
}

pub open spec fn spec_parse_envelope(s: Seq<u8>) -> Option<(Seq<u8>, Seq<u8>)> {
    if s.len() >= 4 {
        let na = spec_u16_from_le_bytes(s.subrange(0, 2)) as int;
        let ns = spec_u16_from_le_bytes(s.subrange(2, 4)) as int;
        if s.len() == 4 + na + ns {
            Option::Some((s.subrange(4, 4 + na), s.subrange(4 + na, 4 + na + ns)))
        } else {
            Option::None
        }
    } else {
        Option::None
    }
}

/// Frames the two ciphertexts. Fails exactly when either exceeds what a
/// 16-bit length field can say.
pub fn frame_envelope(asym: &[u8], sym: &[u8]) -> (r: Result<Vec<u8>, SealError>)
    ensures
        asym@.len() <= 65535 && sym@.len() <= 65535 ==> (r matches Ok(v) && v@ == spec_envelope(
            asym@,
            sym@,
        )),
        asym@.len() > 65535 || sym@.len() > 65535 ==> r == Result::<Vec<u8>, SealError>::Err(
            SealError::TooLarge,
        ),
{
    if asym.len() > 65535 || sym.len() > 65535 {
        return Err(SealError::TooLarge);
    }
    let mut out = u16_to_le_bytes(asym.len() as u16);
    let mut l2 = u16_to_le_bytes(sym.len() as u16);
    out.append(&mut l2);
    let mut a = slice_to_vec(asym);
    out.append(&mut a);
    let mut s = slice_to_vec(sym);
    out.append(&mut s);
    proof {
        assert(out@ =~= spec_envelope(asym@, sym@));
    }
    Ok(out)
}

/// Splits an envelope back into its two ciphertexts; rejects anything whose
/// length fields do not cover the buffer exactly.
pub fn parse_envelope(buf: &[u8]) -> (r: Result<(Vec<u8>, Vec<u8>), UnsealError>)
    ensures
        match r {
            Ok(p) => spec_parse_envelope(buf@) == Option::Some((p.0@, p.1@)),
            Err(e) => spec_parse_envelope(buf@) is None && e == UnsealError::Malformed,
        },
{
    if buf.len() < 4 {
        return Err(UnsealError::Malformed);
    }
    let na = u16_from_le_bytes(slice_subrange(buf, 0, 2)) as usize;
    let ns = u16_from_le_bytes(slice_subrange(buf, 2, 4)) as usize;
    if buf.len() - 4 != na + ns {
        return Err(UnsealError::Malformed);
    }
    let a = slice_to_vec(slice_subrange(buf, 4, 4 + na));
    let s = slice_to_vec(slice_subrange(buf, 4 + na, 4 + na + ns));
    Ok((a, s))
}

/// Law: envelope framing round-trips. Any pair of ciphertexts short enough
/// to frame comes back unchanged from a frame followed by a parse.
pub proof fn lemma_envelope_round_trip(asym: Seq<u8>, sym: Seq<u8>)
    requires
        asym.len() <= 65535,
        sym.len() <= 65535,
    ensures
        spec_parse_envelope(spec_envelope(asym, sym)) == Option::Some((asym, sym)),
{
    lemma_auto_spec_u16_to_from_le_bytes();
    let s = spec_envelope(asym, sym);
    assert(s.subrange(0, 2) =~= spec_u16_to_le_bytes(asym.len() as u16));
    assert(s.subrange(2, 4) =~= spec_u16_to_le_bytes(sym.len() as u16));
    assert(s.subrange(4, 4 + asym.len() as int) =~= asym);
    assert(s.subrange(4 + asym.len() as int, 4 + asym.len() + sym.len() as int) =~= sym);
}

// ---------------------------------------------------------------------------
// The cipher calls, behind trusted wrappers.
// ---------------------------------------------------------------------------
/// What AES-256-CBC makes of a plaintext under a key and IV. Deterministic
/// in its three arguments; nothing else about it is assumed.
pub uninterp spec fn aes_ct(key: Seq<u8>, iv: Seq<u8>, data: Seq<u8>) -> Seq<u8>;

/// What AES-256-CBC decryption makes of a ciphertext under a key and IV:
/// the plaintext, or nothing when the padding check refuses. Deterministic
/// in its three arguments.
pub uninterp spec fn aes_pt(key: Seq<u8>, iv: Seq<u8>, data: Seq<u8>) -> Option<Seq<u8>>;

/// Relies on openssl's `rand::rand_bytes`: fills the buffer or reports an
/// error. Nothing is assumed about the bytes themselves. The length bound
/// keeps out the buffer sizes on which the call asserts instead of
/// returning.
#[verifier::external_body]
fn random_bytes(n: usize) -> (r: Option<Vec<u8>>)
    requires
        n <= 0x7fffffff,
    ensures
        r matches Some(v) ==> v@.len() == n,
{
    let mut buf = vec![0u8; n];
    match openssl::rand::rand_bytes(&mut buf) {
        Ok(_) => Some(buf),
        Err(_) => None,
    }
}

/// Relies on openssl's `Rsa::public_encrypt` with PKCS#1 padding: the
/// ciphertext depends on random padding, so nothing is assumed of it.
#[verifier::external_body]
fn rsa_encrypt(rsa: &openssl::rsa::Rsa<openssl::pkey::Public>, data: &[u8]) -> (r: Option<
    Vec<u8>,
>)
    requires
        data@.len() <= 0x7fffffff,
{
    let mut to = vec![0u8; rsa.size() as usize];
    match rsa.public_encrypt(data, &mut to, openssl::rsa::Padding::PKCS1) {
        Ok(n) => {
            to.truncate(n);
            Some(to)
        },
        Err(_) => None,
    }
}

/// Relies on openssl's `Rsa::private_decrypt` with PKCS#1 padding: returns
/// the decrypted bytes or refuses; wrong keys and mangled ciphertexts
/// surface as an error, never a panic.
#[verifier::external_body]
fn rsa_decrypt(rsa: &openssl::rsa::Rsa<openssl::pkey::Private>, data: &[u8]) -> (r: Option<
    Vec<u8>,
>)
    requires
        data@.len() <= 0x7fffffff,
{
    let mut to = vec![0u8; rsa.size() as usize];
    match rsa.private_decrypt(data, &mut to, openssl::rsa::Padding::PKCS1) {
        Ok(n) => {
            to.truncate(n);
            Some(to)
        },
        Err(_) => None,
    }
}

/// Relies on openssl's `symm::encrypt` with AES-256-CBC: the ciphertext is
/// a function of key, IV and plaintext alone, padding extends it to the
/// next 16-byte boundary, and decrypting it under the same key and IV
/// gives the plaintext back. The length bound keeps out the inputs on
/// which the call panics instead of returning.
#[verifier::external_body]
fn aes_encrypt(key: &[u8], iv: &[u8], data: &[u8]) -> (r: Option<Vec<u8>>)
    requires
        key@.len() == 32,
        iv@.len() == 16,
        data@.len() <= 0x7fffffff,
    ensures
        r matches Some(v) ==> v@ == aes_ct(key@, iv@, data@),
        r matches Some(v) ==> v@.len() == ((data@.len() / 16) + 1) * 16,
        r matches Some(v) ==> aes_pt(key@, iv@, aes_ct(key@, iv@, data@)) == Option::Some(data@),
{
    openssl::symm::encrypt(openssl::symm::Cipher::aes_256_cbc(), key, Some(iv), data).ok()
}

/// Relies on openssl's `symm::decrypt` with AES-256-CBC: the outcome,
/// success or refusal included, is a function of key, IV and ciphertext
/// alone. The length bound keeps out the inputs on which the call panics
/// instead of returning.
#[verifier::external_body]
fn aes_decrypt(key: &[u8], iv: &[u8], data: &[u8]) -> (r: Option<Vec<u8>>)
    requires
        key@.len() == 32,
        iv@.len() == 16,
        data@.len() <= 0x7fffffff,
    ensures
        (match r {
            Some(v) => Option::Some(v@),
            None => Option::None,
        }) == aes_pt(key@, iv@, data@),
{
    openssl::symm::decrypt(openssl::symm::Cipher::aes_256_cbc(), key, Some(iv), data).ok()
}

// ---------------------------------------------------------------------------
// Seal and unseal.
// ---------------------------------------------------------------------------
/// Seals one packet for the holder of the private half of `rsa`: a fresh
/// key and IV encrypt the body, the public key encrypts the key and IV, and
/// both ciphertexts travel framed. Every success is a well-formed envelope
/// whose symmetric part is the named AES ciphertext of the packet's
/// encoding, and that ciphertext decrypts back to the encoding under the
/// same key and IV. A body too long for the frame's 16-bit length field
/// fails fast with the size-limit error before any cipher runs — an
/// AES-CBC ciphertext fits the field exactly when the body is at most
/// 65519 bytes — and only such a body draws that error: every other
/// failure, an asymmetric ciphertext beyond the field included, is a
/// cipher error. Nothing is ever truncated.
pub fn seal(packet: &Packet, rsa: &openssl::rsa::Rsa<openssl::pkey::Public>) -> (r: Result<
    Vec<u8>,
    SealError,
>)
    ensures
        enc_packet(packet@).len() > 65519 ==> r == Result::<Vec<u8>, SealError>::Err(
            SealError::TooLarge,
        ),
        enc_packet(packet@).len() <= 65519 ==> r != Result::<Vec<u8>, SealError>::Err(
            SealError::TooLarge,
        ),
        r matches Ok(v) ==> exists|asym: Seq<u8>, key: Seq<u8>, iv: Seq<u8>|
            {
                &&& asym.len() <= 65535
                &&& key.len() == 32
                &&& iv.len() == 16
                &&& aes_ct(key, iv, enc_packet(packet@)).len() <= 65535
                &&& v@ == spec_envelope(asym, aes_ct(key, iv, enc_packet(packet@)))
                &&& aes_pt(key, iv, aes_ct(key, iv, enc_packet(packet@))) == Option::Some(
                    enc_packet(packet@),
                )
            },
{
    let body = match serialize(packet) {
        Ok(b) => b,
        Err(_) => {
            return Err(SealError::Crypto);
        },
    };
    if body.len() > 65519 {
        return Err(SealError::TooLarge);
    }
    let keyiv = match random_bytes(48) {
        Some(b) => b,
        None => {
            return Err(SealError::Crypto);
        },
    };
    let key = slice_subrange(keyiv.as_slice(), 0, 32);
    let iv = slice_subrange(keyiv.as_slice(), 32, 48);
    let sym = match aes_encrypt(key, iv, body.as_slice()) {
        Some(c) => c,
        None => {
            return Err(SealError::Crypto);
        },
    };
    proof {
        assert(sym@.len() <= 65535);
    }
    let asym = match rsa_encrypt(rsa, keyiv.as_slice()) {
        Some(c) => c,
        None => {
            return Err(SealError::Crypto);
        },
    };
    if asym.len() > 65535 {
        return Err(SealError::Crypto);
    }
    match frame_envelope(asym.as_slice(), sym.as_slice()) {
        Ok(v) => Ok(v),
        Err(_) => Err(SealError::Crypto),
    }
}

/// Unseals an envelope with the matching private key: parses the framing,
/// recovers the key and IV from the asymmetric part, and decrypts the
/// symmetric part. Malformed framing is told apart from a cipher refusal.
pub fn unseal(data: &[u8], rsa: &openssl::rsa::Rsa<openssl::pkey::Private>) -> (r: Result<
    Vec<u8>,
    UnsealError,
>)
    ensures
        spec_parse_envelope(data@) is None <==> r == Result::<Vec<u8>, UnsealError>::Err(
            UnsealError::Malformed,
        ),
        r matches Ok(v) ==> exists|key: Seq<u8>, iv: Seq<u8>|
            {
                &&& key.len() == 32
                &&& iv.len() == 16
                &&& aes_pt(key, iv, spec_parse_envelope(data@).unwrap().1) == Option::Some(v@)
            },
{
    let (asym, sym) = match parse_envelope(data) {
        Ok(p) => p,
        Err(e) => {
            return Err(e);
        },
    };
    let keyiv = match rsa_decrypt(rsa, asym.as_slice()) {
        Some(b) => b,
        None => {
            return Err(UnsealError::Crypto);
        },
    };
    if keyiv.len() != 48 {
        return Err(UnsealError::Crypto);
    }
    let key = slice_subrange(keyiv.as_slice(), 0, 32);
    let iv = slice_subrange(keyiv.as_slice(), 32, 48);
    match aes_decrypt(key, iv, sym.as_slice()) {
        Some(v) => {
            proof {
                assert(sym@ == spec_parse_envelope(data@).unwrap().1);
                assert(key@.len() == 32 && iv@.len() == 16 && aes_pt(
                    key@,
                    iv@,
                    spec_parse_envelope(data@).unwrap().1,
                ) == Option::Some(v@));
            }
            Ok(v)
        },
        None => Err(UnsealError::Crypto),
    }
}

} // verus!
