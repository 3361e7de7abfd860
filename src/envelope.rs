//! The envelope's byte layout: `magic ‖ salt ‖ nonce ‖ ciphertext-with-tag`.
use vstd::prelude::*;

use crate::error::CryptoError;

verus! {

/// Length of the magic tag that opens every envelope.
pub const MAGIC_LEN: usize = 8;

/// Length of the per-file random salt.
pub const SALT_LEN: usize = 16;

/// Length of the per-file random AES-GCM nonce.
pub const NONCE_LEN: usize = 12;

/// Length of the fixed header: magic, salt and nonce.
pub const HEADER_LEN: usize = 36;

/// Length of the authentication tag that the cipher appends.
pub const TAG_LEN: usize = 16;

/// The magic tag, ASCII `BVENC001`: names the format and its version.
pub open spec fn magic() -> Seq<u8> {
    seq![66u8, 86u8, 69u8, 78u8, 67u8, 48u8, 48u8, 49u8]
}

/// The envelope that carries `salt`, `nonce` and `ciphertext`.
pub open spec fn frame(salt: Seq<u8>, nonce: Seq<u8>, ciphertext: Seq<u8>) -> Seq<u8> {
    magic() + salt + nonce + ciphertext
}

/// The salt stored in an envelope.
pub open spec fn salt_of(bytes: Seq<u8>) -> Seq<u8> {
    bytes.subrange(MAGIC_LEN as int, (MAGIC_LEN + SALT_LEN) as int)
}

/// The nonce stored in an envelope.
pub open spec fn nonce_of(bytes: Seq<u8>) -> Seq<u8> {
    bytes.subrange((MAGIC_LEN + SALT_LEN) as int, HEADER_LEN as int)
}

/// The ciphertext-with-tag stored in an envelope.
pub open spec fn ciphertext_of(bytes: Seq<u8>) -> Seq<u8> {
    bytes.subrange(HEADER_LEN as int, bytes.len() as int)
}

/// What parsing `bytes` yields: the header's shape decides, nothing else.
pub open spec fn parse_spec(bytes: Seq<u8>) -> Result<(Seq<u8>, Seq<u8>, Seq<u8>), CryptoError> {
    if bytes.len() < HEADER_LEN {
        Err(CryptoError::MalformedEnvelope)
    } else if bytes.subrange(0, MAGIC_LEN as int) != magic() {
        Err(CryptoError::UnsupportedFormat)
    } else {
        Ok((salt_of(bytes), nonce_of(bytes), ciphertext_of(bytes)))
    }
}

/// The magic tag as bytes.
pub fn magic_bytes() -> (r: [u8; 8])
    ensures
        r@ == magic(),
{
    let r: [u8; 8] = [66u8, 86u8, 69u8, 78u8, 67u8, 48u8, 48u8, 49u8];
    assert(r@ =~= magic());
    r
}

/// Appends `src` to `out`.
pub(crate) fn append_bytes(out: &mut Vec<u8>, src: &[u8])
    ensures
        final(out)@ == old(out)@ + src@,
{
    let ghost start = out@;
    let mut i: usize = 0;
    while i < src.len()
        invariant
            i <= src@.len(),
            out@ == start + src@.subrange(0, i as int),
        decreases src@.len() - i,
    {
        out.push(src[i]);
        i = i + 1;
        assert(out@ =~= start + src@.subrange(0, i as int));
    }
    assert(src@.subrange(0, i as int) =~= src@);
}

/// Frames `salt`, `nonce` and `ciphertext` as an envelope.
pub fn assemble_envelope(salt: &[u8], nonce: &[u8], ciphertext: &[u8]) -> (r: Vec<u8>)
    ensures
        r@ == frame(salt@, nonce@, ciphertext@),
{
    let tag = magic_bytes();
    let mut out: Vec<u8> = Vec::new();
    append_bytes(&mut out, tag.as_slice());
    append_bytes(&mut out, salt);
    append_bytes(&mut out, nonce);
    append_bytes(&mut out, ciphertext);
    out
}

/// Whether the first eight bytes of `bytes` are the magic tag.
fn has_magic(bytes: &[u8]) -> (r: bool)
    requires
        bytes@.len() >= MAGIC_LEN,
    ensures
        r == (bytes@.subrange(0, MAGIC_LEN as int) == magic()),
{
    let tag = magic_bytes();
    let mut i: usize = 0;
    while i < MAGIC_LEN
        invariant
            i <= MAGIC_LEN,
            bytes@.len() >= MAGIC_LEN,
            tag@ == magic(),
            forall|j: int| 0 <= j < i ==> bytes@[j] == magic()[j],
        decreases MAGIC_LEN - i,
    {
        if bytes[i] != tag[i] {
            assert(bytes@.subrange(0, MAGIC_LEN as int)[i as int] != magic()[i as int]);
            return false;
        }
        i = i + 1;
    }
    assert(bytes@.subrange(0, MAGIC_LEN as int) =~= magic());
    true
}

/// Splits an envelope into its salt, nonce and ciphertext-with-tag.
///
/// Input shorter than the header is `MalformedEnvelope`; input long enough
/// whose first eight bytes are not the magic tag is `UnsupportedFormat`.
pub fn parse_envelope(bytes: &[u8]) -> (r: Result<(&[u8], &[u8], &[u8]), CryptoError>)
    ensures
        r matches Ok((s, n, c)) ==> parse_spec(bytes@) == Ok::<_, CryptoError>((s@, n@, c@)),
        r matches Err(e) ==> parse_spec(bytes@) == Err::<(Seq<u8>, Seq<u8>, Seq<u8>), _>(e),
{
    if bytes.len() < HEADER_LEN {
        return Err(CryptoError::MalformedEnvelope);
    }
    if !has_magic(bytes) {
        return Err(CryptoError::UnsupportedFormat);
    }
    let (_magic, rest) = bytes.split_at(MAGIC_LEN);
    let (salt, rest) = rest.split_at(SALT_LEN);
    let (nonce, ciphertext) = rest.split_at(NONCE_LEN);
    assert(salt@ =~= salt_of(bytes@));
    assert(nonce@ =~= nonce_of(bytes@));
    assert(ciphertext@ =~= ciphertext_of(bytes@));
    Ok((salt, nonce, ciphertext))
}

/// Framing and then parsing gives back the three parts.
pub proof fn lemma_parse_frame(salt: Seq<u8>, nonce: Seq<u8>, ciphertext: Seq<u8>)
    requires
        salt.len() == SALT_LEN,
        nonce.len() == NONCE_LEN,
    ensures
        parse_spec(frame(salt, nonce, ciphertext)) == Ok::<_, CryptoError>((salt, nonce, ciphertext)),
{
    let b = frame(salt, nonce, ciphertext);
    assert(b.subrange(0, MAGIC_LEN as int) =~= magic());
    assert(salt_of(b) =~= salt);
    assert(nonce_of(b) =~= nonce);
    assert(ciphertext_of(b) =~= ciphertext);
}

} // verus!
