//! Sealing a plaintext into an envelope and opening an envelope again.
use vstd::prelude::*;

use rand::RngCore;

use crate::aead::{aes256gcm_seal, open, seal, within_limits};
use crate::envelope::{
    append_bytes, assemble_envelope, frame, magic, nonce_of, parse_envelope, parse_spec, salt_of, HEADER_LEN,
    MAGIC_LEN, NONCE_LEN, SALT_LEN, TAG_LEN,
};
use crate::error::CryptoError;
use crate::kdf::{derive_key, derived_key, wipe_key};

verus! {

/// The random source's error value.
#[verifier::external_type_specification]
#[verifier::external_body]
pub struct ExRandError(rand::Error);

/// Relies on `RngCore::try_fill_bytes` of `rand::rngs::OsRng`: it asks the
/// operating system's secure source (through `getrandom`) for the bytes and
/// returns that source's error instead of panicking when it fails. Nothing is
/// promised of the bytes.
#[verifier::external_body]
fn fill_random<const N: usize>(buf: &mut [u8; N]) -> (r: Result<(), rand::Error>) {
    rand::rngs::OsRng.try_fill_bytes(buf)
}

/// Marks present associated data in what the cipher authenticates.
pub const AAD_PRESENT: u8 = 1;

/// What the cipher authenticates for an optional associated-data argument:
/// nothing when it is absent, and a marker byte followed by the data when it
/// is present, so that absent and present-but-empty data differ.
pub open spec fn aad_of(aad: Option<&[u8]>) -> Seq<u8> {
    match aad {
        Some(a) => seq![AAD_PRESENT] + a@,
        None => Seq::empty(),
    }
}

/// Distinct associated-data arguments are authenticated as distinct bytes:
/// absent data never matches present data (empty or not), and two present
/// values match only when they are equal.
pub proof fn lemma_aad_of_injective(a: Option<&[u8]>, b: Option<&[u8]>)
    requires
        aad_of(a) == aad_of(b),
    ensures
        a is None <==> b is None,
        a matches Some(x) ==> (b matches Some(y) && x@ == y@),
{
    if let Some(x) = a {
        assert(aad_of(a).len() > 0);
        if let Some(y) = b {
            assert(x@ =~= aad_of(a).subrange(1, aad_of(a).len() as int));
            assert(y@ =~= aad_of(b).subrange(1, aad_of(b).len() as int));
        }
    } else if let Some(y) = b {
        assert(aad_of(b).len() > 0);
    }
}

/// A result with its bytes viewed as a sequence.
pub open spec fn bytes_result(r: Result<Vec<u8>, CryptoError>) -> Result<Seq<u8>, CryptoError> {
    match r {
        Ok(v) => Ok(v@),
        Err(e) => Err(e),
    }
}

/// The envelope that sealing `plaintext` under `passphrase`, `aad`, `salt` and
/// `nonce` yields.
pub open spec fn sealed(
    plaintext: Seq<u8>,
    passphrase: Seq<u8>,
    aad: Seq<u8>,
    salt: Seq<u8>,
    nonce: Seq<u8>,
) -> Seq<u8> {
    frame(salt, nonce, aes256gcm_seal(derived_key(passphrase, salt), nonce, aad, plaintext))
}

/// Whether `bytes` is the sealing of `plaintext` under `passphrase` and `aad`,
/// with the salt and nonce that `bytes` carries.
pub open spec fn opens_to(bytes: Seq<u8>, passphrase: Seq<u8>, aad: Seq<u8>, plaintext: Seq<u8>) -> bool {
    bytes.len() >= HEADER_LEN && bytes == sealed(plaintext, passphrase, aad, salt_of(bytes), nonce_of(bytes))
}

/// What `encrypt` may return: an envelope that opens to the plaintext, a
/// failure of the random source, or a refusal of inputs too long to seal.
pub open spec fn encrypt_post(
    plaintext: Seq<u8>,
    passphrase: Seq<u8>,
    aad: Seq<u8>,
    r: Result<Seq<u8>, CryptoError>,
) -> bool {
    match r {
        Ok(e) => within_limits(aad, plaintext) && opens_to(e, passphrase, aad, plaintext) && e.len()
            == HEADER_LEN + plaintext.len() + TAG_LEN,
        Err(err) => err == CryptoError::RandomSourceFailure || (err == CryptoError::EncryptionFailure
            && !within_limits(aad, plaintext)),
    }
}

/// What `decrypt` returns: the header's errors first; then the one plaintext
/// (within the cipher's limits) that the envelope is a sealing of, or
/// `AuthenticationFailure` when there is none.
pub open spec fn decrypt_post(
    bytes: Seq<u8>,
    passphrase: Seq<u8>,
    aad: Seq<u8>,
    r: Result<Seq<u8>, CryptoError>,
) -> bool {
    match parse_spec(bytes) {
        Err(e) => r == Err::<Seq<u8>, CryptoError>(e),
        Ok(_) => match r {
            Ok(p) => opens_to(bytes, passphrase, aad, p) && forall|q: Seq<u8>|
                within_limits(aad, q) && #[trigger] opens_to(bytes, passphrase, aad, q) ==> q == p,
            Err(e) => e == CryptoError::AuthenticationFailure && forall|q: Seq<u8>|
                !(within_limits(aad, q) && #[trigger] opens_to(bytes, passphrase, aad, q)),
        },
    }
}

/// The bytes that the cipher authenticates for `aad`.
fn encode_aad(aad: Option<&[u8]>) -> (r: Vec<u8>)
    ensures
        r@ == aad_of(aad),
{
    let mut out: Vec<u8> = Vec::new();
    if let Some(a) = aad {
        out.push(AAD_PRESENT);
        append_bytes(&mut out, a);
        assert(out@ =~= seq![AAD_PRESENT] + a@);
    } else {
        assert(out@ =~= Seq::<u8>::empty());
    }
    out
}

/// Seals `plaintext` into an envelope with the given salt and nonce.
///
/// The key is derived from `passphrase` and `salt` and wiped once the cipher
/// has run. Fails with `EncryptionFailure` exactly when the plaintext or the
/// associated data exceeds the cipher's limits.
pub fn encrypt_with(
    plaintext: &[u8],
    passphrase: &[u8],
    aad: Option<&[u8]>,
    salt: &[u8; 16],
    nonce: &[u8; 12],
) -> (r: Result<Vec<u8>, CryptoError>)
    ensures
        r is Ok <==> within_limits(aad_of(aad), plaintext@),
        r matches Ok(e) ==> e@ == sealed(plaintext@, passphrase@, aad_of(aad), salt@, nonce@),
        r matches Ok(e) ==> opens_to(e@, passphrase@, aad_of(aad), plaintext@),
        r matches Ok(e) ==> e@.len() == HEADER_LEN + plaintext@.len() + TAG_LEN,
        r matches Err(e) ==> e == CryptoError::EncryptionFailure,
{
    let aad_bytes = encode_aad(aad);
    let mut key = derive_key(passphrase, salt.as_slice());
    let sealed_bytes = seal(&key, nonce.as_slice(), aad_bytes.as_slice(), plaintext);
    wipe_key(&mut key);
    match sealed_bytes {
        Ok(c) => {
            proof {
                lemma_frame_parts(salt@, nonce@, c@);
            }
            Ok(assemble_envelope(salt.as_slice(), nonce.as_slice(), c.as_slice()))
        },
        Err(_) => Err(CryptoError::EncryptionFailure),
    }
}

/// Seals `plaintext` into a new envelope under `passphrase` and `aad`, with a
/// fresh random salt and nonce.
pub fn encrypt(plaintext: &[u8], passphrase: &[u8], aad: Option<&[u8]>) -> (r: Result<
    Vec<u8>,
    CryptoError,
>)
    ensures
        encrypt_post(plaintext@, passphrase@, aad_of(aad), bytes_result(r)),
{
    let mut salt: [u8; 16] = [0u8; 16];
    if fill_random(&mut salt).is_err() {
        return Err(CryptoError::RandomSourceFailure);
    }
    let mut nonce: [u8; 12] = [0u8; 12];
    if fill_random(&mut nonce).is_err() {
        return Err(CryptoError::RandomSourceFailure);
    }
    encrypt_with(plaintext, passphrase, aad, &salt, &nonce)
}

/// The salt and nonce of a framed envelope are the ones framed.
proof fn lemma_frame_parts(salt: Seq<u8>, nonce: Seq<u8>, ciphertext: Seq<u8>)
    requires
        salt.len() == SALT_LEN,
        nonce.len() == NONCE_LEN,
    ensures
        frame(salt, nonce, ciphertext).len() >= HEADER_LEN,
        salt_of(frame(salt, nonce, ciphertext)) == salt,
        nonce_of(frame(salt, nonce, ciphertext)) == nonce,
{
    let b = frame(salt, nonce, ciphertext);
    assert(salt_of(b) =~= salt);
    assert(nonce_of(b) =~= nonce);
}

/// Opens an envelope under `passphrase` and `aad`.
///
/// Input shorter than the header fails with `MalformedEnvelope`; a wrong magic
/// tag with `UnsupportedFormat`; anything the cipher rejects (a wrong
/// passphrase, wrong associated data, a changed byte) with
/// `AuthenticationFailure`. The key is wiped on every path.
pub fn decrypt(envelope: &[u8], passphrase: &[u8], aad: Option<&[u8]>) -> (r: Result<
    Vec<u8>,
    CryptoError,
>)
    ensures
        envelope@.len() < HEADER_LEN ==> r == Err::<Vec<u8>, CryptoError>(
            CryptoError::MalformedEnvelope,
        ),
        envelope@.len() >= HEADER_LEN && envelope@.subrange(0, MAGIC_LEN as int) != magic() ==> r
            == Err::<Vec<u8>, CryptoError>(CryptoError::UnsupportedFormat),
        decrypt_post(envelope@, passphrase@, aad_of(aad), bytes_result(r)),
{
    let (salt, nonce, ciphertext) = match parse_envelope(envelope) {
        Ok(parts) => parts,
        Err(e) => return Err(e),
    };
    let aad_bytes = encode_aad(aad);
    let mut key = derive_key(passphrase, salt);
    let ghost k = key@;
    let opened = open(&key, nonce, aad_bytes.as_slice(), ciphertext);
    wipe_key(&mut key);
    proof {
        assert(envelope@ =~= frame(salt@, nonce@, ciphertext@));
        assert forall|q: Seq<u8>| #[trigger] opens_to(envelope@, passphrase@, aad_of(aad), q) <==>
            ciphertext@ == aes256gcm_seal(k, nonce@, aad_of(aad), q) by {
            if opens_to(envelope@, passphrase@, aad_of(aad), q) {
                let s = aes256gcm_seal(k, nonce@, aad_of(aad), q);
                assert(frame(salt@, nonce@, ciphertext@) == frame(salt@, nonce@, s));
                assert(ciphertext@ =~= frame(salt@, nonce@, ciphertext@).subrange(HEADER_LEN as int, envelope@.len() as int));
                assert(s =~= frame(salt@, nonce@, s).subrange(HEADER_LEN as int, envelope@.len() as int));
            }
        }
    }
    match opened {
        Ok(p) => Ok(p),
        Err(_) => Err(CryptoError::AuthenticationFailure),
    }
}

/// Round trip: an envelope that `encrypt` returned for a plaintext, a
/// passphrase and associated data opens, under the same passphrase and
/// associated data, to that same plaintext.
pub proof fn lemma_round_trip(
    plaintext: Seq<u8>,
    passphrase: Seq<u8>,
    aad: Seq<u8>,
    envelope: Seq<u8>,
    opened: Result<Seq<u8>, CryptoError>,
)
    requires
        encrypt_post(plaintext, passphrase, aad, Ok(envelope)),
        decrypt_post(envelope, passphrase, aad, opened),
    ensures
        opened == Ok::<Seq<u8>, CryptoError>(plaintext),
{
    let s = salt_of(envelope);
    let n = nonce_of(envelope);
    let c = aes256gcm_seal(derived_key(passphrase, s), n, aad, plaintext);
    assert(s.len() == SALT_LEN);
    assert(n.len() == NONCE_LEN);
    crate::envelope::lemma_parse_frame(s, n, c);
    assert(opens_to(envelope, passphrase, aad, plaintext));
}

} // verus!
