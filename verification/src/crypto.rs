//! Crypto primitives: signing-key parsing, recoverable ECDSA signing over a
//! SHA-256 digest, and bech32 address derivation. The hash, signature and
//! encoding computations come from outside crates through trusted wrappers;
//! the byte layout of the recoverable signature and the derivation pipeline
//! are verified here.
use vstd::prelude::*;


verus! {

/// Errors of the crypto primitives.
#[derive(Debug, PartialEq, Eq, Structural)]
pub enum CryptoError {
    /// The credential was not a hex encoding of an acceptable private key.
    InvalidKeyEncoding,
    /// The signing backend rejected the request.
    SigningFailure,
}

/// The SHA-256 digest of a byte string: a pure function of its input,
/// computed by an outside crate.
pub uninterp spec fn sha256_of(data: Seq<u8>) -> Seq<u8>;

/// The RIPEMD-160 digest of a byte string: a pure function of its input,
/// computed by an outside crate.
pub uninterp spec fn ripemd160_of(data: Seq<u8>) -> Seq<u8>;

/// The lower-case bech32 encoding of data under a human-readable prefix: a
/// pure function of its inputs, computed by an outside crate.
pub uninterp spec fn bech32_of(hrp: Seq<char>, data: Seq<u8>) -> Seq<char>;

/// Relies on sha2::Sha256 through digest::Digest::digest: the digest depends
/// on the input bytes alone and is exactly 32 bytes long.
#[verifier::external_body]
pub fn sha256_digest(data: &[u8]) -> (r: Vec<u8>)
    ensures
        r@ == sha256_of(data@),
        r@.len() == 32,
{
    <sha2::Sha256 as sha2::Digest>::digest(data).to_vec()
}

/// Relies on ripemd::Ripemd160 through digest::Digest::digest: the digest
/// depends on the input bytes alone and is exactly 20 bytes long.
#[verifier::external_body]
pub fn ripemd160_digest(data: &[u8]) -> (r: Vec<u8>)
    ensures
        r@ == ripemd160_of(data@),
        r@.len() == 20,
{
    <ripemd::Ripemd160 as ripemd::Digest>::digest(data).to_vec()
}

/// Relies on subtle_encoding::bech32::encode: lower-case bech32, a pure
/// function of prefix and data, total for every input. The result is the
/// human-readable prefix verbatim, the `1` separator, then the base32 data
/// and a six-character checksum.
#[verifier::external_body]
pub fn bech32_encode(hrp: &str, data: &[u8]) -> (r: String)
    ensures
        r@ == bech32_of(hrp@, data@),
        r@.len() >= hrp@.len() + 7,
        r@.take(hrp@.len() as int) == hrp@,
        r@[hrp@.len() as int] == '1',
{
    subtle_encoding::bech32::encode(hrp, data)
}

/// A hexadecimal digit character.
pub open spec fn is_hex_digit(c: char) -> bool {
    ('0' <= c && c <= '9') || ('a' <= c && c <= 'f') || ('A' <= c && c <= 'F')
}

/// The value of a hexadecimal digit character.
pub open spec fn hex_digit_val(c: char) -> u8
    recommends
        is_hex_digit(c),
{
    if '0' <= c && c <= '9' {
        ((c as u32) - 0x30) as u8
    } else if 'a' <= c && c <= 'f' {
        ((c as u32) - 0x61 + 10) as u8
    } else {
        ((c as u32) - 0x41 + 10) as u8
    }
}

/// A string that hex-decodes: an even number of hex digit characters.
pub open spec fn valid_hex(s: Seq<char>) -> bool {
    s.len() % 2 == 0 && (forall|i: int| 0 <= i < s.len() ==> is_hex_digit(#[trigger] s[i]))
}

/// The bytes a hex string denotes, two digits to a byte, high digit first.
pub open spec fn hex_bytes(s: Seq<char>) -> Seq<u8>
    recommends
        valid_hex(s),
    decreases s.len(),
{
    if s.len() < 2 {
        Seq::empty()
    } else {
        hex_bytes(s.drop_last().drop_last()) + seq![
            (hex_digit_val(s[s.len() - 2]) * 16 + hex_digit_val(s[s.len() - 1])) as u8,
        ]
    }
}

/// Relies on hex::decode: it succeeds exactly on an even number of hex digit
/// characters (a non-ASCII character encodes to bytes that are not hex
/// digits) and returns the denoted bytes.
#[verifier::external_body]
pub(crate) fn hex_decode(s: &str) -> (r: Option<Vec<u8>>)
    ensures
        r is Some <==> valid_hex(s@),
        r is Some ==> r->0@ == hex_bytes(s@),
{
    hex::decode(s).ok()
}

/// Whether the secp256k1 backend accepts a byte string as a secret key: the
/// acceptance decision of SecretKey::from_slice, a function of the bytes
/// alone (a 24- to 32-byte big-endian encoding of a valid non-zero scalar).
pub uninterp spec fn accepts_key_bytes(bytes: Seq<u8>) -> bool;

/// The recoverable ECDSA/secp256k1 signature over a 32-byte digest: the raw
/// 64 signature bytes (r then s) and the recovery id. RFC 6979 nonces make
/// it a pure function of the key bytes and the digest; it is absent exactly
/// where the backend declines to sign.
pub uninterp spec fn recoverable_signature_of(key_bytes: Seq<u8>, prehash: Seq<u8>) -> Option<
    (Seq<u8>, u8),
>;

/// The compressed SEC1 encoding of the public key belonging to a secret
/// key: a pure function of the key bytes.
pub uninterp spec fn public_key_of(key_bytes: Seq<u8>) -> Seq<u8>;

/// Relies on k256's SecretKey::from_slice: whether it accepts a byte string
/// is deterministic in the bytes — it rejects every slice shorter than 24 or
/// longer than 32 bytes and otherwise accepts exactly the encodings of a
/// valid non-zero scalar.
#[verifier::external_body]
pub(crate) fn secret_key_accepts(bytes: &[u8]) -> (r: bool)
    ensures
        r == accepts_key_bytes(bytes@),
        r ==> 24 <= bytes@.len() <= 32,
{
    k256::SecretKey::from_slice(bytes).is_ok()
}

/// Relies on k256's SecretKey::from_slice (which cannot fail under the
/// precondition) and its ecdsa SigningKey::sign_prehash_recoverable, reached
/// through SigningKey::from: deterministic in key bytes and digest, with a
/// 64-byte (r,s) serialization and a recovery id of at most 3 on success.
#[verifier::external_body]
pub(crate) fn sign_prehash_recoverable(key_bytes: &[u8], prehash: &[u8]) -> (r: Option<
    (Vec<u8>, u8),
>)
    requires
        accepts_key_bytes(key_bytes@),
    ensures
        r is Some <==> recoverable_signature_of(key_bytes@, prehash@) is Some,
        r matches Some(p) ==> recoverable_signature_of(key_bytes@, prehash@) matches Some(q)
            && p.0@ == q.0 && p.1 == q.1 && q.0.len() == 64 && q.1 <= 3,
{
    let key = k256::SecretKey::from_slice(key_bytes).unwrap();
    match k256::ecdsa::SigningKey::from(&key).sign_prehash_recoverable(prehash) {
        Ok((sig, recid)) => Some((sig.to_bytes().to_vec(), recid.to_byte())),
        Err(_) => None,
    }
}

/// Relies on k256's SecretKey::from_slice (which cannot fail under the
/// precondition), SecretKey::public_key and PublicKey::to_sec1_bytes:
/// deterministic in the key bytes, and secp256k1 compresses points, so the
/// SEC1 encoding is exactly 33 bytes.
#[verifier::external_body]
pub(crate) fn secret_key_public_bytes(key_bytes: &[u8]) -> (r: Vec<u8>)
    requires
        accepts_key_bytes(key_bytes@),
    ensures
        r@ == public_key_of(key_bytes@),
        r@.len() == 33,
{
    k256::SecretKey::from_slice(key_bytes).unwrap().public_key().to_sec1_bytes().to_vec()
}

/// A parsed and validated signing key: the scalar bytes the secp256k1
/// backend accepted. The view of a key is its byte string.
pub struct SigningKey {
    key_bytes: Vec<u8>,
}

impl View for SigningKey {
    type V = Seq<u8>;

    closed spec fn view(&self) -> Seq<u8> {
        self.key_bytes@
    }
}

impl SigningKey {
    /// Validity: the backend accepted these bytes, so signing and public-key
    /// derivation are defined on them.
    #[verifier::type_invariant]
    pub closed spec fn wf(&self) -> bool {
        accepts_key_bytes(self.key_bytes@)
    }
}

/// The compressed SEC1 public key of a signing key: 33 bytes, a pure
/// function of the key.
pub fn public_key_bytes(key: &SigningKey) -> (r: Vec<u8>)
    ensures
        r@ == public_key_of(key@),
        r@.len() == 33,
{
    proof {
        use_type_invariant(key);
    }
    secret_key_public_bytes(key.key_bytes.as_slice())
}

/// Parse a signing key from raw hex: succeeds exactly on an even-length hex
/// string whose bytes the secp256k1 backend accepts as a secret key, and
/// rejects everything else as a key-encoding error.
pub fn signing_key_from_hex(hex_key: &str) -> (r: Result<SigningKey, CryptoError>)
    ensures
        r is Ok <==> valid_hex(hex_key@) && accepts_key_bytes(hex_bytes(hex_key@)),
        r matches Ok(k) ==> k@ == hex_bytes(hex_key@),
        r is Err ==> r->Err_0 == CryptoError::InvalidKeyEncoding,
{
    match hex_decode(hex_key) {
        Some(key_bytes) => {
            if secret_key_accepts(key_bytes.as_slice()) {
                Ok(SigningKey { key_bytes })
            } else {
                Err(CryptoError::InvalidKeyEncoding)
            }
        },
        None => Err(CryptoError::InvalidKeyEncoding),
    }
}

/// Lay out a recoverable signature on the wire: one byte holding `27 +
/// recovery id`, then the raw 64 signature bytes.
pub fn assemble_recoverable_signature(recid: u8, rs: &Vec<u8>) -> (r: Vec<u8>)
    requires
        recid <= 3,
    ensures
        r@ == seq![(27 + recid) as u8] + rs@,
{
    let mut out: Vec<u8> = Vec::new();
    out.push(27 + recid);
    let mut i: usize = 0;
    let len = rs.len();
    while i < len
        invariant
            i <= len,
            len == rs@.len(),
            out@ == seq![(27 + recid) as u8] + rs@.take(i as int),
        decreases len - i,
    {
        out.push(rs[i]);
        proof {
            assert(out@ =~= seq![(27 + recid) as u8] + rs@.take(i + 1));
        }
        i = i + 1;
    }
    proof {
        assert(rs@.take(len as int) =~= rs@);
    }
    out
}

/// Sign data with a recoverable ECDSA signature over its SHA-256 digest.
/// The call succeeds exactly when the backend signs that digest under this
/// key; the result is then 65 bytes, one byte holding `27 + recovery id`
/// followed by the named raw (r,s) signature — deterministic in the data and
/// the key.
pub fn sign_data(data: &[u8], signing_key: &SigningKey) -> (r: Result<
    Vec<u8>,
    CryptoError,
>)
    ensures
        r is Ok <==> recoverable_signature_of(signing_key@, sha256_of(data@)) is Some,
        r matches Ok(sig) ==> (recoverable_signature_of(signing_key@, sha256_of(data@))
            matches Some(p) && sig@ == seq![(27 + p.1) as u8] + p.0 && sig@.len() == 65 && 27
            <= sig@[0] <= 30),
        r is Err ==> r->Err_0 == CryptoError::SigningFailure,
{
    proof {
        use_type_invariant(signing_key);
    }
    let digest = sha256_digest(data);
    match sign_prehash_recoverable(signing_key.key_bytes.as_slice(), digest.as_slice()) {
        Some((rs, recid)) => {
            let sig = assemble_recoverable_signature(recid, &rs);
            proof {
                assert(sig@ == seq![(27 + recid) as u8] + rs@);
                assert(sig@[0] == (27 + recid) as u8);
            }
            Ok(sig)
        },
        None => Err(CryptoError::SigningFailure),
    }
}

/// Derive the chain address of a public key: bech32 of the RIPEMD-160 of the
/// SHA-256 of its bytes, under the given human-readable chain prefix. There
/// is no failure mode, and the address begins with the prefix followed by
/// the bech32 separator.
pub fn public_key_to_address(public_key: &[u8], chain: &str) -> (r: Result<String, CryptoError>)
    ensures
        r is Ok,
        r->Ok_0@ == bech32_of(chain@, ripemd160_of(sha256_of(public_key@))),
        r->Ok_0@.len() >= chain@.len() + 7,
        r->Ok_0@.take(chain@.len() as int) == chain@,
        r->Ok_0@[chain@.len() as int] == '1',
{
    let sha256_hash = sha256_digest(public_key);
    let ripemd160_hash = ripemd160_digest(sha256_hash.as_slice());
    let address = bech32_encode(chain, ripemd160_hash.as_slice());
    Ok(address)
}

} // verus!
