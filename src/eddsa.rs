use crate::errors::{SignatureReason, UsageReason, WError};
use crate::signature::{le32, push_all, push_le32, KeyPair, PublicKey, SecretKey, Signature};
use vstd::prelude::*;

verus! {

/// The id of Ed25519 over a SHA-512 pre-hash.
pub const ALG_ID: u32 = 2;

/// Length of a raw Ed25519 signature.
pub const RAW_SIGNATURE_BYTES: usize = 64;

/// Length of a raw Ed25519 public key.
pub const PUBLIC_KEY_BYTES: usize = 32;

/// Length of a raw Ed25519 secret key (seed followed by public key).
pub const SECRET_KEY_BYTES: usize = 64;

/// The domain-separation string `"WasmSignature"` as bytes.
pub open spec fn context() -> Seq<u8> {
    seq![0x57u8, 0x61, 0x73, 0x6d, 0x53, 0x69, 0x67, 0x6e, 0x61, 0x74, 0x75, 0x72, 0x65]
}

/// The bytes that are hashed before signing: the context, the length of the
/// additional data as four little-endian bytes, the additional data, and the
/// data itself.
pub open spec fn prehash_input(ad: Seq<u8>, data: Seq<u8>) -> Seq<u8> {
    context() + le32(ad.len() as u32) + ad + data
}

/// The SHA-512 digest of `data`.
pub uninterp spec fn sha512_of(data: Seq<u8>) -> Seq<u8>;

/// Whether Ed25519 accepts `sig` as a signature of `msg` under the public key
/// `pk`.
pub uninterp spec fn ed25519_accepts(pk: Seq<u8>, msg: Seq<u8>, sig: Seq<u8>) -> bool;

/// The Ed25519 public key that the 32-byte seed `seed` derives.
pub uninterp spec fn ed25519_public_of(seed: Seq<u8>) -> Seq<u8>;

/// A 64-byte Ed25519 secret key: a seed followed by the public key that the
/// seed derives.
pub open spec fn is_ed25519_secret_key(sk: Seq<u8>) -> bool {
    &&& sk.len() == SECRET_KEY_BYTES
    &&& sk.subrange(32, 64) == ed25519_public_of(sk.subrange(0, 32))
}

/// The digest that is signed for `data` under `ad`.
pub open spec fn prehash_of(ad: Seq<u8>, data: Seq<u8>) -> Seq<u8> {
    sha512_of(prehash_input(ad, data))
}

/// What verification of `raw` over `data` and `ad` under the raw public key
/// `pk` answers.
pub open spec fn ed25519_outcome(pk: Seq<u8>, ad: Seq<u8>, data: Seq<u8>, raw: Seq<u8>) -> Result<(), WError> {
    if ad.len() > u32::MAX {
        Err(WError::UsageError(UsageReason::AdTooLong))
    } else if pk.len() != PUBLIC_KEY_BYTES {
        Err(WError::SignatureError(SignatureReason::InvalidPublicKey))
    } else if raw.len() != RAW_SIGNATURE_BYTES {
        Err(WError::SignatureError(SignatureReason::InvalidSignature))
    } else if ed25519_accepts(pk, prehash_of(ad, data), raw) {
        Ok(())
    } else {
        Err(WError::SignatureError(SignatureReason::Mismatch))
    }
}

/// The additional data, with absent data read as empty.
pub open spec fn ad_bytes(ad: Option<&[u8]>) -> Seq<u8> {
    match ad {
        Some(a) => a@,
        None => Seq::empty(),
    }
}

/// Relies on hmac_sha512::Hash::hash: the SHA-512 digest, 64 bytes long.
#[verifier::external_body]
fn sha512(data: &[u8]) -> (r: Vec<u8>)
    ensures
        r@ == sha512_of(data@),
        r@.len() == 64,
{
    hmac_sha512::Hash::hash(data).to_vec()
}

/// Relies on ed25519_compact::KeyPair::from_seed with a random seed: the
/// public key is 32 bytes and derived from the seed alone, and the secret key
/// is the 32-byte seed followed by that public key.
#[verifier::external_body]
fn ed25519_generate() -> (r: (Vec<u8>, Vec<u8>))
    ensures
        r.0@.len() == PUBLIC_KEY_BYTES,
        r.1@.len() == SECRET_KEY_BYTES,
        r.1@.subrange(32, 64) == r.0@,
        r.0@ == ed25519_public_of(r.1@.subrange(0, 32)),
{
    let kp = ed25519_compact::KeyPair::from_seed(ed25519_compact::Seed::default());
    (kp.pk.to_vec(), kp.sk.to_vec())
}

/// Relies on ed25519_compact::SecretKey::from_slice and SecretKey::sign with
/// random noise: a 64-byte key is accepted, the signature is 64 bytes long,
/// and when the key's second half is the public key that its seed derives,
/// the signature verifies under that public key.
#[verifier::external_body]
fn ed25519_sign(sk: &[u8], msg: &[u8]) -> (r: Vec<u8>)
    requires
        sk@.len() == SECRET_KEY_BYTES,
    ensures
        r@.len() == RAW_SIGNATURE_BYTES,
        is_ed25519_secret_key(sk@) ==> ed25519_accepts(sk@.subrange(32, 64), msg@, r@),
{
    match ed25519_compact::SecretKey::from_slice(sk) {
        Ok(key) => key.sign(msg, Some(ed25519_compact::Noise::default())).to_vec(),
        Err(_) => Vec::new(),
    }
}

/// Relies on ed25519_compact::PublicKey::from_slice, Signature::from_slice and
/// PublicKey::verify: with a 32-byte key and a 64-byte signature both decode,
/// and the answer is the outcome of the check.
#[verifier::external_body]
fn ed25519_verify(pk: &[u8], msg: &[u8], sig: &[u8]) -> (r: bool)
    requires
        pk@.len() == PUBLIC_KEY_BYTES,
        sig@.len() == RAW_SIGNATURE_BYTES,
    ensures
        r == ed25519_accepts(pk@, msg@, sig@),
{
    match (ed25519_compact::PublicKey::from_slice(pk), ed25519_compact::Signature::from_slice(sig)) {
        (Ok(key), Ok(signature)) => key.verify(msg, &signature).is_ok(),
        _ => false,
    }
}

/// Ed25519 over a SHA-512 pre-hash of the framed data.
#[derive(Clone, Copy, Debug)]
pub struct EdDSA;

impl EdDSA {
    pub fn alg_id(&self) -> (r: u32)
        ensures
            r == ALG_ID,
    {
        ALG_ID
    }

    pub fn raw_signature_length(&self) -> (r: usize)
        ensures
            r == RAW_SIGNATURE_BYTES,
    {
        RAW_SIGNATURE_BYTES
    }

    /// A fresh random key pair.
    pub fn keygen(&self) -> (r: KeyPair)
        ensures
            r.wf(),
            r.alg_id == ALG_ID,
            r.pk.spec_raw().len() == PUBLIC_KEY_BYTES,
            r.sk.spec_raw().len() == SECRET_KEY_BYTES,
            r.sk.spec_raw().subrange(32, 64) == r.pk.spec_raw(),
            r.pk.spec_raw() == ed25519_public_of(r.sk.spec_raw().subrange(0, 32)),
            is_ed25519_secret_key(r.sk.spec_raw()),
    {
        let (pk, sk) = ed25519_generate();
        KeyPair::new(ALG_ID, PublicKey::new(ALG_ID, pk), SecretKey::new(ALG_ID, sk))
    }

    /// The digest that is signed: SHA-512 of the context, the length of `ad`,
    /// `ad` and `data`.
    pub fn prehash(data: &[u8], ad: Option<&[u8]>) -> (r: Result<Vec<u8>, WError>)
        ensures
            ad_bytes(ad).len() > u32::MAX ==> r == Err::<Vec<u8>, WError>(WError::UsageError(UsageReason::AdTooLong)),
            ad_bytes(ad).len() <= u32::MAX ==> r is Ok && r->Ok_0@ == prehash_of(ad_bytes(ad), data@),
    {
        let empty: [u8; 0] = [];
        let ad_in = ad;
        let ad: &[u8] = match ad_in {
            Some(a) => a,
            None => empty.as_slice(),
        };
        assert(ad@ == ad_bytes(ad_in)) by {
            assert(empty@ =~= Seq::<u8>::empty());
        };
        if ad.len() > u32::MAX as usize {
            return Err(WError::UsageError(UsageReason::AdTooLong));
        }
        let mut input: Vec<u8> = vec![
            0x57u8, 0x61, 0x73, 0x6d, 0x53, 0x69, 0x67, 0x6e, 0x61, 0x74, 0x75, 0x72, 0x65,
        ];
        assert(input@ =~= context());
        push_le32(&mut input, ad.len() as u32);
        push_all(&mut input, ad);
        push_all(&mut input, data);
        assert(input@ =~= prehash_input(ad@, data@));
        Ok(sha512(input.as_slice()))
    }

    /// Signs the framed pre-hash of `data` and `ad` with the pair's secret key.
    pub fn sign(&self, data: &[u8], ad: Option<&[u8]>, key_pair: &KeyPair) -> (r: Result<Signature, WError>)
        ensures
            ad_bytes(ad).len() > u32::MAX ==> r == Err::<Signature, WError>(WError::UsageError(UsageReason::AdTooLong)),
            ad_bytes(ad).len() <= u32::MAX && key_pair.sk.spec_raw().len() != SECRET_KEY_BYTES
                ==> r == Err::<Signature, WError>(WError::SignatureError(SignatureReason::InvalidSecretKey)),
            ad_bytes(ad).len() <= u32::MAX && key_pair.sk.spec_raw().len() == SECRET_KEY_BYTES
                ==> r is Ok && r->Ok_0.spec_alg_id() == ALG_ID
                && r->Ok_0.spec_raw().len() == RAW_SIGNATURE_BYTES,
            r is Ok && is_ed25519_secret_key(key_pair.sk.spec_raw()) ==> ed25519_accepts(
                key_pair.sk.spec_raw().subrange(32, 64),
                prehash_of(ad_bytes(ad), data@),
                r->Ok_0.spec_raw(),
            ),
    {
        let prehashed = Self::prehash(data, ad)?;
        let sk = key_pair.sk.raw();
        if sk.len() != SECRET_KEY_BYTES {
            return Err(WError::SignatureError(SignatureReason::InvalidSecretKey));
        }
        let raw = ed25519_sign(sk, prehashed.as_slice());
        Ok(Signature::new(ALG_ID, raw))
    }

    /// Checks `signature` over the framed pre-hash of `data` and `ad` under the
    /// raw public key `pk`.
    pub fn verify(&self, data: &[u8], ad: Option<&[u8]>, pk: &[u8], signature: &Signature) -> (r: Result<(), WError>)
        ensures
            signature.spec_alg_id() != ALG_ID ==> r == Err::<(), WError>(WError::SignatureError(SignatureReason::SchemeMismatch)),
            signature.spec_alg_id() == ALG_ID ==> r == ed25519_outcome(pk@, ad_bytes(ad), data@, signature.spec_raw()),
    {
        if signature.alg_id() != ALG_ID {
            return Err(WError::SignatureError(SignatureReason::SchemeMismatch));
        }
        let prehashed = Self::prehash(data, ad)?;
        if pk.len() != PUBLIC_KEY_BYTES {
            return Err(WError::SignatureError(SignatureReason::InvalidPublicKey));
        }
        let raw = signature.raw();
        if raw.len() != RAW_SIGNATURE_BYTES {
            return Err(WError::SignatureError(SignatureReason::InvalidSignature));
        }
        if ed25519_verify(pk, prehashed.as_slice(), raw) {
            Ok(())
        } else {
            Err(WError::SignatureError(SignatureReason::Mismatch))
        }
    }
}

} // verus!
