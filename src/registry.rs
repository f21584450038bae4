use crate::eddsa::{
    ad_bytes, ed25519_accepts, ed25519_outcome, ed25519_public_of, is_ed25519_secret_key, prehash_of,
    EdDSA, ALG_ID, PUBLIC_KEY_BYTES, RAW_SIGNATURE_BYTES, SECRET_KEY_BYTES,
};
use crate::errors::{SignatureReason, UsageReason, WError};
use crate::signature::{KeyPair, PublicKey, SecretKey, Signature};
use vstd::prelude::*;

verus! {

/// Whether `alg_id` names an algorithm of the registry.
pub open spec fn is_known_alg(alg_id: u32) -> bool {
    alg_id == ALG_ID
}

/// Length of the raw signatures of a known algorithm.
pub open spec fn raw_signature_len(alg_id: u32) -> nat {
    RAW_SIGNATURE_BYTES as nat
}

/// Length of the wire form `alg_id ‖ raw` of a known algorithm's signatures.
pub open spec fn signature_len(alg_id: u32) -> nat {
    4 + raw_signature_len(alg_id)
}

/// The signature algorithms that this library knows.
#[derive(Clone, Copy, Debug)]
pub enum SignatureAlg {
    EdDSA(EdDSA),
}

/// The algorithm that `alg_id` names.
pub fn algorithm_for(alg_id: u32) -> (r: Result<SignatureAlg, WError>)
    ensures
        is_known_alg(alg_id) ==> r is Ok && r->Ok_0.spec_alg_id() == alg_id,
        !is_known_alg(alg_id) ==> r == Err::<SignatureAlg, WError>(WError::Unsupported),
{
    if alg_id == ALG_ID {
        Ok(SignatureAlg::EdDSA(EdDSA))
    } else {
        Err(WError::Unsupported)
    }
}

impl SignatureAlg {
    pub open spec fn spec_alg_id(&self) -> u32 {
        match self {
            SignatureAlg::EdDSA(_) => ALG_ID,
        }
    }

    pub fn alg_id(&self) -> (r: u32)
        ensures
            r == self.spec_alg_id(),
    {
        match self {
            SignatureAlg::EdDSA(a) => a.alg_id(),
        }
    }

    pub fn raw_signature_length(&self) -> (r: usize)
        ensures
            r == raw_signature_len(self.spec_alg_id()),
    {
        match self {
            SignatureAlg::EdDSA(a) => a.raw_signature_length(),
        }
    }

    /// A fresh key pair of this algorithm.
    pub fn keygen(&self) -> (r: KeyPair)
        ensures
            r.wf(),
            r.alg_id == self.spec_alg_id(),
            r.pk.spec_raw().len() == PUBLIC_KEY_BYTES,
            r.sk.spec_raw().subrange(32, 64) == r.pk.spec_raw(),
            r.pk.spec_raw() == ed25519_public_of(r.sk.spec_raw().subrange(0, 32)),
            is_ed25519_secret_key(r.sk.spec_raw()),
    {
        match self {
            SignatureAlg::EdDSA(a) => a.keygen(),
        }
    }

    /// Whether `sign` would accept `ad` and the pair's secret key; lets a
    /// caller refuse them before it does any other work.
    pub fn check_signing_inputs(&self, ad: Option<&[u8]>, key_pair: &KeyPair) -> (r: Result<(), WError>)
        ensures
            ad_bytes(ad).len() > u32::MAX ==> r == Err::<(), WError>(WError::UsageError(UsageReason::AdTooLong)),
            ad_bytes(ad).len() <= u32::MAX && key_pair.sk.spec_raw().len() != SECRET_KEY_BYTES
                ==> r == Err::<(), WError>(WError::SignatureError(SignatureReason::InvalidSecretKey)),
            ad_bytes(ad).len() <= u32::MAX && key_pair.sk.spec_raw().len() == SECRET_KEY_BYTES ==> r is Ok,
    {
        let ad_len: usize = match ad {
            Some(a) => a.len(),
            None => 0,
        };
        if ad_len > u32::MAX as usize {
            return Err(WError::UsageError(UsageReason::AdTooLong));
        }
        if key_pair.sk.raw().len() != SECRET_KEY_BYTES {
            return Err(WError::SignatureError(SignatureReason::InvalidSecretKey));
        }
        Ok(())
    }

    /// Signs `data` under `ad` with the pair's secret key.
    pub fn sign(&self, data: &[u8], ad: Option<&[u8]>, key_pair: &KeyPair) -> (r: Result<Signature, WError>)
        ensures
            ad_bytes(ad).len() > u32::MAX ==> r == Err::<Signature, WError>(WError::UsageError(UsageReason::AdTooLong)),
            ad_bytes(ad).len() <= u32::MAX && key_pair.sk.spec_raw().len() != SECRET_KEY_BYTES
                ==> r == Err::<Signature, WError>(WError::SignatureError(SignatureReason::InvalidSecretKey)),
            ad_bytes(ad).len() <= u32::MAX && key_pair.sk.spec_raw().len() == SECRET_KEY_BYTES
                ==> r is Ok && r->Ok_0.spec_alg_id() == self.spec_alg_id()
                && r->Ok_0.spec_raw().len() == raw_signature_len(self.spec_alg_id()),
            r is Ok && is_ed25519_secret_key(key_pair.sk.spec_raw()) ==> ed25519_accepts(
                key_pair.sk.spec_raw().subrange(32, 64),
                prehash_of(ad_bytes(ad), data@),
                r->Ok_0.spec_raw(),
            ),
    {
        match self {
            SignatureAlg::EdDSA(a) => a.sign(data, ad, key_pair),
        }
    }

    /// Checks `signature` over `data` under `ad` and the raw public key `pk`.
    pub fn verify(&self, data: &[u8], ad: Option<&[u8]>, pk: &[u8], signature: &Signature) -> (r: Result<(), WError>)
        ensures
            signature.spec_alg_id() != self.spec_alg_id()
                ==> r == Err::<(), WError>(WError::SignatureError(SignatureReason::SchemeMismatch)),
            signature.spec_alg_id() == self.spec_alg_id()
                ==> r == ed25519_outcome(pk@, ad_bytes(ad), data@, signature.spec_raw()),
    {
        match self {
            SignatureAlg::EdDSA(a) => a.verify(data, ad, pk, signature),
        }
    }
}

impl Signature {
    /// Length of the wire form of a signature of `signature_alg`.
    pub fn length(signature_alg: &SignatureAlg) -> (r: usize)
        ensures
            r == signature_len(signature_alg.spec_alg_id()),
    {
        4 + signature_alg.raw_signature_length()
    }

    /// The algorithm that made this signature.
    pub fn to_alg(&self) -> (r: Result<SignatureAlg, WError>)
        ensures
            is_known_alg(self.spec_alg_id()) ==> r is Ok && r->Ok_0.spec_alg_id() == self.spec_alg_id(),
            !is_known_alg(self.spec_alg_id()) ==> r == Err::<SignatureAlg, WError>(WError::Unsupported),
    {
        algorithm_for(self.alg_id())
    }
}

impl PublicKey {
    /// The algorithm of this key.
    pub fn to_alg(&self) -> (r: Result<SignatureAlg, WError>)
        ensures
            is_known_alg(self.spec_alg_id()) ==> r is Ok && r->Ok_0.spec_alg_id() == self.spec_alg_id(),
            !is_known_alg(self.spec_alg_id()) ==> r == Err::<SignatureAlg, WError>(WError::Unsupported),
    {
        algorithm_for(self.alg_id())
    }
}

impl SecretKey {
    /// The algorithm of this key.
    pub fn to_alg(&self) -> (r: Result<SignatureAlg, WError>)
        ensures
            is_known_alg(self.spec_alg_id()) ==> r is Ok && r->Ok_0.spec_alg_id() == self.spec_alg_id(),
            !is_known_alg(self.spec_alg_id()) ==> r == Err::<SignatureAlg, WError>(WError::Unsupported),
    {
        algorithm_for(self.alg_id())
    }
}

} // verus!
