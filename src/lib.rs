//! Signing and verification of WebAssembly modules, with the signature
//! carried inside the module it signs.

pub mod attach;
pub mod eddsa;
pub mod errors;
pub mod laws;
pub mod registry;
pub mod signature;
pub mod slot;
pub mod verify;
pub mod wasm;

pub use crate::eddsa::EdDSA;
pub use crate::errors::{ParseReason, SignatureReason, UsageReason, WError};
pub use crate::registry::{algorithm_for, SignatureAlg};
pub use crate::signature::{AnyKey, KeyPair, PublicKey, SecretKey, Signature};

use crate::attach::{custom_signing, embedded_signing};
use crate::eddsa::ad_bytes;
use crate::registry::is_known_alg;
use crate::verify::{custom_outcome, embedded_outcome};
use vstd::prelude::*;
use vstd::string::StringSliceAdditionalSpecFns;

verus! {

/// The symbol under which the signature is exported by default.
pub const DEFAULT_SYMBOL_NAME: &'static str = "___SIGNATURE";

/// The name of the custom section that holds the signature by default.
pub const DEFAULT_CUSTOM_SECTION_NAME: &'static str = "signature_wasmsign";

/// A fresh key pair of `signature_alg`.
pub fn keygen(signature_alg: &SignatureAlg) -> (r: KeyPair)
    ensures
        r.wf(),
        r.alg_id == signature_alg.spec_alg_id(),
        r.pk.spec_raw().len() == crate::eddsa::PUBLIC_KEY_BYTES,
        r.sk.spec_raw().subrange(32, 64) == r.pk.spec_raw(),
        r.pk.spec_raw() == crate::eddsa::ed25519_public_of(r.sk.spec_raw().subrange(0, 32)),
        crate::eddsa::is_ed25519_secret_key(r.sk.spec_raw()),
{
    signature_alg.keygen()
}

/// Signs a module, with the signature in a data segment exported under
/// `symbol_name`. The algorithm is the secret key's.
pub fn sign(module_bytes: &[u8], key_pair: &KeyPair, ad: Option<&[u8]>, symbol_name: &str) -> (r: Result<Vec<u8>, WError>)
    ensures
        !is_known_alg(key_pair.sk.spec_alg_id()) ==> r == Err::<Vec<u8>, WError>(WError::Unsupported),
        is_known_alg(key_pair.sk.spec_alg_id()) ==> embedded_signing(
            module_bytes@,
            key_pair.sk.spec_alg_id(),
            ad_bytes(ad),
            *key_pair,
            symbol_name.spec_bytes(),
            r,
        ),
{
    let signature_alg = match key_pair.sk.to_alg() {
        Ok(a) => a,
        Err(e) => return Err(e),
    };
    attach::attach_signature(module_bytes, &signature_alg, ad, key_pair, symbol_name)
}

/// Signs a module, with the signature in a trailing custom section named
/// `custom_section_name`. The algorithm is the secret key's.
pub fn sign_custom_section(
    module_bytes: &[u8],
    key_pair: &KeyPair,
    ad: Option<&[u8]>,
    custom_section_name: &str,
) -> (r: Result<Vec<u8>, WError>)
    ensures
        !is_known_alg(key_pair.sk.spec_alg_id()) ==> r == Err::<Vec<u8>, WError>(WError::Unsupported),
        is_known_alg(key_pair.sk.spec_alg_id()) ==> custom_signing(
            module_bytes@,
            key_pair.sk.spec_alg_id(),
            ad_bytes(ad),
            *key_pair,
            custom_section_name.spec_bytes(),
            r,
        ),
{
    let signature_alg = match key_pair.sk.to_alg() {
        Ok(a) => a,
        Err(e) => return Err(e),
    };
    attach::attach_signature_in_custom_section(module_bytes, &signature_alg, ad, key_pair, custom_section_name)
}

/// Verifies the signature that a module exports under `symbol_name`.
pub fn verify(module_bytes: &[u8], pk: &PublicKey, ad: Option<&[u8]>, symbol_name: &str) -> (r: Result<(), WError>)
    ensures
        !is_known_alg(pk.spec_alg_id()) ==> r == Err::<(), WError>(WError::Unsupported),
        is_known_alg(pk.spec_alg_id()) ==> r == embedded_outcome(
            module_bytes@,
            pk.spec_alg_id(),
            pk.spec_raw(),
            ad_bytes(ad),
            symbol_name.spec_bytes(),
        ),
{
    if let Err(e) = pk.to_alg() {
        return Err(e);
    }
    verify::verify_signature(module_bytes, ad, pk, symbol_name)
}

/// Verifies the signature that a module carries in its trailing custom
/// section `custom_section_name`.
pub fn verify_custom_section(
    module_bytes: &[u8],
    pk: &PublicKey,
    ad: Option<&[u8]>,
    custom_section_name: &str,
) -> (r: Result<(), WError>)
    ensures
        !is_known_alg(pk.spec_alg_id()) ==> r == Err::<(), WError>(WError::Unsupported),
        is_known_alg(pk.spec_alg_id()) ==> r == custom_outcome(
            module_bytes@,
            pk.spec_alg_id(),
            pk.spec_raw(),
            ad_bytes(ad),
            custom_section_name.spec_bytes(),
        ),
{
    if let Err(e) = pk.to_alg() {
        return Err(e);
    }
    verify::verify_signature_in_custom_section(module_bytes, ad, pk, custom_section_name)
}

} // verus!
