//! Attaching a signature to a module: in a data segment reached through an
//! exported global, or in a trailing custom section.

use crate::eddsa::{ad_bytes, ed25519_accepts, is_ed25519_secret_key, prehash_of, SECRET_KEY_BYTES};
use crate::errors::{ParseReason, SignatureReason, UsageReason, WError};
use crate::registry::{signature_len, SignatureAlg};
use crate::signature::{le32, le32_value, lemma_le32_value, push_all, push_le32, KeyPair, Signature};
use crate::slot::{embed_plan, export_exists, signature_slot_offset};
use crate::wasm::{
    const_expr, custom_sections, customs_of, data_of, data_segments, decode_module, decoded,
    encode_module, encoded, export_entries, exports_of, global_entries, globals_of,
    push_data_segment, push_global_export, push_i32_global, set_data_payload, views,
    with_payload, custom_frame, decodes_back, decodes_with_custom, CustomSection, CustomView, ExportTarget,
};
use parity_wasm::elements::Module;
use vstd::prelude::*;
use vstd::string::StringSliceAdditionalSpecFns;

verus! {

/// `n` zero bytes.
pub open spec fn zeros(n: int) -> Seq<u8> {
    Seq::new(n as nat, |_i: int| 0u8)
}

/// A vector of `n` zero bytes.
pub fn zero_bytes(n: usize) -> (r: Vec<u8>)
    ensures
        r@ == zeros(n as int),
{
    let mut r: Vec<u8> = Vec::new();
    let mut i: usize = 0;
    while i < n
        invariant
            i <= n,
            r@ == zeros(i as int),
        decreases n - i,
    {
        r.push(0u8);
        i = i + 1;
        assert(r@ =~= zeros(i as int));
    }
    r
}

/// `s` is `m` with a signature slot of `sig_len` zero bytes at offset `o`:
/// the slot segment, a segment at `o + sig_len` holding `o`, an immutable
/// `i32` global holding `o + sig_len`, and an export of that global under
/// `name`.
pub open spec fn is_shaped(m: Module, s: Module, o: int, sig_len: int, name: Seq<u8>) -> bool {
    let d = data_of(m)->Some_0;
    let g = globals_of(m)->Some_0;
    let e = exports_of(m)->Some_0;
    &&& data_of(s) == Some(
        d.push((const_expr(o as i32), zeros(sig_len))).push(
            (const_expr((o + sig_len) as i32), le32(o as u32)),
        ),
    )
    &&& globals_of(s) == Some(g.push((false, true, const_expr((o + sig_len) as i32))))
    &&& exports_of(s) == Some(e.push((name, ExportTarget::Global(g.len() as u32))))
    &&& customs_of(s) == customs_of(m)
}

/// What is known of `s` with the payload of its segment `i` replaced by
/// `sig`: it decodes back from its encoding, its sections are those of `s`
/// but for that payload, and zeroing the payload again gives `s`.
pub open spec fn signed_module_facts(s: Module, i: int, sig: Seq<u8>) -> bool {
    let s2 = with_payload(s, i, sig);
    let d = data_of(s)->Some_0;
    &&& decodes_back(s2)
    &&& data_of(s2) == Some(d.update(i, (d[i].0, sig)))
    &&& globals_of(s2) == globals_of(s)
    &&& exports_of(s2) == exports_of(s)
    &&& with_payload(s2, i, zeros(sig.len() as int)) == s
}

/// The signing errors that come from `ad` and the key pair alone.
pub open spec fn signing_input_error(ad: Seq<u8>, key_pair: KeyPair) -> Option<WError> {
    if ad.len() > u32::MAX {
        Some(WError::UsageError(UsageReason::AdTooLong))
    } else if key_pair.sk.spec_raw().len() != SECRET_KEY_BYTES {
        Some(WError::SignatureError(SignatureReason::InvalidSecretKey))
    } else {
        None
    }
}

/// Whether the wire form `sig` holds a signature that the public half of
/// the secret key `sk` accepts over `data` under `ad`, when `sk` is a
/// well-formed Ed25519 secret key.
pub open spec fn signs_for(sk: Seq<u8>, ad: Seq<u8>, data: Seq<u8>, sig: Seq<u8>) -> bool {
    is_ed25519_secret_key(sk) ==> ed25519_accepts(sk.subrange(32, 64), prehash_of(ad, data), sig.subrange(4, sig.len() as int))
}

/// What signing `b` with a slot exported under `name` may return, for a
/// signature of the algorithm `alg_id`: the errors that the module, `ad` or
/// the key pair cause, or else the encoding of the shaped module with a wire
/// form of `alg_id` in its slot, which signs the encoding of the shaped
/// module with the slot still zero.
pub open spec fn embedded_signing(
    b: Seq<u8>,
    alg_id: u32,
    ad: Seq<u8>,
    key_pair: KeyPair,
    name: Seq<u8>,
    r: Result<Vec<u8>, WError>,
) -> bool {
    match decoded(b) {
        None => r == Err::<Vec<u8>, WError>(WError::WAsmError),
        Some(m) => {
            let sig_len = signature_len(alg_id) as int;
            let plan = embed_plan(data_of(m), globals_of(m), exports_of(m), name, sig_len);
            &&& plan is Err ==> r == Err::<Vec<u8>, WError>(plan->Err_0)
            &&& plan is Ok && signing_input_error(ad, key_pair) is Some
                ==> r == Err::<Vec<u8>, WError>(signing_input_error(ad, key_pair)->Some_0)
            &&& plan is Ok && signing_input_error(ad, key_pair) is None ==> {
                &&& r is Ok
                &&& r is Ok ==> exists|s: Module, sig: Seq<u8>| {
                    &&& is_shaped(m, s, plan->Ok_0, sig_len, name)
                    &&& encoded(s) is Some
                    &&& sig.len() == sig_len
                    &&& le32_value(sig) == alg_id
                    &&& signs_for(key_pair.sk.spec_raw(), ad, encoded(s)->Some_0, sig)
                    &&& encoded(with_payload(s, data_of(m)->Some_0.len() as int, sig)) == Some(r->Ok_0@)
                    &&& signed_module_facts(s, data_of(m)->Some_0.len() as int, sig)
                }
            }
        },
    }
}

/// Signs `module_bytes` with a signature slot in a data segment, exported
/// through an immutable global under `signature_symbol`.
///
/// The module is first shaped with a zero-filled slot and encoded; that
/// encoding is what gets signed. The signature's wire form is then written
/// into the slot and the module encoded again.
pub fn attach_signature(
    module_bytes: &[u8],
    signature_alg: &SignatureAlg,
    ad: Option<&[u8]>,
    key_pair: &KeyPair,
    signature_symbol: &str,
) -> (r: Result<Vec<u8>, WError>)
    ensures
        embedded_signing(module_bytes@, signature_alg.spec_alg_id(), ad_bytes(ad), *key_pair, signature_symbol.spec_bytes(), r),
{
    let mut module = match decode_module(module_bytes) {
        Ok(m) => m,
        Err(_) => return Err(WError::WAsmError),
    };
    let ghost m = module;
    let ghost name = signature_symbol.spec_bytes();
    let data = match data_segments(&module) {
        Some(d) => d,
        None => return Err(WError::ParseError(ParseReason::NoDataSection)),
    };
    let o_sig = signature_slot_offset(&data)?;
    let sig_len = Signature::length(signature_alg);
    if o_sig as u64 + sig_len as u64 + 4 > i32::MAX as u64 {
        return Err(WError::UsageError(UsageReason::OffsetOverflow));
    }
    let globals = match global_entries(&module) {
        Some(g) => g,
        None => return Err(WError::ParseError(ParseReason::NoGlobalSection)),
    };
    if globals.len() > u32::MAX as usize {
        return Err(WError::UsageError(UsageReason::SectionFull));
    }
    let exports = match export_entries(&module) {
        Some(e) => e,
        None => return Err(WError::ParseError(ParseReason::NoExportSection)),
    };
    if export_exists(&exports, signature_symbol.as_bytes()) {
        return Err(WError::ParseError(ParseReason::SymbolAlreadyPresent));
    }
    signature_alg.check_signing_inputs(ad, key_pair)?;

    // Shape the module with a zero-filled slot and a reference to it.
    let slot_index = data.len();
    let o_ref = o_sig + sig_len as u32;
    push_data_segment(&mut module, o_sig as i32, zero_bytes(sig_len));
    let mut reference: Vec<u8> = Vec::new();
    push_le32(&mut reference, o_sig);
    assert(reference@ =~= le32(o_sig));
    push_data_segment(&mut module, o_ref as i32, reference);
    push_i32_global(&mut module, o_ref as i32);
    push_global_export(&mut module, signature_symbol, globals.len() as u32);
    let ghost shaped = module;
    assert(is_shaped(m, shaped, o_sig as int, sig_len as int, name));

    // Sign the shaped module and write the signature into its slot.
    let unsigned = match encode_module(&module) {
        Ok(b) => b,
        Err(_) => return Err(WError::WAsmError),
    };
    let signature = signature_alg.sign(unsigned.as_slice(), ad, key_pair)?;
    let signature_bytes = signature.to_bytes();
    proof {
        lemma_le32_value(signature.spec_alg_id());
        assert(signature_bytes@.subrange(0, 4) =~= le32(signature.spec_alg_id()));
        assert(signature_bytes@.subrange(4, signature_bytes@.len() as int) =~= signature.spec_raw());
    }
    let ghost sig = signature_bytes@;
    assert(signs_for(key_pair.sk.spec_raw(), ad_bytes(ad), encoded(shaped)->Some_0, sig));
    set_data_payload(&mut module, slot_index, signature_bytes);
    proof {
        let d = data_of(shaped)->Some_0;
        assert(d[slot_index as int].1 == zeros(sig.len() as int));
        assert(with_payload(module, slot_index as int, zeros(sig.len() as int))
            == with_payload(shaped, slot_index as int, zeros(sig.len() as int)));
        assert(signed_module_facts(shaped, slot_index as int, sig));
    }
    match encode_module(&module) {
        Ok(b) => {
            assert(encoded(with_payload(shaped, slot_index as int, sig)) == Some(b@));
            Ok(b)
        },
        Err(_) => Err(WError::WAsmError),
    }
}

/// Whether a custom section is named `name`.
pub open spec fn has_custom(c: Seq<CustomView>, name: Seq<u8>) -> bool {
    exists|j: int| 0 <= j < c.len() && c[j].0 == name
}

/// Length of the payload-and-name part of a custom section that holds a
/// signature of `sig_len` bytes: one byte for the name's length, the name,
/// and the signature.
pub open spec fn framed_len(name: Seq<u8>, sig_len: int) -> int {
    1 + name.len() + sig_len
}

/// The bytes of a custom section named `name` that holds `sig`, when its
/// framed length fits in one byte.
pub open spec fn custom_section_bytes(name: Seq<u8>, sig: Seq<u8>) -> Seq<u8> {
    custom_frame(name, sig)
}

/// Whether a custom section is named `name`.
pub fn custom_exists(sections: &Vec<CustomSection>, name: &[u8]) -> (r: bool)
    ensures
        r == has_custom(views(sections@), name@),
{
    let ghost c = views(sections@);
    let mut i: usize = 0;
    while i < sections.len()
        invariant
            c == views(sections@),
            i <= sections@.len(),
            forall|k: int| 0 <= k < i ==> (#[trigger] c[k]).0 != name@,
        decreases sections@.len() - i,
    {
        assert(sections@[i as int]@ == c[i as int]);
        if crate::slot::bytes_eq(sections[i].name.as_slice(), name) {
            return true;
        }
        i = i + 1;
    }
    false
}

/// What signing `b` with a trailing custom section `name` may return, for
/// a signature of the algorithm `alg_id`: the errors that the name, the
/// module, `ad` or the key pair cause, or `b` followed by the section that
/// holds the signature's wire form, a signature over `b` itself.
pub open spec fn custom_signing(
    b: Seq<u8>,
    alg_id: u32,
    ad: Seq<u8>,
    key_pair: KeyPair,
    name: Seq<u8>,
    r: Result<Vec<u8>, WError>,
) -> bool {
    let sig_len = signature_len(alg_id) as int;
    if framed_len(name, sig_len) > 127 {
        r == Err::<Vec<u8>, WError>(WError::UsageError(UsageReason::NameTooLong))
    } else {
        match decoded(b) {
            None => r == Err::<Vec<u8>, WError>(WError::WAsmError),
            Some(m) => if has_custom(customs_of(m), name) {
                r == Err::<Vec<u8>, WError>(WError::ParseError(ParseReason::SectionAlreadyPresent))
            } else if signing_input_error(ad, key_pair) is Some {
                r == Err::<Vec<u8>, WError>(signing_input_error(ad, key_pair)->Some_0)
            } else {
                r is Ok && exists|sig: Seq<u8>| {
                    &&& sig.len() == sig_len
                    &&& le32_value(sig) == alg_id
                    &&& signs_for(key_pair.sk.spec_raw(), ad, b, sig)
                    &&& r->Ok_0@ == b + custom_section_bytes(name, sig)
                    &&& encoded(m) == Some(b) ==> decodes_with_custom(m, b, name, sig)
                }
            },
        }
    }
}

/// Signs `module_bytes` as they are and appends the signature to them in a
/// custom section named `signature_section_name`.
///
/// The section's framed length must fit in a single-byte LEB128, so the
/// appended bytes are exactly that length plus two.
pub fn attach_signature_in_custom_section(
    module_bytes: &[u8],
    signature_alg: &SignatureAlg,
    ad: Option<&[u8]>,
    key_pair: &KeyPair,
    signature_section_name: &str,
) -> (r: Result<Vec<u8>, WError>)
    ensures
        custom_signing(module_bytes@, signature_alg.spec_alg_id(), ad_bytes(ad), *key_pair, signature_section_name.spec_bytes(), r),
{
    let name = signature_section_name.as_bytes();
    let sig_len = Signature::length(signature_alg);
    if name.len() > 127 || 1 + name.len() + sig_len > 127 {
        return Err(WError::UsageError(UsageReason::NameTooLong));
    }
    let section_len = 1 + name.len() + sig_len;
    let module = match decode_module(module_bytes) {
        Ok(m) => m,
        Err(_) => return Err(WError::WAsmError),
    };
    let sections = custom_sections(&module);
    if custom_exists(&sections, name) {
        return Err(WError::ParseError(ParseReason::SectionAlreadyPresent));
    }
    signature_alg.check_signing_inputs(ad, key_pair)?;
    let signature = signature_alg.sign(module_bytes, ad, key_pair)?;
    let signature_bytes = signature.to_bytes();
    proof {
        lemma_le32_value(signature.spec_alg_id());
        assert(signature_bytes@.subrange(0, 4) =~= le32(signature.spec_alg_id()));
        assert(signature_bytes@.subrange(4, signature_bytes@.len() as int) =~= signature.spec_raw());
    }
    assert(signs_for(key_pair.sk.spec_raw(), ad_bytes(ad), module_bytes@, signature_bytes@));
    assert(encoded(module) == Some(module_bytes@) ==> decodes_with_custom(
        module,
        module_bytes@,
        signature_section_name.spec_bytes(),
        signature_bytes@,
    ));
    let mut signed: Vec<u8> = Vec::new();
    push_all(&mut signed, module_bytes);
    signed.push(0u8);
    signed.push(section_len as u8);
    signed.push(name.len() as u8);
    push_all(&mut signed, name);
    push_all(&mut signed, signature_bytes.as_slice());
    assert(signed@ =~= module_bytes@ + custom_section_bytes(name@, signature_bytes@));
    Ok(signed)
}

} // verus!
