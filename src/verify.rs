//! Verifying a signature that a module carries.

use crate::attach::{framed_len, zero_bytes, zeros};
use crate::eddsa::{ad_bytes, ed25519_outcome};
use crate::errors::{ParseReason, SignatureReason, WError};
use crate::registry::{is_known_alg, signature_len};
use crate::signature::{le32_value, PublicKey, Signature};
use crate::slot::{bytes_eq, first_index, locate_signature_slot, locate_slot, opt_views};
use crate::wasm::{
    custom_sections, customs_of, data_of, data_segments, decode_module, decoded, encode_module,
    encoded, export_entries, exports_of, global_entries, globals_of, set_data_payload, views,
    with_payload, CustomSection, CustomView,
};
use vstd::prelude::*;
use vstd::string::StringSliceAdditionalSpecFns;

verus! {

/// What checking a signature with wire form `wire` over `data` answers:
/// the signature's algorithm must be known and be the public key's.
pub open spec fn check_outcome(
    wire: Seq<u8>,
    data: Seq<u8>,
    pk_alg: u32,
    pk_raw: Seq<u8>,
    ad: Seq<u8>,
) -> Result<(), WError> {
    if !is_known_alg(le32_value(wire)) {
        Err(WError::Unsupported)
    } else if le32_value(wire) != pk_alg {
        Err(WError::SignatureError(SignatureReason::SchemeMismatch))
    } else {
        ed25519_outcome(pk_raw, ad, data, wire.subrange(4, wire.len() as int))
    }
}

/// What verifying the signature exported under `name` in the module `b`
/// answers: the slot is found, its wire form read, and the signature checked
/// over the module encoded again with the slot zeroed.
pub open spec fn embedded_outcome(
    b: Seq<u8>,
    pk_alg: u32,
    pk_raw: Seq<u8>,
    ad: Seq<u8>,
    name: Seq<u8>,
) -> Result<(), WError> {
    match decoded(b) {
        None => Err(WError::WAsmError),
        Some(m) => match locate_slot(data_of(m), globals_of(m), exports_of(m), name) {
            Err(e) => Err(e),
            Ok(i) => {
                let wire = data_of(m)->Some_0[i].1;
                if wire.len() <= 4 {
                    Err(WError::ParseError(ParseReason::ShortEncoding))
                } else {
                    match encoded(with_payload(m, i, zeros(wire.len() as int))) {
                        None => Err(WError::WAsmError),
                        Some(z) => check_outcome(wire, z, pk_alg, pk_raw, ad),
                    }
                }
            },
        },
    }
}

/// The index of the first custom section named `name`.
pub open spec fn custom_named(c: Seq<CustomView>, name: Seq<u8>) -> Option<int> {
    first_index(c, |x: CustomView| x.0 == name)
}

/// A section named `name` added after custom sections none of which bears
/// that name is the first one named `name`.
pub proof fn lemma_custom_named_last(c: Seq<CustomView>, name: Seq<u8>, payload: Seq<u8>)
    requires
        forall|k: int| 0 <= k < c.len() ==> (#[trigger] c[k]).0 != name,
    ensures
        custom_named(c.push((name, payload)), name) == Some(c.len() as int),
{
    reveal(first_index);
    let c2 = c.push((name, payload));
    let i = c.len() as int;
    assert(c2[i].0 == name);
    let j = choose|j: int| 0 <= j < c2.len() && c2[j].0 == name && forall|k: int| 0 <= k < j ==> c2[k].0 != name;
    assert(0 <= j < c2.len() && c2[j].0 == name && forall|k: int| 0 <= k < j ==> c2[k].0 != name);
    if j < i {
        assert(c2[j] == c[j]);
    } else if i < j {
        assert(c2[i].0 != name);
    }
}

/// What verifying the signature in the custom section `name` of the module
/// `b` answers: the signature is checked over the bytes before that
/// section, which is taken to be the last one.
pub open spec fn custom_outcome(
    b: Seq<u8>,
    pk_alg: u32,
    pk_raw: Seq<u8>,
    ad: Seq<u8>,
    name: Seq<u8>,
) -> Result<(), WError> {
    match decoded(b) {
        None => Err(WError::WAsmError),
        Some(m) => match custom_named(customs_of(m), name) {
            None => Err(WError::ParseError(ParseReason::SectionNotFound)),
            Some(i) => {
                let wire = customs_of(m)[i].1;
                let section_len = 2 + framed_len(name, signature_len(le32_value(wire)) as int);
                if wire.len() <= 4 {
                    Err(WError::ParseError(ParseReason::ShortEncoding))
                } else if !is_known_alg(le32_value(wire)) {
                    Err(WError::Unsupported)
                } else if le32_value(wire) != pk_alg {
                    Err(WError::SignatureError(SignatureReason::SchemeMismatch))
                } else if b.len() < section_len {
                    Err(WError::ParseError(ParseReason::SectionTooShort))
                } else {
                    ed25519_outcome(pk_raw, ad, b.subrange(0, b.len() - section_len), wire.subrange(4, wire.len() as int))
                }
            },
        },
    }
}

/// Checks `signature` over `data` under `pk`, once the signature's algorithm
/// is known to be the key's.
fn check_signature(data: &[u8], ad: Option<&[u8]>, pk: &PublicKey, signature: &Signature) -> (r: Result<(), WError>)
    ensures
        r == check_outcome(
            crate::signature::wire_form(signature.spec_alg_id(), signature.spec_raw()),
            data@,
            pk.spec_alg_id(),
            pk.spec_raw(),
            ad_bytes(ad),
        ),
{
    let ghost wire = crate::signature::wire_form(signature.spec_alg_id(), signature.spec_raw());
    proof {
        crate::signature::lemma_le32_value(signature.spec_alg_id());
        assert(wire.subrange(0, 4) =~= crate::signature::le32(signature.spec_alg_id()));
        assert(wire.subrange(4, wire.len() as int) =~= signature.spec_raw());
    }
    let signature_alg = signature.to_alg()?;
    if signature_alg.alg_id() != pk.alg_id() {
        return Err(WError::SignatureError(SignatureReason::SchemeMismatch));
    }
    signature_alg.verify(data, ad, pk.raw(), signature)
}

/// Verifies the signature that `module_bytes` exports under
/// `signature_symbol`.
#[verifier::rlimit(40)]
pub fn verify_signature(
    module_bytes: &[u8],
    ad: Option<&[u8]>,
    pk: &PublicKey,
    signature_symbol: &str,
) -> (r: Result<(), WError>)
    ensures
        r == embedded_outcome(module_bytes@, pk.spec_alg_id(), pk.spec_raw(), ad_bytes(ad), signature_symbol.spec_bytes()),
{
    let mut module = match decode_module(module_bytes) {
        Ok(m) => m,
        Err(_) => return Err(WError::WAsmError),
    };
    let ghost m = module;
    let data = data_segments(&module);
    let globals = global_entries(&module);
    let exports = export_entries(&module);
    assert(opt_views(data) == data_of(m));
    assert(opt_views(globals) == globals_of(m));
    assert(opt_views(exports) == exports_of(m));
    let slot = match locate_signature_slot(&data, &globals, &exports, signature_symbol.as_bytes()) {
        Ok(i) => i,
        Err(e) => return Err(e),
    };
    let segments = match data {
        Some(d) => d,
        None => return Err(WError::ParseError(ParseReason::NoDataSection)),
    };
    let ghost wire = data_of(m)->Some_0[slot as int].1;
    assert(segments@[slot as int]@ == views(segments@)[slot as int]);
    let payload = segments[slot].payload.as_slice();
    assert(payload@ == wire);
    let signature = match Signature::from_bytes(payload) {
        Ok(s) => s,
        Err(e) => return Err(e),
    };
    assert(wire =~= crate::signature::wire_form(signature.spec_alg_id(), signature.spec_raw()));
    set_data_payload(&mut module, slot, zero_bytes(payload.len()));
    let zeroed = match encode_module(&module) {
        Ok(b) => b,
        Err(_) => return Err(WError::WAsmError),
    };
    check_signature(zeroed.as_slice(), ad, pk, &signature)
}

/// The wire form of the signature that the module `b` exports under
/// `name`, or why there is none.
pub open spec fn stored_wire_form(b: Seq<u8>, name: Seq<u8>) -> Result<Seq<u8>, WError> {
    match decoded(b) {
        None => Err(WError::WAsmError),
        Some(m) => match locate_slot(data_of(m), globals_of(m), exports_of(m), name) {
            Err(e) => Err(e),
            Ok(i) => Ok(data_of(m)->Some_0[i].1),
        },
    }
}

/// The signature that `module_bytes` exports under `signature_symbol`, as it
/// is stored; it is not checked.
pub fn get_signature(module_bytes: &[u8], signature_symbol: &str) -> (r: Result<Signature, WError>)
    ensures
        ({
            let w = stored_wire_form(module_bytes@, signature_symbol.spec_bytes());
            &&& w is Err ==> r == Err::<Signature, WError>(w->Err_0)
            &&& w is Ok && w->Ok_0.len() <= 4 ==> r == Err::<Signature, WError>(WError::ParseError(ParseReason::ShortEncoding))
            &&& w is Ok && w->Ok_0.len() > 4 ==> r is Ok
                && r->Ok_0.spec_alg_id() == le32_value(w->Ok_0)
                && r->Ok_0.spec_raw() == w->Ok_0.subrange(4, w->Ok_0.len() as int)
        }),
{
    let module = match decode_module(module_bytes) {
        Ok(m) => m,
        Err(_) => return Err(WError::WAsmError),
    };
    let ghost m = module;
    let data = data_segments(&module);
    let globals = global_entries(&module);
    let exports = export_entries(&module);
    assert(opt_views(data) == data_of(m));
    assert(opt_views(globals) == globals_of(m));
    assert(opt_views(exports) == exports_of(m));
    let slot = match locate_signature_slot(&data, &globals, &exports, signature_symbol.as_bytes()) {
        Ok(i) => i,
        Err(e) => return Err(e),
    };
    let segments = match data {
        Some(d) => d,
        None => return Err(WError::ParseError(ParseReason::NoDataSection)),
    };
    assert(segments@[slot as int]@ == views(segments@)[slot as int]);
    Signature::from_bytes(segments[slot].payload.as_slice())
}

/// The index of the first custom section named `name`.
fn find_custom(sections: &Vec<CustomSection>, name: &[u8]) -> (r: Option<usize>)
    ensures
        r is Some <==> custom_named(views(sections@), name@) is Some,
        r is Some ==> r->Some_0 == custom_named(views(sections@), name@)->Some_0,
        r is Some ==> r->Some_0 < sections@.len(),
{
    let ghost c = views(sections@);
    let ghost p = |x: CustomView| x.0 == name@;
    let mut i: usize = 0;
    while i < sections.len()
        invariant
            c == views(sections@),
            p == (|x: CustomView| x.0 == name@),
            i <= sections@.len(),
            forall|k: int| 0 <= k < i ==> !p(#[trigger] c[k]),
        decreases sections@.len() - i,
    {
        assert(sections@[i as int]@ == c[i as int]);
        if bytes_eq(sections[i].name.as_slice(), name) {
            proof {
                crate::slot::lemma_first_index_found(c, p, i as int);
            }
            return Some(i);
        }
        i = i + 1;
    }
    proof {
        crate::slot::lemma_first_index_none(c, p);
    }
    None
}

/// Verifies the signature that `module_bytes` carries in its trailing
/// custom section `signature_section_name`.
pub fn verify_signature_in_custom_section(
    module_bytes: &[u8],
    ad: Option<&[u8]>,
    pk: &PublicKey,
    signature_section_name: &str,
) -> (r: Result<(), WError>)
    ensures
        r == custom_outcome(module_bytes@, pk.spec_alg_id(), pk.spec_raw(), ad_bytes(ad), signature_section_name.spec_bytes()),
{
    let module = match decode_module(module_bytes) {
        Ok(m) => m,
        Err(_) => return Err(WError::WAsmError),
    };
    let name = signature_section_name.as_bytes();
    let sections = custom_sections(&module);
    let i = match find_custom(&sections, name) {
        Some(i) => i,
        None => return Err(WError::ParseError(ParseReason::SectionNotFound)),
    };
    assert(sections@[i as int]@ == views(sections@)[i as int]);
    let signature = Signature::from_bytes(sections[i].payload.as_slice())?;
    let ghost wire = sections@[i as int].payload@;
    proof {
        crate::signature::lemma_le32_value(signature.spec_alg_id());
    }
    let signature_alg = signature.to_alg()?;
    if signature_alg.alg_id() != pk.alg_id() {
        return Err(WError::SignatureError(SignatureReason::SchemeMismatch));
    }
    let sig_len = Signature::length(&signature_alg);
    if name.len() > module_bytes.len() || module_bytes.len() - name.len() < 3 + sig_len {
        return Err(WError::ParseError(ParseReason::SectionTooShort));
    }
    let signed_len = module_bytes.len() - (3 + name.len() + sig_len);
    let signed = crate::signature::prefix(module_bytes, signed_len);
    signature_alg.verify(signed.as_slice(), ad, pk.raw(), &signature)
}

} // verus!
