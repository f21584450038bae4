//! Laws that relate the library's operations to each other.

use crate::attach::{
    custom_section_bytes, custom_signing, embedded_signing, framed_len, has_custom, is_shaped,
    signed_module_facts, signs_for,
};
use crate::eddsa::{context, is_ed25519_secret_key, prehash_input, ALG_ID};
use crate::errors::{ParseReason, UsageReason, WError};
use crate::registry::signature_len;
use crate::signature::{le32, le32_value, lemma_le32_value, wire_form, KeyPair};
use crate::slot::{
    const_value, embed_plan, has_export, lemma_export_named_at, lemma_segment_at_index,
    lemma_slot_offset_in_range, locate_from_reference, locate_slot, slot_offset,
};
use crate::verify::{check_outcome, custom_named, custom_outcome, embedded_outcome, lemma_custom_named_last};
use crate::wasm::{
    const_expr, customs_of, data_of, decoded, decodes_with_custom, encoded, exports_of, globals_of,
    with_payload,
};
use parity_wasm::elements::Module;
use vstd::prelude::*;

verus! {

/// A wire form `alg_id ‖ raw` with a non-empty `raw` decodes back to
/// `alg_id` and `raw`.
pub proof fn lemma_wire_round_trip(alg_id: u32, raw: Seq<u8>)
    requires
        raw.len() > 0,
    ensures
        wire_form(alg_id, raw).len() > 4,
        le32_value(wire_form(alg_id, raw)) == alg_id,
        wire_form(alg_id, raw).subrange(4, wire_form(alg_id, raw).len() as int) == raw,
{
    let w = wire_form(alg_id, raw);
    lemma_le32_value(alg_id);
    assert(w.subrange(0, 4) =~= le32(alg_id));
    assert(w.subrange(4, w.len() as int) =~= raw);
}

/// The framing of the pre-hash input is injective: distinct pairs of
/// additional data and data give distinct inputs to the hash. So a
/// signature is over both the additional data and the exact module bytes.
pub proof fn lemma_prehash_input_injective(ad1: Seq<u8>, data1: Seq<u8>, ad2: Seq<u8>, data2: Seq<u8>)
    requires
        ad1.len() <= u32::MAX,
        ad2.len() <= u32::MAX,
        ad1 != ad2 || data1 != data2,
    ensures
        prehash_input(ad1, data1) != prehash_input(ad2, data2),
{
    let x = prehash_input(ad1, data1);
    let y = prehash_input(ad2, data2);
    let c = context().len() as int;
    if x == y {
        assert(x.subrange(c, c + 4) =~= le32(ad1.len() as u32));
        assert(y.subrange(c, c + 4) =~= le32(ad2.len() as u32));
        lemma_le32_value(ad1.len() as u32);
        lemma_le32_value(ad2.len() as u32);
        assert(ad1.len() == ad2.len());
        let n = ad1.len() as int;
        assert(x.subrange(c + 4, c + 4 + n) =~= ad1);
        assert(y.subrange(c + 4, c + 4 + n) =~= ad2);
        assert(x.subrange(c + 4 + n, x.len() as int) =~= data1);
        assert(y.subrange(c + 4 + n, y.len() as int) =~= data2);
    }
}

/// A signature whose algorithm differs from the public key's never
/// verifies, whatever its bytes.
pub proof fn lemma_check_algorithm_binding(wire: Seq<u8>, data: Seq<u8>, pk_alg: u32, pk_raw: Seq<u8>, ad: Seq<u8>)
    requires
        le32_value(wire) != pk_alg,
    ensures
        check_outcome(wire, data, pk_alg, pk_raw, ad) is Err,
{
}

/// When the slot of an embedded signature holds an algorithm id other than
/// the public key's, verification fails.
pub proof fn lemma_embedded_algorithm_binding(b: Seq<u8>, pk_alg: u32, pk_raw: Seq<u8>, ad: Seq<u8>, name: Seq<u8>)
    requires
        decoded(b) is Some,
        ({
            let m = decoded(b)->Some_0;
            let loc = locate_slot(data_of(m), globals_of(m), exports_of(m), name);
            loc is Ok && le32_value(data_of(m)->Some_0[loc->Ok_0].1) != pk_alg
        }),
    ensures
        embedded_outcome(b, pk_alg, pk_raw, ad, name) is Err,
{
}

/// When the custom section of a signature holds an algorithm id other than
/// the public key's, verification fails.
pub proof fn lemma_custom_algorithm_binding(b: Seq<u8>, pk_alg: u32, pk_raw: Seq<u8>, ad: Seq<u8>, name: Seq<u8>)
    requires
        decoded(b) is Some,
        ({
            let c = customs_of(decoded(b)->Some_0);
            custom_named(c, name) is Some && le32_value(c[custom_named(c, name)->Some_0].1) != pk_alg
        }),
    ensures
        custom_outcome(b, pk_alg, pk_raw, ad, name) is Err,
{
}

/// Verification is a function of its inputs: two verifications of the same
/// module under the same key, additional data and symbol agree.
pub proof fn lemma_verification_deterministic(
    b: Seq<u8>,
    pk_alg: u32,
    pk_raw: Seq<u8>,
    ad: Seq<u8>,
    name: Seq<u8>,
    r1: Result<(), WError>,
    r2: Result<(), WError>,
)
    requires
        r1 == embedded_outcome(b, pk_alg, pk_raw, ad, name),
        r2 == embedded_outcome(b, pk_alg, pk_raw, ad, name),
    ensures
        r1 == r2,
{
}

/// Signing a module that already exports `name` fails; once the data and
/// global sections admit a slot, it fails because the symbol is present.
pub proof fn lemma_symbol_already_present(
    b: Seq<u8>,
    alg_id: u32,
    ad: Seq<u8>,
    key_pair: KeyPair,
    name: Seq<u8>,
    r: Result<Vec<u8>, WError>,
)
    requires
        decoded(b) is Some,
        exports_of(decoded(b)->Some_0) is Some,
        has_export(exports_of(decoded(b)->Some_0)->Some_0, name),
        embedded_signing(b, alg_id, ad, key_pair, name, r),
    ensures
        r is Err,
        ({
            let m = decoded(b)->Some_0;
            let sig_len = signature_len(alg_id) as int;
            &&& data_of(m) is Some
            &&& slot_offset(data_of(m)->Some_0) is Ok
            &&& slot_offset(data_of(m)->Some_0)->Ok_0 + sig_len + 4 <= i32::MAX
            &&& globals_of(m) is Some
            &&& globals_of(m)->Some_0.len() <= u32::MAX
        }) ==> r == Err::<Vec<u8>, WError>(WError::ParseError(ParseReason::SymbolAlreadyPresent)),
{
}

/// The module that signing shapes exports the signature under `name`; a
/// module with that export is refused by a second signing under the same
/// name.
pub proof fn lemma_shaped_exports_symbol(m: Module, s: Module, o: int, sig_len: int, name: Seq<u8>)
    requires
        exports_of(m) is Some,
        is_shaped(m, s, o, sig_len, name),
    ensures
        exports_of(s) is Some,
        has_export(exports_of(s)->Some_0, name),
{
    let e = exports_of(s)->Some_0;
    assert(e[e.len() - 1].0 == name);
}

/// Verification finds the slot that signing made: in a module shaped for
/// signing, whatever the slot now holds, the export `name` leads through its
/// global and the reference segment to the new slot segment. This needs that
/// no segment of the module already sits at the offset of the slot or of the
/// reference, since verification takes the first segment at an offset.
pub proof fn lemma_shaped_slot_is_located(m: Module, s: Module, s2: Module, sig_len: int, name: Seq<u8>, sig: Seq<u8>)
    requires
        sig_len > 0,
        data_of(s2) == Some(data_of(s)->Some_0.update(
            data_of(m)->Some_0.len() as int,
            (data_of(s)->Some_0[data_of(m)->Some_0.len() as int].0, sig),
        )),
        globals_of(s2) == globals_of(s),
        exports_of(s2) == exports_of(s),
        embed_plan(data_of(m), globals_of(m), exports_of(m), name, sig_len) is Ok,
        is_shaped(m, s, embed_plan(data_of(m), globals_of(m), exports_of(m), name, sig_len)->Ok_0, sig_len, name),
        ({
            let d = data_of(m)->Some_0;
            let o = embed_plan(data_of(m), globals_of(m), exports_of(m), name, sig_len)->Ok_0;
            forall|j: int| 0 <= j < d.len() ==> d[j].0 != const_expr(o as i32) && d[j].0 != const_expr((o + sig_len) as i32)
        }),
    ensures
        locate_slot(data_of(s2), globals_of(s2), exports_of(s2), name) == Ok::<int, WError>(data_of(m)->Some_0.len() as int),
{
    reveal(locate_slot);
    reveal(locate_from_reference);
    let d = data_of(m)->Some_0;
    let g = globals_of(m)->Some_0;
    let e = exports_of(m)->Some_0;
    let o = embed_plan(data_of(m), globals_of(m), exports_of(m), name, sig_len)->Ok_0;
    let o_ref = o + sig_len;
    let d2 = data_of(s2)->Some_0;
    let e2 = exports_of(s2)->Some_0;
    let g2 = globals_of(s2)->Some_0;
    lemma_slot_offset_in_range(d);
    assert(0 <= o);
    assert(o_ref + 4 <= i32::MAX);

    // The export named `name` is the new one.
    assert forall|k: int| 0 <= k < e.len() implies (#[trigger] e2[k]).0 != name by {
        assert(e2[k] == e[k]);
        if e[k].0 == name {
            assert(has_export(e, name));
        }
    };
    lemma_export_named_at(e2, name, e.len() as int);
    assert(g2[g.len() as int] == (false, true, const_expr(o_ref as i32)));
    assert(const_value(const_expr(o_ref as i32)) == Some(o_ref as i32));

    // The reference segment is the second new one, and holds `o`.
    assert(const_expr(o as i32)[0] != const_expr(o_ref as i32)[0]);
    assert forall|k: int| 0 <= k < (d.len() + 1) as int implies (#[trigger] d2[k]).0 != const_expr(o_ref as i32) by {
        if k < d.len() {
            assert(d2[k] == d[k]);
        } else {
            assert(d2[k].0 == const_expr(o as i32));
        }
    };
    lemma_segment_at_index(d2, o_ref as i32, (d.len() + 1) as int);
    lemma_le32_value(o as u32);
    assert(le32_value(d2[(d.len() + 1) as int].1) == o);

    // The slot is the first new segment.
    assert forall|k: int| 0 <= k < d.len() implies (#[trigger] d2[k]).0 != const_expr(o as i32) by {
        assert(d2[k] == d[k]);
    };
    lemma_segment_at_index(d2, o as i32, d.len() as int);
}

/// Sign-then-verify: a module that `sign` produced with a well-formed
/// Ed25519 key pair verifies under the pair's public key, the same
/// additional data and the same symbol. This needs that no data segment of
/// the input already sits at the offset of the slot or of the reference.
pub proof fn lemma_sign_then_verify(
    b: Seq<u8>,
    ad: Seq<u8>,
    key_pair: KeyPair,
    name: Seq<u8>,
    r: Result<Vec<u8>, WError>,
)
    requires
        key_pair.wf(),
        key_pair.alg_id == ALG_ID,
        is_ed25519_secret_key(key_pair.sk.spec_raw()),
        key_pair.pk.spec_raw() == key_pair.sk.spec_raw().subrange(32, 64),
        embedded_signing(b, ALG_ID, ad, key_pair, name, r),
        r is Ok,
        decoded(b) is Some,
        ({
            let m = decoded(b)->Some_0;
            let d = data_of(m)->Some_0;
            let plan = embed_plan(data_of(m), globals_of(m), exports_of(m), name, signature_len(ALG_ID) as int);
            plan is Ok ==> forall|j: int| 0 <= j < d.len()
                ==> d[j].0 != const_expr(plan->Ok_0 as i32) && d[j].0 != const_expr((plan->Ok_0 + signature_len(ALG_ID)) as i32)
        }),
    ensures
        embedded_outcome(r->Ok_0@, key_pair.pk.spec_alg_id(), key_pair.pk.spec_raw(), ad, name) == Ok::<(), WError>(()),
{
    let m = decoded(b)->Some_0;
    let sig_len = signature_len(ALG_ID) as int;
    let plan = embed_plan(data_of(m), globals_of(m), exports_of(m), name, sig_len);
    let i = data_of(m)->Some_0.len() as int;
    let out = r->Ok_0@;
    let (s, sig) = choose|s: Module, sig: Seq<u8>| {
        &&& is_shaped(m, s, plan->Ok_0, sig_len, name)
        &&& encoded(s) is Some
        &&& sig.len() == sig_len
        &&& le32_value(sig) == ALG_ID
        &&& signs_for(key_pair.sk.spec_raw(), ad, encoded(s)->Some_0, sig)
        &&& encoded(with_payload(s, i, sig)) == Some(out)
        &&& signed_module_facts(s, i, sig)
    };
    let s2 = with_payload(s, i, sig);
    assert(decoded(out) == Some(s2));
    lemma_shaped_slot_is_located(m, s, s2, sig_len, name, sig);
    assert(data_of(s2)->Some_0[i].1 == sig);
    assert(sig.subrange(4, sig.len() as int).len() == 64);
}

/// Sign-then-verify for the custom-section strategy: a module that
/// `sign_custom_section` produced with a well-formed Ed25519 key pair
/// verifies under the pair's public key, the same additional data and the
/// same section name. This is stated for inputs that are their module's own
/// encoding, since the decoder passes over a truncated trailing section.
pub proof fn lemma_custom_sign_then_verify(
    b: Seq<u8>,
    ad: Seq<u8>,
    key_pair: KeyPair,
    name: Seq<u8>,
    r: Result<Vec<u8>, WError>,
)
    requires
        key_pair.wf(),
        key_pair.alg_id == ALG_ID,
        is_ed25519_secret_key(key_pair.sk.spec_raw()),
        key_pair.pk.spec_raw() == key_pair.sk.spec_raw().subrange(32, 64),
        custom_signing(b, ALG_ID, ad, key_pair, name, r),
        r is Ok,
        decoded(b) is Some,
        encoded(decoded(b)->Some_0) == Some(b),
    ensures
        custom_outcome(r->Ok_0@, key_pair.pk.spec_alg_id(), key_pair.pk.spec_raw(), ad, name) == Ok::<(), WError>(()),
{
    let m = decoded(b)->Some_0;
    let out = r->Ok_0@;
    let sig = choose|sig: Seq<u8>| {
        &&& sig.len() == signature_len(ALG_ID)
        &&& le32_value(sig) == ALG_ID
        &&& signs_for(key_pair.sk.spec_raw(), ad, b, sig)
        &&& out == b + custom_section_bytes(name, sig)
        &&& encoded(m) == Some(b) ==> decodes_with_custom(m, b, name, sig)
    };
    let c = customs_of(m);
    assert forall|k: int| 0 <= k < c.len() implies (#[trigger] c[k]).0 != name by {
        if c[k].0 == name {
            assert(has_custom(c, name));
        }
    };
    lemma_custom_named_last(c, name, sig);
    lemma_custom_signed_prefix(b, name, sig);
    assert(sig.subrange(4, sig.len() as int).len() == 64);
}

/// Signing a module that `sign` produced, under the same symbol, fails;
/// once the data and global sections admit a slot, it fails because the
/// symbol is present.
pub proof fn lemma_sign_twice_fails(
    b: Seq<u8>,
    ad: Seq<u8>,
    ad2: Seq<u8>,
    key_pair: KeyPair,
    name: Seq<u8>,
    r: Result<Vec<u8>, WError>,
    r2: Result<Vec<u8>, WError>,
)
    requires
        embedded_signing(b, key_pair.sk.spec_alg_id(), ad, key_pair, name, r),
        r is Ok,
        embedded_signing(r->Ok_0@, key_pair.sk.spec_alg_id(), ad2, key_pair, name, r2),
    ensures
        r2 is Err,
        ({
            let m2 = decoded(r->Ok_0@)->Some_0;
            let sig_len = signature_len(key_pair.sk.spec_alg_id()) as int;
            &&& data_of(m2) is Some
            &&& slot_offset(data_of(m2)->Some_0) is Ok
            &&& slot_offset(data_of(m2)->Some_0)->Ok_0 + sig_len + 4 <= i32::MAX
            &&& globals_of(m2) is Some
            &&& globals_of(m2)->Some_0.len() <= u32::MAX
        }) ==> r2 == Err::<Vec<u8>, WError>(WError::ParseError(ParseReason::SymbolAlreadyPresent)),
{
    let alg_id = key_pair.sk.spec_alg_id();
    let m = decoded(b)->Some_0;
    let sig_len = signature_len(alg_id) as int;
    let plan = embed_plan(data_of(m), globals_of(m), exports_of(m), name, sig_len);
    let i = data_of(m)->Some_0.len() as int;
    let out = r->Ok_0@;
    let (s, sig) = choose|s: Module, sig: Seq<u8>| {
        &&& is_shaped(m, s, plan->Ok_0, sig_len, name)
        &&& encoded(s) is Some
        &&& sig.len() == sig_len
        &&& le32_value(sig) == alg_id
        &&& signs_for(key_pair.sk.spec_raw(), ad, encoded(s)->Some_0, sig)
        &&& encoded(with_payload(s, i, sig)) == Some(out)
        &&& signed_module_facts(s, i, sig)
    };
    let s2 = with_payload(s, i, sig);
    assert(decoded(out) == Some(s2));
    lemma_shaped_exports_symbol(m, s, plan->Ok_0, sig_len, name);
    lemma_symbol_already_present(out, alg_id, ad2, key_pair, name, r2);
}

/// A custom-section name whose framed section would not fit in one length
/// byte is refused.
pub proof fn lemma_custom_length_bound(
    b: Seq<u8>,
    alg_id: u32,
    ad: Seq<u8>,
    key_pair: KeyPair,
    name: Seq<u8>,
    r: Result<Vec<u8>, WError>,
)
    requires
        framed_len(name, signature_len(alg_id) as int) > 127,
        custom_signing(b, alg_id, ad, key_pair, name, r),
    ensures
        r == Err::<Vec<u8>, WError>(WError::UsageError(UsageReason::NameTooLong)),
{
}

/// Appending a custom section to `b` leaves `b` as the prefix that the
/// verifier of that section reads back: the module minus the section's
/// framed length plus two bytes.
pub proof fn lemma_custom_signed_prefix(b: Seq<u8>, name: Seq<u8>, sig: Seq<u8>)
    ensures
        ({
            let out = b + custom_section_bytes(name, sig);
            let section_len = 2 + framed_len(name, sig.len() as int);
            &&& out.len() == b.len() + section_len
            &&& out.subrange(0, out.len() - section_len) == b
        }),
{
    let out = b + custom_section_bytes(name, sig);
    assert(out.subrange(0, b.len() as int) =~= b);
}

} // verus!
