use parity_wasm::elements::Module;
use wasmsign::{
    keygen, sign, sign_custom_section, verify, verify_custom_section, EdDSA, KeyPair,
    ParseReason, PublicKey, SignatureAlg, SignatureReason, UsageReason, WError,
};

fn minimal_module() -> Vec<u8> {
    vec![
        0x00, 0x61, 0x73, 0x6d, 0x01, 0x00, 0x00, 0x00, // header
        0x05, 0x03, 0x01, 0x00, 0x01, // memory
        0x06, 0x06, 0x01, 0x7f, 0x00, 0x41, 0x2a, 0x0b, // global
        0x07, 0x05, 0x01, 0x01, 0x67, 0x03, 0x00, // export
        0x0b, 0x0b, 0x01, 0x00, 0x41, 0x80, 0x08, 0x0b, 0x04, 0x01, 0x02, 0x03, 0x04, // data
    ]
}

fn ed25519_pair() -> KeyPair {
    keygen(&SignatureAlg::EdDSA(EdDSA))
}

/// Index of the first occurrence of `needle` in `hay`.
fn find(hay: &[u8], needle: &[u8]) -> usize {
    hay.windows(needle.len()).position(|w| w == needle).expect("present")
}

#[test]
fn key_binding_other_key_fails() {
    let module = minimal_module();
    let kp = ed25519_pair();
    let other = ed25519_pair();
    let signed = sign(&module, &kp, None, "sig").unwrap();
    assert_eq!(
        verify(&signed, &other.pk, None, "sig"),
        Err(WError::SignatureError(SignatureReason::Mismatch))
    );
    let custom = sign_custom_section(&module, &kp, None, "sig").unwrap();
    assert_eq!(
        verify_custom_section(&custom, &other.pk, None, "sig"),
        Err(WError::SignatureError(SignatureReason::Mismatch))
    );
}

#[test]
fn algorithm_binding_replaced_id_fails() {
    let module = minimal_module();
    let kp = ed25519_pair();
    let signed = sign(&module, &kp, None, "sig").unwrap();
    let mut m: Module = parity_wasm::deserialize_buffer(&signed).unwrap();
    m.data_section_mut().unwrap().entries_mut()[1].value_mut()[0] = 3;
    let tampered = parity_wasm::serialize(m).unwrap();
    assert_eq!(verify(&tampered, &kp.pk, None, "sig"), Err(WError::Unsupported));

    let custom = sign_custom_section(&module, &kp, None, "sig").unwrap();
    let mut tampered = custom.clone();
    let at = module.len() + 3 + 3;
    assert_eq!(&tampered[at..at + 4], &[2, 0, 0, 0]);
    tampered[at] = 1;
    assert_eq!(verify_custom_section(&tampered, &kp.pk, None, "sig"), Err(WError::Unsupported));
}

#[test]
fn algorithm_binding_key_of_other_scheme_fails() {
    let module = minimal_module();
    let kp = ed25519_pair();
    let signed = sign(&module, &kp, None, "sig").unwrap();
    let pk = PublicKey::new(7, kp.pk.raw().to_vec());
    assert_eq!(verify(&signed, &pk, None, "sig"), Err(WError::Unsupported));
}

#[test]
fn tamper_detection_single_bit() {
    let module = minimal_module();
    let kp = ed25519_pair();
    let signed = sign(&module, &kp, None, "sig").unwrap();
    let at = find(&signed, &[0x01, 0x02, 0x03, 0x04]);
    let mut tampered = signed.clone();
    tampered[at + 2] ^= 0x01;
    assert!(verify(&tampered, &kp.pk, None, "sig").is_err());

    let custom = sign_custom_section(&module, &kp, None, "sig").unwrap();
    let at = find(&custom, &[0x01, 0x02, 0x03, 0x04]);
    let mut tampered = custom.clone();
    tampered[at] ^= 0x80;
    assert_eq!(
        verify_custom_section(&tampered, &kp.pk, None, "sig"),
        Err(WError::SignatureError(SignatureReason::Mismatch))
    );
}

#[test]
fn verification_is_idempotent_and_preserves_module() {
    let module = minimal_module();
    let kp = ed25519_pair();
    let signed = sign(&module, &kp, Some(b"ad"), "sig").unwrap();
    let before = signed.clone();
    let first = verify(&signed, &kp.pk, Some(b"ad"), "sig");
    let second = verify(&signed, &kp.pk, Some(b"ad"), "sig");
    assert_eq!(first, Ok(()));
    assert_eq!(first, second);
    assert_eq!(signed, before);
    let wrong1 = verify(&signed, &kp.pk, Some(b"xx"), "sig");
    let wrong2 = verify(&signed, &kp.pk, Some(b"xx"), "sig");
    assert_eq!(wrong1, wrong2);
    assert_eq!(signed, before);
}

#[test]
fn custom_length_bound_edge() {
    let module = minimal_module();
    let kp = ed25519_pair();
    // 1 + 58 + 68 = 127 fits; one more character does not.
    let fits = "a".repeat(58);
    let signed = sign_custom_section(&module, &kp, None, &fits).unwrap();
    assert_eq!(signed.len(), module.len() + 129);
    assert_eq!(verify_custom_section(&signed, &kp.pk, None, &fits), Ok(()));
    let too_long = "a".repeat(59);
    assert_eq!(
        sign_custom_section(&module, &kp, None, &too_long),
        Err(WError::UsageError(UsageReason::NameTooLong))
    );
}

#[test]
fn custom_section_ad_binding_and_uniqueness() {
    let module = minimal_module();
    let kp = ed25519_pair();
    let signed = sign_custom_section(&module, &kp, Some(b"v1"), "s").unwrap();
    assert_eq!(verify_custom_section(&signed, &kp.pk, Some(b"v1"), "s"), Ok(()));
    assert_eq!(
        verify_custom_section(&signed, &kp.pk, Some(b"v2"), "s"),
        Err(WError::SignatureError(SignatureReason::Mismatch))
    );
    assert_eq!(
        sign_custom_section(&signed, &kp, None, "s"),
        Err(WError::ParseError(ParseReason::SectionAlreadyPresent))
    );
}

#[test]
fn segment_at_reference_offset_hides_the_slot() {
    // Segment A at 0 with 8 bytes is the longest, so the slot goes at 8 and
    // the reference at 8 + 68 = 76, where segment B already sits. The
    // verifier takes the first segment at 76, which is B.
    let module = vec![
        0x00, 0x61, 0x73, 0x6d, 0x01, 0x00, 0x00, 0x00, // header
        0x05, 0x03, 0x01, 0x00, 0x01, // memory
        0x06, 0x06, 0x01, 0x7f, 0x00, 0x41, 0x2a, 0x0b, // global
        0x07, 0x05, 0x01, 0x01, 0x67, 0x03, 0x00, // export
        0x0b, 0x18, 0x02, // data: two segments
        0x00, 0x41, 0x00, 0x0b, 0x08, 1, 2, 3, 4, 5, 6, 7, 8, // A
        0x00, 0x41, 0xcc, 0x00, 0x0b, 0x04, 1, 2, 3, 4, // B
    ];
    let kp = ed25519_pair();
    let signed = sign(&module, &kp, None, "sig").unwrap();
    assert_eq!(
        verify(&signed, &kp.pk, None, "sig"),
        Err(WError::ParseError(ParseReason::SlotNotFound))
    );
}
