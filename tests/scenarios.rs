use parity_wasm::elements::{Instruction, Internal, Module};
use wasmsign::{
    algorithm_for, keygen, sign, sign_custom_section, verify, verify_custom_section, EdDSA,
    KeyPair, ParseReason, PublicKey, SecretKey, SignatureAlg, SignatureReason, UsageReason, WError,
    DEFAULT_CUSTOM_SECTION_NAME, DEFAULT_SYMBOL_NAME,
};

/// A module with one memory, one immutable i32 global exported as "g", and
/// one data segment at offset 1024 holding [1, 2, 3, 4].
fn minimal_module() -> Vec<u8> {
    vec![
        0x00, 0x61, 0x73, 0x6d, 0x01, 0x00, 0x00, 0x00, // header
        0x05, 0x03, 0x01, 0x00, 0x01, // memory
        0x06, 0x06, 0x01, 0x7f, 0x00, 0x41, 0x2a, 0x0b, // global
        0x07, 0x05, 0x01, 0x01, 0x67, 0x03, 0x00, // export
        0x0b, 0x0b, 0x01, 0x00, 0x41, 0x80, 0x08, 0x0b, 0x04, 0x01, 0x02, 0x03, 0x04, // data
    ]
}

fn ed25519_pair() -> KeyPair {
    keygen(&SignatureAlg::EdDSA(EdDSA))
}

fn decode(bytes: &[u8]) -> Module {
    parity_wasm::deserialize_buffer(bytes).expect("a valid module")
}

#[test]
fn sign_then_verify_minimal_module() {
    let module = minimal_module();
    let kp = ed25519_pair();
    let signed = sign(&module, &kp, None, DEFAULT_SYMBOL_NAME).expect("signing succeeds");
    let m = decode(&signed);
    let data = m.data_section().unwrap().entries();
    assert_eq!(data.len(), 3);
    // The slot follows the segment at 1024 of length 4; the reference follows the slot.
    assert_eq!(data[1].offset().as_ref().unwrap().code()[0], Instruction::I32Const(1028));
    assert_eq!(data[1].value().len(), 68);
    assert_eq!(&data[1].value()[..4], &[2, 0, 0, 0]);
    assert_eq!(data[2].offset().as_ref().unwrap().code()[0], Instruction::I32Const(1096));
    assert_eq!(data[2].value(), &[0x04, 0x04, 0x00, 0x00]);
    let globals = m.global_section().unwrap().entries();
    assert_eq!(globals.len(), 2);
    assert!(!globals[1].global_type().is_mutable());
    assert_eq!(globals[1].init_expr().code()[0], Instruction::I32Const(1096));
    let exports = m.export_section().unwrap().entries();
    assert_eq!(exports.len(), 2);
    assert_eq!(exports[1].field(), "___SIGNATURE");
    assert!(matches!(exports[1].internal(), Internal::Global(1)));
    assert_eq!(verify(&signed, &kp.pk, None, DEFAULT_SYMBOL_NAME), Ok(()));
}

#[test]
fn verify_with_other_ad_fails() {
    let module = minimal_module();
    let kp = ed25519_pair();
    let signed = sign(&module, &kp, Some(b"v1"), DEFAULT_SYMBOL_NAME).unwrap();
    assert_eq!(verify(&signed, &kp.pk, Some(b"v1"), DEFAULT_SYMBOL_NAME), Ok(()));
    assert_eq!(
        verify(&signed, &kp.pk, Some(b""), DEFAULT_SYMBOL_NAME),
        Err(WError::SignatureError(SignatureReason::Mismatch))
    );
    assert_eq!(
        verify(&signed, &kp.pk, None, DEFAULT_SYMBOL_NAME),
        Err(WError::SignatureError(SignatureReason::Mismatch))
    );
}

#[test]
fn sign_twice_with_same_symbol_fails() {
    let module = minimal_module();
    let kp = ed25519_pair();
    let signed = sign(&module, &kp, None, DEFAULT_SYMBOL_NAME).unwrap();
    assert_eq!(
        sign(&signed, &kp, None, DEFAULT_SYMBOL_NAME),
        Err(WError::ParseError(ParseReason::SymbolAlreadyPresent))
    );
}

#[test]
fn custom_section_sign_then_verify() {
    let module = minimal_module();
    let kp = ed25519_pair();
    let signed = sign_custom_section(&module, &kp, None, DEFAULT_CUSTOM_SECTION_NAME).unwrap();
    // Section id, section length, name length, name, and the 68-byte wire form.
    assert_eq!(signed.len(), module.len() + 2 + 1 + 18 + 68);
    assert_eq!(&signed[..module.len()], &module[..]);
    assert_eq!(&signed[module.len()..module.len() + 3], &[0, 87, 18]);
    assert_eq!(&signed[module.len() + 3..module.len() + 21], b"signature_wasmsign");
    assert_eq!(&signed[module.len() + 21..module.len() + 25], &[2, 0, 0, 0]);
    assert_eq!(verify_custom_section(&signed, &kp.pk, None, DEFAULT_CUSTOM_SECTION_NAME), Ok(()));
}

#[test]
fn custom_section_name_of_hundred_chars_fails() {
    let module = minimal_module();
    let kp = ed25519_pair();
    let name = "n".repeat(100);
    assert_eq!(
        sign_custom_section(&module, &kp, None, &name),
        Err(WError::UsageError(UsageReason::NameTooLong))
    );
}

#[test]
fn key_blobs_parse() {
    let mut bytes = vec![0x02, 0x00, 0x00, 0x00];
    bytes.extend_from_slice(&[7u8; 32]);
    let pk = PublicKey::from_bytes(&bytes).unwrap();
    assert_eq!(pk.alg_id(), 2);
    assert_eq!(pk.raw(), &[7u8; 32]);
    assert_eq!(pk.to_bytes(), bytes);
    let sk = SecretKey::from_bytes(&bytes).unwrap();
    assert_eq!(sk.alg_id(), 2);
    assert_eq!(sk.raw(), &[7u8; 32]);
    assert!(matches!(
        PublicKey::from_bytes(&[2, 0, 0]),
        Err(WError::ParseError(ParseReason::ShortEncoding))
    ));
    assert!(matches!(
        SecretKey::from_bytes(&[2, 0, 0]),
        Err(WError::ParseError(ParseReason::ShortEncoding))
    ));
    assert!(matches!(
        PublicKey::from_bytes(&[2, 0, 0, 0]),
        Err(WError::ParseError(ParseReason::ShortEncoding))
    ));
}
