use wasmsign::attach::{attach_signature, attach_signature_in_custom_section};
use wasmsign::eddsa::ALG_ID;
use wasmsign::signature::read_le32;
use wasmsign::slot::{bytes_eq, signature_slot_offset};
use wasmsign::verify::verify_signature;
use wasmsign::wasm::{DataSegment, Instr};
use wasmsign::{
    algorithm_for, keygen, sign, verify, AnyKey, EdDSA, KeyPair, ParseReason, PublicKey,
    SecretKey, Signature, SignatureAlg, SignatureReason, UsageReason, WError,
};

const HEADER: [u8; 8] = [0x00, 0x61, 0x73, 0x6d, 0x01, 0x00, 0x00, 0x00];
const MEMORY: [u8; 5] = [0x05, 0x03, 0x01, 0x00, 0x01];
const GLOBAL: [u8; 8] = [0x06, 0x06, 0x01, 0x7f, 0x00, 0x41, 0x2a, 0x0b];
const EXPORT: [u8; 7] = [0x07, 0x05, 0x01, 0x01, 0x67, 0x03, 0x00];
const DATA: [u8; 13] = [0x0b, 0x0b, 0x01, 0x00, 0x41, 0x80, 0x08, 0x0b, 0x04, 0x01, 0x02, 0x03, 0x04];

fn module_of(sections: &[&[u8]]) -> Vec<u8> {
    let mut m = HEADER.to_vec();
    for s in sections {
        m.extend_from_slice(s);
    }
    m
}

fn ed25519_pair() -> KeyPair {
    keygen(&SignatureAlg::EdDSA(EdDSA))
}

fn segment(offset: Vec<Instr>, len: usize) -> DataSegment {
    DataSegment { offset, payload: vec![0xaa; len] }
}

#[test]
fn garbage_is_a_wasm_error() {
    let kp = ed25519_pair();
    assert_eq!(sign(&[1, 2, 3], &kp, None, "s"), Err(WError::WAsmError));
    assert_eq!(verify(&[1, 2, 3], &kp.pk, None, "s"), Err(WError::WAsmError));
}

#[test]
fn missing_sections_are_parse_errors() {
    let kp = ed25519_pair();
    let no_data = module_of(&[&MEMORY, &GLOBAL, &EXPORT]);
    assert_eq!(sign(&no_data, &kp, None, "s"), Err(WError::ParseError(ParseReason::NoDataSection)));
    let no_global = module_of(&[&MEMORY, &EXPORT, &DATA]);
    assert_eq!(sign(&no_global, &kp, None, "s"), Err(WError::ParseError(ParseReason::NoGlobalSection)));
    let no_export = module_of(&[&MEMORY, &GLOBAL, &DATA]);
    assert_eq!(sign(&no_export, &kp, None, "s"), Err(WError::ParseError(ParseReason::NoExportSection)));
    assert_eq!(verify(&no_export, &kp.pk, None, "s"), Err(WError::ParseError(ParseReason::NoExportSection)));
}

#[test]
fn empty_data_section_has_no_segment() {
    let kp = ed25519_pair();
    let empty_data: [u8; 3] = [0x0b, 0x01, 0x00];
    let m = module_of(&[&MEMORY, &GLOBAL, &EXPORT, &empty_data]);
    assert_eq!(sign(&m, &kp, None, "s"), Err(WError::ParseError(ParseReason::NoDataSegment)));
}

#[test]
fn verify_errors_on_unsigned_module() {
    let kp = ed25519_pair();
    let m = module_of(&[&MEMORY, &GLOBAL, &EXPORT, &DATA]);
    assert_eq!(verify(&m, &kp.pk, None, "s"), Err(WError::ParseError(ParseReason::SymbolNotFound)));
    // "g" exports a global holding 42, where no data segment sits.
    assert_eq!(verify(&m, &kp.pk, None, "g"), Err(WError::ParseError(ParseReason::ReferenceNotFound)));
    assert_eq!(
        verify_signature(&m, None, &kp.pk, "g"),
        Err(WError::ParseError(ParseReason::ReferenceNotFound))
    );
    assert_eq!(
        wasmsign::verify_custom_section(&m, &kp.pk, None, "s"),
        Err(WError::ParseError(ParseReason::SectionNotFound))
    );
}

#[test]
fn verify_mutable_global_is_refused() {
    let kp = ed25519_pair();
    let mutable_global: [u8; 8] = [0x06, 0x06, 0x01, 0x7f, 0x01, 0x41, 0x2a, 0x0b];
    let m = module_of(&[&MEMORY, &mutable_global, &EXPORT, &DATA]);
    assert_eq!(verify(&m, &kp.pk, None, "g"), Err(WError::ParseError(ParseReason::MutableGlobal)));
}

#[test]
fn verify_export_of_memory_is_refused() {
    let kp = ed25519_pair();
    let memory_export: [u8; 7] = [0x07, 0x05, 0x01, 0x01, 0x6d, 0x02, 0x00];
    let m = module_of(&[&MEMORY, &GLOBAL, &memory_export, &DATA]);
    assert_eq!(verify(&m, &kp.pk, None, "m"), Err(WError::ParseError(ParseReason::NotAGlobal)));
}

#[test]
fn slot_offset_picks_first_longest() {
    let data = vec![
        segment(vec![Instr::I32Const(10), Instr::End], 3),
        segment(vec![Instr::I32Const(100), Instr::End], 5),
        segment(vec![Instr::I32Const(0), Instr::End], 5),
        segment(vec![Instr::I32Const(1000), Instr::End], 1),
    ];
    assert_eq!(signature_slot_offset(&data), Ok(105));
}

#[test]
fn slot_offset_refuses_malformed_segments() {
    let malformed = [
        vec![Instr::I32Const(1)],
        vec![Instr::I32Const(1), Instr::Other],
        vec![Instr::Other, Instr::End],
        vec![Instr::I32Const(-1), Instr::End],
        vec![Instr::I32Const(1), Instr::End, Instr::End],
    ];
    for offset in malformed.iter() {
        let data = vec![segment(vec![Instr::I32Const(0), Instr::End], 8), segment(offset.clone(), 2)];
        assert_eq!(
            signature_slot_offset(&data),
            Err(WError::ParseError(ParseReason::MalformedDataSegment))
        );
    }
    assert_eq!(signature_slot_offset(&vec![]), Err(WError::ParseError(ParseReason::NoDataSegment)));
}

#[test]
fn slot_offset_overflow_is_refused() {
    let kp = ed25519_pair();
    // One segment at offset 0x7fff_ffbc (i32.const as signed LEB128) of 4 bytes:
    // 0x7fff_ffc0 + 68 + 4 passes the largest positive i32.
    let data: [u8; 15] = [0x0b, 0x0e, 0x01, 0x00, 0x41, 0xbc, 0xff, 0xff, 0xff, 0x07, 0x0b, 0x04, 1, 2, 3];
    let mut data = data.to_vec();
    data.push(4);
    let m = module_of(&[&MEMORY, &GLOBAL, &EXPORT, &data]);
    assert_eq!(sign(&m, &kp, None, "s"), Err(WError::UsageError(UsageReason::OffsetOverflow)));
}

#[test]
fn signature_wire_form() {
    let sig = Signature::new(0x0403_0201, vec![9, 8]);
    assert_eq!(sig.to_bytes(), vec![1, 2, 3, 4, 9, 8]);
    let back = Signature::from_bytes(&[2, 0, 0, 0, 5]).unwrap();
    assert_eq!(back.alg_id(), 2);
    assert_eq!(back.raw(), &[5]);
    assert!(matches!(Signature::from_bytes(&[2, 0, 0, 0]), Err(WError::ParseError(ParseReason::ShortEncoding))));
    assert_eq!(Signature::length(&SignatureAlg::EdDSA(EdDSA)), 68);
    assert!(matches!(back.to_alg(), Ok(SignatureAlg::EdDSA(_))));
    assert!(matches!(Signature::new(1, vec![0]).to_alg(), Err(WError::Unsupported)));
}

#[test]
fn any_key_and_pairs() {
    let key = AnyKey::from_bytes(&[0x78, 0x56, 0x34, 0x12, 1]).unwrap();
    assert!(matches!(AnyKey::from_bytes(&[1]), Err(WError::ParseError(ParseReason::ShortEncoding))));
    let _ = AnyKey::new(1, vec![1]);
    let _ = key;
    let pair = KeyPair::new(5, PublicKey::new(5, vec![1]), SecretKey::new(5, vec![2]));
    assert_eq!(pair.alg_id, 5);
    assert_eq!(pair.sk.to_bytes(), vec![5, 0, 0, 0, 2]);
    assert_eq!(read_le32(&[0x78, 0x56, 0x34, 0x12]), 0x1234_5678);
}

#[test]
fn registry() {
    assert!(matches!(algorithm_for(ALG_ID), Ok(SignatureAlg::EdDSA(_))));
    assert!(matches!(algorithm_for(0), Err(WError::Unsupported)));
    let alg = algorithm_for(2).unwrap();
    assert_eq!(alg.alg_id(), 2);
    assert_eq!(alg.raw_signature_length(), 64);
    let kp = alg.keygen();
    assert_eq!(kp.pk.raw().len(), 32);
    assert_eq!(kp.sk.raw().len(), 64);
    assert_eq!(&kp.sk.raw()[32..], kp.pk.raw());
}

#[test]
fn keys_of_unknown_algorithm_are_unsupported() {
    let kp = ed25519_pair();
    let odd = KeyPair::new(9, PublicKey::new(9, vec![0; 32]), SecretKey::new(9, vec![0; 64]));
    let m = module_of(&[&MEMORY, &GLOBAL, &EXPORT, &DATA]);
    assert_eq!(sign(&m, &odd, None, "s"), Err(WError::Unsupported));
    assert_eq!(verify(&m, &odd.pk, None, "s"), Err(WError::Unsupported));
    let _ = kp;
}

#[test]
fn invalid_secret_key_is_refused() {
    let bad = KeyPair::new(2, PublicKey::new(2, vec![0; 32]), SecretKey::new(2, vec![0; 10]));
    let m = module_of(&[&MEMORY, &GLOBAL, &EXPORT, &DATA]);
    assert_eq!(
        sign(&m, &bad, None, "s"),
        Err(WError::SignatureError(SignatureReason::InvalidSecretKey))
    );
    let alg = SignatureAlg::EdDSA(EdDSA);
    assert_eq!(
        attach_signature_in_custom_section(&m, &alg, None, &bad, "s"),
        Err(WError::SignatureError(SignatureReason::InvalidSecretKey))
    );
}

#[test]
fn invalid_public_key_is_refused() {
    let kp = ed25519_pair();
    let m = module_of(&[&MEMORY, &GLOBAL, &EXPORT, &DATA]);
    let signed = attach_signature(&m, &SignatureAlg::EdDSA(EdDSA), None, &kp, "s").unwrap();
    let short = PublicKey::new(2, vec![0; 31]);
    assert_eq!(
        verify(&signed, &short, None, "s"),
        Err(WError::SignatureError(SignatureReason::InvalidPublicKey))
    );
}

#[test]
fn prehash_is_sha512_of_framed_input() {
    let digest = EdDSA::prehash(b"data", Some(b"ad")).unwrap();
    let mut framed = b"WasmSignature".to_vec();
    framed.extend_from_slice(&[2, 0, 0, 0]);
    framed.extend_from_slice(b"ad");
    framed.extend_from_slice(b"data");
    assert_eq!(digest, hmac_sha512::Hash::hash(&framed).to_vec());
    assert_eq!(digest.len(), 64);
    assert_ne!(digest, framed);
    let empty = EdDSA::prehash(b"data", None).unwrap();
    assert_eq!(empty, EdDSA::prehash(b"data", Some(b"")).unwrap());
    assert_ne!(empty, digest);
}

#[test]
fn byte_comparison() {
    assert!(bytes_eq(b"abc", b"abc"));
    assert!(!bytes_eq(b"abc", b"abd"));
    assert!(!bytes_eq(b"abc", b"ab"));
}

#[test]
fn error_messages() {
    assert_eq!(
        WError::SignatureError(SignatureReason::SchemeMismatch).message(),
        "Signature uses a different scheme than the provided public key"
    );
    assert_eq!(WError::Unsupported.message(), "Unsupported signature scheme");
}

#[test]
fn stored_signature_is_read_back() {
    let kp = ed25519_pair();
    let m = module_of(&[&MEMORY, &GLOBAL, &EXPORT, &DATA]);
    let signed = sign(&m, &kp, None, "s").unwrap();
    let sig = wasmsign::verify::get_signature(&signed, "s").unwrap();
    assert_eq!(sig.alg_id(), 2);
    assert_eq!(sig.raw().len(), 64);
    assert_ne!(sig.raw(), &[0u8; 64][..]);
    assert_eq!(
        wasmsign::verify::get_signature(&m, "s").map(|s| s.alg_id()),
        Err(WError::ParseError(ParseReason::SymbolNotFound))
    );
}

#[test]
fn eddsa_sign_then_verify() {
    let alg = EdDSA;
    let kp = alg.keygen();
    let sig = alg.sign(b"module bytes", Some(b"ad"), &kp).unwrap();
    assert_eq!(sig.alg_id(), 2);
    assert_eq!(sig.raw().len(), 64);
    assert_eq!(alg.verify(b"module bytes", Some(b"ad"), kp.pk.raw(), &sig), Ok(()));
    assert_eq!(
        alg.verify(b"module bytez", Some(b"ad"), kp.pk.raw(), &sig),
        Err(WError::SignatureError(SignatureReason::Mismatch))
    );
    assert_eq!(
        alg.verify(b"module bytes", Some(b"ad"), kp.pk.raw(), &Signature::new(3, vec![0; 64])),
        Err(WError::SignatureError(SignatureReason::SchemeMismatch))
    );
}
