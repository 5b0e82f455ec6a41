use move_binary_format::deserializer::load_signature_token_test_entry;
use move_binary_format::errors::{Message, PartialVMError, StatusCode};
use move_binary_format::file_format::{CompiledModule, CompiledScript};

const MAGIC: [u8; 4] = [0xA1, 0x1C, 0xEB, 0x0B];

/// A module with a table of every kind, in version 6.
fn full_module() -> Vec<u8> {
    let tables: Vec<(u8, Vec<u8>)> = vec![
        (0x01, vec![0x00, 0x00]),
        (0x02, vec![0x00, 0x01, 0x07, 0x01, 0x04, 0x01]),
        (0x03, vec![0x00, 0x02, 0x00, 0x01, 0x01, 0x0F]),
        (0x04, vec![0x00, 0x00]),
        (0x05, vec![0x00, 0x02, 0x0B, 0x00, 0x01, 0x09, 0x00, 0x0A, 0x06, 0x08, 0x00]),
        (0x06, vec![0x03, 0x08, 1, 2, 3, 4, 5, 6, 7, 8]),
        (0x07, vec![0x01, b'M', 0x01, b'S', 0x01, b'f']),
        (0x08, (0u8..16).collect()),
        (0x0A, vec![0x00, 0x02, 0x01, 0x01, 0x0A, 0x02]),
        (0x0B, vec![0x00, 0x01]),
        (0x0C, vec![0x00, 0x01, 0x02, 0x01, 0x00, 0x00, 0x03, 0x06, 9, 0, 0, 0, 0, 0, 0, 0, 0x01, 0x02]),
        (0x0D, vec![0x00, 0x00]),
        (0x0E, vec![0x00, 0x01]),
        (0x0F, vec![0x00, 0x00]),
        (0x10, vec![0x01, b'k', 0x01, b'v']),
    ];
    let mut out = MAGIC.to_vec();
    out.push(6);
    out.push(tables.len() as u8);
    let mut offset = 0u8;
    for (kind, content) in &tables {
        out.extend([*kind, offset, content.len() as u8]);
        offset += content.len() as u8;
    }
    for (_, content) in &tables {
        out.extend(content);
    }
    out.push(0x00);
    out
}

fn is_typed(error: &PartialVMError) -> bool {
    error.major_status != StatusCode::VerifierInvariantViolation
}

#[test]
fn module_with_every_table_decodes() {
    let module = CompiledModule::deserialize(&full_module()).unwrap();
    assert_eq!(module.module_handles.len(), 1);
    assert_eq!(module.struct_handles.len(), 1);
    assert_eq!(module.function_handles.len(), 1);
    assert_eq!(module.function_instantiations.len(), 1);
    assert_eq!(module.signatures.len(), 2);
    assert_eq!(module.signatures[1].0.len(), 2);
    assert_eq!(module.constant_pool.len(), 1);
    assert_eq!(module.identifiers.len(), 3);
    assert_eq!(module.address_identifiers.len(), 1);
    assert_eq!(module.struct_defs.len(), 1);
    assert_eq!(module.struct_def_instantiations.len(), 1);
    assert_eq!(module.function_defs.len(), 1);
    assert_eq!(module.field_handles.len(), 1);
    assert_eq!(module.field_instantiations.len(), 1);
    assert_eq!(module.friend_decls.len(), 1);
    assert_eq!(module.metadata.len(), 1);
    assert!(module.function_defs[0].is_entry);
    assert_eq!(module.function_defs[0].acquires_global_resources.len(), 1);
    assert_eq!(module.function_defs[0].code.as_ref().unwrap().code.len(), 3);
}

#[test]
fn every_prefix_of_a_module_gives_a_typed_result() {
    let bytes = full_module();
    for len in 0..bytes.len() {
        match CompiledModule::deserialize(&bytes[..len]) {
            Ok(_) => panic!("a module without its last byte decoded"),
            Err(error) => assert!(is_typed(&error)),
        }
        if let Err(error) = CompiledScript::deserialize(&bytes[..len]) {
            assert!(is_typed(&error));
        }
    }
}

#[test]
fn every_changed_byte_gives_a_typed_result() {
    let bytes = full_module();
    for at in 0..bytes.len() {
        for value in [0x00u8, 0x01, 0x0B, 0x7F, 0x80, 0xFF] {
            let mut changed = bytes.clone();
            changed[at] = value;
            let first = CompiledModule::deserialize(&changed);
            let second = CompiledModule::deserialize(&changed);
            assert_eq!(first, second);
            if let Err(error) = first {
                assert!(is_typed(&error));
            }
        }
    }
}

#[test]
fn arbitrary_bytes_give_typed_results() {
    let mut state: u32 = 0x2545F491;
    for round in 0..2000 {
        let mut bytes = if round % 2 == 0 { MAGIC.to_vec() } else { vec![] };
        let len = (state >> 24) as usize % 64;
        for _ in 0..len {
            state = state.wrapping_mul(1664525).wrapping_add(1013904223);
            bytes.push((state >> 16) as u8);
        }
        if let Err(error) = CompiledModule::deserialize(&bytes) {
            assert!(is_typed(&error));
        }
        if let Err(error) = CompiledScript::deserialize(&bytes) {
            assert!(is_typed(&error));
        }
        if let Err(error) = load_signature_token_test_entry(&bytes) {
            assert!(is_typed(&error));
        }
    }
}

#[test]
fn decoded_values_keep_the_bounds_of_the_format() {
    let module = CompiledModule::deserialize(&full_module()).unwrap();
    assert!(module.address_identifiers.iter().all(|a| a.0.len() == 16));
    assert!(module.struct_handles.iter().all(|h| h.abilities.0 <= 0xF));
    assert!(module.signatures.iter().all(|s| s.0.len() <= 255));
    assert!(module.identifiers.iter().all(|i| i.0.is_ascii() && !i.0.is_empty()));
}

#[test]
fn errors_carry_a_text() {
    let error = load_signature_token_test_entry(&[0x0B, 0x00, 0x00]).unwrap_err();
    assert_eq!(error.message().text(), "Struct inst with arity 0");
    assert_eq!(error.major_status(), StatusCode::Malformed);
    assert_eq!(Message::Absent.text(), "");
    assert_eq!(Message::BadUleb.text(), "Bad Uleb");
    assert_eq!(Message::UnexpectedEof.text(), "Unexpected EOF");
    assert_eq!(Message::BadTableInScript.text(), "Bad table in Script");
    let error = PartialVMError::new(StatusCode::BadMagic);
    assert_eq!(error.message, Message::Absent);
    assert_eq!(error.with_message(Message::BadUleb).message, Message::BadUleb);
    assert_eq!(error.with_message(Message::BadUleb).major_status, StatusCode::BadMagic);
}

#[test]
fn statuses_have_numbers() {
    assert_eq!(StatusCode::Malformed.number(), 3001);
    assert_eq!(StatusCode::BadMagic.number(), 3002);
    assert_eq!(StatusCode::UnknownVersion.number(), 3003);
    assert_eq!(StatusCode::UnknownTableType.number(), 3004);
    assert_eq!(StatusCode::UnknownSerializedType.number(), 3006);
    assert_eq!(StatusCode::UnknownOpcode.number(), 3007);
    assert_eq!(StatusCode::BadHeaderTable.number(), 3008);
    assert_eq!(StatusCode::DuplicateTable.number(), 3010);
    assert_eq!(StatusCode::UnknownAbility.number(), 3013);
    assert_eq!(StatusCode::UnknownNativeStructFlag.number(), 3014);
    assert_eq!(StatusCode::BadU64.number(), 3019);
    assert_eq!(StatusCode::BadU128.number(), 3020);
    assert_eq!(StatusCode::InvalidFlagBits.number(), 3025);
    assert_eq!(StatusCode::VerifierInvariantViolation.number(), 2016);
    let all = [
        StatusCode::BadMagic,
        StatusCode::UnknownVersion,
        StatusCode::UnknownTableType,
        StatusCode::BadHeaderTable,
        StatusCode::DuplicateTable,
        StatusCode::Malformed,
        StatusCode::BadU16,
        StatusCode::BadU32,
        StatusCode::BadU64,
        StatusCode::BadU128,
        StatusCode::BadU256,
        StatusCode::UnknownSerializedType,
        StatusCode::UnknownOpcode,
        StatusCode::UnknownAbility,
        StatusCode::UnknownNativeStructFlag,
        StatusCode::InvalidFlagBits,
        StatusCode::VerifierInvariantViolation,
    ];
    for (i, a) in all.iter().enumerate() {
        for b in &all[i + 1..] {
            assert_ne!(a.number(), b.number());
        }
    }
}
