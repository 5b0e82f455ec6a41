use move_binary_format::errors::{Message, StatusCode};
use move_binary_format::file_format::{
    Ability, AbilitySet, AddressIdentifierIndex, Bytecode, CompiledModule, CompiledScript,
    ConstantPoolIndex as C, FieldHandleIndex as FH, FieldInstantiationIndex as FI,
    FunctionHandleIndex, FunctionInstantiationIndex as FuI, IdentifierIndex, ModuleHandle,
    ModuleHandleIndex, SignatureIndex, SignatureToken, StructDefInstantiationIndex as SDI,
    StructDefinitionIndex as SD, StructFieldInformation, StructHandleIndex, Visibility, U256,
};

const MAGIC: [u8; 4] = [0xA1, 0x1C, 0xEB, 0x0B];

fn uleb(mut value: u64) -> Vec<u8> {
    let mut out = vec![];
    loop {
        let low = (value & 0x7f) as u8;
        value >>= 7;
        if value == 0 {
            out.push(low);
            return out;
        }
        out.push(low | 0x80);
    }
}

/// A binary of the given version whose tables stand in the given order, one
/// behind the other.
fn binary(version: u8, tables: &[(u8, Vec<u8>)], trailer: &[u8]) -> Vec<u8> {
    let mut out = MAGIC.to_vec();
    out.push(version);
    out.extend(uleb(tables.len() as u64));
    let mut offset = 0u64;
    for (kind, content) in tables {
        out.push(*kind);
        out.extend(uleb(offset));
        out.extend(uleb(content.len() as u64));
        offset += content.len() as u64;
    }
    for (_, content) in tables {
        out.extend(content.iter());
    }
    out.extend(trailer.iter());
    out
}

fn module_status(bytes: &[u8]) -> StatusCode {
    CompiledModule::deserialize(bytes).unwrap_err().major_status
}

fn module_message(bytes: &[u8]) -> Message {
    CompiledModule::deserialize(bytes).unwrap_err().message
}

/// A module of the given version with one function definition whose bytes
/// are given.
fn module_with_function(version: u8, def: Vec<u8>) -> Vec<u8> {
    binary(version, &[(0x0C, def)], &[0x00])
}

#[test]
fn empty_module_decodes() {
    let bytes = binary(6, &[(0x01, vec![0x00, 0x00]), (0x07, vec![0x01, b'M'])], &[0x00]);
    assert_eq!(
        bytes,
        vec![0xA1, 0x1C, 0xEB, 0x0B, 6, 2, 0x01, 0, 2, 0x07, 2, 2, 0, 0, 1, b'M', 0]
    );
    let module = CompiledModule::deserialize(&bytes).unwrap();
    assert_eq!(module.version, 6);
    assert_eq!(module.self_module_handle_idx, ModuleHandleIndex(0));
    assert_eq!(
        module.module_handles,
        vec![ModuleHandle { address: AddressIdentifierIndex(0), name: IdentifierIndex(0) }]
    );
    assert_eq!(module.identifiers.len(), 1);
    assert_eq!(module.identifiers[0].0, "M");
    assert!(module.function_defs.is_empty());
    assert!(module.struct_defs.is_empty());
    assert!(module.struct_handles.is_empty());
    assert!(module.signatures.is_empty());
    assert!(module.address_identifiers.is_empty());
}

#[test]
fn the_three_entry_points_agree() {
    let bytes = binary(6, &[(0x01, vec![0x00, 0x00]), (0x07, vec![0x01, b'M'])], &[0x00]);
    let a = CompiledModule::deserialize(&bytes).unwrap();
    let b = CompiledModule::deserialize_with_max_version(&bytes, 6).unwrap();
    let c = CompiledModule::deserialize_no_check_bounds(&bytes).unwrap();
    assert_eq!(a, b);
    assert_eq!(a, c);
    assert_eq!(a, CompiledModule::deserialize(&bytes).unwrap());
}

#[test]
fn bytes_behind_the_trailer_are_ignored() {
    let mut bytes = binary(6, &[(0x01, vec![0x00, 0x00])], &[0x05]);
    let short = CompiledModule::deserialize(&bytes).unwrap();
    bytes.extend([0xFF, 0xFF, 0xFF]);
    let long = CompiledModule::deserialize(&bytes).unwrap();
    assert_eq!(short, long);
    assert_eq!(long.self_module_handle_idx, ModuleHandleIndex(5));
}

#[test]
fn tables_are_decoded_in_the_order_of_their_offsets() {
    // The directory names the identifiers first, though they lie second.
    let mut bytes = MAGIC.to_vec();
    bytes.extend([6, 2, 0x07, 2, 2, 0x01, 0, 2]);
    bytes.extend([0x03, 0x04, 0x01, b'Z', 0x00]);
    let module = CompiledModule::deserialize(&bytes).unwrap();
    assert_eq!(
        module.module_handles,
        vec![ModuleHandle { address: AddressIdentifierIndex(3), name: IdentifierIndex(4) }]
    );
    assert_eq!(module.identifiers[0].0, "Z");
}

#[test]
fn bad_magic_is_rejected() {
    assert_eq!(module_status(&[]), StatusCode::BadMagic);
    assert_eq!(module_status(&[0xA1, 0x1C, 0xEB]), StatusCode::BadMagic);
    assert_eq!(module_status(&[0xA1, 0x1C, 0xEB, 0x0C, 6, 0, 0]), StatusCode::BadMagic);
}

#[test]
fn header_without_version_is_malformed() {
    assert_eq!(module_status(&MAGIC), StatusCode::Malformed);
    assert_eq!(module_message(&MAGIC), Message::BadBinaryHeader);
}

#[test]
fn versions_outside_the_range_are_unknown() {
    assert_eq!(module_status(&binary(0, &[], &[0])), StatusCode::UnknownVersion);
    assert_eq!(module_status(&binary(7, &[], &[0])), StatusCode::UnknownVersion);
    assert!(CompiledModule::deserialize(&binary(6, &[], &[0])).is_ok());
    assert!(CompiledModule::deserialize(&binary(1, &[], &[0])).is_ok());
}

#[test]
fn max_version_caps_the_version() {
    let bytes = binary(5, &[], &[0]);
    assert!(CompiledModule::deserialize_with_max_version(&bytes, 5).is_ok());
    assert_eq!(
        CompiledModule::deserialize_with_max_version(&bytes, 4).unwrap_err().major_status,
        StatusCode::UnknownVersion
    );
    // A cap above the highest version of the format does not admit more.
    assert_eq!(
        CompiledModule::deserialize_with_max_version(&binary(7, &[], &[0]), 9)
            .unwrap_err()
            .major_status,
        StatusCode::UnknownVersion
    );
    assert_eq!(
        CompiledScript::deserialize_with_max_version(&binary(6, &[], &[0, 0, 0]), 5)
            .unwrap_err()
            .major_status,
        StatusCode::UnknownVersion
    );
}

#[test]
fn unknown_table_kind_is_rejected() {
    let mut bytes = MAGIC.to_vec();
    bytes.extend([6, 1, 0x09, 0, 1, 0xAA, 0]);
    assert_eq!(module_status(&bytes), StatusCode::UnknownTableType);
    let mut bytes = MAGIC.to_vec();
    bytes.extend([6, 1, 0x11, 0, 1, 0xAA, 0]);
    assert_eq!(module_status(&bytes), StatusCode::UnknownTableType);
}

#[test]
fn short_directory_is_malformed() {
    let mut bytes = MAGIC.to_vec();
    bytes.extend([6, 1]);
    assert_eq!(module_message(&bytes), Message::ErrorReadingTable);
    bytes.extend([0x01]);
    assert_eq!(module_message(&bytes), Message::BadUleb);
}

#[test]
fn tables_longer_than_the_bytes_that_remain_are_rejected() {
    // A table of five bytes, and two bytes behind the directory.
    let mut bytes = MAGIC.to_vec();
    bytes.extend([6, 1, 0x01, 0, 5, 0, 0]);
    assert_eq!(module_status(&bytes), StatusCode::BadHeaderTable);
    assert_eq!(module_message(&bytes), Message::Absent);
    // The table fits the length of the whole binary; the bytes that remain
    // behind the directory decide.
    let mut bytes = MAGIC.to_vec();
    bytes.extend([6, 1, 0x01, 0, 6, 0, 0]);
    assert!(bytes.len() >= 6);
    assert_eq!(module_status(&bytes), StatusCode::BadHeaderTable);
    // With every byte of the table there, the trailer is what is missing.
    let mut bytes = MAGIC.to_vec();
    bytes.extend([6, 1, 0x01, 0, 2, 0, 0]);
    assert_eq!(module_message(&bytes), Message::BadUleb);
    bytes.push(0);
    assert!(CompiledModule::deserialize(&bytes).is_ok());
}

#[test]
fn missing_trailer_is_malformed() {
    let bytes = binary(6, &[(0x01, vec![0x00, 0x00])], &[]);
    assert_eq!(module_message(&bytes), Message::BadUleb);
}

#[test]
fn index_above_its_maximum_is_malformed() {
    // 65536 as the index of the module itself.
    let bytes = binary(6, &[], &[0x80, 0x80, 0x04]);
    assert_eq!(module_message(&bytes), Message::UlebGreaterThanMax);
    let bytes = binary(6, &[], &[0xFF, 0xFF, 0x03]);
    assert_eq!(
        CompiledModule::deserialize(&bytes).unwrap().self_module_handle_idx,
        ModuleHandleIndex(65535)
    );
}

#[test]
fn record_cut_by_the_end_of_its_table_is_malformed() {
    // A module handle is two indices; the table holds three bytes.
    let bytes = binary(6, &[(0x01, vec![0x00, 0x00, 0x00])], &[0x00]);
    assert_eq!(module_status(&bytes), StatusCode::Malformed);
    // An index that runs over the end of its table does not read the next one.
    let bytes = binary(6, &[(0x01, vec![0x00, 0x80]), (0x0F, vec![0x01, 0x00])], &[0x00]);
    assert_eq!(module_message(&bytes), Message::BadUleb);
}

#[test]
fn version_one_struct_handle_kinds_become_abilities() {
    // module, name, kind, no type parameters
    let normal = binary(1, &[(0x02, vec![0x00, 0x00, 0x02, 0x00])], &[0x00]);
    let module = CompiledModule::deserialize(&normal).unwrap();
    assert_eq!(module.struct_handles[0].abilities, AbilitySet(0x4 | 0x1 | 0x2));
    let resource = binary(1, &[(0x02, vec![0x00, 0x00, 0x01, 0x00])], &[0x00]);
    let module = CompiledModule::deserialize(&resource).unwrap();
    assert_eq!(module.struct_handles[0].abilities, AbilitySet(0x4 | 0x8));
    let unknown = binary(1, &[(0x02, vec![0x00, 0x00, 0x03, 0x00])], &[0x00]);
    assert_eq!(module_status(&unknown), StatusCode::UnknownAbility);
}

#[test]
fn version_one_type_parameter_kinds_become_abilities() {
    // A struct handle with three type parameters: all, copyable, resource.
    let bytes = binary(1, &[(0x02, vec![0x00, 0x00, 0x02, 0x03, 0x01, 0x02, 0x03])], &[0x00]);
    let module = CompiledModule::deserialize(&bytes).unwrap();
    let parameters = &module.struct_handles[0].type_parameters;
    assert_eq!(parameters.len(), 3);
    assert_eq!(parameters[0].constraints, AbilitySet(0));
    assert_eq!(parameters[1].constraints, AbilitySet(0x1 | 0x2));
    assert_eq!(parameters[2].constraints, AbilitySet(0x8));
    assert!(parameters.iter().all(|p| !p.is_phantom));
    // A function handle with the same three kinds.
    let bytes =
        binary(1, &[(0x03, vec![0x00, 0x00, 0x00, 0x00, 0x03, 0x01, 0x02, 0x03])], &[0x00]);
    let module = CompiledModule::deserialize(&bytes).unwrap();
    assert_eq!(
        module.function_handles[0].type_parameters,
        vec![AbilitySet(0x4), AbilitySet(0x4 | 0x1 | 0x2), AbilitySet(0x4 | 0x8)]
    );
    let bytes = binary(1, &[(0x03, vec![0x00, 0x00, 0x00, 0x00, 0x01, 0x04])], &[0x00]);
    assert_eq!(module_status(&bytes), StatusCode::UnknownAbility);
}

#[test]
fn ability_sets_are_bounded_from_version_two() {
    let bytes = binary(2, &[(0x02, vec![0x00, 0x00, 0x0F, 0x00])], &[0x00]);
    let module = CompiledModule::deserialize(&bytes).unwrap();
    assert_eq!(module.struct_handles[0].abilities, AbilitySet(0xF));
    assert!(module.struct_handles[0].abilities.has_ability(Ability::Key));
    let bytes = binary(2, &[(0x02, vec![0x00, 0x00, 0x10, 0x00])], &[0x00]);
    assert_eq!(module_message(&bytes), Message::UlebGreaterThanMax);
}

#[test]
fn phantom_flag_exists_from_version_three() {
    // One type parameter: constraints 0x1, phantom.
    let with_flag = vec![0x00, 0x00, 0x00, 0x01, 0x01, 0x01];
    let module = CompiledModule::deserialize(&binary(3, &[(0x02, with_flag.clone())], &[0x00]))
        .unwrap();
    assert!(module.struct_handles[0].type_parameters[0].is_phantom);
    // In version 2 the last byte does not belong to the record.
    assert_eq!(module_status(&binary(2, &[(0x02, with_flag)], &[0x00])), StatusCode::Malformed);
    let without_flag = vec![0x00, 0x00, 0x00, 0x01, 0x01];
    let module =
        CompiledModule::deserialize(&binary(2, &[(0x02, without_flag)], &[0x00])).unwrap();
    assert!(!module.struct_handles[0].type_parameters[0].is_phantom);
    let bad_flag = vec![0x00, 0x00, 0x00, 0x01, 0x01, 0x02];
    assert_eq!(
        module_message(&binary(3, &[(0x02, bad_flag)], &[0x00])),
        Message::UlebGreaterThanMax
    );
}

#[test]
fn vector_opcode_wants_version_four() {
    // handle, visibility, flags, no acquires, locals, one instruction: VEC_LEN 0
    let def = vec![0x00, 0x00, 0x00, 0x00, 0x00, 0x01, 0x41, 0x00];
    let old = module_with_function(3, def.clone());
    assert_eq!(module_status(&old), StatusCode::Malformed);
    assert_eq!(module_message(&old), Message::VectorOperationsNotAvailable);
    let module = CompiledModule::deserialize(&module_with_function(4, def)).unwrap();
    let code = module.function_defs[0].code.as_ref().unwrap();
    assert_eq!(code.code, vec![Bytecode::VecLen(SignatureIndex(0))]);
}

#[test]
fn wide_integer_opcodes_want_version_six() {
    let def = vec![0x00, 0x00, 0x00, 0x00, 0x00, 0x02, 0x48, 0x34, 0x12, 0x4B];
    let old = module_with_function(5, def.clone());
    assert_eq!(module_message(&old), Message::IntegerOperationNotSupported(5));
    let module = CompiledModule::deserialize(&module_with_function(6, def)).unwrap();
    let code = module.function_defs[0].code.as_ref().unwrap();
    assert_eq!(code.code, vec![Bytecode::LdU16(0x1234), Bytecode::CastU16]);
}

#[test]
fn metadata_wants_version_five() {
    let entry = vec![0x01, b'k', 0x02, b'v', b'w'];
    let module = CompiledModule::deserialize(&binary(5, &[(0x10, entry.clone())], &[0x00]))
        .unwrap();
    assert_eq!(module.metadata.len(), 1);
    assert_eq!(module.metadata[0].key, vec![b'k']);
    assert_eq!(module.metadata[0].value, vec![b'v', b'w']);
    let old = binary(4, &[(0x10, entry)], &[0x00]);
    assert_eq!(module_message(&old), Message::MetadataNotApplicable(4));
    assert_eq!(module_status(&old), StatusCode::Malformed);
}

#[test]
fn friend_declarations_want_version_two() {
    let friends = vec![0x01, 0x02];
    let module = CompiledModule::deserialize(&binary(2, &[(0x0F, friends.clone())], &[0x00]))
        .unwrap();
    assert_eq!(
        module.friend_decls,
        vec![ModuleHandle { address: AddressIdentifierIndex(1), name: IdentifierIndex(2) }]
    );
    assert!(module.module_handles.is_empty());
    let old = binary(1, &[(0x0F, friends)], &[0x00]);
    assert_eq!(module_message(&old), Message::FriendDeclarationsNotApplicable);
}

#[test]
fn function_flags_of_version_one() {
    // One flag byte: the lowest bit says public.
    let public = module_with_function(1, vec![0x00, 0x01, 0x00, 0x00, 0x00]);
    let module = CompiledModule::deserialize(&public).unwrap();
    assert_eq!(module.function_defs[0].visibility, Visibility::Public);
    assert!(!module.function_defs[0].is_entry);
    assert!(module.function_defs[0].code.is_some());
    let private = module_with_function(1, vec![0x00, 0x00, 0x00, 0x00, 0x00]);
    let module = CompiledModule::deserialize(&private).unwrap();
    assert_eq!(module.function_defs[0].visibility, Visibility::Private);
    // A bit without a meaning is found after the body has been read.
    let residual = module_with_function(1, vec![0x00, 0x02, 0x00, 0x00, 0x00]);
    assert_eq!(module_status(&residual), StatusCode::InvalidFlagBits);
    let residual_and_bad_body = module_with_function(1, vec![0x00, 0x02, 0x00, 0x00, 0x01, 0x00]);
    assert_eq!(module_status(&residual_and_bad_body), StatusCode::UnknownOpcode);
}

#[test]
fn function_flags_of_versions_two_to_four() {
    // visibility byte, then flags
    let script = module_with_function(4, vec![0x00, 0x02, 0x00, 0x00, 0x00, 0x00]);
    let module = CompiledModule::deserialize(&script).unwrap();
    assert_eq!(module.function_defs[0].visibility, Visibility::Public);
    assert!(module.function_defs[0].is_entry);
    let friend = module_with_function(2, vec![0x00, 0x03, 0x00, 0x00, 0x00, 0x00]);
    let module = CompiledModule::deserialize(&friend).unwrap();
    assert_eq!(module.function_defs[0].visibility, Visibility::Friend);
    assert!(!module.function_defs[0].is_entry);
    let native = module_with_function(3, vec![0x07, 0x00, 0x01, 0x00]);
    let module = CompiledModule::deserialize(&native).unwrap();
    assert_eq!(module.function_defs[0].function, FunctionHandleIndex(7));
    assert!(module.function_defs[0].code.is_none());
    let bad = module_with_function(4, vec![0x00, 0x04, 0x00, 0x00, 0x00, 0x00]);
    assert_eq!(module_message(&bad), Message::InvalidVisibilityByte);
    // The entry bit has no meaning before version 5.
    let entry_bit = module_with_function(4, vec![0x00, 0x01, 0x02, 0x00, 0x00, 0x00]);
    assert_eq!(module_status(&entry_bit), StatusCode::InvalidFlagBits);
}

#[test]
fn function_flags_from_version_five() {
    let entry = module_with_function(5, vec![0x00, 0x01, 0x02, 0x00, 0x00, 0x00]);
    let module = CompiledModule::deserialize(&entry).unwrap();
    assert_eq!(module.function_defs[0].visibility, Visibility::Public);
    assert!(module.function_defs[0].is_entry);
    assert!(module.function_defs[0].code.is_some());
    let native_entry = module_with_function(6, vec![0x00, 0x00, 0x03, 0x00]);
    let module = CompiledModule::deserialize(&native_entry).unwrap();
    assert!(module.function_defs[0].is_entry);
    assert!(module.function_defs[0].code.is_none());
    // The script visibility is gone.
    let script = module_with_function(5, vec![0x00, 0x02, 0x00, 0x00, 0x00, 0x00]);
    assert_eq!(module_message(&script), Message::InvalidVisibilityByte);
    let residual = module_with_function(5, vec![0x00, 0x00, 0x04, 0x00, 0x00, 0x00]);
    assert_eq!(module_status(&residual), StatusCode::InvalidFlagBits);
    let cut = module_with_function(5, vec![0x00, 0x00]);
    assert_eq!(module_message(&cut), Message::UnexpectedEof);
}

#[test]
fn acquires_and_code_are_decoded() {
    // handle 1, private, no flags, acquires [2, 3], locals 4, code: LdTrue, Pop, Ret
    let def = vec![0x01, 0x00, 0x00, 0x02, 0x02, 0x03, 0x04, 0x03, 0x08, 0x01, 0x02];
    let module = CompiledModule::deserialize(&module_with_function(6, def)).unwrap();
    let function = &module.function_defs[0];
    assert_eq!(function.function, FunctionHandleIndex(1));
    assert_eq!(
        function.acquires_global_resources,
        vec![
            SD(2),
            SD(3)
        ]
    );
    let code = function.code.as_ref().unwrap();
    assert_eq!(code.locals, SignatureIndex(4));
    assert_eq!(code.code, vec![Bytecode::LdTrue, Bytecode::Pop, Bytecode::Ret]);
}

#[test]
fn short_code_is_malformed() {
    // Two instructions are announced, one is there.
    let def = vec![0x00, 0x00, 0x00, 0x00, 0x00, 0x02, 0x02];
    assert_eq!(module_message(&module_with_function(6, def)), Message::UnexpectedEof);
}

#[test]
fn fixed_width_operands_are_little_endian() {
    let mut def = vec![0x00, 0x00, 0x00, 0x00, 0x00, 0x06];
    def.extend([0x31, 0xAB]);
    def.extend([0x49, 0x78, 0x56, 0x34, 0x12]);
    def.extend([0x06, 0x08, 0x07, 0x06, 0x05, 0x04, 0x03, 0x02, 0x01]);
    def.push(0x32);
    def.extend((1u8..=16).collect::<Vec<u8>>());
    def.push(0x4A);
    def.extend((1u8..=32).collect::<Vec<u8>>());
    // VEC_PACK: a signature index and a length of eight bytes
    def.extend([0x40, 0x05, 0x09, 0, 0, 0, 0, 0, 0, 0x80]);
    let module = CompiledModule::deserialize(&module_with_function(6, def)).unwrap();
    let code = &module.function_defs[0].code.as_ref().unwrap().code;
    assert_eq!(
        *code,
        vec![
            Bytecode::LdU8(0xAB),
            Bytecode::LdU32(0x12345678),
            Bytecode::LdU64(0x0102030405060708),
            Bytecode::LdU128(0x100F0E0D0C0B0A090807060504030201),
            Bytecode::LdU256(U256 {
                low: 0x100F0E0D0C0B0A090807060504030201,
                high: 0x201F1E1D1C1B1A191817161514131211,
            }),
            Bytecode::VecPack(SignatureIndex(5), 0x8000000000000009),
        ]
    );
}

#[test]
fn short_fixed_width_operands_have_their_own_errors() {
    let with = |code: Vec<u8>| {
        let mut def = vec![0x00, 0x00, 0x00, 0x00, 0x00, 0x01];
        def.extend(code);
        module_status(&module_with_function(6, def))
    };
    assert_eq!(with(vec![0x48, 0x01]), StatusCode::BadU16);
    assert_eq!(with(vec![0x49, 0x01, 0x02, 0x03]), StatusCode::BadU32);
    assert_eq!(with(vec![0x06, 1, 2, 3, 4, 5, 6, 7]), StatusCode::BadU64);
    assert_eq!(with(vec![0x32; 16]), StatusCode::BadU128);
    assert_eq!(with(vec![0x4A; 32]), StatusCode::BadU256);
    assert_eq!(with(vec![0x31]), StatusCode::Malformed);
    assert_eq!(with(vec![0x40, 0x00, 1, 2, 3]), StatusCode::BadU64);
}

#[test]
fn opcodes_outside_the_table_are_unknown() {
    let with = |opcode: u8| {
        module_status(&module_with_function(6, vec![0x00, 0x00, 0x00, 0x00, 0x00, 0x01, opcode]))
    };
    assert_eq!(with(0x00), StatusCode::UnknownOpcode);
    assert_eq!(with(0x4E), StatusCode::UnknownOpcode);
    assert_eq!(with(0xFF), StatusCode::UnknownOpcode);
    let first = module_with_function(6, vec![0x00, 0x00, 0x00, 0x00, 0x00, 0x02, 0x01, 0x4D]);
    let module = CompiledModule::deserialize(&first).unwrap();
    assert_eq!(
        module.function_defs[0].code.as_ref().unwrap().code,
        vec![Bytecode::Pop, Bytecode::CastU256]
    );
}

#[test]
fn every_opcode_has_its_instruction() {
    let expected: Vec<(u8, Vec<u8>, Bytecode)> = vec![
        (0x01, vec![], Bytecode::Pop),
        (0x02, vec![], Bytecode::Ret),
        (0x03, vec![9], Bytecode::BrTrue(9)),
        (0x04, vec![9], Bytecode::BrFalse(9)),
        (0x05, vec![9], Bytecode::Branch(9)),
        (0x07, vec![9], Bytecode::LdConst(C(9))),
        (0x08, vec![], Bytecode::LdTrue),
        (0x09, vec![], Bytecode::LdFalse),
        (0x0A, vec![9], Bytecode::CopyLoc(9)),
        (0x0B, vec![9], Bytecode::MoveLoc(9)),
        (0x0C, vec![9], Bytecode::StLoc(9)),
        (0x0D, vec![9], Bytecode::MutBorrowLoc(9)),
        (0x0E, vec![9], Bytecode::ImmBorrowLoc(9)),
        (0x0F, vec![9], Bytecode::MutBorrowField(FH(9))),
        (0x10, vec![9], Bytecode::ImmBorrowField(FH(9))),
        (0x11, vec![9], Bytecode::Call(FunctionHandleIndex(9))),
        (0x12, vec![9], Bytecode::Pack(SD(9))),
        (0x13, vec![9], Bytecode::Unpack(SD(9))),
        (0x14, vec![], Bytecode::ReadRef),
        (0x15, vec![], Bytecode::WriteRef),
        (0x16, vec![], Bytecode::Add),
        (0x17, vec![], Bytecode::Sub),
        (0x18, vec![], Bytecode::Mul),
        (0x19, vec![], Bytecode::Mod),
        (0x1A, vec![], Bytecode::Div),
        (0x1B, vec![], Bytecode::BitOr),
        (0x1C, vec![], Bytecode::BitAnd),
        (0x1D, vec![], Bytecode::Xor),
        (0x1E, vec![], Bytecode::Or),
        (0x1F, vec![], Bytecode::And),
        (0x20, vec![], Bytecode::Not),
        (0x21, vec![], Bytecode::Eq),
        (0x22, vec![], Bytecode::Neq),
        (0x23, vec![], Bytecode::Lt),
        (0x24, vec![], Bytecode::Gt),
        (0x25, vec![], Bytecode::Le),
        (0x26, vec![], Bytecode::Ge),
        (0x27, vec![], Bytecode::Abort),
        (0x28, vec![], Bytecode::Nop),
        (0x29, vec![9], Bytecode::Exists(SD(9))),
        (0x2A, vec![9], Bytecode::MutBorrowGlobal(SD(9))),
        (0x2B, vec![9], Bytecode::ImmBorrowGlobal(SD(9))),
        (0x2C, vec![9], Bytecode::MoveFrom(SD(9))),
        (0x2D, vec![9], Bytecode::MoveTo(SD(9))),
        (0x2E, vec![], Bytecode::FreezeRef),
        (0x2F, vec![], Bytecode::Shl),
        (0x30, vec![], Bytecode::Shr),
        (0x33, vec![], Bytecode::CastU8),
        (0x34, vec![], Bytecode::CastU64),
        (0x35, vec![], Bytecode::CastU128),
        (0x36, vec![9], Bytecode::MutBorrowFieldGeneric(FI(9))),
        (0x37, vec![9], Bytecode::ImmBorrowFieldGeneric(FI(9))),
        (0x38, vec![9], Bytecode::CallGeneric(FuI(9))),
        (0x39, vec![9], Bytecode::PackGeneric(SDI(9))),
        (0x3A, vec![9], Bytecode::UnpackGeneric(SDI(9))),
        (0x3B, vec![9], Bytecode::ExistsGeneric(SDI(9))),
        (0x3C, vec![9], Bytecode::MutBorrowGlobalGeneric(SDI(9))),
        (0x3D, vec![9], Bytecode::ImmBorrowGlobalGeneric(SDI(9))),
        (0x3E, vec![9], Bytecode::MoveFromGeneric(SDI(9))),
        (0x3F, vec![9], Bytecode::MoveToGeneric(SDI(9))),
        (0x41, vec![9], Bytecode::VecLen(SignatureIndex(9))),
        (0x42, vec![9], Bytecode::VecImmBorrow(SignatureIndex(9))),
        (0x43, vec![9], Bytecode::VecMutBorrow(SignatureIndex(9))),
        (0x44, vec![9], Bytecode::VecPushBack(SignatureIndex(9))),
        (0x45, vec![9], Bytecode::VecPopBack(SignatureIndex(9))),
        (0x46, vec![9, 1, 0, 0, 0, 0, 0, 0, 0], Bytecode::VecUnpack(SignatureIndex(9), 1)),
        (0x47, vec![9], Bytecode::VecSwap(SignatureIndex(9))),
        (0x4B, vec![], Bytecode::CastU16),
        (0x4C, vec![], Bytecode::CastU32),
        (0x4D, vec![], Bytecode::CastU256),
    ];
    for (opcode, operands, instruction) in expected {
        let mut def = vec![0x00, 0x00, 0x00, 0x00, 0x00, 0x01, opcode];
        def.extend(operands);
        let module = CompiledModule::deserialize(&module_with_function(6, def)).unwrap();
        assert_eq!(module.function_defs[0].code.as_ref().unwrap().code, vec![instruction]);
    }
}

#[test]
fn local_index_is_bounded_by_255() {
    let def = vec![0x00, 0x00, 0x00, 0x00, 0x00, 0x01, 0x0A, 0x80, 0x02];
    assert_eq!(module_message(&module_with_function(6, def)), Message::UlebGreaterThanMax);
    let def = vec![0x00, 0x00, 0x00, 0x00, 0x00, 0x01, 0x0A, 0xFF, 0x01];
    let module = CompiledModule::deserialize(&module_with_function(6, def)).unwrap();
    assert_eq!(module.function_defs[0].code.as_ref().unwrap().code, vec![Bytecode::CopyLoc(255)]);
}

#[test]
fn struct_definitions_are_decoded() {
    // handle 1, native; handle 2, declared with one field: name 3, type u64
    let defs = vec![0x01, 0x01, 0x02, 0x02, 0x01, 0x03, 0x03];
    let module = CompiledModule::deserialize(&binary(6, &[(0x0A, defs)], &[0x00])).unwrap();
    assert_eq!(module.struct_defs.len(), 2);
    assert_eq!(module.struct_defs[0].struct_handle, StructHandleIndex(1));
    assert_eq!(module.struct_defs[0].field_information, StructFieldInformation::Native);
    match &module.struct_defs[1].field_information {
        StructFieldInformation::Declared(fields) => {
            assert_eq!(fields.len(), 1);
            assert_eq!(fields[0].name, IdentifierIndex(3));
            assert_eq!(fields[0].signature.0, SignatureToken::U64);
        }
        StructFieldInformation::Native => panic!("the struct declares its fields"),
    }
    let bad_flag = binary(6, &[(0x0A, vec![0x01, 0x03])], &[0x00]);
    assert_eq!(module_status(&bad_flag), StatusCode::UnknownNativeStructFlag);
    let no_flag = binary(6, &[(0x0A, vec![0x01])], &[0x00]);
    assert_eq!(module_message(&no_flag), Message::InvalidFieldInfoInStruct);
}

#[test]
fn instantiations_and_field_handles_are_decoded() {
    let module = CompiledModule::deserialize(&binary(
        6,
        &[
            (0x04, vec![0x01, 0x02]),
            (0x0B, vec![0x03, 0x04]),
            (0x0D, vec![0x05, 0x06, 0x07, 0x08]),
            (0x0E, vec![0x09, 0x0A]),
        ],
        &[0x00],
    ))
    .unwrap();
    assert_eq!(module.function_instantiations[0].handle, FunctionHandleIndex(1));
    assert_eq!(module.function_instantiations[0].type_parameters, SignatureIndex(2));
    assert_eq!(
        module.struct_def_instantiations[0].def,
        SD(3)
    );
    assert_eq!(module.field_handles.len(), 2);
    assert_eq!(module.field_handles[1].field, 8);
    assert_eq!(
        module.field_instantiations[0].handle,
        FH(9)
    );
    // The position of a field is bounded by 255.
    let bad = binary(6, &[(0x0D, vec![0x05, 0x80, 0x02])], &[0x00]);
    assert_eq!(module_message(&bad), Message::UlebGreaterThanMax);
}

#[test]
fn identifiers_follow_the_grammar() {
    let ok = binary(6, &[(0x07, vec![0x02, b'_', b'a', 0x06, b'<', b'S', b'E', b'L', b'F', b'>'])], &[0]);
    let module = CompiledModule::deserialize(&ok).unwrap();
    assert_eq!(module.identifiers[0].0, "_a");
    assert_eq!(module.identifiers[1].0, "<SELF>");
    for bad in [vec![0x01, b'_'], vec![0x02, b'1', b'a'], vec![0x02, b'a', b'-'], vec![0x00], vec![0x02, 0xC3, 0xA9], vec![0x01, 0xFF]] {
        let bytes = binary(6, &[(0x07, bad)], &[0]);
        assert_eq!(module_message(&bytes), Message::InvalidIdentifier);
        assert_eq!(module_status(&bytes), StatusCode::Malformed);
    }
    let short = binary(6, &[(0x07, vec![0x03, b'a', b'b'])], &[0]);
    assert_eq!(module_message(&short), Message::BadIdentifierPoolSize);
}

#[test]
fn addresses_are_pieces_of_sixteen_bytes() {
    let bytes: Vec<u8> = (0u8..32).collect();
    let module = CompiledModule::deserialize(&binary(6, &[(0x08, bytes.clone())], &[0])).unwrap();
    assert_eq!(module.address_identifiers.len(), 2);
    assert_eq!(module.address_identifiers[0].0.to_vec(), bytes[0..16].to_vec());
    assert_eq!(module.address_identifiers[1].0.to_vec(), bytes[16..32].to_vec());
    let bad = binary(6, &[(0x08, bytes[0..17].to_vec())], &[0]);
    assert_eq!(module_message(&bad), Message::BadAddressIdentifierPoolSize);
    assert_eq!(module_status(&bad), StatusCode::Malformed);
}

#[test]
fn constants_are_a_type_and_a_blob() {
    // vector<u8>, three bytes
    let pool = vec![0x0A, 0x02, 0x03, 0x07, 0x08, 0x09];
    let module = CompiledModule::deserialize(&binary(6, &[(0x06, pool)], &[0])).unwrap();
    assert_eq!(module.constant_pool.len(), 1);
    assert_eq!(module.constant_pool[0].type_, SignatureToken::Vector(Box::new(SignatureToken::U8)));
    assert_eq!(module.constant_pool[0].data, vec![7, 8, 9]);
    let short = binary(6, &[(0x06, vec![0x02, 0x03, 0x07])], &[0]);
    assert_eq!(module_message(&short), Message::BadByteBlobSize);
}

#[test]
fn metadata_key_is_bounded_by_1023() {
    let mut entry = vec![0x80, 0x08];
    entry.extend(vec![0u8; 1024]);
    entry.push(0x00);
    let bytes = binary(6, &[(0x10, entry)], &[0]);
    assert_eq!(module_message(&bytes), Message::UlebGreaterThanMax);
    let mut entry = vec![0xFF, 0x07];
    entry.extend(vec![1u8; 1023]);
    entry.push(0x00);
    let module = CompiledModule::deserialize(&binary(6, &[(0x10, entry)], &[0])).unwrap();
    assert_eq!(module.metadata[0].key.len(), 1023);
    assert!(module.metadata[0].value.is_empty());
}

#[test]
fn signatures_are_counted_lists_of_tokens() {
    // [bool, address], [], [&mut T0]
    let pool = vec![0x02, 0x01, 0x05, 0x00, 0x01, 0x07, 0x09, 0x00];
    let module = CompiledModule::deserialize(&binary(6, &[(0x05, pool)], &[0])).unwrap();
    assert_eq!(module.signatures.len(), 3);
    assert_eq!(module.signatures[0].0, vec![SignatureToken::Bool, SignatureToken::Address]);
    assert!(module.signatures[1].0.is_empty());
    assert_eq!(
        module.signatures[2].0,
        vec![SignatureToken::MutableReference(Box::new(SignatureToken::TypeParameter(0)))]
    );
    // Two tokens are announced, one is there.
    let short = binary(6, &[(0x05, vec![0x02, 0x01])], &[0]);
    assert_eq!(module_message(&short), Message::UnexpectedEof);
}

#[test]
fn script_is_decoded() {
    // trailer: one type parameter with abilities 0x3, parameters 1, locals 2, code: Ret
    let bytes = binary(
        6,
        &[(0x01, vec![0x00, 0x00]), (0x07, vec![0x01, b'S'])],
        &[0x01, 0x03, 0x01, 0x02, 0x01, 0x02],
    );
    let script = CompiledScript::deserialize(&bytes).unwrap();
    assert_eq!(script.version, 6);
    assert_eq!(script.type_parameters, vec![AbilitySet(0x3)]);
    assert_eq!(script.parameters, SignatureIndex(1));
    assert_eq!(script.code.locals, SignatureIndex(2));
    assert_eq!(script.code.code, vec![Bytecode::Ret]);
    assert_eq!(script.module_handles.len(), 1);
    assert_eq!(script.identifiers[0].0, "S");
    assert_eq!(script, CompiledScript::deserialize_no_check_bounds(&bytes).unwrap());
    assert_eq!(script, CompiledScript::deserialize_with_max_version(&bytes, 6).unwrap());
}

#[test]
fn script_has_no_tables_of_modules() {
    let trailer = [0x00, 0x00, 0x00, 0x00];
    for (kind, content) in [
        (0x0Au8, vec![0x00, 0x01]),
        (0x0B, vec![0x00, 0x00]),
        (0x0C, vec![0x00, 0x00, 0x01, 0x00]),
        (0x0D, vec![0x00, 0x00]),
        (0x0E, vec![0x00, 0x00]),
        (0x0F, vec![0x00, 0x00]),
    ] {
        let bytes = binary(6, &[(0x01, vec![0x00, 0x00]), (kind, content)], &trailer);
        let error = CompiledScript::deserialize(&bytes).unwrap_err();
        assert_eq!(error.major_status, StatusCode::Malformed);
        assert_eq!(error.message, Message::BadTableInScript);
        // The same tables make a module.
        let mut module_bytes = bytes.clone();
        module_bytes.truncate(bytes.len() - 3);
        assert!(CompiledModule::deserialize(&module_bytes).is_ok());
    }
    // The content of such a table is not looked at.
    let bytes = binary(6, &[(0x0C, vec![0xFF])], &trailer);
    assert_eq!(
        CompiledScript::deserialize(&bytes).unwrap_err().message,
        Message::BadTableInScript
    );
}

#[test]
fn script_trailer_errors_come_before_table_errors() {
    // The identifier is not valid, and the trailer is missing.
    let bytes = binary(6, &[(0x07, vec![0x01, b'1'])], &[]);
    assert_eq!(CompiledScript::deserialize(&bytes).unwrap_err().message, Message::BadUleb);
    assert_eq!(module_message(&bytes), Message::BadUleb);
    let bytes = binary(6, &[(0x07, vec![0x01, b'1'])], &[0x00]);
    assert_eq!(module_message(&bytes), Message::InvalidIdentifier);
}

#[test]
fn written_module_decodes_to_itself() {
    let expected = CompiledModule {
        version: 6,
        self_module_handle_idx: ModuleHandleIndex(0),
        module_handles: vec![ModuleHandle {
            address: AddressIdentifierIndex(0),
            name: IdentifierIndex(1),
        }],
        struct_handles: vec![],
        function_handles: vec![],
        function_instantiations: vec![],
        signatures: vec![
            move_binary_format::file_format::Signature(vec![]),
            move_binary_format::file_format::Signature(vec![SignatureToken::U64]),
        ],
        identifiers: vec![
            move_binary_format::file_format::Identifier("f".to_string()),
            move_binary_format::file_format::Identifier("M".to_string()),
        ],
        address_identifiers: vec![move_binary_format::file_format::AccountAddress([7; 16])],
        constant_pool: vec![],
        metadata: vec![],
        struct_defs: vec![],
        struct_def_instantiations: vec![],
        function_defs: vec![move_binary_format::file_format::FunctionDefinition {
            function: FunctionHandleIndex(0),
            visibility: Visibility::Friend,
            is_entry: true,
            acquires_global_resources: vec![],
            code: Some(move_binary_format::file_format::CodeUnit {
                locals: SignatureIndex(1),
                code: vec![Bytecode::LdU64(258), Bytecode::StLoc(0), Bytecode::Ret],
            }),
        }],
        field_handles: vec![],
        field_instantiations: vec![],
        friend_decls: vec![],
    };
    // The sections in the order of their kinds, without the empty ones.
    let bytes = binary(
        6,
        &[
            (0x01, vec![0x00, 0x01]),
            (0x05, vec![0x00, 0x01, 0x03]),
            (0x07, vec![0x01, b'f', 0x01, b'M']),
            (0x08, vec![7; 16]),
            (
                0x0C,
                vec![0x00, 0x03, 0x02, 0x00, 0x01, 0x03, 0x06, 2, 1, 0, 0, 0, 0, 0, 0, 0x0C, 0x00, 0x02],
            ),
        ],
        &[0x00],
    );
    assert_eq!(CompiledModule::deserialize(&bytes).unwrap(), expected);
}

#[test]
fn written_module_of_version_one_decodes_to_itself() {
    let bytes = binary(
        1,
        &[
            // module 0, name 1, a struct that is no resource, one type
            // parameter of the kind resource
            (0x02, vec![0x00, 0x01, 0x02, 0x01, 0x03]),
            // module 0, name 2, signatures 3 and 4, one type parameter of
            // the kind all
            (0x03, vec![0x00, 0x02, 0x03, 0x04, 0x01, 0x01]),
            // handle 0, public, no acquires, locals 5, one instruction
            (0x0C, vec![0x00, 0x01, 0x00, 0x05, 0x01, 0x02]),
        ],
        &[0x07],
    );
    let module = CompiledModule::deserialize(&bytes).unwrap();
    assert_eq!(module.version, 1);
    assert_eq!(module.self_module_handle_idx, ModuleHandleIndex(7));
    assert_eq!(module.struct_handles.len(), 1);
    assert_eq!(module.struct_handles[0].name, IdentifierIndex(1));
    assert_eq!(module.struct_handles[0].abilities, AbilitySet(0x4 | 0x1 | 0x2));
    assert_eq!(module.struct_handles[0].type_parameters.len(), 1);
    assert_eq!(module.struct_handles[0].type_parameters[0].constraints, AbilitySet(0x8));
    assert!(!module.struct_handles[0].type_parameters[0].is_phantom);
    assert_eq!(module.function_handles[0].parameters, SignatureIndex(3));
    assert_eq!(module.function_handles[0].return_, SignatureIndex(4));
    assert_eq!(module.function_handles[0].type_parameters, vec![AbilitySet(0x4)]);
    let function = &module.function_defs[0];
    assert_eq!(function.visibility, Visibility::Public);
    assert!(!function.is_entry);
    assert!(function.acquires_global_resources.is_empty());
    let code = function.code.as_ref().unwrap();
    assert_eq!(code.locals, SignatureIndex(5));
    assert_eq!(code.code, vec![Bytecode::Ret]);
}

#[test]
fn written_module_of_version_two_decodes_to_itself() {
    let bytes = binary(
        2,
        &[
            // one type parameter, which has no byte for phantom
            (0x02, vec![0x00, 0x01, 0x0C, 0x01, 0x03]),
            // an entry function, written with the script visibility, and a
            // native friend function
            (0x0C, vec![0x00, 0x02, 0x00, 0x00, 0x00, 0x00, 0x01, 0x03, 0x01, 0x00]),
            (0x0F, vec![0x02, 0x03]),
        ],
        &[0x00],
    );
    let module = CompiledModule::deserialize(&bytes).unwrap();
    assert_eq!(module.version, 2);
    assert_eq!(module.struct_handles[0].abilities, AbilitySet(0xC));
    assert_eq!(module.struct_handles[0].type_parameters[0].constraints, AbilitySet(0x3));
    assert!(!module.struct_handles[0].type_parameters[0].is_phantom);
    assert_eq!(module.function_defs.len(), 2);
    assert_eq!(module.function_defs[0].visibility, Visibility::Public);
    assert!(module.function_defs[0].is_entry);
    assert!(module.function_defs[0].code.as_ref().unwrap().code.is_empty());
    assert_eq!(module.function_defs[1].function, FunctionHandleIndex(1));
    assert_eq!(module.function_defs[1].visibility, Visibility::Friend);
    assert!(!module.function_defs[1].is_entry);
    assert!(module.function_defs[1].code.is_none());
    assert_eq!(
        module.friend_decls,
        vec![ModuleHandle { address: AddressIdentifierIndex(2), name: IdentifierIndex(3) }]
    );
}

#[test]
fn bytes_behind_the_trailer_of_a_script_are_ignored() {
    let mut bytes = binary(
        6,
        &[(0x01, vec![0x00, 0x00])],
        &[0x01, 0x03, 0x01, 0x02, 0x02, 0x06, 1, 0, 0, 0, 0, 0, 0, 0, 0x02],
    );
    let short = CompiledScript::deserialize(&bytes).unwrap();
    assert_eq!(short.code.code, vec![Bytecode::LdU64(1), Bytecode::Ret]);
    bytes.extend([0x00, 0xFF, 0x80]);
    assert_eq!(CompiledScript::deserialize(&bytes).unwrap(), short);
}
