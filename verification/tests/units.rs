use move_binary_format::cursor::VersionedCursor;
use move_binary_format::deserializer::CommonTables;
use move_binary_format::errors::Message;
use move_binary_format::file_format_common::{Table, TableType};
use move_binary_format::pools::load_address_identifiers;
use move_binary_format::file_format::{
    AccountAddress, AddressIdentifierIndex, CompiledModule, CompiledScript, IdentifierIndex, ModuleHandle,
    Signature, SignatureToken, StructHandleIndex,
};

const MAGIC: [u8; 4] = [0xA1, 0x1C, 0xEB, 0x0B];

fn module_bytes() -> Vec<u8> {
    let mut bytes = MAGIC.to_vec();
    // version 6, two tables: module handles and signatures
    bytes.extend([6, 2, 0x01, 0, 2, 0x05, 2, 6]);
    bytes.extend([0x00, 0x00]);
    bytes.extend([0x01, 0x0B, 0x03, 0x01, 0x0A, 0x02]);
    bytes.push(0x00);
    bytes
}

fn script_bytes() -> Vec<u8> {
    let mut bytes = MAGIC.to_vec();
    bytes.extend([6, 1, 0x01, 0, 2]);
    bytes.extend([0x01, 0x02]);
    // no type parameters, parameters 0, locals 0, no instructions
    bytes.extend([0x00, 0x00, 0x00, 0x00]);
    bytes
}

#[test]
fn clone_of_a_token_is_equal() {
    let token = SignatureToken::StructInstantiation(
        StructHandleIndex(3),
        vec![
            SignatureToken::Vector(Box::new(SignatureToken::U8)),
            SignatureToken::StructInstantiation(
                StructHandleIndex(4),
                vec![SignatureToken::Reference(Box::new(SignatureToken::TypeParameter(9)))],
            ),
        ],
    );
    assert_eq!(token.clone(), token);
    assert_eq!(SignatureToken::U256.clone(), SignatureToken::U256);
}

#[test]
fn clone_of_a_module_is_equal() {
    let module = CompiledModule::deserialize(&module_bytes()).unwrap();
    assert_eq!(
        module.signatures,
        vec![Signature(vec![SignatureToken::StructInstantiation(
            StructHandleIndex(3),
            vec![SignatureToken::Vector(Box::new(SignatureToken::U8))]
        )])]
    );
    assert_eq!(module.clone(), module);
    let script = CompiledScript::deserialize(&script_bytes()).unwrap();
    assert_eq!(script.clone(), script);
}

#[test]
fn common_tables_of_a_module_can_be_changed() {
    let mut module = CompiledModule::deserialize(&module_bytes()).unwrap();
    let added = ModuleHandle { address: AddressIdentifierIndex(7), name: IdentifierIndex(8) };
    module.get_module_handles().push(added);
    assert_eq!(module.module_handles.len(), 2);
    assert_eq!(module.module_handles[1], added);
    module.get_signatures().clear();
    assert!(module.signatures.is_empty());
    assert!(module.get_struct_handles().is_empty());
    assert!(module.get_function_handles().is_empty());
    assert!(module.get_function_instantiations().is_empty());
    assert!(module.get_identifiers().is_empty());
    assert!(module.get_address_identifiers().is_empty());
    assert!(module.get_constant_pool().is_empty());
    assert!(module.get_metadata().is_empty());
    assert_eq!(module.version, 6);
}

#[test]
fn common_tables_of_a_script_can_be_changed() {
    let mut script = CompiledScript::deserialize(&script_bytes()).unwrap();
    assert_eq!(
        *script.get_module_handles(),
        vec![ModuleHandle { address: AddressIdentifierIndex(1), name: IdentifierIndex(2) }]
    );
    script.get_module_handles().clear();
    assert!(script.module_handles.is_empty());
    assert!(script.get_signatures().is_empty());
    assert!(script.code.code.is_empty());
}

#[test]
fn address_table_of_a_wrong_length_leaves_the_addresses() {
    let bytes: Vec<u8> = (0u8..40).collect();
    let binary = VersionedCursor::new_for_test(6, &bytes).read_new_binary(40).unwrap();
    let mut addresses = vec![AccountAddress([9; 16])];
    let table = Table::new(TableType::ADDRESS_IDENTIFIERS, 0, 33);
    let error = load_address_identifiers(&binary, &table, &mut addresses).unwrap_err();
    assert_eq!(error.message, Message::BadAddressIdentifierPoolSize);
    assert_eq!(addresses, vec![AccountAddress([9; 16])]);
    let table = Table::new(TableType::ADDRESS_IDENTIFIERS, 8, 32);
    assert_eq!(load_address_identifiers(&binary, &table, &mut addresses), Ok(()));
    assert_eq!(addresses.len(), 3);
    assert_eq!(addresses[0], AccountAddress([9; 16]));
    assert_eq!(addresses[1].0.to_vec(), bytes[8..24].to_vec());
    assert_eq!(addresses[2].0.to_vec(), bytes[24..40].to_vec());
}
