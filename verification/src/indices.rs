//! Readers of the indices, counts and sizes of the format. Each is a ULEB128
//! integer with a bound of its own.

use vstd::prelude::*;
use crate::constants::{
    ACQUIRES_COUNT_MAX, ADDRESS_INDEX_MAX, BYTECODE_COUNT_MAX, BYTECODE_INDEX_MAX,
    CONSTANT_INDEX_MAX, CONSTANT_SIZE_MAX, FIELD_COUNT_MAX, FIELD_HANDLE_INDEX_MAX,
    FIELD_INST_INDEX_MAX, FIELD_OFFSET_MAX, FUNCTION_HANDLE_INDEX_MAX, FUNCTION_INST_INDEX_MAX,
    IDENTIFIER_INDEX_MAX, IDENTIFIER_SIZE_MAX, LOCAL_INDEX_MAX, METADATA_KEY_SIZE_MAX,
    METADATA_VALUE_SIZE_MAX, MODULE_HANDLE_INDEX_MAX, SIGNATURE_INDEX_MAX, SIGNATURE_SIZE_MAX,
    STRUCT_DEF_INDEX_MAX, STRUCT_DEF_INST_INDEX_MAX, STRUCT_HANDLE_INDEX_MAX, TABLE_COUNT_MAX,
    TABLE_OFFSET_MAX, TABLE_SIZE_MAX, TYPE_PARAMETER_COUNT_MAX, TYPE_PARAMETER_INDEX_MAX,
};
use crate::cursor::{decodes, CursorView, Decoded, VersionedCursor};
use crate::errors::PartialVMError;
use crate::file_format::{
    AddressIdentifierIndex, ConstantPoolIndex, FieldHandleIndex, FieldInstantiationIndex,
    FunctionHandleIndex, FunctionInstantiationIndex, IdentifierIndex, ModuleHandleIndex,
    SignatureIndex, StructDefInstantiationIndex, StructDefinitionIndex, StructHandleIndex,
};
use crate::primitives::{read_uleb_internal, spec_read_uleb};

verus! {

/// An index into the signature pool.
pub open spec fn spec_load_signature_index(c: CursorView) -> Decoded<SignatureIndex> {
    match spec_read_uleb(c, SIGNATURE_INDEX_MAX) {
        Err(e) => Err(e),
        Ok((x, n)) => Ok((SignatureIndex(x as u16), n)),
    }
}

/// Reads what [`spec_load_signature_index`] describes and leaves the reader behind it.
pub fn load_signature_index(cursor: &mut VersionedCursor) -> (r: Result<SignatureIndex, PartialVMError>)
    ensures
        decodes(old(cursor)@, final(cursor)@, r, spec_load_signature_index(old(cursor)@)),
        r is Ok ==> old(cursor)@.position < final(cursor)@.position,
{
    Ok(SignatureIndex(read_uleb_internal(cursor, SIGNATURE_INDEX_MAX)? as u16))
}

/// An index into the module handles.
pub open spec fn spec_load_module_handle_index(c: CursorView) -> Decoded<ModuleHandleIndex> {
    match spec_read_uleb(c, MODULE_HANDLE_INDEX_MAX) {
        Err(e) => Err(e),
        Ok((x, n)) => Ok((ModuleHandleIndex(x as u16), n)),
    }
}

/// Reads what [`spec_load_module_handle_index`] describes and leaves the reader behind it.
pub fn load_module_handle_index(cursor: &mut VersionedCursor) -> (r: Result<ModuleHandleIndex, PartialVMError>)
    ensures
        decodes(old(cursor)@, final(cursor)@, r, spec_load_module_handle_index(old(cursor)@)),
        r is Ok ==> old(cursor)@.position < final(cursor)@.position,
{
    Ok(ModuleHandleIndex(read_uleb_internal(cursor, MODULE_HANDLE_INDEX_MAX)? as u16))
}

/// An index into the identifier pool.
pub open spec fn spec_load_identifier_index(c: CursorView) -> Decoded<IdentifierIndex> {
    match spec_read_uleb(c, IDENTIFIER_INDEX_MAX) {
        Err(e) => Err(e),
        Ok((x, n)) => Ok((IdentifierIndex(x as u16), n)),
    }
}

/// Reads what [`spec_load_identifier_index`] describes and leaves the reader behind it.
pub fn load_identifier_index(cursor: &mut VersionedCursor) -> (r: Result<IdentifierIndex, PartialVMError>)
    ensures
        decodes(old(cursor)@, final(cursor)@, r, spec_load_identifier_index(old(cursor)@)),
        r is Ok ==> old(cursor)@.position < final(cursor)@.position,
{
    Ok(IdentifierIndex(read_uleb_internal(cursor, IDENTIFIER_INDEX_MAX)? as u16))
}

/// An index into the struct handles.
pub open spec fn spec_load_struct_handle_index(c: CursorView) -> Decoded<StructHandleIndex> {
    match spec_read_uleb(c, STRUCT_HANDLE_INDEX_MAX) {
        Err(e) => Err(e),
        Ok((x, n)) => Ok((StructHandleIndex(x as u16), n)),
    }
}

/// Reads what [`spec_load_struct_handle_index`] describes and leaves the reader behind it.
pub fn load_struct_handle_index(cursor: &mut VersionedCursor) -> (r: Result<StructHandleIndex, PartialVMError>)
    ensures
        decodes(old(cursor)@, final(cursor)@, r, spec_load_struct_handle_index(old(cursor)@)),
        r is Ok ==> old(cursor)@.position < final(cursor)@.position,
{
    Ok(StructHandleIndex(read_uleb_internal(cursor, STRUCT_HANDLE_INDEX_MAX)? as u16))
}

/// An index into the address identifier pool.
pub open spec fn spec_load_address_identifier_index(c: CursorView) -> Decoded<AddressIdentifierIndex> {
    match spec_read_uleb(c, ADDRESS_INDEX_MAX) {
        Err(e) => Err(e),
        Ok((x, n)) => Ok((AddressIdentifierIndex(x as u16), n)),
    }
}

/// Reads what [`spec_load_address_identifier_index`] describes and leaves the reader behind it.
pub fn load_address_identifier_index(cursor: &mut VersionedCursor) -> (r: Result<AddressIdentifierIndex, PartialVMError>)
    ensures
        decodes(old(cursor)@, final(cursor)@, r, spec_load_address_identifier_index(old(cursor)@)),
        r is Ok ==> old(cursor)@.position < final(cursor)@.position,
{
    Ok(AddressIdentifierIndex(read_uleb_internal(cursor, ADDRESS_INDEX_MAX)? as u16))
}

/// An index into the struct definitions.
pub open spec fn spec_load_struct_def_index(c: CursorView) -> Decoded<StructDefinitionIndex> {
    match spec_read_uleb(c, STRUCT_DEF_INDEX_MAX) {
        Err(e) => Err(e),
        Ok((x, n)) => Ok((StructDefinitionIndex(x as u16), n)),
    }
}

/// Reads what [`spec_load_struct_def_index`] describes and leaves the reader behind it.
pub fn load_struct_def_index(cursor: &mut VersionedCursor) -> (r: Result<StructDefinitionIndex, PartialVMError>)
    ensures
        decodes(old(cursor)@, final(cursor)@, r, spec_load_struct_def_index(old(cursor)@)),
        r is Ok ==> old(cursor)@.position < final(cursor)@.position,
{
    Ok(StructDefinitionIndex(read_uleb_internal(cursor, STRUCT_DEF_INDEX_MAX)? as u16))
}

/// An index into the function handles.
pub open spec fn spec_load_function_handle_index(c: CursorView) -> Decoded<FunctionHandleIndex> {
    match spec_read_uleb(c, FUNCTION_HANDLE_INDEX_MAX) {
        Err(e) => Err(e),
        Ok((x, n)) => Ok((FunctionHandleIndex(x as u16), n)),
    }
}

/// Reads what [`spec_load_function_handle_index`] describes and leaves the reader behind it.
pub fn load_function_handle_index(cursor: &mut VersionedCursor) -> (r: Result<FunctionHandleIndex, PartialVMError>)
    ensures
        decodes(old(cursor)@, final(cursor)@, r, spec_load_function_handle_index(old(cursor)@)),
        r is Ok ==> old(cursor)@.position < final(cursor)@.position,
{
    Ok(FunctionHandleIndex(read_uleb_internal(cursor, FUNCTION_HANDLE_INDEX_MAX)? as u16))
}

/// An index into the field handles.
pub open spec fn spec_load_field_handle_index(c: CursorView) -> Decoded<FieldHandleIndex> {
    match spec_read_uleb(c, FIELD_HANDLE_INDEX_MAX) {
        Err(e) => Err(e),
        Ok((x, n)) => Ok((FieldHandleIndex(x as u16), n)),
    }
}

/// Reads what [`spec_load_field_handle_index`] describes and leaves the reader behind it.
pub fn load_field_handle_index(cursor: &mut VersionedCursor) -> (r: Result<FieldHandleIndex, PartialVMError>)
    ensures
        decodes(old(cursor)@, final(cursor)@, r, spec_load_field_handle_index(old(cursor)@)),
        r is Ok ==> old(cursor)@.position < final(cursor)@.position,
{
    Ok(FieldHandleIndex(read_uleb_internal(cursor, FIELD_HANDLE_INDEX_MAX)? as u16))
}

/// An index into the field instantiations.
pub open spec fn spec_load_field_inst_index(c: CursorView) -> Decoded<FieldInstantiationIndex> {
    match spec_read_uleb(c, FIELD_INST_INDEX_MAX) {
        Err(e) => Err(e),
        Ok((x, n)) => Ok((FieldInstantiationIndex(x as u16), n)),
    }
}

/// Reads what [`spec_load_field_inst_index`] describes and leaves the reader behind it.
pub fn load_field_inst_index(cursor: &mut VersionedCursor) -> (r: Result<FieldInstantiationIndex, PartialVMError>)
    ensures
        decodes(old(cursor)@, final(cursor)@, r, spec_load_field_inst_index(old(cursor)@)),
        r is Ok ==> old(cursor)@.position < final(cursor)@.position,
{
    Ok(FieldInstantiationIndex(read_uleb_internal(cursor, FIELD_INST_INDEX_MAX)? as u16))
}

/// An index into the function instantiations.
pub open spec fn spec_load_function_inst_index(c: CursorView) -> Decoded<FunctionInstantiationIndex> {
    match spec_read_uleb(c, FUNCTION_INST_INDEX_MAX) {
        Err(e) => Err(e),
        Ok((x, n)) => Ok((FunctionInstantiationIndex(x as u16), n)),
    }
}

/// Reads what [`spec_load_function_inst_index`] describes and leaves the reader behind it.
pub fn load_function_inst_index(cursor: &mut VersionedCursor) -> (r: Result<FunctionInstantiationIndex, PartialVMError>)
    ensures
        decodes(old(cursor)@, final(cursor)@, r, spec_load_function_inst_index(old(cursor)@)),
        r is Ok ==> old(cursor)@.position < final(cursor)@.position,
{
    Ok(FunctionInstantiationIndex(read_uleb_internal(cursor, FUNCTION_INST_INDEX_MAX)? as u16))
}

/// An index into the struct definition instantiations.
pub open spec fn spec_load_struct_def_inst_index(c: CursorView) -> Decoded<StructDefInstantiationIndex> {
    match spec_read_uleb(c, STRUCT_DEF_INST_INDEX_MAX) {
        Err(e) => Err(e),
        Ok((x, n)) => Ok((StructDefInstantiationIndex(x as u16), n)),
    }
}

/// Reads what [`spec_load_struct_def_inst_index`] describes and leaves the reader behind it.
pub fn load_struct_def_inst_index(cursor: &mut VersionedCursor) -> (r: Result<StructDefInstantiationIndex, PartialVMError>)
    ensures
        decodes(old(cursor)@, final(cursor)@, r, spec_load_struct_def_inst_index(old(cursor)@)),
        r is Ok ==> old(cursor)@.position < final(cursor)@.position,
{
    Ok(StructDefInstantiationIndex(read_uleb_internal(cursor, STRUCT_DEF_INST_INDEX_MAX)? as u16))
}

/// An index into the constant pool.
pub open spec fn spec_load_constant_pool_index(c: CursorView) -> Decoded<ConstantPoolIndex> {
    match spec_read_uleb(c, CONSTANT_INDEX_MAX) {
        Err(e) => Err(e),
        Ok((x, n)) => Ok((ConstantPoolIndex(x as u16), n)),
    }
}

/// Reads what [`spec_load_constant_pool_index`] describes and leaves the reader behind it.
pub fn load_constant_pool_index(cursor: &mut VersionedCursor) -> (r: Result<ConstantPoolIndex, PartialVMError>)
    ensures
        decodes(old(cursor)@, final(cursor)@, r, spec_load_constant_pool_index(old(cursor)@)),
        r is Ok ==> old(cursor)@.position < final(cursor)@.position,
{
    Ok(ConstantPoolIndex(read_uleb_internal(cursor, CONSTANT_INDEX_MAX)? as u16))
}

/// The number of instructions of a code unit.
pub open spec fn spec_load_bytecode_count(c: CursorView) -> Decoded<usize> {
    match spec_read_uleb(c, BYTECODE_COUNT_MAX) {
        Err(e) => Err(e),
        Ok((x, n)) => Ok((x as usize, n)),
    }
}

/// Reads what [`spec_load_bytecode_count`] describes and leaves the reader behind it.
pub fn load_bytecode_count(cursor: &mut VersionedCursor) -> (r: Result<usize, PartialVMError>)
    ensures
        decodes(old(cursor)@, final(cursor)@, r, spec_load_bytecode_count(old(cursor)@)),
        r matches Ok(x) ==> x <= BYTECODE_COUNT_MAX && old(cursor)@.position < final(cursor)@.position,
{
    Ok(read_uleb_internal(cursor, BYTECODE_COUNT_MAX)? as usize)
}

/// The target of a branch.
pub open spec fn spec_load_bytecode_index(c: CursorView) -> Decoded<u16> {
    match spec_read_uleb(c, BYTECODE_INDEX_MAX) {
        Err(e) => Err(e),
        Ok((x, n)) => Ok((x as u16, n)),
    }
}

/// Reads what [`spec_load_bytecode_index`] describes and leaves the reader behind it.
pub fn load_bytecode_index(cursor: &mut VersionedCursor) -> (r: Result<u16, PartialVMError>)
    ensures
        decodes(old(cursor)@, final(cursor)@, r, spec_load_bytecode_index(old(cursor)@)),
        r matches Ok(x) ==> x <= BYTECODE_INDEX_MAX && old(cursor)@.position < final(cursor)@.position,
{
    Ok(read_uleb_internal(cursor, BYTECODE_INDEX_MAX)? as u16)
}

/// The number of resources a function acquires.
pub open spec fn spec_load_acquires_count(c: CursorView) -> Decoded<u64> {
    match spec_read_uleb(c, ACQUIRES_COUNT_MAX) {
        Err(e) => Err(e),
        Ok((x, n)) => Ok((x, n)),
    }
}

/// Reads what [`spec_load_acquires_count`] describes and leaves the reader behind it.
pub fn load_acquires_count(cursor: &mut VersionedCursor) -> (r: Result<u64, PartialVMError>)
    ensures
        decodes(old(cursor)@, final(cursor)@, r, spec_load_acquires_count(old(cursor)@)),
        r matches Ok(x) ==> x <= ACQUIRES_COUNT_MAX && old(cursor)@.position < final(cursor)@.position,
{
    read_uleb_internal(cursor, ACQUIRES_COUNT_MAX)
}

/// The number of fields of a struct.
pub open spec fn spec_load_field_count(c: CursorView) -> Decoded<u64> {
    match spec_read_uleb(c, FIELD_COUNT_MAX) {
        Err(e) => Err(e),
        Ok((x, n)) => Ok((x, n)),
    }
}

/// Reads what [`spec_load_field_count`] describes and leaves the reader behind it.
pub fn load_field_count(cursor: &mut VersionedCursor) -> (r: Result<u64, PartialVMError>)
    ensures
        decodes(old(cursor)@, final(cursor)@, r, spec_load_field_count(old(cursor)@)),
        r matches Ok(x) ==> x <= FIELD_COUNT_MAX && old(cursor)@.position < final(cursor)@.position,
{
    read_uleb_internal(cursor, FIELD_COUNT_MAX)
}

/// The number of type parameters or type arguments.
pub open spec fn spec_load_type_parameter_count(c: CursorView) -> Decoded<usize> {
    match spec_read_uleb(c, TYPE_PARAMETER_COUNT_MAX) {
        Err(e) => Err(e),
        Ok((x, n)) => Ok((x as usize, n)),
    }
}

/// Reads what [`spec_load_type_parameter_count`] describes and leaves the reader behind it.
pub fn load_type_parameter_count(cursor: &mut VersionedCursor) -> (r: Result<usize, PartialVMError>)
    ensures
        decodes(old(cursor)@, final(cursor)@, r, spec_load_type_parameter_count(old(cursor)@)),
        r matches Ok(x) ==> x <= TYPE_PARAMETER_COUNT_MAX && old(cursor)@.position < final(cursor)@.position,
{
    Ok(read_uleb_internal(cursor, TYPE_PARAMETER_COUNT_MAX)? as usize)
}

/// The number of tokens of a signature.
pub open spec fn spec_load_signature_size(c: CursorView) -> Decoded<u64> {
    match spec_read_uleb(c, SIGNATURE_SIZE_MAX) {
        Err(e) => Err(e),
        Ok((x, n)) => Ok((x, n)),
    }
}

/// Reads what [`spec_load_signature_size`] describes and leaves the reader behind it.
pub fn load_signature_size(cursor: &mut VersionedCursor) -> (r: Result<u64, PartialVMError>)
    ensures
        decodes(old(cursor)@, final(cursor)@, r, spec_load_signature_size(old(cursor)@)),
        r matches Ok(x) ==> x <= SIGNATURE_SIZE_MAX && old(cursor)@.position < final(cursor)@.position,
{
    read_uleb_internal(cursor, SIGNATURE_SIZE_MAX)
}

/// The number of bytes of a constant.
pub open spec fn spec_load_constant_size(c: CursorView) -> Decoded<usize> {
    match spec_read_uleb(c, CONSTANT_SIZE_MAX) {
        Err(e) => Err(e),
        Ok((x, n)) => Ok((x as usize, n)),
    }
}

/// Reads what [`spec_load_constant_size`] describes and leaves the reader behind it.
pub fn load_constant_size(cursor: &mut VersionedCursor) -> (r: Result<usize, PartialVMError>)
    ensures
        decodes(old(cursor)@, final(cursor)@, r, spec_load_constant_size(old(cursor)@)),
        r matches Ok(x) ==> x <= CONSTANT_SIZE_MAX && old(cursor)@.position < final(cursor)@.position,
{
    Ok(read_uleb_internal(cursor, CONSTANT_SIZE_MAX)? as usize)
}

/// The number of bytes of a metadata key.
pub open spec fn spec_load_metadata_key_size(c: CursorView) -> Decoded<usize> {
    match spec_read_uleb(c, METADATA_KEY_SIZE_MAX) {
        Err(e) => Err(e),
        Ok((x, n)) => Ok((x as usize, n)),
    }
}

/// Reads what [`spec_load_metadata_key_size`] describes and leaves the reader behind it.
pub fn load_metadata_key_size(cursor: &mut VersionedCursor) -> (r: Result<usize, PartialVMError>)
    ensures
        decodes(old(cursor)@, final(cursor)@, r, spec_load_metadata_key_size(old(cursor)@)),
        r matches Ok(x) ==> x <= METADATA_KEY_SIZE_MAX && old(cursor)@.position < final(cursor)@.position,
{
    Ok(read_uleb_internal(cursor, METADATA_KEY_SIZE_MAX)? as usize)
}

/// The number of bytes of a metadata value.
pub open spec fn spec_load_metadata_value_size(c: CursorView) -> Decoded<usize> {
    match spec_read_uleb(c, METADATA_VALUE_SIZE_MAX) {
        Err(e) => Err(e),
        Ok((x, n)) => Ok((x as usize, n)),
    }
}

/// Reads what [`spec_load_metadata_value_size`] describes and leaves the reader behind it.
pub fn load_metadata_value_size(cursor: &mut VersionedCursor) -> (r: Result<usize, PartialVMError>)
    ensures
        decodes(old(cursor)@, final(cursor)@, r, spec_load_metadata_value_size(old(cursor)@)),
        r matches Ok(x) ==> x <= METADATA_VALUE_SIZE_MAX && old(cursor)@.position < final(cursor)@.position,
{
    Ok(read_uleb_internal(cursor, METADATA_VALUE_SIZE_MAX)? as usize)
}

/// The number of bytes of an identifier.
pub open spec fn spec_load_identifier_size(c: CursorView) -> Decoded<usize> {
    match spec_read_uleb(c, IDENTIFIER_SIZE_MAX) {
        Err(e) => Err(e),
        Ok((x, n)) => Ok((x as usize, n)),
    }
}

/// Reads what [`spec_load_identifier_size`] describes and leaves the reader behind it.
pub fn load_identifier_size(cursor: &mut VersionedCursor) -> (r: Result<usize, PartialVMError>)
    ensures
        decodes(old(cursor)@, final(cursor)@, r, spec_load_identifier_size(old(cursor)@)),
        r matches Ok(x) ==> x <= IDENTIFIER_SIZE_MAX && old(cursor)@.position < final(cursor)@.position,
{
    Ok(read_uleb_internal(cursor, IDENTIFIER_SIZE_MAX)? as usize)
}

/// The position of a type parameter.
pub open spec fn spec_load_type_parameter_index(c: CursorView) -> Decoded<u16> {
    match spec_read_uleb(c, TYPE_PARAMETER_INDEX_MAX) {
        Err(e) => Err(e),
        Ok((x, n)) => Ok((x as u16, n)),
    }
}

/// Reads what [`spec_load_type_parameter_index`] describes and leaves the reader behind it.
pub fn load_type_parameter_index(cursor: &mut VersionedCursor) -> (r: Result<u16, PartialVMError>)
    ensures
        decodes(old(cursor)@, final(cursor)@, r, spec_load_type_parameter_index(old(cursor)@)),
        r matches Ok(x) ==> x <= TYPE_PARAMETER_INDEX_MAX && old(cursor)@.position < final(cursor)@.position,
{
    Ok(read_uleb_internal(cursor, TYPE_PARAMETER_INDEX_MAX)? as u16)
}

/// The position of a field in its struct.
pub open spec fn spec_load_field_offset(c: CursorView) -> Decoded<u16> {
    match spec_read_uleb(c, FIELD_OFFSET_MAX) {
        Err(e) => Err(e),
        Ok((x, n)) => Ok((x as u16, n)),
    }
}

/// Reads what [`spec_load_field_offset`] describes and leaves the reader behind it.
pub fn load_field_offset(cursor: &mut VersionedCursor) -> (r: Result<u16, PartialVMError>)
    ensures
        decodes(old(cursor)@, final(cursor)@, r, spec_load_field_offset(old(cursor)@)),
        r matches Ok(x) ==> x <= FIELD_OFFSET_MAX && old(cursor)@.position < final(cursor)@.position,
{
    Ok(read_uleb_internal(cursor, FIELD_OFFSET_MAX)? as u16)
}

/// The number of tables of a binary.
pub open spec fn spec_load_table_count(c: CursorView) -> Decoded<u8> {
    match spec_read_uleb(c, TABLE_COUNT_MAX) {
        Err(e) => Err(e),
        Ok((x, n)) => Ok((x as u8, n)),
    }
}

/// Reads what [`spec_load_table_count`] describes and leaves the reader behind it.
pub fn load_table_count(cursor: &mut VersionedCursor) -> (r: Result<u8, PartialVMError>)
    ensures
        decodes(old(cursor)@, final(cursor)@, r, spec_load_table_count(old(cursor)@)),
        r matches Ok(x) ==> x <= TABLE_COUNT_MAX && old(cursor)@.position < final(cursor)@.position,
{
    Ok(read_uleb_internal(cursor, TABLE_COUNT_MAX)? as u8)
}

/// The offset of a table in the table contents.
pub open spec fn spec_load_table_offset(c: CursorView) -> Decoded<u32> {
    match spec_read_uleb(c, TABLE_OFFSET_MAX) {
        Err(e) => Err(e),
        Ok((x, n)) => Ok((x as u32, n)),
    }
}

/// Reads what [`spec_load_table_offset`] describes and leaves the reader behind it.
pub fn load_table_offset(cursor: &mut VersionedCursor) -> (r: Result<u32, PartialVMError>)
    ensures
        decodes(old(cursor)@, final(cursor)@, r, spec_load_table_offset(old(cursor)@)),
        r matches Ok(x) ==> x <= TABLE_OFFSET_MAX && old(cursor)@.position < final(cursor)@.position,
{
    Ok(read_uleb_internal(cursor, TABLE_OFFSET_MAX)? as u32)
}

/// The number of bytes of a table.
pub open spec fn spec_load_table_size(c: CursorView) -> Decoded<u32> {
    match spec_read_uleb(c, TABLE_SIZE_MAX) {
        Err(e) => Err(e),
        Ok((x, n)) => Ok((x as u32, n)),
    }
}

/// Reads what [`spec_load_table_size`] describes and leaves the reader behind it.
pub fn load_table_size(cursor: &mut VersionedCursor) -> (r: Result<u32, PartialVMError>)
    ensures
        decodes(old(cursor)@, final(cursor)@, r, spec_load_table_size(old(cursor)@)),
        r matches Ok(x) ==> x <= TABLE_SIZE_MAX && old(cursor)@.position < final(cursor)@.position,
{
    Ok(read_uleb_internal(cursor, TABLE_SIZE_MAX)? as u32)
}

/// The position of a local variable.
pub open spec fn spec_load_local_index(c: CursorView) -> Decoded<u8> {
    match spec_read_uleb(c, LOCAL_INDEX_MAX) {
        Err(e) => Err(e),
        Ok((x, n)) => Ok((x as u8, n)),
    }
}

/// Reads what [`spec_load_local_index`] describes and leaves the reader behind it.
pub fn load_local_index(cursor: &mut VersionedCursor) -> (r: Result<u8, PartialVMError>)
    ensures
        decodes(old(cursor)@, final(cursor)@, r, spec_load_local_index(old(cursor)@)),
        r matches Ok(x) ==> x <= LOCAL_INDEX_MAX && old(cursor)@.position < final(cursor)@.position,
{
    Ok(read_uleb_internal(cursor, LOCAL_INDEX_MAX)? as u8)
}

} // verus!
