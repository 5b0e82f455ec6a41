//! The fixed numbers of the format.

use vstd::prelude::*;

verus! {

/// The number of bytes of the magic.
pub const MAGIC_SIZE: usize = 4;

/// The first version of the format.
pub const VERSION_1: u32 = 1;

/// Adds friend declarations and a visibility byte to function definitions.
pub const VERSION_2: u32 = 2;

/// Adds phantom type parameters.
pub const VERSION_3: u32 = 3;

/// Adds the vector instructions.
pub const VERSION_4: u32 = 4;

/// Adds the metadata table and the entry flag of functions.
pub const VERSION_5: u32 = 5;

/// Adds the 16, 32 and 256 bit integers.
pub const VERSION_6: u32 = 6;

/// The highest version of the format.
pub const VERSION_MAX: u32 = 6;

/// The greatest number of tables of a binary.
pub const TABLE_COUNT_MAX: u64 = 255;

/// The greatest offset of a table.
pub const TABLE_OFFSET_MAX: u64 = 0xffff_ffff;

/// The greatest length of a table.
pub const TABLE_SIZE_MAX: u64 = 0xffff_ffff;

/// The greatest index into a table or pool.
pub const TABLE_INDEX_MAX: u64 = 65535;

/// The greatest index into the signature pool.
pub const SIGNATURE_INDEX_MAX: u64 = 65535;

/// The greatest index into the address identifier pool.
pub const ADDRESS_INDEX_MAX: u64 = 65535;

/// The greatest index into the identifier pool.
pub const IDENTIFIER_INDEX_MAX: u64 = 65535;

/// The greatest index into the module handles.
pub const MODULE_HANDLE_INDEX_MAX: u64 = 65535;

/// The greatest index into the struct handles.
pub const STRUCT_HANDLE_INDEX_MAX: u64 = 65535;

/// The greatest index into the struct definitions.
pub const STRUCT_DEF_INDEX_MAX: u64 = 65535;

/// The greatest index into the function handles.
pub const FUNCTION_HANDLE_INDEX_MAX: u64 = 65535;

/// The greatest index into the function instantiations.
pub const FUNCTION_INST_INDEX_MAX: u64 = 65535;

/// The greatest index into the field handles.
pub const FIELD_HANDLE_INDEX_MAX: u64 = 65535;

/// The greatest index into the field instantiations.
pub const FIELD_INST_INDEX_MAX: u64 = 65535;

/// The greatest index into the struct definition instantiations.
pub const STRUCT_DEF_INST_INDEX_MAX: u64 = 65535;

/// The greatest index into the constant pool.
pub const CONSTANT_INDEX_MAX: u64 = 65535;

/// The greatest number of instructions of a code unit.
pub const BYTECODE_COUNT_MAX: u64 = 65535;

/// The greatest target of a branch.
pub const BYTECODE_INDEX_MAX: u64 = 65535;

/// The greatest position of a local variable.
pub const LOCAL_INDEX_MAX: u64 = 255;

/// The greatest length of an identifier in bytes.
pub const IDENTIFIER_SIZE_MAX: u64 = 65535;

/// The greatest length of the value of a constant in bytes.
pub const CONSTANT_SIZE_MAX: u64 = 65535;

/// The greatest length of a metadata key in bytes.
pub const METADATA_KEY_SIZE_MAX: u64 = 1023;

/// The greatest length of a metadata value in bytes.
pub const METADATA_VALUE_SIZE_MAX: u64 = 65535;

/// The greatest number of tokens of a signature.
pub const SIGNATURE_SIZE_MAX: u64 = 255;

/// The greatest number of resources that a function acquires.
pub const ACQUIRES_COUNT_MAX: u64 = 255;

/// The greatest number of fields of a struct.
pub const FIELD_COUNT_MAX: u64 = 255;

/// The greatest position of a field in its struct.
pub const FIELD_OFFSET_MAX: u64 = 255;

/// The greatest number of type parameters or type arguments.
pub const TYPE_PARAMETER_COUNT_MAX: u64 = 255;

/// The greatest position of a type parameter.
pub const TYPE_PARAMETER_INDEX_MAX: u64 = 65535;

/// The greatest nesting depth of a signature token that decodes: the
/// greatest number of tokens under construction at which a byte of a
/// further token is still read.
pub const SIGNATURE_TOKEN_DEPTH_MAX: usize = 32;

} // verus!
