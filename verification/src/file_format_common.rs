//! The byte values of the format: table kinds, type tags, flags and opcodes.

use vstd::prelude::*;
use crate::cursor::CursorView;
use crate::errors::{PartialVMError, StatusCode};

verus! {

/// The kind of a table.
#[allow(non_camel_case_types)]
#[derive(Clone, Copy, Debug, PartialEq, Eq, Structural)]
pub enum TableType {
    MODULE_HANDLES,
    STRUCT_HANDLES,
    FUNCTION_HANDLES,
    FUNCTION_INST,
    SIGNATURES,
    CONSTANT_POOL,
    IDENTIFIERS,
    ADDRESS_IDENTIFIERS,
    STRUCT_DEFS,
    STRUCT_DEF_INST,
    FUNCTION_DEFS,
    FIELD_HANDLE,
    FIELD_INST,
    FRIEND_DECLS,
    METADATA,
}

impl TableType {
    /// The byte that stands for the value in a binary.
    pub open spec fn spec_to_u8(self) -> u8 {
        match self {
            TableType::MODULE_HANDLES => 0x1,
            TableType::STRUCT_HANDLES => 0x2,
            TableType::FUNCTION_HANDLES => 0x3,
            TableType::FUNCTION_INST => 0x4,
            TableType::SIGNATURES => 0x5,
            TableType::CONSTANT_POOL => 0x6,
            TableType::IDENTIFIERS => 0x7,
            TableType::ADDRESS_IDENTIFIERS => 0x8,
            TableType::STRUCT_DEFS => 0xA,
            TableType::STRUCT_DEF_INST => 0xB,
            TableType::FUNCTION_DEFS => 0xC,
            TableType::FIELD_HANDLE => 0xD,
            TableType::FIELD_INST => 0xE,
            TableType::FRIEND_DECLS => 0xF,
            TableType::METADATA => 0x10,
        }
    }

    /// The value that `value` stands for; no other byte stands for one.
    pub open spec fn spec_from_u8(value: u8) -> Result<TableType, PartialVMError> {
        match value {
            0x1 => Ok(TableType::MODULE_HANDLES),
            0x2 => Ok(TableType::STRUCT_HANDLES),
            0x3 => Ok(TableType::FUNCTION_HANDLES),
            0x4 => Ok(TableType::FUNCTION_INST),
            0x5 => Ok(TableType::SIGNATURES),
            0x6 => Ok(TableType::CONSTANT_POOL),
            0x7 => Ok(TableType::IDENTIFIERS),
            0x8 => Ok(TableType::ADDRESS_IDENTIFIERS),
            0xA => Ok(TableType::STRUCT_DEFS),
            0xB => Ok(TableType::STRUCT_DEF_INST),
            0xC => Ok(TableType::FUNCTION_DEFS),
            0xD => Ok(TableType::FIELD_HANDLE),
            0xE => Ok(TableType::FIELD_INST),
            0xF => Ok(TableType::FRIEND_DECLS),
            0x10 => Ok(TableType::METADATA),
            _ => Err(PartialVMError::spec_new(StatusCode::UnknownTableType)),
        }
    }

    /// The byte that stands for the value in a binary.
    #[verifier::when_used_as_spec(spec_to_u8)]
    pub fn to_u8(self) -> (b: u8)
        ensures
            b == self.spec_to_u8(),
    {
        match self {
            TableType::MODULE_HANDLES => 0x1,
            TableType::STRUCT_HANDLES => 0x2,
            TableType::FUNCTION_HANDLES => 0x3,
            TableType::FUNCTION_INST => 0x4,
            TableType::SIGNATURES => 0x5,
            TableType::CONSTANT_POOL => 0x6,
            TableType::IDENTIFIERS => 0x7,
            TableType::ADDRESS_IDENTIFIERS => 0x8,
            TableType::STRUCT_DEFS => 0xA,
            TableType::STRUCT_DEF_INST => 0xB,
            TableType::FUNCTION_DEFS => 0xC,
            TableType::FIELD_HANDLE => 0xD,
            TableType::FIELD_INST => 0xE,
            TableType::FRIEND_DECLS => 0xF,
            TableType::METADATA => 0x10,
        }
    }

    /// The value that `value` stands for, or the error of an unknown byte.
    #[verifier::when_used_as_spec(spec_from_u8)]
    pub fn from_u8(value: u8) -> (r: Result<TableType, PartialVMError>)
        ensures
            r == Self::spec_from_u8(value),
    {
        match value {
            0x1 => Ok(TableType::MODULE_HANDLES),
            0x2 => Ok(TableType::STRUCT_HANDLES),
            0x3 => Ok(TableType::FUNCTION_HANDLES),
            0x4 => Ok(TableType::FUNCTION_INST),
            0x5 => Ok(TableType::SIGNATURES),
            0x6 => Ok(TableType::CONSTANT_POOL),
            0x7 => Ok(TableType::IDENTIFIERS),
            0x8 => Ok(TableType::ADDRESS_IDENTIFIERS),
            0xA => Ok(TableType::STRUCT_DEFS),
            0xB => Ok(TableType::STRUCT_DEF_INST),
            0xC => Ok(TableType::FUNCTION_DEFS),
            0xD => Ok(TableType::FIELD_HANDLE),
            0xE => Ok(TableType::FIELD_INST),
            0xF => Ok(TableType::FRIEND_DECLS),
            0x10 => Ok(TableType::METADATA),
            _ => Err(PartialVMError::new(StatusCode::UnknownTableType)),
        }
    }
}

/// The tag that starts a signature token.
#[allow(non_camel_case_types)]
#[derive(Clone, Copy, Debug, PartialEq, Eq, Structural)]
pub enum SerializedType {
    BOOL,
    U8,
    U64,
    U128,
    ADDRESS,
    REFERENCE,
    MUTABLE_REFERENCE,
    STRUCT,
    TYPE_PARAMETER,
    VECTOR,
    STRUCT_INST,
    SIGNER,
    U16,
    U32,
    U256,
}

impl SerializedType {
    /// The byte that stands for the value in a binary.
    pub open spec fn spec_to_u8(self) -> u8 {
        match self {
            SerializedType::BOOL => 0x1,
            SerializedType::U8 => 0x2,
            SerializedType::U64 => 0x3,
            SerializedType::U128 => 0x4,
            SerializedType::ADDRESS => 0x5,
            SerializedType::REFERENCE => 0x6,
            SerializedType::MUTABLE_REFERENCE => 0x7,
            SerializedType::STRUCT => 0x8,
            SerializedType::TYPE_PARAMETER => 0x9,
            SerializedType::VECTOR => 0xA,
            SerializedType::STRUCT_INST => 0xB,
            SerializedType::SIGNER => 0xC,
            SerializedType::U16 => 0xD,
            SerializedType::U32 => 0xE,
            SerializedType::U256 => 0xF,
        }
    }

    /// The value that `value` stands for; no other byte stands for one.
    pub open spec fn spec_from_u8(value: u8) -> Result<SerializedType, PartialVMError> {
        match value {
            0x1 => Ok(SerializedType::BOOL),
            0x2 => Ok(SerializedType::U8),
            0x3 => Ok(SerializedType::U64),
            0x4 => Ok(SerializedType::U128),
            0x5 => Ok(SerializedType::ADDRESS),
            0x6 => Ok(SerializedType::REFERENCE),
            0x7 => Ok(SerializedType::MUTABLE_REFERENCE),
            0x8 => Ok(SerializedType::STRUCT),
            0x9 => Ok(SerializedType::TYPE_PARAMETER),
            0xA => Ok(SerializedType::VECTOR),
            0xB => Ok(SerializedType::STRUCT_INST),
            0xC => Ok(SerializedType::SIGNER),
            0xD => Ok(SerializedType::U16),
            0xE => Ok(SerializedType::U32),
            0xF => Ok(SerializedType::U256),
            _ => Err(PartialVMError::spec_new(StatusCode::UnknownSerializedType)),
        }
    }

    /// The byte that stands for the value in a binary.
    #[verifier::when_used_as_spec(spec_to_u8)]
    pub fn to_u8(self) -> (b: u8)
        ensures
            b == self.spec_to_u8(),
    {
        match self {
            SerializedType::BOOL => 0x1,
            SerializedType::U8 => 0x2,
            SerializedType::U64 => 0x3,
            SerializedType::U128 => 0x4,
            SerializedType::ADDRESS => 0x5,
            SerializedType::REFERENCE => 0x6,
            SerializedType::MUTABLE_REFERENCE => 0x7,
            SerializedType::STRUCT => 0x8,
            SerializedType::TYPE_PARAMETER => 0x9,
            SerializedType::VECTOR => 0xA,
            SerializedType::STRUCT_INST => 0xB,
            SerializedType::SIGNER => 0xC,
            SerializedType::U16 => 0xD,
            SerializedType::U32 => 0xE,
            SerializedType::U256 => 0xF,
        }
    }

    /// The value that `value` stands for, or the error of an unknown byte.
    #[verifier::when_used_as_spec(spec_from_u8)]
    pub fn from_u8(value: u8) -> (r: Result<SerializedType, PartialVMError>)
        ensures
            r == Self::spec_from_u8(value),
    {
        match value {
            0x1 => Ok(SerializedType::BOOL),
            0x2 => Ok(SerializedType::U8),
            0x3 => Ok(SerializedType::U64),
            0x4 => Ok(SerializedType::U128),
            0x5 => Ok(SerializedType::ADDRESS),
            0x6 => Ok(SerializedType::REFERENCE),
            0x7 => Ok(SerializedType::MUTABLE_REFERENCE),
            0x8 => Ok(SerializedType::STRUCT),
            0x9 => Ok(SerializedType::TYPE_PARAMETER),
            0xA => Ok(SerializedType::VECTOR),
            0xB => Ok(SerializedType::STRUCT_INST),
            0xC => Ok(SerializedType::SIGNER),
            0xD => Ok(SerializedType::U16),
            0xE => Ok(SerializedType::U32),
            0xF => Ok(SerializedType::U256),
            _ => Err(PartialVMError::new(StatusCode::UnknownSerializedType)),
        }
    }
}

/// How a struct handle of version 1 says whether its struct is a resource.
#[allow(non_camel_case_types)]
#[derive(Clone, Copy, Debug, PartialEq, Eq, Structural)]
pub enum DeprecatedNominalResourceFlag {
    NOMINAL_RESOURCE,
    NORMAL_STRUCT,
}

impl DeprecatedNominalResourceFlag {
    /// The byte that stands for the value in a binary.
    pub open spec fn spec_to_u8(self) -> u8 {
        match self {
            DeprecatedNominalResourceFlag::NOMINAL_RESOURCE => 0x1,
            DeprecatedNominalResourceFlag::NORMAL_STRUCT => 0x2,
        }
    }

    /// The value that `value` stands for; no other byte stands for one.
    pub open spec fn spec_from_u8(value: u8) -> Result<DeprecatedNominalResourceFlag, PartialVMError> {
        match value {
            0x1 => Ok(DeprecatedNominalResourceFlag::NOMINAL_RESOURCE),
            0x2 => Ok(DeprecatedNominalResourceFlag::NORMAL_STRUCT),
            _ => Err(PartialVMError::spec_new(StatusCode::UnknownAbility)),
        }
    }

    /// The byte that stands for the value in a binary.
    #[verifier::when_used_as_spec(spec_to_u8)]
    pub fn to_u8(self) -> (b: u8)
        ensures
            b == self.spec_to_u8(),
    {
        match self {
            DeprecatedNominalResourceFlag::NOMINAL_RESOURCE => 0x1,
            DeprecatedNominalResourceFlag::NORMAL_STRUCT => 0x2,
        }
    }

    /// The value that `value` stands for, or the error of an unknown byte.
    #[verifier::when_used_as_spec(spec_from_u8)]
    pub fn from_u8(value: u8) -> (r: Result<DeprecatedNominalResourceFlag, PartialVMError>)
        ensures
            r == Self::spec_from_u8(value),
    {
        match value {
            0x1 => Ok(DeprecatedNominalResourceFlag::NOMINAL_RESOURCE),
            0x2 => Ok(DeprecatedNominalResourceFlag::NORMAL_STRUCT),
            _ => Err(PartialVMError::new(StatusCode::UnknownAbility)),
        }
    }
}

/// The constraint on a type parameter in version 1.
#[allow(non_camel_case_types)]
#[derive(Clone, Copy, Debug, PartialEq, Eq, Structural)]
pub enum DeprecatedKind {
    ALL,
    COPYABLE,
    RESOURCE,
}

impl DeprecatedKind {
    /// The byte that stands for the value in a binary.
    pub open spec fn spec_to_u8(self) -> u8 {
        match self {
            DeprecatedKind::ALL => 0x1,
            DeprecatedKind::COPYABLE => 0x2,
            DeprecatedKind::RESOURCE => 0x3,
        }
    }

    /// The value that `value` stands for; no other byte stands for one.
    pub open spec fn spec_from_u8(value: u8) -> Result<DeprecatedKind, PartialVMError> {
        match value {
            0x1 => Ok(DeprecatedKind::ALL),
            0x2 => Ok(DeprecatedKind::COPYABLE),
            0x3 => Ok(DeprecatedKind::RESOURCE),
            _ => Err(PartialVMError::spec_new(StatusCode::UnknownAbility)),
        }
    }

    /// The byte that stands for the value in a binary.
    #[verifier::when_used_as_spec(spec_to_u8)]
    pub fn to_u8(self) -> (b: u8)
        ensures
            b == self.spec_to_u8(),
    {
        match self {
            DeprecatedKind::ALL => 0x1,
            DeprecatedKind::COPYABLE => 0x2,
            DeprecatedKind::RESOURCE => 0x3,
        }
    }

    /// The value that `value` stands for, or the error of an unknown byte.
    #[verifier::when_used_as_spec(spec_from_u8)]
    pub fn from_u8(value: u8) -> (r: Result<DeprecatedKind, PartialVMError>)
        ensures
            r == Self::spec_from_u8(value),
    {
        match value {
            0x1 => Ok(DeprecatedKind::ALL),
            0x2 => Ok(DeprecatedKind::COPYABLE),
            0x3 => Ok(DeprecatedKind::RESOURCE),
            _ => Err(PartialVMError::new(StatusCode::UnknownAbility)),
        }
    }
}

/// Whether a struct definition declares its fields or leaves them to the host.
#[allow(non_camel_case_types)]
#[derive(Clone, Copy, Debug, PartialEq, Eq, Structural)]
pub enum SerializedNativeStructFlag {
    NATIVE,
    DECLARED,
}

impl SerializedNativeStructFlag {
    /// The byte that stands for the value in a binary.
    pub open spec fn spec_to_u8(self) -> u8 {
        match self {
            SerializedNativeStructFlag::NATIVE => 0x1,
            SerializedNativeStructFlag::DECLARED => 0x2,
        }
    }

    /// The value that `value` stands for; no other byte stands for one.
    pub open spec fn spec_from_u8(value: u8) -> Result<SerializedNativeStructFlag, PartialVMError> {
        match value {
            0x1 => Ok(SerializedNativeStructFlag::NATIVE),
            0x2 => Ok(SerializedNativeStructFlag::DECLARED),
            _ => Err(PartialVMError::spec_new(StatusCode::UnknownNativeStructFlag)),
        }
    }

    /// The byte that stands for the value in a binary.
    #[verifier::when_used_as_spec(spec_to_u8)]
    pub fn to_u8(self) -> (b: u8)
        ensures
            b == self.spec_to_u8(),
    {
        match self {
            SerializedNativeStructFlag::NATIVE => 0x1,
            SerializedNativeStructFlag::DECLARED => 0x2,
        }
    }

    /// The value that `value` stands for, or the error of an unknown byte.
    #[verifier::when_used_as_spec(spec_from_u8)]
    pub fn from_u8(value: u8) -> (r: Result<SerializedNativeStructFlag, PartialVMError>)
        ensures
            r == Self::spec_from_u8(value),
    {
        match value {
            0x1 => Ok(SerializedNativeStructFlag::NATIVE),
            0x2 => Ok(SerializedNativeStructFlag::DECLARED),
            _ => Err(PartialVMError::new(StatusCode::UnknownNativeStructFlag)),
        }
    }
}

/// The byte that starts an instruction.
#[allow(non_camel_case_types)]
#[derive(Clone, Copy, Debug, PartialEq, Eq, Structural)]
pub enum Opcodes {
    POP,
    RET,
    BR_TRUE,
    BR_FALSE,
    BRANCH,
    LD_U64,
    LD_CONST,
    LD_TRUE,
    LD_FALSE,
    COPY_LOC,
    MOVE_LOC,
    ST_LOC,
    MUT_BORROW_LOC,
    IMM_BORROW_LOC,
    MUT_BORROW_FIELD,
    IMM_BORROW_FIELD,
    CALL,
    PACK,
    UNPACK,
    READ_REF,
    WRITE_REF,
    ADD,
    SUB,
    MUL,
    MOD,
    DIV,
    BIT_OR,
    BIT_AND,
    XOR,
    OR,
    AND,
    NOT,
    EQ,
    NEQ,
    LT,
    GT,
    LE,
    GE,
    ABORT,
    NOP,
    EXISTS,
    MUT_BORROW_GLOBAL,
    IMM_BORROW_GLOBAL,
    MOVE_FROM,
    MOVE_TO,
    FREEZE_REF,
    SHL,
    SHR,
    LD_U8,
    LD_U128,
    CAST_U8,
    CAST_U64,
    CAST_U128,
    MUT_BORROW_FIELD_GENERIC,
    IMM_BORROW_FIELD_GENERIC,
    CALL_GENERIC,
    PACK_GENERIC,
    UNPACK_GENERIC,
    EXISTS_GENERIC,
    MUT_BORROW_GLOBAL_GENERIC,
    IMM_BORROW_GLOBAL_GENERIC,
    MOVE_FROM_GENERIC,
    MOVE_TO_GENERIC,
    VEC_PACK,
    VEC_LEN,
    VEC_IMM_BORROW,
    VEC_MUT_BORROW,
    VEC_PUSH_BACK,
    VEC_POP_BACK,
    VEC_UNPACK,
    VEC_SWAP,
    LD_U16,
    LD_U32,
    LD_U256,
    CAST_U16,
    CAST_U32,
    CAST_U256,
}

impl Opcodes {
    /// The byte that stands for the value in a binary.
    pub open spec fn spec_to_u8(self) -> u8 {
        match self {
            Opcodes::POP => 0x01,
            Opcodes::RET => 0x02,
            Opcodes::BR_TRUE => 0x03,
            Opcodes::BR_FALSE => 0x04,
            Opcodes::BRANCH => 0x05,
            Opcodes::LD_U64 => 0x06,
            Opcodes::LD_CONST => 0x07,
            Opcodes::LD_TRUE => 0x08,
            Opcodes::LD_FALSE => 0x09,
            Opcodes::COPY_LOC => 0x0A,
            Opcodes::MOVE_LOC => 0x0B,
            Opcodes::ST_LOC => 0x0C,
            Opcodes::MUT_BORROW_LOC => 0x0D,
            Opcodes::IMM_BORROW_LOC => 0x0E,
            Opcodes::MUT_BORROW_FIELD => 0x0F,
            Opcodes::IMM_BORROW_FIELD => 0x10,
            Opcodes::CALL => 0x11,
            Opcodes::PACK => 0x12,
            Opcodes::UNPACK => 0x13,
            Opcodes::READ_REF => 0x14,
            Opcodes::WRITE_REF => 0x15,
            Opcodes::ADD => 0x16,
            Opcodes::SUB => 0x17,
            Opcodes::MUL => 0x18,
            Opcodes::MOD => 0x19,
            Opcodes::DIV => 0x1A,
            Opcodes::BIT_OR => 0x1B,
            Opcodes::BIT_AND => 0x1C,
            Opcodes::XOR => 0x1D,
            Opcodes::OR => 0x1E,
            Opcodes::AND => 0x1F,
            Opcodes::NOT => 0x20,
            Opcodes::EQ => 0x21,
            Opcodes::NEQ => 0x22,
            Opcodes::LT => 0x23,
            Opcodes::GT => 0x24,
            Opcodes::LE => 0x25,
            Opcodes::GE => 0x26,
            Opcodes::ABORT => 0x27,
            Opcodes::NOP => 0x28,
            Opcodes::EXISTS => 0x29,
            Opcodes::MUT_BORROW_GLOBAL => 0x2A,
            Opcodes::IMM_BORROW_GLOBAL => 0x2B,
            Opcodes::MOVE_FROM => 0x2C,
            Opcodes::MOVE_TO => 0x2D,
            Opcodes::FREEZE_REF => 0x2E,
            Opcodes::SHL => 0x2F,
            Opcodes::SHR => 0x30,
            Opcodes::LD_U8 => 0x31,
            Opcodes::LD_U128 => 0x32,
            Opcodes::CAST_U8 => 0x33,
            Opcodes::CAST_U64 => 0x34,
            Opcodes::CAST_U128 => 0x35,
            Opcodes::MUT_BORROW_FIELD_GENERIC => 0x36,
            Opcodes::IMM_BORROW_FIELD_GENERIC => 0x37,
            Opcodes::CALL_GENERIC => 0x38,
            Opcodes::PACK_GENERIC => 0x39,
            Opcodes::UNPACK_GENERIC => 0x3A,
            Opcodes::EXISTS_GENERIC => 0x3B,
            Opcodes::MUT_BORROW_GLOBAL_GENERIC => 0x3C,
            Opcodes::IMM_BORROW_GLOBAL_GENERIC => 0x3D,
            Opcodes::MOVE_FROM_GENERIC => 0x3E,
            Opcodes::MOVE_TO_GENERIC => 0x3F,
            Opcodes::VEC_PACK => 0x40,
            Opcodes::VEC_LEN => 0x41,
            Opcodes::VEC_IMM_BORROW => 0x42,
            Opcodes::VEC_MUT_BORROW => 0x43,
            Opcodes::VEC_PUSH_BACK => 0x44,
            Opcodes::VEC_POP_BACK => 0x45,
            Opcodes::VEC_UNPACK => 0x46,
            Opcodes::VEC_SWAP => 0x47,
            Opcodes::LD_U16 => 0x48,
            Opcodes::LD_U32 => 0x49,
            Opcodes::LD_U256 => 0x4A,
            Opcodes::CAST_U16 => 0x4B,
            Opcodes::CAST_U32 => 0x4C,
            Opcodes::CAST_U256 => 0x4D,
        }
    }

    /// The value that `value` stands for; no other byte stands for one.
    pub open spec fn spec_from_u8(value: u8) -> Result<Opcodes, PartialVMError> {
        match value {
            0x01 => Ok(Opcodes::POP),
            0x02 => Ok(Opcodes::RET),
            0x03 => Ok(Opcodes::BR_TRUE),
            0x04 => Ok(Opcodes::BR_FALSE),
            0x05 => Ok(Opcodes::BRANCH),
            0x06 => Ok(Opcodes::LD_U64),
            0x07 => Ok(Opcodes::LD_CONST),
            0x08 => Ok(Opcodes::LD_TRUE),
            0x09 => Ok(Opcodes::LD_FALSE),
            0x0A => Ok(Opcodes::COPY_LOC),
            0x0B => Ok(Opcodes::MOVE_LOC),
            0x0C => Ok(Opcodes::ST_LOC),
            0x0D => Ok(Opcodes::MUT_BORROW_LOC),
            0x0E => Ok(Opcodes::IMM_BORROW_LOC),
            0x0F => Ok(Opcodes::MUT_BORROW_FIELD),
            0x10 => Ok(Opcodes::IMM_BORROW_FIELD),
            0x11 => Ok(Opcodes::CALL),
            0x12 => Ok(Opcodes::PACK),
            0x13 => Ok(Opcodes::UNPACK),
            0x14 => Ok(Opcodes::READ_REF),
            0x15 => Ok(Opcodes::WRITE_REF),
            0x16 => Ok(Opcodes::ADD),
            0x17 => Ok(Opcodes::SUB),
            0x18 => Ok(Opcodes::MUL),
            0x19 => Ok(Opcodes::MOD),
            0x1A => Ok(Opcodes::DIV),
            0x1B => Ok(Opcodes::BIT_OR),
            0x1C => Ok(Opcodes::BIT_AND),
            0x1D => Ok(Opcodes::XOR),
            0x1E => Ok(Opcodes::OR),
            0x1F => Ok(Opcodes::AND),
            0x20 => Ok(Opcodes::NOT),
            0x21 => Ok(Opcodes::EQ),
            0x22 => Ok(Opcodes::NEQ),
            0x23 => Ok(Opcodes::LT),
            0x24 => Ok(Opcodes::GT),
            0x25 => Ok(Opcodes::LE),
            0x26 => Ok(Opcodes::GE),
            0x27 => Ok(Opcodes::ABORT),
            0x28 => Ok(Opcodes::NOP),
            0x29 => Ok(Opcodes::EXISTS),
            0x2A => Ok(Opcodes::MUT_BORROW_GLOBAL),
            0x2B => Ok(Opcodes::IMM_BORROW_GLOBAL),
            0x2C => Ok(Opcodes::MOVE_FROM),
            0x2D => Ok(Opcodes::MOVE_TO),
            0x2E => Ok(Opcodes::FREEZE_REF),
            0x2F => Ok(Opcodes::SHL),
            0x30 => Ok(Opcodes::SHR),
            0x31 => Ok(Opcodes::LD_U8),
            0x32 => Ok(Opcodes::LD_U128),
            0x33 => Ok(Opcodes::CAST_U8),
            0x34 => Ok(Opcodes::CAST_U64),
            0x35 => Ok(Opcodes::CAST_U128),
            0x36 => Ok(Opcodes::MUT_BORROW_FIELD_GENERIC),
            0x37 => Ok(Opcodes::IMM_BORROW_FIELD_GENERIC),
            0x38 => Ok(Opcodes::CALL_GENERIC),
            0x39 => Ok(Opcodes::PACK_GENERIC),
            0x3A => Ok(Opcodes::UNPACK_GENERIC),
            0x3B => Ok(Opcodes::EXISTS_GENERIC),
            0x3C => Ok(Opcodes::MUT_BORROW_GLOBAL_GENERIC),
            0x3D => Ok(Opcodes::IMM_BORROW_GLOBAL_GENERIC),
            0x3E => Ok(Opcodes::MOVE_FROM_GENERIC),
            0x3F => Ok(Opcodes::MOVE_TO_GENERIC),
            0x40 => Ok(Opcodes::VEC_PACK),
            0x41 => Ok(Opcodes::VEC_LEN),
            0x42 => Ok(Opcodes::VEC_IMM_BORROW),
            0x43 => Ok(Opcodes::VEC_MUT_BORROW),
            0x44 => Ok(Opcodes::VEC_PUSH_BACK),
            0x45 => Ok(Opcodes::VEC_POP_BACK),
            0x46 => Ok(Opcodes::VEC_UNPACK),
            0x47 => Ok(Opcodes::VEC_SWAP),
            0x48 => Ok(Opcodes::LD_U16),
            0x49 => Ok(Opcodes::LD_U32),
            0x4A => Ok(Opcodes::LD_U256),
            0x4B => Ok(Opcodes::CAST_U16),
            0x4C => Ok(Opcodes::CAST_U32),
            0x4D => Ok(Opcodes::CAST_U256),
            _ => Err(PartialVMError::spec_new(StatusCode::UnknownOpcode)),
        }
    }

    /// The byte that stands for the value in a binary.
    #[verifier::when_used_as_spec(spec_to_u8)]
    pub fn to_u8(self) -> (b: u8)
        ensures
            b == self.spec_to_u8(),
    {
        match self {
            Opcodes::POP => 0x01,
            Opcodes::RET => 0x02,
            Opcodes::BR_TRUE => 0x03,
            Opcodes::BR_FALSE => 0x04,
            Opcodes::BRANCH => 0x05,
            Opcodes::LD_U64 => 0x06,
            Opcodes::LD_CONST => 0x07,
            Opcodes::LD_TRUE => 0x08,
            Opcodes::LD_FALSE => 0x09,
            Opcodes::COPY_LOC => 0x0A,
            Opcodes::MOVE_LOC => 0x0B,
            Opcodes::ST_LOC => 0x0C,
            Opcodes::MUT_BORROW_LOC => 0x0D,
            Opcodes::IMM_BORROW_LOC => 0x0E,
            Opcodes::MUT_BORROW_FIELD => 0x0F,
            Opcodes::IMM_BORROW_FIELD => 0x10,
            Opcodes::CALL => 0x11,
            Opcodes::PACK => 0x12,
            Opcodes::UNPACK => 0x13,
            Opcodes::READ_REF => 0x14,
            Opcodes::WRITE_REF => 0x15,
            Opcodes::ADD => 0x16,
            Opcodes::SUB => 0x17,
            Opcodes::MUL => 0x18,
            Opcodes::MOD => 0x19,
            Opcodes::DIV => 0x1A,
            Opcodes::BIT_OR => 0x1B,
            Opcodes::BIT_AND => 0x1C,
            Opcodes::XOR => 0x1D,
            Opcodes::OR => 0x1E,
            Opcodes::AND => 0x1F,
            Opcodes::NOT => 0x20,
            Opcodes::EQ => 0x21,
            Opcodes::NEQ => 0x22,
            Opcodes::LT => 0x23,
            Opcodes::GT => 0x24,
            Opcodes::LE => 0x25,
            Opcodes::GE => 0x26,
            Opcodes::ABORT => 0x27,
            Opcodes::NOP => 0x28,
            Opcodes::EXISTS => 0x29,
            Opcodes::MUT_BORROW_GLOBAL => 0x2A,
            Opcodes::IMM_BORROW_GLOBAL => 0x2B,
            Opcodes::MOVE_FROM => 0x2C,
            Opcodes::MOVE_TO => 0x2D,
            Opcodes::FREEZE_REF => 0x2E,
            Opcodes::SHL => 0x2F,
            Opcodes::SHR => 0x30,
            Opcodes::LD_U8 => 0x31,
            Opcodes::LD_U128 => 0x32,
            Opcodes::CAST_U8 => 0x33,
            Opcodes::CAST_U64 => 0x34,
            Opcodes::CAST_U128 => 0x35,
            Opcodes::MUT_BORROW_FIELD_GENERIC => 0x36,
            Opcodes::IMM_BORROW_FIELD_GENERIC => 0x37,
            Opcodes::CALL_GENERIC => 0x38,
            Opcodes::PACK_GENERIC => 0x39,
            Opcodes::UNPACK_GENERIC => 0x3A,
            Opcodes::EXISTS_GENERIC => 0x3B,
            Opcodes::MUT_BORROW_GLOBAL_GENERIC => 0x3C,
            Opcodes::IMM_BORROW_GLOBAL_GENERIC => 0x3D,
            Opcodes::MOVE_FROM_GENERIC => 0x3E,
            Opcodes::MOVE_TO_GENERIC => 0x3F,
            Opcodes::VEC_PACK => 0x40,
            Opcodes::VEC_LEN => 0x41,
            Opcodes::VEC_IMM_BORROW => 0x42,
            Opcodes::VEC_MUT_BORROW => 0x43,
            Opcodes::VEC_PUSH_BACK => 0x44,
            Opcodes::VEC_POP_BACK => 0x45,
            Opcodes::VEC_UNPACK => 0x46,
            Opcodes::VEC_SWAP => 0x47,
            Opcodes::LD_U16 => 0x48,
            Opcodes::LD_U32 => 0x49,
            Opcodes::LD_U256 => 0x4A,
            Opcodes::CAST_U16 => 0x4B,
            Opcodes::CAST_U32 => 0x4C,
            Opcodes::CAST_U256 => 0x4D,
        }
    }

    /// The value that `value` stands for, or the error of an unknown byte.
    #[verifier::when_used_as_spec(spec_from_u8)]
    pub fn from_u8(value: u8) -> (r: Result<Opcodes, PartialVMError>)
        ensures
            r == Self::spec_from_u8(value),
    {
        match value {
            0x01 => Ok(Opcodes::POP),
            0x02 => Ok(Opcodes::RET),
            0x03 => Ok(Opcodes::BR_TRUE),
            0x04 => Ok(Opcodes::BR_FALSE),
            0x05 => Ok(Opcodes::BRANCH),
            0x06 => Ok(Opcodes::LD_U64),
            0x07 => Ok(Opcodes::LD_CONST),
            0x08 => Ok(Opcodes::LD_TRUE),
            0x09 => Ok(Opcodes::LD_FALSE),
            0x0A => Ok(Opcodes::COPY_LOC),
            0x0B => Ok(Opcodes::MOVE_LOC),
            0x0C => Ok(Opcodes::ST_LOC),
            0x0D => Ok(Opcodes::MUT_BORROW_LOC),
            0x0E => Ok(Opcodes::IMM_BORROW_LOC),
            0x0F => Ok(Opcodes::MUT_BORROW_FIELD),
            0x10 => Ok(Opcodes::IMM_BORROW_FIELD),
            0x11 => Ok(Opcodes::CALL),
            0x12 => Ok(Opcodes::PACK),
            0x13 => Ok(Opcodes::UNPACK),
            0x14 => Ok(Opcodes::READ_REF),
            0x15 => Ok(Opcodes::WRITE_REF),
            0x16 => Ok(Opcodes::ADD),
            0x17 => Ok(Opcodes::SUB),
            0x18 => Ok(Opcodes::MUL),
            0x19 => Ok(Opcodes::MOD),
            0x1A => Ok(Opcodes::DIV),
            0x1B => Ok(Opcodes::BIT_OR),
            0x1C => Ok(Opcodes::BIT_AND),
            0x1D => Ok(Opcodes::XOR),
            0x1E => Ok(Opcodes::OR),
            0x1F => Ok(Opcodes::AND),
            0x20 => Ok(Opcodes::NOT),
            0x21 => Ok(Opcodes::EQ),
            0x22 => Ok(Opcodes::NEQ),
            0x23 => Ok(Opcodes::LT),
            0x24 => Ok(Opcodes::GT),
            0x25 => Ok(Opcodes::LE),
            0x26 => Ok(Opcodes::GE),
            0x27 => Ok(Opcodes::ABORT),
            0x28 => Ok(Opcodes::NOP),
            0x29 => Ok(Opcodes::EXISTS),
            0x2A => Ok(Opcodes::MUT_BORROW_GLOBAL),
            0x2B => Ok(Opcodes::IMM_BORROW_GLOBAL),
            0x2C => Ok(Opcodes::MOVE_FROM),
            0x2D => Ok(Opcodes::MOVE_TO),
            0x2E => Ok(Opcodes::FREEZE_REF),
            0x2F => Ok(Opcodes::SHL),
            0x30 => Ok(Opcodes::SHR),
            0x31 => Ok(Opcodes::LD_U8),
            0x32 => Ok(Opcodes::LD_U128),
            0x33 => Ok(Opcodes::CAST_U8),
            0x34 => Ok(Opcodes::CAST_U64),
            0x35 => Ok(Opcodes::CAST_U128),
            0x36 => Ok(Opcodes::MUT_BORROW_FIELD_GENERIC),
            0x37 => Ok(Opcodes::IMM_BORROW_FIELD_GENERIC),
            0x38 => Ok(Opcodes::CALL_GENERIC),
            0x39 => Ok(Opcodes::PACK_GENERIC),
            0x3A => Ok(Opcodes::UNPACK_GENERIC),
            0x3B => Ok(Opcodes::EXISTS_GENERIC),
            0x3C => Ok(Opcodes::MUT_BORROW_GLOBAL_GENERIC),
            0x3D => Ok(Opcodes::IMM_BORROW_GLOBAL_GENERIC),
            0x3E => Ok(Opcodes::MOVE_FROM_GENERIC),
            0x3F => Ok(Opcodes::MOVE_TO_GENERIC),
            0x40 => Ok(Opcodes::VEC_PACK),
            0x41 => Ok(Opcodes::VEC_LEN),
            0x42 => Ok(Opcodes::VEC_IMM_BORROW),
            0x43 => Ok(Opcodes::VEC_MUT_BORROW),
            0x44 => Ok(Opcodes::VEC_PUSH_BACK),
            0x45 => Ok(Opcodes::VEC_POP_BACK),
            0x46 => Ok(Opcodes::VEC_UNPACK),
            0x47 => Ok(Opcodes::VEC_SWAP),
            0x48 => Ok(Opcodes::LD_U16),
            0x49 => Ok(Opcodes::LD_U32),
            0x4A => Ok(Opcodes::LD_U256),
            0x4B => Ok(Opcodes::CAST_U16),
            0x4C => Ok(Opcodes::CAST_U32),
            0x4D => Ok(Opcodes::CAST_U256),
            _ => Err(PartialVMError::new(StatusCode::UnknownOpcode)),
        }
    }
}

/// An entry of the table directory: the kind of a table, the offset of its
/// content from the start of the table contents, and the length of its
/// content in bytes.
#[derive(Clone, Copy, Debug, PartialEq, Eq, Structural)]
pub struct Table {
    pub kind: TableType,
    pub offset: u32,
    pub count: u32,
}

impl Table {
    /// The entry of a table of the given kind, offset and length.
    pub fn new(kind: TableType, offset: u32, count: u32) -> (table: Table)
        ensures
            table == (Table { kind, offset, count }),
    {
        Table { kind, offset, count }
    }
}

/// The reader over the bytes of the table `table` of `binary`.
pub open spec fn spec_table_window(binary: CursorView, table: Table) -> CursorView {
    CursorView::window(
        binary.bytes,
        binary.version,
        table.offset as int,
        table.offset + table.count,
    )
}

} // verus!
