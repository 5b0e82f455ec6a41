//! The decoder of code units: the instruction stream of a function or a
//! script.

use vstd::prelude::*;
use vstd::pervasive::unreached;
use crate::constants::{VERSION_4, VERSION_6};
use crate::cursor::{decodes, malformed_error, spec_read_u8, CursorView, Decoded, VersionedCursor};
use crate::errors::{malformed, Message, PartialVMError};
use crate::file_format::{Bytecode, CodeUnit, CodeUnitView};
use crate::file_format_common::Opcodes;
use crate::indices::{
    load_bytecode_count, load_bytecode_index, load_constant_pool_index, load_field_handle_index,
    load_field_inst_index, load_function_handle_index, load_function_inst_index, load_local_index,
    load_signature_index, load_struct_def_index, load_struct_def_inst_index,
    spec_load_bytecode_count, spec_load_bytecode_index, spec_load_constant_pool_index,
    spec_load_field_handle_index, spec_load_field_inst_index, spec_load_function_handle_index,
    spec_load_function_inst_index, spec_load_local_index, spec_load_signature_index,
    spec_load_struct_def_index, spec_load_struct_def_inst_index,
};
use crate::primitives::{
    spec_extends, cons_result, lemma_prepend_empty, lemma_prepend_step, prepend,
    read_u128_internal, read_u16_internal, read_u256_internal, read_u32_internal,
    read_u64_internal, spec_read_u128, spec_read_u16, spec_read_u256, spec_read_u32, spec_read_u64,
};
use crate::signatures::shift;

verus! {

/// The instructions on vectors, which exist from version 4 on.
pub open spec fn spec_is_vector_opcode(opcode: Opcodes) -> bool {
    opcode == Opcodes::VEC_PACK || opcode == Opcodes::VEC_LEN || opcode == Opcodes::VEC_IMM_BORROW
        || opcode == Opcodes::VEC_MUT_BORROW || opcode == Opcodes::VEC_PUSH_BACK || opcode
        == Opcodes::VEC_POP_BACK || opcode == Opcodes::VEC_UNPACK || opcode == Opcodes::VEC_SWAP
}

/// The instructions on 16, 32 and 256 bit integers, which exist from version
/// 6 on.
pub open spec fn spec_is_wide_integer_opcode(opcode: Opcodes) -> bool {
    opcode == Opcodes::LD_U16 || opcode == Opcodes::LD_U32 || opcode == Opcodes::LD_U256 || opcode
        == Opcodes::CAST_U16 || opcode == Opcodes::CAST_U32 || opcode == Opcodes::CAST_U256
}

/// The instruction of the given opcode whose operands stand at the reader.
#[verifier::opaque]
pub open spec fn spec_operands(c: CursorView, opcode: Opcodes) -> Decoded<Bytecode> {
    match opcode {
        Opcodes::POP => Ok((Bytecode::Pop, 0)),
        Opcodes::RET => Ok((Bytecode::Ret, 0)),
        Opcodes::BR_TRUE => match spec_load_bytecode_index(c) {
            Err(e) => Err(e),
            Ok((x, n)) => Ok((Bytecode::BrTrue(x), n)),
        },
        Opcodes::BR_FALSE => match spec_load_bytecode_index(c) {
            Err(e) => Err(e),
            Ok((x, n)) => Ok((Bytecode::BrFalse(x), n)),
        },
        Opcodes::BRANCH => match spec_load_bytecode_index(c) {
            Err(e) => Err(e),
            Ok((x, n)) => Ok((Bytecode::Branch(x), n)),
        },
        Opcodes::LD_U8 => match spec_read_u8(c) {
            None => Err(malformed(Message::UnexpectedEof)),
            Some(value) => Ok((Bytecode::LdU8(value), 1)),
        },
        Opcodes::LD_U64 => match spec_read_u64(c) {
            Err(e) => Err(e),
            Ok((x, n)) => Ok((Bytecode::LdU64(x), n)),
        },
        Opcodes::LD_U128 => match spec_read_u128(c) {
            Err(e) => Err(e),
            Ok((x, n)) => Ok((Bytecode::LdU128(x), n)),
        },
        Opcodes::CAST_U8 => Ok((Bytecode::CastU8, 0)),
        Opcodes::CAST_U64 => Ok((Bytecode::CastU64, 0)),
        Opcodes::CAST_U128 => Ok((Bytecode::CastU128, 0)),
        Opcodes::LD_CONST => match spec_load_constant_pool_index(c) {
            Err(e) => Err(e),
            Ok((x, n)) => Ok((Bytecode::LdConst(x), n)),
        },
        Opcodes::LD_TRUE => Ok((Bytecode::LdTrue, 0)),
        Opcodes::LD_FALSE => Ok((Bytecode::LdFalse, 0)),
        Opcodes::COPY_LOC => match spec_load_local_index(c) {
            Err(e) => Err(e),
            Ok((x, n)) => Ok((Bytecode::CopyLoc(x), n)),
        },
        Opcodes::MOVE_LOC => match spec_load_local_index(c) {
            Err(e) => Err(e),
            Ok((x, n)) => Ok((Bytecode::MoveLoc(x), n)),
        },
        Opcodes::ST_LOC => match spec_load_local_index(c) {
            Err(e) => Err(e),
            Ok((x, n)) => Ok((Bytecode::StLoc(x), n)),
        },
        Opcodes::MUT_BORROW_LOC => match spec_load_local_index(c) {
            Err(e) => Err(e),
            Ok((x, n)) => Ok((Bytecode::MutBorrowLoc(x), n)),
        },
        Opcodes::IMM_BORROW_LOC => match spec_load_local_index(c) {
            Err(e) => Err(e),
            Ok((x, n)) => Ok((Bytecode::ImmBorrowLoc(x), n)),
        },
        Opcodes::MUT_BORROW_FIELD => match spec_load_field_handle_index(c) {
            Err(e) => Err(e),
            Ok((x, n)) => Ok((Bytecode::MutBorrowField(x), n)),
        },
        Opcodes::MUT_BORROW_FIELD_GENERIC => match spec_load_field_inst_index(c) {
            Err(e) => Err(e),
            Ok((x, n)) => Ok((Bytecode::MutBorrowFieldGeneric(x), n)),
        },
        Opcodes::IMM_BORROW_FIELD => match spec_load_field_handle_index(c) {
            Err(e) => Err(e),
            Ok((x, n)) => Ok((Bytecode::ImmBorrowField(x), n)),
        },
        Opcodes::IMM_BORROW_FIELD_GENERIC => match spec_load_field_inst_index(c) {
            Err(e) => Err(e),
            Ok((x, n)) => Ok((Bytecode::ImmBorrowFieldGeneric(x), n)),
        },
        Opcodes::CALL => match spec_load_function_handle_index(c) {
            Err(e) => Err(e),
            Ok((x, n)) => Ok((Bytecode::Call(x), n)),
        },
        Opcodes::CALL_GENERIC => match spec_load_function_inst_index(c) {
            Err(e) => Err(e),
            Ok((x, n)) => Ok((Bytecode::CallGeneric(x), n)),
        },
        Opcodes::PACK => match spec_load_struct_def_index(c) {
            Err(e) => Err(e),
            Ok((x, n)) => Ok((Bytecode::Pack(x), n)),
        },
        Opcodes::PACK_GENERIC => match spec_load_struct_def_inst_index(c) {
            Err(e) => Err(e),
            Ok((x, n)) => Ok((Bytecode::PackGeneric(x), n)),
        },
        Opcodes::UNPACK => match spec_load_struct_def_index(c) {
            Err(e) => Err(e),
            Ok((x, n)) => Ok((Bytecode::Unpack(x), n)),
        },
        Opcodes::UNPACK_GENERIC => match spec_load_struct_def_inst_index(c) {
            Err(e) => Err(e),
            Ok((x, n)) => Ok((Bytecode::UnpackGeneric(x), n)),
        },
        Opcodes::READ_REF => Ok((Bytecode::ReadRef, 0)),
        Opcodes::WRITE_REF => Ok((Bytecode::WriteRef, 0)),
        Opcodes::ADD => Ok((Bytecode::Add, 0)),
        Opcodes::SUB => Ok((Bytecode::Sub, 0)),
        Opcodes::MUL => Ok((Bytecode::Mul, 0)),
        Opcodes::MOD => Ok((Bytecode::Mod, 0)),
        Opcodes::DIV => Ok((Bytecode::Div, 0)),
        Opcodes::BIT_OR => Ok((Bytecode::BitOr, 0)),
        Opcodes::BIT_AND => Ok((Bytecode::BitAnd, 0)),
        Opcodes::XOR => Ok((Bytecode::Xor, 0)),
        Opcodes::SHL => Ok((Bytecode::Shl, 0)),
        Opcodes::SHR => Ok((Bytecode::Shr, 0)),
        Opcodes::OR => Ok((Bytecode::Or, 0)),
        Opcodes::AND => Ok((Bytecode::And, 0)),
        Opcodes::NOT => Ok((Bytecode::Not, 0)),
        Opcodes::EQ => Ok((Bytecode::Eq, 0)),
        Opcodes::NEQ => Ok((Bytecode::Neq, 0)),
        Opcodes::LT => Ok((Bytecode::Lt, 0)),
        Opcodes::GT => Ok((Bytecode::Gt, 0)),
        Opcodes::LE => Ok((Bytecode::Le, 0)),
        Opcodes::GE => Ok((Bytecode::Ge, 0)),
        Opcodes::ABORT => Ok((Bytecode::Abort, 0)),
        Opcodes::NOP => Ok((Bytecode::Nop, 0)),
        Opcodes::EXISTS => match spec_load_struct_def_index(c) {
            Err(e) => Err(e),
            Ok((x, n)) => Ok((Bytecode::Exists(x), n)),
        },
        Opcodes::EXISTS_GENERIC => match spec_load_struct_def_inst_index(c) {
            Err(e) => Err(e),
            Ok((x, n)) => Ok((Bytecode::ExistsGeneric(x), n)),
        },
        Opcodes::MUT_BORROW_GLOBAL => match spec_load_struct_def_index(c) {
            Err(e) => Err(e),
            Ok((x, n)) => Ok((Bytecode::MutBorrowGlobal(x), n)),
        },
        Opcodes::MUT_BORROW_GLOBAL_GENERIC => match spec_load_struct_def_inst_index(c) {
            Err(e) => Err(e),
            Ok((x, n)) => Ok((Bytecode::MutBorrowGlobalGeneric(x), n)),
        },
        Opcodes::IMM_BORROW_GLOBAL => match spec_load_struct_def_index(c) {
            Err(e) => Err(e),
            Ok((x, n)) => Ok((Bytecode::ImmBorrowGlobal(x), n)),
        },
        Opcodes::IMM_BORROW_GLOBAL_GENERIC => match spec_load_struct_def_inst_index(c) {
            Err(e) => Err(e),
            Ok((x, n)) => Ok((Bytecode::ImmBorrowGlobalGeneric(x), n)),
        },
        Opcodes::MOVE_FROM => match spec_load_struct_def_index(c) {
            Err(e) => Err(e),
            Ok((x, n)) => Ok((Bytecode::MoveFrom(x), n)),
        },
        Opcodes::MOVE_FROM_GENERIC => match spec_load_struct_def_inst_index(c) {
            Err(e) => Err(e),
            Ok((x, n)) => Ok((Bytecode::MoveFromGeneric(x), n)),
        },
        Opcodes::MOVE_TO => match spec_load_struct_def_index(c) {
            Err(e) => Err(e),
            Ok((x, n)) => Ok((Bytecode::MoveTo(x), n)),
        },
        Opcodes::MOVE_TO_GENERIC => match spec_load_struct_def_inst_index(c) {
            Err(e) => Err(e),
            Ok((x, n)) => Ok((Bytecode::MoveToGeneric(x), n)),
        },
        Opcodes::FREEZE_REF => Ok((Bytecode::FreezeRef, 0)),
        Opcodes::VEC_PACK => match spec_load_signature_index(c) {
            Err(e) => Err(e),
            Ok((idx, n)) => match spec_read_u64(c.skip(n)) {
                Err(e) => Err(e),
                Ok((len, m)) => Ok((Bytecode::VecPack(idx, len), n + m)),
            },
        },
        Opcodes::VEC_LEN => match spec_load_signature_index(c) {
            Err(e) => Err(e),
            Ok((x, n)) => Ok((Bytecode::VecLen(x), n)),
        },
        Opcodes::VEC_IMM_BORROW => match spec_load_signature_index(c) {
            Err(e) => Err(e),
            Ok((x, n)) => Ok((Bytecode::VecImmBorrow(x), n)),
        },
        Opcodes::VEC_MUT_BORROW => match spec_load_signature_index(c) {
            Err(e) => Err(e),
            Ok((x, n)) => Ok((Bytecode::VecMutBorrow(x), n)),
        },
        Opcodes::VEC_PUSH_BACK => match spec_load_signature_index(c) {
            Err(e) => Err(e),
            Ok((x, n)) => Ok((Bytecode::VecPushBack(x), n)),
        },
        Opcodes::VEC_POP_BACK => match spec_load_signature_index(c) {
            Err(e) => Err(e),
            Ok((x, n)) => Ok((Bytecode::VecPopBack(x), n)),
        },
        Opcodes::VEC_UNPACK => match spec_load_signature_index(c) {
            Err(e) => Err(e),
            Ok((idx, n)) => match spec_read_u64(c.skip(n)) {
                Err(e) => Err(e),
                Ok((len, m)) => Ok((Bytecode::VecUnpack(idx, len), n + m)),
            },
        },
        Opcodes::VEC_SWAP => match spec_load_signature_index(c) {
            Err(e) => Err(e),
            Ok((x, n)) => Ok((Bytecode::VecSwap(x), n)),
        },
        Opcodes::LD_U16 => match spec_read_u16(c) {
            Err(e) => Err(e),
            Ok((x, n)) => Ok((Bytecode::LdU16(x), n)),
        },
        Opcodes::LD_U32 => match spec_read_u32(c) {
            Err(e) => Err(e),
            Ok((x, n)) => Ok((Bytecode::LdU32(x), n)),
        },
        Opcodes::LD_U256 => match spec_read_u256(c) {
            Err(e) => Err(e),
            Ok((x, n)) => Ok((Bytecode::LdU256(x), n)),
        },
        Opcodes::CAST_U16 => Ok((Bytecode::CastU16, 0)),
        Opcodes::CAST_U32 => Ok((Bytecode::CastU32, 0)),
        Opcodes::CAST_U256 => Ok((Bytecode::CastU256, 0)),
    }
}

/// The instruction at the reader: one byte of opcode, which the version of
/// the binary must know, and its operands.
#[verifier::opaque]
pub open spec fn spec_load_bytecode(c: CursorView) -> Decoded<Bytecode> {
    match spec_read_u8(c) {
        None => Err(malformed(Message::UnexpectedEof)),
        Some(byte) => match Opcodes::spec_from_u8(byte) {
            Err(e) => Err(e),
            Ok(opcode) => {
                if spec_is_vector_opcode(opcode) && c.version < VERSION_4 {
                    Err(malformed(Message::VectorOperationsNotAvailable))
                } else if spec_is_wide_integer_opcode(opcode) && c.version < VERSION_6 {
                    Err(malformed(Message::IntegerOperationNotSupported(c.version)))
                } else {
                    shift(1, spec_operands(c.skip(1), opcode))
                }
            },
        }
    }
}

spec fn load_value_operands_family(opcode: Opcodes) -> bool {
    opcode == Opcodes::BR_TRUE || opcode == Opcodes::BR_FALSE || opcode == Opcodes::BRANCH || opcode == Opcodes::LD_U8 || opcode == Opcodes::LD_U64 || opcode == Opcodes::LD_U128 || opcode == Opcodes::LD_CONST || opcode == Opcodes::COPY_LOC || opcode == Opcodes::MOVE_LOC || opcode == Opcodes::ST_LOC || opcode == Opcodes::LD_U16 || opcode == Opcodes::LD_U32 || opcode == Opcodes::LD_U256
}

/// Decodes the operands of a branch, a load or an instruction on a local.
#[verifier::rlimit(40)]
fn load_value_operands(cursor: &mut VersionedCursor, opcode: Opcodes) -> (r: Result<Bytecode, PartialVMError>)
    requires
        0 <= old(cursor)@.position <= old(cursor)@.bytes.len(),
        load_value_operands_family(opcode),
    ensures
        decodes(old(cursor)@, final(cursor)@, r, spec_operands(old(cursor)@, opcode)),
{
    reveal(spec_operands);
    match opcode {
        Opcodes::BR_TRUE => Ok(Bytecode::BrTrue(load_bytecode_index(cursor)?)),
        Opcodes::BR_FALSE => Ok(Bytecode::BrFalse(load_bytecode_index(cursor)?)),
        Opcodes::BRANCH => Ok(Bytecode::Branch(load_bytecode_index(cursor)?)),
        Opcodes::LD_U8 => match cursor.read_u8() {
            None => Err(malformed_error(Message::UnexpectedEof)),
            Some(value) => Ok(Bytecode::LdU8(value)),
        },
        Opcodes::LD_U64 => Ok(Bytecode::LdU64(read_u64_internal(cursor)?)),
        Opcodes::LD_U128 => Ok(Bytecode::LdU128(read_u128_internal(cursor)?)),
        Opcodes::LD_CONST => Ok(Bytecode::LdConst(load_constant_pool_index(cursor)?)),
        Opcodes::COPY_LOC => Ok(Bytecode::CopyLoc(load_local_index(cursor)?)),
        Opcodes::MOVE_LOC => Ok(Bytecode::MoveLoc(load_local_index(cursor)?)),
        Opcodes::ST_LOC => Ok(Bytecode::StLoc(load_local_index(cursor)?)),
        Opcodes::LD_U16 => Ok(Bytecode::LdU16(read_u16_internal(cursor)?)),
        Opcodes::LD_U32 => Ok(Bytecode::LdU32(read_u32_internal(cursor)?)),
        Opcodes::LD_U256 => Ok(Bytecode::LdU256(read_u256_internal(cursor)?)),
        _ => unreached(),
    }
}

spec fn load_member_operands_family(opcode: Opcodes) -> bool {
    opcode == Opcodes::MUT_BORROW_LOC || opcode == Opcodes::IMM_BORROW_LOC || opcode == Opcodes::MUT_BORROW_FIELD || opcode == Opcodes::MUT_BORROW_FIELD_GENERIC || opcode == Opcodes::IMM_BORROW_FIELD || opcode == Opcodes::IMM_BORROW_FIELD_GENERIC || opcode == Opcodes::CALL || opcode == Opcodes::CALL_GENERIC || opcode == Opcodes::PACK || opcode == Opcodes::PACK_GENERIC || opcode == Opcodes::UNPACK || opcode == Opcodes::UNPACK_GENERIC
}

/// Decodes the operands of an instruction on a field, a function or a struct.
#[verifier::rlimit(40)]
fn load_member_operands(cursor: &mut VersionedCursor, opcode: Opcodes) -> (r: Result<Bytecode, PartialVMError>)
    requires
        0 <= old(cursor)@.position <= old(cursor)@.bytes.len(),
        load_member_operands_family(opcode),
    ensures
        decodes(old(cursor)@, final(cursor)@, r, spec_operands(old(cursor)@, opcode)),
{
    reveal(spec_operands);
    match opcode {
        Opcodes::MUT_BORROW_LOC => Ok(Bytecode::MutBorrowLoc(load_local_index(cursor)?)),
        Opcodes::IMM_BORROW_LOC => Ok(Bytecode::ImmBorrowLoc(load_local_index(cursor)?)),
        Opcodes::MUT_BORROW_FIELD => Ok(Bytecode::MutBorrowField(load_field_handle_index(cursor)?)),
        Opcodes::MUT_BORROW_FIELD_GENERIC => Ok(Bytecode::MutBorrowFieldGeneric(load_field_inst_index(cursor)?)),
        Opcodes::IMM_BORROW_FIELD => Ok(Bytecode::ImmBorrowField(load_field_handle_index(cursor)?)),
        Opcodes::IMM_BORROW_FIELD_GENERIC => Ok(Bytecode::ImmBorrowFieldGeneric(load_field_inst_index(cursor)?)),
        Opcodes::CALL => Ok(Bytecode::Call(load_function_handle_index(cursor)?)),
        Opcodes::CALL_GENERIC => Ok(Bytecode::CallGeneric(load_function_inst_index(cursor)?)),
        Opcodes::PACK => Ok(Bytecode::Pack(load_struct_def_index(cursor)?)),
        Opcodes::PACK_GENERIC => Ok(Bytecode::PackGeneric(load_struct_def_inst_index(cursor)?)),
        Opcodes::UNPACK => Ok(Bytecode::Unpack(load_struct_def_index(cursor)?)),
        Opcodes::UNPACK_GENERIC => Ok(Bytecode::UnpackGeneric(load_struct_def_inst_index(cursor)?)),
        _ => unreached(),
    }
}

spec fn load_global_operands_family(opcode: Opcodes) -> bool {
    opcode == Opcodes::EXISTS || opcode == Opcodes::EXISTS_GENERIC || opcode == Opcodes::MUT_BORROW_GLOBAL || opcode == Opcodes::MUT_BORROW_GLOBAL_GENERIC || opcode == Opcodes::IMM_BORROW_GLOBAL || opcode == Opcodes::IMM_BORROW_GLOBAL_GENERIC || opcode == Opcodes::MOVE_FROM || opcode == Opcodes::MOVE_FROM_GENERIC || opcode == Opcodes::MOVE_TO || opcode == Opcodes::MOVE_TO_GENERIC
}

/// Decodes the operands of an instruction on global storage.
#[verifier::rlimit(40)]
fn load_global_operands(cursor: &mut VersionedCursor, opcode: Opcodes) -> (r: Result<Bytecode, PartialVMError>)
    requires
        0 <= old(cursor)@.position <= old(cursor)@.bytes.len(),
        load_global_operands_family(opcode),
    ensures
        decodes(old(cursor)@, final(cursor)@, r, spec_operands(old(cursor)@, opcode)),
{
    reveal(spec_operands);
    match opcode {
        Opcodes::EXISTS => Ok(Bytecode::Exists(load_struct_def_index(cursor)?)),
        Opcodes::EXISTS_GENERIC => Ok(Bytecode::ExistsGeneric(load_struct_def_inst_index(cursor)?)),
        Opcodes::MUT_BORROW_GLOBAL => Ok(Bytecode::MutBorrowGlobal(load_struct_def_index(cursor)?)),
        Opcodes::MUT_BORROW_GLOBAL_GENERIC => Ok(Bytecode::MutBorrowGlobalGeneric(load_struct_def_inst_index(cursor)?)),
        Opcodes::IMM_BORROW_GLOBAL => Ok(Bytecode::ImmBorrowGlobal(load_struct_def_index(cursor)?)),
        Opcodes::IMM_BORROW_GLOBAL_GENERIC => Ok(Bytecode::ImmBorrowGlobalGeneric(load_struct_def_inst_index(cursor)?)),
        Opcodes::MOVE_FROM => Ok(Bytecode::MoveFrom(load_struct_def_index(cursor)?)),
        Opcodes::MOVE_FROM_GENERIC => Ok(Bytecode::MoveFromGeneric(load_struct_def_inst_index(cursor)?)),
        Opcodes::MOVE_TO => Ok(Bytecode::MoveTo(load_struct_def_index(cursor)?)),
        Opcodes::MOVE_TO_GENERIC => Ok(Bytecode::MoveToGeneric(load_struct_def_inst_index(cursor)?)),
        _ => unreached(),
    }
}

spec fn load_vector_operands_family(opcode: Opcodes) -> bool {
    opcode == Opcodes::VEC_PACK || opcode == Opcodes::VEC_LEN || opcode == Opcodes::VEC_IMM_BORROW || opcode == Opcodes::VEC_MUT_BORROW || opcode == Opcodes::VEC_PUSH_BACK || opcode == Opcodes::VEC_POP_BACK || opcode == Opcodes::VEC_UNPACK || opcode == Opcodes::VEC_SWAP
}

/// Decodes the operands of an instruction on vectors.
#[verifier::rlimit(40)]
fn load_vector_operands(cursor: &mut VersionedCursor, opcode: Opcodes) -> (r: Result<Bytecode, PartialVMError>)
    requires
        0 <= old(cursor)@.position <= old(cursor)@.bytes.len(),
        load_vector_operands_family(opcode),
    ensures
        decodes(old(cursor)@, final(cursor)@, r, spec_operands(old(cursor)@, opcode)),
{
    reveal(spec_operands);
    match opcode {
        Opcodes::VEC_PACK => {
            let idx = load_signature_index(cursor)?;
            let len = read_u64_internal(cursor)?;
            Ok(Bytecode::VecPack(idx, len))
        },
        Opcodes::VEC_LEN => Ok(Bytecode::VecLen(load_signature_index(cursor)?)),
        Opcodes::VEC_IMM_BORROW => Ok(Bytecode::VecImmBorrow(load_signature_index(cursor)?)),
        Opcodes::VEC_MUT_BORROW => Ok(Bytecode::VecMutBorrow(load_signature_index(cursor)?)),
        Opcodes::VEC_PUSH_BACK => Ok(Bytecode::VecPushBack(load_signature_index(cursor)?)),
        Opcodes::VEC_POP_BACK => Ok(Bytecode::VecPopBack(load_signature_index(cursor)?)),
        Opcodes::VEC_UNPACK => {
            let idx = load_signature_index(cursor)?;
            let len = read_u64_internal(cursor)?;
            Ok(Bytecode::VecUnpack(idx, len))
        },
        Opcodes::VEC_SWAP => Ok(Bytecode::VecSwap(load_signature_index(cursor)?)),
        _ => unreached(),
    }
}

spec fn plain_family(opcode: Opcodes) -> bool {
    !load_value_operands_family(opcode) && !load_member_operands_family(opcode)
        && !load_global_operands_family(opcode) && !load_vector_operands_family(opcode)
}

/// The instruction of an opcode without operands.
fn plain_bytecode(opcode: Opcodes, Ghost(c): Ghost<CursorView>) -> (r: Bytecode)
    requires
        plain_family(opcode),
    ensures
        spec_operands(c, opcode) == Ok::<(Bytecode, nat), PartialVMError>((r, 0)),
{
    reveal(spec_operands);
    match opcode {
        Opcodes::POP => Bytecode::Pop,
        Opcodes::RET => Bytecode::Ret,
        Opcodes::CAST_U8 => Bytecode::CastU8,
        Opcodes::CAST_U64 => Bytecode::CastU64,
        Opcodes::CAST_U128 => Bytecode::CastU128,
        Opcodes::LD_TRUE => Bytecode::LdTrue,
        Opcodes::LD_FALSE => Bytecode::LdFalse,
        Opcodes::READ_REF => Bytecode::ReadRef,
        Opcodes::WRITE_REF => Bytecode::WriteRef,
        Opcodes::ADD => Bytecode::Add,
        Opcodes::SUB => Bytecode::Sub,
        Opcodes::MUL => Bytecode::Mul,
        Opcodes::MOD => Bytecode::Mod,
        Opcodes::DIV => Bytecode::Div,
        Opcodes::BIT_OR => Bytecode::BitOr,
        Opcodes::BIT_AND => Bytecode::BitAnd,
        Opcodes::XOR => Bytecode::Xor,
        Opcodes::SHL => Bytecode::Shl,
        Opcodes::SHR => Bytecode::Shr,
        Opcodes::OR => Bytecode::Or,
        Opcodes::AND => Bytecode::And,
        Opcodes::NOT => Bytecode::Not,
        Opcodes::EQ => Bytecode::Eq,
        Opcodes::NEQ => Bytecode::Neq,
        Opcodes::LT => Bytecode::Lt,
        Opcodes::GT => Bytecode::Gt,
        Opcodes::LE => Bytecode::Le,
        Opcodes::GE => Bytecode::Ge,
        Opcodes::ABORT => Bytecode::Abort,
        Opcodes::NOP => Bytecode::Nop,
        Opcodes::FREEZE_REF => Bytecode::FreezeRef,
        Opcodes::CAST_U16 => Bytecode::CastU16,
        Opcodes::CAST_U32 => Bytecode::CastU32,
        Opcodes::CAST_U256 => Bytecode::CastU256,
        _ => unreached(),
    }
}

fn load_operands(cursor: &mut VersionedCursor, opcode: Opcodes) -> (r: Result<
    Bytecode,
    PartialVMError,
>)
    requires
        0 <= old(cursor)@.position <= old(cursor)@.bytes.len(),
    ensures
        decodes(old(cursor)@, final(cursor)@, r, spec_operands(old(cursor)@, opcode)),
{
    match opcode {
        Opcodes::BR_TRUE
        | Opcodes::BR_FALSE
        | Opcodes::BRANCH
        | Opcodes::LD_U8
        | Opcodes::LD_U64
        | Opcodes::LD_U128
        | Opcodes::LD_CONST
        | Opcodes::COPY_LOC
        | Opcodes::MOVE_LOC
        | Opcodes::ST_LOC
        | Opcodes::LD_U16
        | Opcodes::LD_U32
        | Opcodes::LD_U256 => load_value_operands(cursor, opcode),
        Opcodes::MUT_BORROW_LOC
        | Opcodes::IMM_BORROW_LOC
        | Opcodes::MUT_BORROW_FIELD
        | Opcodes::MUT_BORROW_FIELD_GENERIC
        | Opcodes::IMM_BORROW_FIELD
        | Opcodes::IMM_BORROW_FIELD_GENERIC
        | Opcodes::CALL
        | Opcodes::CALL_GENERIC
        | Opcodes::PACK
        | Opcodes::PACK_GENERIC
        | Opcodes::UNPACK
        | Opcodes::UNPACK_GENERIC => load_member_operands(cursor, opcode),
        Opcodes::EXISTS
        | Opcodes::EXISTS_GENERIC
        | Opcodes::MUT_BORROW_GLOBAL
        | Opcodes::MUT_BORROW_GLOBAL_GENERIC
        | Opcodes::IMM_BORROW_GLOBAL
        | Opcodes::IMM_BORROW_GLOBAL_GENERIC
        | Opcodes::MOVE_FROM
        | Opcodes::MOVE_FROM_GENERIC
        | Opcodes::MOVE_TO
        | Opcodes::MOVE_TO_GENERIC => load_global_operands(cursor, opcode),
        Opcodes::VEC_PACK
        | Opcodes::VEC_LEN
        | Opcodes::VEC_IMM_BORROW
        | Opcodes::VEC_MUT_BORROW
        | Opcodes::VEC_PUSH_BACK
        | Opcodes::VEC_POP_BACK
        | Opcodes::VEC_UNPACK
        | Opcodes::VEC_SWAP => load_vector_operands(cursor, opcode),
        _ => Ok(plain_bytecode(opcode, Ghost(cursor@))),
    }
}

/// Decodes one instruction.
pub fn load_bytecode(cursor: &mut VersionedCursor) -> (r: Result<Bytecode, PartialVMError>)
    ensures
        decodes(old(cursor)@, final(cursor)@, r, spec_load_bytecode(old(cursor)@)),
        r is Ok ==> old(cursor)@.position < final(cursor)@.position,
{
    reveal(spec_load_bytecode);
    let byte = match cursor.read_u8() {
        Some(byte) => byte,
        None => {
            return Err(malformed_error(Message::UnexpectedEof));
        },
    };
    let opcode = Opcodes::from_u8(byte)?;
    match opcode {
        Opcodes::VEC_PACK
        | Opcodes::VEC_LEN
        | Opcodes::VEC_IMM_BORROW
        | Opcodes::VEC_MUT_BORROW
        | Opcodes::VEC_PUSH_BACK
        | Opcodes::VEC_POP_BACK
        | Opcodes::VEC_UNPACK
        | Opcodes::VEC_SWAP => {
            if cursor.version() < VERSION_4 {
                return Err(malformed_error(Message::VectorOperationsNotAvailable));
            }
        },
        _ => {},
    }
    match opcode {
        Opcodes::LD_U16
        | Opcodes::LD_U32
        | Opcodes::LD_U256
        | Opcodes::CAST_U16
        | Opcodes::CAST_U32
        | Opcodes::CAST_U256 => {
            if cursor.version() < VERSION_6 {
                return Err(
                    malformed_error(Message::IntegerOperationNotSupported(cursor.version())),
                );
            }
        },
        _ => {},
    }
    load_operands(cursor, opcode)
}

/// `count` instructions, one after the other.
pub open spec fn spec_bytecode_list(c: CursorView, count: nat) -> Decoded<Seq<Bytecode>>
    decreases count,
{
    if count == 0 {
        Ok((Seq::empty(), 0))
    } else {
        match spec_load_bytecode(c) {
            Err(e) => Err(e),
            Ok((x, n)) => cons_result(x, n, spec_bytecode_list(c.skip(n), (count - 1) as nat)),
        }
    }
}

/// A count and the instructions that bring a code of `have` instructions to
/// that count.
pub open spec fn spec_load_code(c: CursorView, have: nat) -> Decoded<Seq<Bytecode>> {
    match spec_load_bytecode_count(c) {
        Err(e) => Err(e),
        Ok((count, n)) => shift(
            n,
            spec_bytecode_list(
                c.skip(n),
                if count >= have {
                    (count - have) as nat
                } else {
                    0
                },
            ),
        ),
    }
}

/// Decodes a count and appends instructions to `code` until it holds that
/// many. On failure `code` holds what it held and instructions decoded
/// before the failure.
#[verifier::rlimit(40)]
pub fn load_code(cursor: &mut VersionedCursor, code: &mut Vec<Bytecode>) -> (r: Result<
    (),
    PartialVMError,
>)
    ensures
        final(cursor)@.bytes == old(cursor)@.bytes,
        final(cursor)@.version == old(cursor)@.version,
        0 <= old(cursor)@.position <= final(cursor)@.position <= final(cursor)@.bytes.len(),
        match spec_load_code(old(cursor)@, old(code)@.len()) {
            Ok((items, n)) => r is Ok && final(code)@ == old(code)@ + items && final(cursor)@.position
                == old(cursor)@.position + n,
            Err(e) => r == Err::<(), PartialVMError>(e) && e.is_decoder_error(),
        },
        r is Ok ==> old(cursor)@.position < final(cursor)@.position,
        spec_extends(old(code)@, final(code)@),
{
    let bytecode_count = load_bytecode_count(cursor)?;
    let ghost first = cursor@;
    let ghost n0 = (first.position - old(cursor)@.position) as nat;
    let ghost have = old(code)@.len();
    let ghost want = if bytecode_count >= have {
        (bytecode_count - have) as nat
    } else {
        0
    };
    proof {
        lemma_prepend_empty(Seq::<Bytecode>::empty(), 0, spec_bytecode_list(first, want));
        assert(code@ =~= old(code)@ + Seq::<Bytecode>::empty());
    }
    let ghost mut read: Seq<Bytecode> = Seq::empty();
    while code.len() < bytecode_count
        invariant
            first == old(cursor)@.skip(n0),
            spec_load_bytecode_count(old(cursor)@) == Ok::<(usize, nat), PartialVMError>(
                (bytecode_count, n0),
            ),
            have == old(code)@.len(),
            want == if bytecode_count >= have {
                (bytecode_count - have) as nat
            } else {
                0
            },
            code@ == old(code)@ + read,
            read.len() <= want,
            cursor@.bytes == first.bytes,
            cursor@.version == first.version,
            0 <= first.position <= cursor@.position <= cursor@.bytes.len(),
            spec_bytecode_list(first, want) == prepend(
                read,
                (cursor@.position - first.position) as nat,
                spec_bytecode_list(cursor@, (want - read.len()) as nat),
            ),
        decreases bytecode_count - code.len(),
    {
        let ghost here = cursor@;
        let bytecode = load_bytecode(cursor)?;
        code.push(bytecode);
        proof {
            lemma_prepend_step(
                read,
                (here.position - first.position) as nat,
                bytecode,
                (cursor@.position - here.position) as nat,
                spec_bytecode_list(cursor@, (want - read.len() - 1) as nat),
            );
            read = read.push(bytecode);
            assert(code@ =~= old(code)@ + read);
        }
    }
    proof {
        lemma_prepend_empty(
            read,
            (cursor@.position - first.position) as nat,
            spec_bytecode_list(cursor@, 0),
        );
    }
    Ok(())
}

/// The code unit at the reader: the index of the signature of its locals
/// and its instructions.
pub open spec fn spec_load_code_unit(c: CursorView) -> Decoded<CodeUnitView> {
    match spec_load_signature_index(c) {
        Err(e) => Err(e),
        Ok((locals, n)) => match spec_load_code(c.skip(n), 0) {
            Err(e) => Err(e),
            Ok((code, m)) => Ok((CodeUnitView { locals, code }, n + m)),
        },
    }
}

/// Decodes a code unit.
pub fn load_code_unit(cursor: &mut VersionedCursor) -> (r: Result<CodeUnit, PartialVMError>)
    ensures
        decodes(old(cursor)@, final(cursor)@, r, spec_load_code_unit(old(cursor)@)),
        r is Ok ==> old(cursor)@.position < final(cursor)@.position,
{
    let locals = load_signature_index(cursor)?;
    let mut code_unit = CodeUnit { locals, code: Vec::new() };
    let ghost before = code_unit.code@;
    load_code(cursor, &mut code_unit.code)?;
    proof {
        assert(before + code_unit.code@ =~= code_unit.code@);
    }
    Ok(code_unit)
}

} // verus!
