//! The bytes that stand for the definitions of a module of each version of
//! the format, and the law that decoding them gives the records back.

use vstd::prelude::*;
use crate::code::{spec_bytecode_list, spec_load_bytecode, spec_load_code_unit, spec_operands};
use crate::constants::{
    ACQUIRES_COUNT_MAX, BYTECODE_COUNT_MAX, BYTECODE_INDEX_MAX, CONSTANT_INDEX_MAX,
    FIELD_COUNT_MAX, FIELD_HANDLE_INDEX_MAX, FIELD_INST_INDEX_MAX, FUNCTION_HANDLE_INDEX_MAX,
    FUNCTION_INST_INDEX_MAX, IDENTIFIER_INDEX_MAX, LOCAL_INDEX_MAX, SIGNATURE_INDEX_MAX,
    STRUCT_DEF_INDEX_MAX, STRUCT_DEF_INST_INDEX_MAX, STRUCT_HANDLE_INDEX_MAX, VERSION_1, VERSION_4,
    VERSION_5, VERSION_6,
};
use crate::cursor::CursorView;
use crate::definitions::{
    lemma_load_function_def_advances, lemma_load_struct_def_advances, spec_field_def_list,
    spec_load_field_def, spec_load_field_defs, spec_load_function_body, spec_load_function_def,
    spec_load_function_def_sequence, spec_load_function_flags, spec_load_struct_def,
    spec_load_struct_def_sequence, spec_load_struct_definition_indices, spec_struct_def_index_list,
    FunctionFlags,
};
use crate::encoded_pools::{
    lemma_root_token_round_trip, spec_encodable_root_token, spec_root_token_bytes,
};
use crate::encoding::{
    lemma_bounded_uleb128_round_trip, lemma_holds_first, lemma_holds_split, lemma_u128_round_trip,
    lemma_u16_round_trip, lemma_u256_round_trip, lemma_u32_round_trip, lemma_u64_round_trip,
    spec_holds, spec_u128_bytes, spec_u16_bytes, spec_u256_bytes, spec_u32_bytes, spec_u64_bytes,
    spec_uleb128_bytes,
};
use crate::errors::PartialVMError;
use crate::file_format::{
    Bytecode, CodeUnitView, FieldDefinitionView, FunctionDefinitionView, StructDefinitionIndex,
    StructDefinitionView, StructFieldInformationView, Visibility, FUNCTION_DEPRECATED_PUBLIC_BIT,
    VISIBILITY_DEPRECATED_SCRIPT,
};

verus! {

/// The bytes of an instruction: its opcode and its operands.
pub open spec fn spec_bytecode_bytes(bytecode: Bytecode) -> Seq<u8> {
    match bytecode {
        Bytecode::Pop => seq![0x01u8],
        Bytecode::Ret => seq![0x02u8],
        Bytecode::BrTrue(x) => seq![0x03u8] + spec_uleb128_bytes(x as nat),
        Bytecode::BrFalse(x) => seq![0x04u8] + spec_uleb128_bytes(x as nat),
        Bytecode::Branch(x) => seq![0x05u8] + spec_uleb128_bytes(x as nat),
        Bytecode::LdU8(x) => seq![0x31u8, x],
        Bytecode::LdU64(x) => seq![0x06u8] + spec_u64_bytes(x),
        Bytecode::LdU128(x) => seq![0x32u8] + spec_u128_bytes(x),
        Bytecode::CastU8 => seq![0x33u8],
        Bytecode::CastU64 => seq![0x34u8],
        Bytecode::CastU128 => seq![0x35u8],
        Bytecode::LdConst(x) => seq![0x07u8] + spec_uleb128_bytes(x.0 as nat),
        Bytecode::LdTrue => seq![0x08u8],
        Bytecode::LdFalse => seq![0x09u8],
        Bytecode::CopyLoc(x) => seq![0x0Au8] + spec_uleb128_bytes(x as nat),
        Bytecode::MoveLoc(x) => seq![0x0Bu8] + spec_uleb128_bytes(x as nat),
        Bytecode::StLoc(x) => seq![0x0Cu8] + spec_uleb128_bytes(x as nat),
        Bytecode::MutBorrowLoc(x) => seq![0x0Du8] + spec_uleb128_bytes(x as nat),
        Bytecode::ImmBorrowLoc(x) => seq![0x0Eu8] + spec_uleb128_bytes(x as nat),
        Bytecode::MutBorrowField(x) => seq![0x0Fu8] + spec_uleb128_bytes(x.0 as nat),
        Bytecode::MutBorrowFieldGeneric(x) => seq![0x36u8] + spec_uleb128_bytes(x.0 as nat),
        Bytecode::ImmBorrowField(x) => seq![0x10u8] + spec_uleb128_bytes(x.0 as nat),
        Bytecode::ImmBorrowFieldGeneric(x) => seq![0x37u8] + spec_uleb128_bytes(x.0 as nat),
        Bytecode::Call(x) => seq![0x11u8] + spec_uleb128_bytes(x.0 as nat),
        Bytecode::CallGeneric(x) => seq![0x38u8] + spec_uleb128_bytes(x.0 as nat),
        Bytecode::Pack(x) => seq![0x12u8] + spec_uleb128_bytes(x.0 as nat),
        Bytecode::PackGeneric(x) => seq![0x39u8] + spec_uleb128_bytes(x.0 as nat),
        Bytecode::Unpack(x) => seq![0x13u8] + spec_uleb128_bytes(x.0 as nat),
        Bytecode::UnpackGeneric(x) => seq![0x3Au8] + spec_uleb128_bytes(x.0 as nat),
        Bytecode::ReadRef => seq![0x14u8],
        Bytecode::WriteRef => seq![0x15u8],
        Bytecode::Add => seq![0x16u8],
        Bytecode::Sub => seq![0x17u8],
        Bytecode::Mul => seq![0x18u8],
        Bytecode::Mod => seq![0x19u8],
        Bytecode::Div => seq![0x1Au8],
        Bytecode::BitOr => seq![0x1Bu8],
        Bytecode::BitAnd => seq![0x1Cu8],
        Bytecode::Xor => seq![0x1Du8],
        Bytecode::Shl => seq![0x2Fu8],
        Bytecode::Shr => seq![0x30u8],
        Bytecode::Or => seq![0x1Eu8],
        Bytecode::And => seq![0x1Fu8],
        Bytecode::Not => seq![0x20u8],
        Bytecode::Eq => seq![0x21u8],
        Bytecode::Neq => seq![0x22u8],
        Bytecode::Lt => seq![0x23u8],
        Bytecode::Gt => seq![0x24u8],
        Bytecode::Le => seq![0x25u8],
        Bytecode::Ge => seq![0x26u8],
        Bytecode::Abort => seq![0x27u8],
        Bytecode::Nop => seq![0x28u8],
        Bytecode::Exists(x) => seq![0x29u8] + spec_uleb128_bytes(x.0 as nat),
        Bytecode::ExistsGeneric(x) => seq![0x3Bu8] + spec_uleb128_bytes(x.0 as nat),
        Bytecode::MutBorrowGlobal(x) => seq![0x2Au8] + spec_uleb128_bytes(x.0 as nat),
        Bytecode::MutBorrowGlobalGeneric(x) => seq![0x3Cu8] + spec_uleb128_bytes(x.0 as nat),
        Bytecode::ImmBorrowGlobal(x) => seq![0x2Bu8] + spec_uleb128_bytes(x.0 as nat),
        Bytecode::ImmBorrowGlobalGeneric(x) => seq![0x3Du8] + spec_uleb128_bytes(x.0 as nat),
        Bytecode::MoveFrom(x) => seq![0x2Cu8] + spec_uleb128_bytes(x.0 as nat),
        Bytecode::MoveFromGeneric(x) => seq![0x3Eu8] + spec_uleb128_bytes(x.0 as nat),
        Bytecode::MoveTo(x) => seq![0x2Du8] + spec_uleb128_bytes(x.0 as nat),
        Bytecode::MoveToGeneric(x) => seq![0x3Fu8] + spec_uleb128_bytes(x.0 as nat),
        Bytecode::FreezeRef => seq![0x2Eu8],
        Bytecode::VecPack(idx, len) => seq![0x40u8] + (spec_uleb128_bytes(idx.0 as nat) + spec_u64_bytes(len)),
        Bytecode::VecLen(x) => seq![0x41u8] + spec_uleb128_bytes(x.0 as nat),
        Bytecode::VecImmBorrow(x) => seq![0x42u8] + spec_uleb128_bytes(x.0 as nat),
        Bytecode::VecMutBorrow(x) => seq![0x43u8] + spec_uleb128_bytes(x.0 as nat),
        Bytecode::VecPushBack(x) => seq![0x44u8] + spec_uleb128_bytes(x.0 as nat),
        Bytecode::VecPopBack(x) => seq![0x45u8] + spec_uleb128_bytes(x.0 as nat),
        Bytecode::VecUnpack(idx, len) => seq![0x46u8] + (spec_uleb128_bytes(idx.0 as nat) + spec_u64_bytes(len)),
        Bytecode::VecSwap(x) => seq![0x47u8] + spec_uleb128_bytes(x.0 as nat),
        Bytecode::LdU16(x) => seq![0x48u8] + spec_u16_bytes(x),
        Bytecode::LdU32(x) => seq![0x49u8] + spec_u32_bytes(x),
        Bytecode::LdU256(x) => seq![0x4Au8] + spec_u256_bytes(x),
        Bytecode::CastU16 => seq![0x4Bu8],
        Bytecode::CastU32 => seq![0x4Cu8],
        Bytecode::CastU256 => seq![0x4Du8],
    }
}

/// Whether the version of the format has the instruction: those on
/// vectors exist from version 4 on, those on integers of 16, 32 and 256
/// bits from version 6 on.
pub open spec fn spec_bytecode_in_version(bytecode: Bytecode, version: u32) -> bool {
    &&& (bytecode is VecPack || bytecode is VecLen || bytecode is VecImmBorrow
        || bytecode is VecMutBorrow || bytecode is VecPushBack || bytecode is VecPopBack
        || bytecode is VecUnpack || bytecode is VecSwap) ==> version >= VERSION_4
    &&& (bytecode is LdU16 || bytecode is LdU32 || bytecode is LdU256 || bytecode is CastU16
        || bytecode is CastU32 || bytecode is CastU256) ==> version >= VERSION_6
}

/// Whether the version of the format has every instruction of the code.
pub open spec fn spec_code_in_version(code: Seq<Bytecode>, version: u32) -> bool {
    forall|i: int| 0 <= i < code.len() ==> spec_bytecode_in_version(#[trigger] code[i], version)
}

spec fn is_plain_instruction(bytecode: Bytecode) -> bool {
    bytecode is Pop || bytecode is Ret || bytecode is CastU8 || bytecode is CastU64 || bytecode is CastU128 || bytecode is LdTrue || bytecode is LdFalse || bytecode is ReadRef || bytecode is WriteRef || bytecode is Add || bytecode is Sub || bytecode is Mul || bytecode is Mod || bytecode is Div || bytecode is BitOr || bytecode is BitAnd || bytecode is Xor || bytecode is Shl || bytecode is Shr || bytecode is Or || bytecode is And || bytecode is Not || bytecode is Eq || bytecode is Neq || bytecode is Lt || bytecode is Gt || bytecode is Le || bytecode is Ge || bytecode is Abort || bytecode is Nop || bytecode is FreezeRef || bytecode is CastU16 || bytecode is CastU32 || bytecode is CastU256
}

#[verifier::rlimit(40)]

proof fn lemma_plain_bytecode_round_trip(c: CursorView, bytecode: Bytecode)
    requires
        spec_holds(c, spec_bytecode_bytes(bytecode)),
        is_plain_instruction(bytecode),
        spec_bytecode_in_version(bytecode, c.version),
    ensures
        spec_load_bytecode(c) == Ok::<(Bytecode, nat), PartialVMError>(
            (bytecode, spec_bytecode_bytes(bytecode).len()),
        ),
{
    reveal(spec_load_bytecode);
    reveal(spec_operands);
    let bytes = spec_bytecode_bytes(bytecode);
    lemma_holds_first(c, bytes);
    let rest = bytes.subrange(1, bytes.len() as int);
    let c1 = c.skip(1);
    match bytecode {
        Bytecode::Pop => {},
        Bytecode::Ret => {},
        Bytecode::CastU8 => {},
        Bytecode::CastU64 => {},
        Bytecode::CastU128 => {},
        Bytecode::LdTrue => {},
        Bytecode::LdFalse => {},
        Bytecode::ReadRef => {},
        Bytecode::WriteRef => {},
        Bytecode::Add => {},
        Bytecode::Sub => {},
        Bytecode::Mul => {},
        Bytecode::Mod => {},
        Bytecode::Div => {},
        Bytecode::BitOr => {},
        Bytecode::BitAnd => {},
        Bytecode::Xor => {},
        Bytecode::Shl => {},
        Bytecode::Shr => {},
        Bytecode::Or => {},
        Bytecode::And => {},
        Bytecode::Not => {},
        Bytecode::Eq => {},
        Bytecode::Neq => {},
        Bytecode::Lt => {},
        Bytecode::Gt => {},
        Bytecode::Le => {},
        Bytecode::Ge => {},
        Bytecode::Abort => {},
        Bytecode::Nop => {},
        Bytecode::FreezeRef => {},
        Bytecode::CastU16 => {},
        Bytecode::CastU32 => {},
        Bytecode::CastU256 => {},
        _ => {},
    }
}

spec fn is_value_instruction(bytecode: Bytecode) -> bool {
    bytecode is BrTrue || bytecode is BrFalse || bytecode is Branch || bytecode is LdU8 || bytecode is LdU64 || bytecode is LdU128 || bytecode is LdConst || bytecode is CopyLoc || bytecode is MoveLoc || bytecode is StLoc || bytecode is LdU16 || bytecode is LdU32 || bytecode is LdU256
}

#[verifier::rlimit(40)]

proof fn lemma_value_bytecode_round_trip(c: CursorView, bytecode: Bytecode)
    requires
        spec_holds(c, spec_bytecode_bytes(bytecode)),
        is_value_instruction(bytecode),
        spec_bytecode_in_version(bytecode, c.version),
    ensures
        spec_load_bytecode(c) == Ok::<(Bytecode, nat), PartialVMError>(
            (bytecode, spec_bytecode_bytes(bytecode).len()),
        ),
{
    reveal(spec_load_bytecode);
    reveal(spec_operands);
    let bytes = spec_bytecode_bytes(bytecode);
    lemma_holds_first(c, bytes);
    let rest = bytes.subrange(1, bytes.len() as int);
    let c1 = c.skip(1);
    match bytecode {
        Bytecode::BrTrue(x) => {
            assert(rest =~= spec_uleb128_bytes(x as nat));
            lemma_bounded_uleb128_round_trip(c1, x as u64, BYTECODE_INDEX_MAX);
        },
        Bytecode::BrFalse(x) => {
            assert(rest =~= spec_uleb128_bytes(x as nat));
            lemma_bounded_uleb128_round_trip(c1, x as u64, BYTECODE_INDEX_MAX);
        },
        Bytecode::Branch(x) => {
            assert(rest =~= spec_uleb128_bytes(x as nat));
            lemma_bounded_uleb128_round_trip(c1, x as u64, BYTECODE_INDEX_MAX);
        },
        Bytecode::LdU8(x) => {
            lemma_holds_first(c1, rest);
        },
        Bytecode::LdU64(x) => {
            assert(rest =~= spec_u64_bytes(x));
            lemma_u64_round_trip(c1, x);
        },
        Bytecode::LdU128(x) => {
            assert(rest =~= spec_u128_bytes(x));
            lemma_u128_round_trip(c1, x);
        },
        Bytecode::LdConst(x) => {
            assert(rest =~= spec_uleb128_bytes(x.0 as nat));
            lemma_bounded_uleb128_round_trip(c1, x.0 as u64, CONSTANT_INDEX_MAX);
        },
        Bytecode::CopyLoc(x) => {
            assert(rest =~= spec_uleb128_bytes(x as nat));
            lemma_bounded_uleb128_round_trip(c1, x as u64, LOCAL_INDEX_MAX);
        },
        Bytecode::MoveLoc(x) => {
            assert(rest =~= spec_uleb128_bytes(x as nat));
            lemma_bounded_uleb128_round_trip(c1, x as u64, LOCAL_INDEX_MAX);
        },
        Bytecode::StLoc(x) => {
            assert(rest =~= spec_uleb128_bytes(x as nat));
            lemma_bounded_uleb128_round_trip(c1, x as u64, LOCAL_INDEX_MAX);
        },
        Bytecode::LdU16(x) => {
            assert(rest =~= spec_u16_bytes(x));
            lemma_u16_round_trip(c1, x);
        },
        Bytecode::LdU32(x) => {
            assert(rest =~= spec_u32_bytes(x));
            lemma_u32_round_trip(c1, x);
        },
        Bytecode::LdU256(x) => {
            assert(rest =~= spec_u256_bytes(x));
            lemma_u256_round_trip(c1, x);
        },
        _ => {},
    }
}

spec fn is_member_instruction(bytecode: Bytecode) -> bool {
    bytecode is MutBorrowLoc || bytecode is ImmBorrowLoc || bytecode is MutBorrowField || bytecode is MutBorrowFieldGeneric || bytecode is ImmBorrowField || bytecode is ImmBorrowFieldGeneric || bytecode is Call || bytecode is CallGeneric || bytecode is Pack || bytecode is PackGeneric || bytecode is Unpack || bytecode is UnpackGeneric
}

#[verifier::rlimit(40)]

proof fn lemma_member_bytecode_round_trip(c: CursorView, bytecode: Bytecode)
    requires
        spec_holds(c, spec_bytecode_bytes(bytecode)),
        is_member_instruction(bytecode),
        spec_bytecode_in_version(bytecode, c.version),
    ensures
        spec_load_bytecode(c) == Ok::<(Bytecode, nat), PartialVMError>(
            (bytecode, spec_bytecode_bytes(bytecode).len()),
        ),
{
    reveal(spec_load_bytecode);
    reveal(spec_operands);
    let bytes = spec_bytecode_bytes(bytecode);
    lemma_holds_first(c, bytes);
    let rest = bytes.subrange(1, bytes.len() as int);
    let c1 = c.skip(1);
    match bytecode {
        Bytecode::MutBorrowLoc(x) => {
            assert(rest =~= spec_uleb128_bytes(x as nat));
            lemma_bounded_uleb128_round_trip(c1, x as u64, LOCAL_INDEX_MAX);
        },
        Bytecode::ImmBorrowLoc(x) => {
            assert(rest =~= spec_uleb128_bytes(x as nat));
            lemma_bounded_uleb128_round_trip(c1, x as u64, LOCAL_INDEX_MAX);
        },
        Bytecode::MutBorrowField(x) => {
            assert(rest =~= spec_uleb128_bytes(x.0 as nat));
            lemma_bounded_uleb128_round_trip(c1, x.0 as u64, FIELD_HANDLE_INDEX_MAX);
        },
        Bytecode::MutBorrowFieldGeneric(x) => {
            assert(rest =~= spec_uleb128_bytes(x.0 as nat));
            lemma_bounded_uleb128_round_trip(c1, x.0 as u64, FIELD_INST_INDEX_MAX);
        },
        Bytecode::ImmBorrowField(x) => {
            assert(rest =~= spec_uleb128_bytes(x.0 as nat));
            lemma_bounded_uleb128_round_trip(c1, x.0 as u64, FIELD_HANDLE_INDEX_MAX);
        },
        Bytecode::ImmBorrowFieldGeneric(x) => {
            assert(rest =~= spec_uleb128_bytes(x.0 as nat));
            lemma_bounded_uleb128_round_trip(c1, x.0 as u64, FIELD_INST_INDEX_MAX);
        },
        Bytecode::Call(x) => {
            assert(rest =~= spec_uleb128_bytes(x.0 as nat));
            lemma_bounded_uleb128_round_trip(c1, x.0 as u64, FUNCTION_HANDLE_INDEX_MAX);
        },
        Bytecode::CallGeneric(x) => {
            assert(rest =~= spec_uleb128_bytes(x.0 as nat));
            lemma_bounded_uleb128_round_trip(c1, x.0 as u64, FUNCTION_INST_INDEX_MAX);
        },
        Bytecode::Pack(x) => {
            assert(rest =~= spec_uleb128_bytes(x.0 as nat));
            lemma_bounded_uleb128_round_trip(c1, x.0 as u64, STRUCT_DEF_INDEX_MAX);
        },
        Bytecode::PackGeneric(x) => {
            assert(rest =~= spec_uleb128_bytes(x.0 as nat));
            lemma_bounded_uleb128_round_trip(c1, x.0 as u64, STRUCT_DEF_INST_INDEX_MAX);
        },
        Bytecode::Unpack(x) => {
            assert(rest =~= spec_uleb128_bytes(x.0 as nat));
            lemma_bounded_uleb128_round_trip(c1, x.0 as u64, STRUCT_DEF_INDEX_MAX);
        },
        Bytecode::UnpackGeneric(x) => {
            assert(rest =~= spec_uleb128_bytes(x.0 as nat));
            lemma_bounded_uleb128_round_trip(c1, x.0 as u64, STRUCT_DEF_INST_INDEX_MAX);
        },
        _ => {},
    }
}

spec fn is_global_instruction(bytecode: Bytecode) -> bool {
    bytecode is Exists || bytecode is ExistsGeneric || bytecode is MutBorrowGlobal || bytecode is MutBorrowGlobalGeneric || bytecode is ImmBorrowGlobal || bytecode is ImmBorrowGlobalGeneric || bytecode is MoveFrom || bytecode is MoveFromGeneric || bytecode is MoveTo || bytecode is MoveToGeneric
}

#[verifier::rlimit(40)]

proof fn lemma_global_bytecode_round_trip(c: CursorView, bytecode: Bytecode)
    requires
        spec_holds(c, spec_bytecode_bytes(bytecode)),
        is_global_instruction(bytecode),
        spec_bytecode_in_version(bytecode, c.version),
    ensures
        spec_load_bytecode(c) == Ok::<(Bytecode, nat), PartialVMError>(
            (bytecode, spec_bytecode_bytes(bytecode).len()),
        ),
{
    reveal(spec_load_bytecode);
    reveal(spec_operands);
    let bytes = spec_bytecode_bytes(bytecode);
    lemma_holds_first(c, bytes);
    let rest = bytes.subrange(1, bytes.len() as int);
    let c1 = c.skip(1);
    match bytecode {
        Bytecode::Exists(x) => {
            assert(rest =~= spec_uleb128_bytes(x.0 as nat));
            lemma_bounded_uleb128_round_trip(c1, x.0 as u64, STRUCT_DEF_INDEX_MAX);
        },
        Bytecode::ExistsGeneric(x) => {
            assert(rest =~= spec_uleb128_bytes(x.0 as nat));
            lemma_bounded_uleb128_round_trip(c1, x.0 as u64, STRUCT_DEF_INST_INDEX_MAX);
        },
        Bytecode::MutBorrowGlobal(x) => {
            assert(rest =~= spec_uleb128_bytes(x.0 as nat));
            lemma_bounded_uleb128_round_trip(c1, x.0 as u64, STRUCT_DEF_INDEX_MAX);
        },
        Bytecode::MutBorrowGlobalGeneric(x) => {
            assert(rest =~= spec_uleb128_bytes(x.0 as nat));
            lemma_bounded_uleb128_round_trip(c1, x.0 as u64, STRUCT_DEF_INST_INDEX_MAX);
        },
        Bytecode::ImmBorrowGlobal(x) => {
            assert(rest =~= spec_uleb128_bytes(x.0 as nat));
            lemma_bounded_uleb128_round_trip(c1, x.0 as u64, STRUCT_DEF_INDEX_MAX);
        },
        Bytecode::ImmBorrowGlobalGeneric(x) => {
            assert(rest =~= spec_uleb128_bytes(x.0 as nat));
            lemma_bounded_uleb128_round_trip(c1, x.0 as u64, STRUCT_DEF_INST_INDEX_MAX);
        },
        Bytecode::MoveFrom(x) => {
            assert(rest =~= spec_uleb128_bytes(x.0 as nat));
            lemma_bounded_uleb128_round_trip(c1, x.0 as u64, STRUCT_DEF_INDEX_MAX);
        },
        Bytecode::MoveFromGeneric(x) => {
            assert(rest =~= spec_uleb128_bytes(x.0 as nat));
            lemma_bounded_uleb128_round_trip(c1, x.0 as u64, STRUCT_DEF_INST_INDEX_MAX);
        },
        Bytecode::MoveTo(x) => {
            assert(rest =~= spec_uleb128_bytes(x.0 as nat));
            lemma_bounded_uleb128_round_trip(c1, x.0 as u64, STRUCT_DEF_INDEX_MAX);
        },
        Bytecode::MoveToGeneric(x) => {
            assert(rest =~= spec_uleb128_bytes(x.0 as nat));
            lemma_bounded_uleb128_round_trip(c1, x.0 as u64, STRUCT_DEF_INST_INDEX_MAX);
        },
        _ => {},
    }
}

spec fn is_vector_instruction(bytecode: Bytecode) -> bool {
    bytecode is VecPack || bytecode is VecLen || bytecode is VecImmBorrow || bytecode is VecMutBorrow || bytecode is VecPushBack || bytecode is VecPopBack || bytecode is VecUnpack || bytecode is VecSwap
}

#[verifier::rlimit(40)]

proof fn lemma_vector_bytecode_round_trip(c: CursorView, bytecode: Bytecode)
    requires
        spec_holds(c, spec_bytecode_bytes(bytecode)),
        is_vector_instruction(bytecode),
        spec_bytecode_in_version(bytecode, c.version),
    ensures
        spec_load_bytecode(c) == Ok::<(Bytecode, nat), PartialVMError>(
            (bytecode, spec_bytecode_bytes(bytecode).len()),
        ),
{
    reveal(spec_load_bytecode);
    reveal(spec_operands);
    let bytes = spec_bytecode_bytes(bytecode);
    lemma_holds_first(c, bytes);
    let rest = bytes.subrange(1, bytes.len() as int);
    let c1 = c.skip(1);
    match bytecode {
        Bytecode::VecPack(idx, len) => {
            let index = spec_uleb128_bytes(idx.0 as nat);
            assert(rest =~= index + spec_u64_bytes(len));
            lemma_holds_split(c1, index, spec_u64_bytes(len));
            lemma_bounded_uleb128_round_trip(c1, idx.0 as u64, SIGNATURE_INDEX_MAX);
            lemma_u64_round_trip(c1.skip(index.len()), len);
        },
        Bytecode::VecLen(x) => {
            assert(rest =~= spec_uleb128_bytes(x.0 as nat));
            lemma_bounded_uleb128_round_trip(c1, x.0 as u64, SIGNATURE_INDEX_MAX);
        },
        Bytecode::VecImmBorrow(x) => {
            assert(rest =~= spec_uleb128_bytes(x.0 as nat));
            lemma_bounded_uleb128_round_trip(c1, x.0 as u64, SIGNATURE_INDEX_MAX);
        },
        Bytecode::VecMutBorrow(x) => {
            assert(rest =~= spec_uleb128_bytes(x.0 as nat));
            lemma_bounded_uleb128_round_trip(c1, x.0 as u64, SIGNATURE_INDEX_MAX);
        },
        Bytecode::VecPushBack(x) => {
            assert(rest =~= spec_uleb128_bytes(x.0 as nat));
            lemma_bounded_uleb128_round_trip(c1, x.0 as u64, SIGNATURE_INDEX_MAX);
        },
        Bytecode::VecPopBack(x) => {
            assert(rest =~= spec_uleb128_bytes(x.0 as nat));
            lemma_bounded_uleb128_round_trip(c1, x.0 as u64, SIGNATURE_INDEX_MAX);
        },
        Bytecode::VecUnpack(idx, len) => {
            let index = spec_uleb128_bytes(idx.0 as nat);
            assert(rest =~= index + spec_u64_bytes(len));
            lemma_holds_split(c1, index, spec_u64_bytes(len));
            lemma_bounded_uleb128_round_trip(c1, idx.0 as u64, SIGNATURE_INDEX_MAX);
            lemma_u64_round_trip(c1.skip(index.len()), len);
        },
        Bytecode::VecSwap(x) => {
            assert(rest =~= spec_uleb128_bytes(x.0 as nat));
            lemma_bounded_uleb128_round_trip(c1, x.0 as u64, SIGNATURE_INDEX_MAX);
        },
        _ => {},
    }
}

/// Decoding the bytes of an instruction gives the instruction.
pub proof fn lemma_bytecode_round_trip(c: CursorView, bytecode: Bytecode)
    requires
        spec_holds(c, spec_bytecode_bytes(bytecode)),
        spec_bytecode_in_version(bytecode, c.version),
    ensures
        spec_load_bytecode(c) == Ok::<(Bytecode, nat), PartialVMError>(
            (bytecode, spec_bytecode_bytes(bytecode).len()),
        ),
{
    if is_plain_instruction(bytecode) {
        lemma_plain_bytecode_round_trip(c, bytecode);
    } else if is_value_instruction(bytecode) {
        lemma_value_bytecode_round_trip(c, bytecode);
    } else if is_member_instruction(bytecode) {
        lemma_member_bytecode_round_trip(c, bytecode);
    } else if is_global_instruction(bytecode) {
        lemma_global_bytecode_round_trip(c, bytecode);
    } else {
        lemma_vector_bytecode_round_trip(c, bytecode);
    }
}

/// The bytes of instructions that stand one behind the other.
pub open spec fn spec_bytecode_list_bytes(items: Seq<Bytecode>) -> Seq<u8>
    decreases items.len(),
{
    if items.len() == 0 {
        Seq::empty()
    } else {
        spec_bytecode_bytes(items[0]) + spec_bytecode_list_bytes(
            items.subrange(1, items.len() as int),
        )
    }
}

proof fn lemma_bytecode_list_round_trip(c: CursorView, items: Seq<Bytecode>)
    requires
        spec_holds(c, spec_bytecode_list_bytes(items)),
        spec_code_in_version(items, c.version),
    ensures
        spec_bytecode_list(c, items.len()) == Ok::<(Seq<Bytecode>, nat), PartialVMError>(
            (items, spec_bytecode_list_bytes(items).len()),
        ),
    decreases items.len(),
{
    if items.len() == 0 {
        assert(items =~= Seq::<Bytecode>::empty());
    } else {
        let first = spec_bytecode_bytes(items[0]);
        let tail = items.subrange(1, items.len() as int);
        lemma_holds_split(c, first, spec_bytecode_list_bytes(tail));
        assert forall|i: int| 0 <= i < tail.len() implies spec_bytecode_in_version(
            #[trigger] tail[i],
            c.version,
        ) by {
            assert(tail[i] == items[i + 1]);
        }
        lemma_bytecode_round_trip(c, items[0]);
        lemma_bytecode_list_round_trip(c.skip(first.len()), tail);
        assert(seq![items[0]] + tail =~= items);
    }
}

/// The bytes of a code unit: the index of the signature of its locals, the
/// number of its instructions and the instructions.
pub open spec fn spec_code_unit_bytes(unit: CodeUnitView) -> Seq<u8> {
    spec_uleb128_bytes(unit.locals.0 as nat) + (spec_uleb128_bytes(unit.code.len())
        + spec_bytecode_list_bytes(unit.code))
}

/// Decoding the bytes of a code unit gives the code unit.
pub proof fn lemma_code_unit_round_trip(c: CursorView, unit: CodeUnitView)
    requires
        spec_holds(c, spec_code_unit_bytes(unit)),
        unit.code.len() <= BYTECODE_COUNT_MAX,
        spec_code_in_version(unit.code, c.version),
    ensures
        spec_load_code_unit(c) == Ok::<(CodeUnitView, nat), PartialVMError>(
            (unit, spec_code_unit_bytes(unit).len()),
        ),
{
    let locals = spec_uleb128_bytes(unit.locals.0 as nat);
    let count = spec_uleb128_bytes(unit.code.len());
    let code = spec_bytecode_list_bytes(unit.code);
    lemma_holds_split(c, locals, count + code);
    lemma_bounded_uleb128_round_trip(c, unit.locals.0 as u64, SIGNATURE_INDEX_MAX);
    let c1 = c.skip(locals.len());
    lemma_holds_split(c1, count, code);
    lemma_bounded_uleb128_round_trip(c1, unit.code.len() as u64, BYTECODE_COUNT_MAX);
    let c2 = c1.skip(count.len());
    lemma_bytecode_list_round_trip(c2, unit.code);
    assert(c2 == c.skip(locals.len() + count.len()));
}

/// The bytes of a field: the index of its name and its type.
pub open spec fn spec_field_def_bytes(field: FieldDefinitionView) -> Seq<u8> {
    spec_uleb128_bytes(field.name.0 as nat) + (spec_root_token_bytes(field.signature))
}

/// Decoding the bytes of a field gives the field.
pub proof fn lemma_field_def_round_trip(c: CursorView, field: FieldDefinitionView)
    requires
        spec_holds(c, spec_field_def_bytes(field)),
        spec_encodable_root_token(c.version, field.signature),
    ensures
        spec_load_field_def(c) == Ok::<(FieldDefinitionView, nat), PartialVMError>(
            (field, spec_field_def_bytes(field).len()),
        ),
{
    let c0 = c;
    let b0 = spec_uleb128_bytes(field.name.0 as nat);
    let b1 = spec_root_token_bytes(field.signature);
    lemma_holds_split(c0, b0, b1);
    lemma_bounded_uleb128_round_trip(c0, field.name.0 as u64, IDENTIFIER_INDEX_MAX);
    let c1 = c.skip(b0.len());
    assert(c0.skip(b0.len()) == c1);
    lemma_root_token_round_trip(c1, field.signature);
}

/// The bytes of fields that stand one behind the other.
pub open spec fn spec_field_defs_list_bytes(items: Seq<FieldDefinitionView>) -> Seq<u8>
    decreases items.len(),
{
    if items.len() == 0 {
        Seq::empty()
    } else {
        spec_field_def_bytes(items[0]) + spec_field_defs_list_bytes(items.subrange(1, items.len() as int))
    }
}

/// The bytes of a list of fields: their number and then each of them.
pub open spec fn spec_field_defs_bytes(items: Seq<FieldDefinitionView>) -> Seq<u8> {
    spec_uleb128_bytes(items.len()) + spec_field_defs_list_bytes(items)
}

proof fn lemma_field_defs_list_round_trip(c: CursorView, items: Seq<FieldDefinitionView>)
    requires
        spec_holds(c, spec_field_defs_list_bytes(items)),
        forall|i: int| 0 <= i < items.len() ==> spec_encodable_root_token(c.version, (#[trigger] items[i]).signature),
    ensures
        spec_field_def_list(c, items.len()) == Ok::<(Seq<FieldDefinitionView>, nat), PartialVMError>(
            (items, spec_field_defs_list_bytes(items).len()),
        ),
    decreases items.len(),
{
    if items.len() == 0 {
        assert(items =~= Seq::<FieldDefinitionView>::empty());
    } else {
        let first = spec_field_def_bytes(items[0]);
        let tail = items.subrange(1, items.len() as int);
        lemma_holds_split(c, first, spec_field_defs_list_bytes(tail));
        lemma_field_def_round_trip(c, items[0]);
        assert forall|i: int| 0 <= i < tail.len() implies spec_encodable_root_token(c.version, (#[trigger] tail[i]).signature) by {
            assert(tail[i] == items[i + 1]);
        }
        lemma_field_defs_list_round_trip(c.skip(first.len()), tail);
        assert(seq![items[0]] + tail =~= items);
    }
}

/// Decoding the bytes of a list of fields gives the list.
pub proof fn lemma_field_defs_round_trip(c: CursorView, items: Seq<FieldDefinitionView>)
    requires
        spec_holds(c, spec_field_defs_bytes(items)),
        items.len() <= FIELD_COUNT_MAX,
        forall|i: int| 0 <= i < items.len() ==> spec_encodable_root_token(c.version, (#[trigger] items[i]).signature),
    ensures
        spec_load_field_defs(c) == Ok::<(Seq<FieldDefinitionView>, nat), PartialVMError>(
            (items, spec_field_defs_bytes(items).len()),
        ),
{
    let count = spec_uleb128_bytes(items.len());
    lemma_holds_split(c, count, spec_field_defs_list_bytes(items));
    lemma_bounded_uleb128_round_trip(c, items.len() as u64, FIELD_COUNT_MAX);
    lemma_field_defs_list_round_trip(c.skip(count.len()), items);
}

/// Whether the struct definition can be written.
pub open spec fn spec_encodable_struct_def(version: u32, def: StructDefinitionView) -> bool {
    match def.field_information {
        StructFieldInformationView::Native => true,
        StructFieldInformationView::Declared(fields) => {
            &&& fields.len() <= FIELD_COUNT_MAX
            &&& forall|i: int|
                0 <= i < fields.len() ==> spec_encodable_root_token(version, (#[trigger] fields[i]).signature)
        },
    }
}

/// The bytes of a struct definition: the index of its handle, then the flag
/// of a native struct, or the flag of a struct that declares its fields and
/// the fields.
pub open spec fn spec_struct_def_bytes(def: StructDefinitionView) -> Seq<u8> {
    spec_uleb128_bytes(def.struct_handle.0 as nat) + (match def.field_information {
        StructFieldInformationView::Native => seq![0x1u8],
        StructFieldInformationView::Declared(fields) => seq![0x2u8] + spec_field_defs_bytes(
            fields,
        ),
    })
}

/// Decoding the bytes of a struct definition gives the definition.
pub proof fn lemma_struct_def_round_trip(c: CursorView, def: StructDefinitionView)
    requires
        spec_holds(c, spec_struct_def_bytes(def)),
        spec_encodable_struct_def(c.version, def),
    ensures
        spec_load_struct_def(c) == Ok::<(StructDefinitionView, nat), PartialVMError>(
            (def, spec_struct_def_bytes(def).len()),
        ),
{
    let handle = spec_uleb128_bytes(def.struct_handle.0 as nat);
    let c1 = c.skip(handle.len());
    match def.field_information {
        StructFieldInformationView::Native => {
            lemma_holds_split(c, handle, seq![0x1u8]);
            lemma_bounded_uleb128_round_trip(c, def.struct_handle.0 as u64, STRUCT_HANDLE_INDEX_MAX);
            lemma_holds_first(c1, seq![0x1u8]);
        },
        StructFieldInformationView::Declared(fields) => {
            let body = seq![0x2u8] + spec_field_defs_bytes(fields);
            lemma_holds_split(c, handle, body);
            lemma_bounded_uleb128_round_trip(c, def.struct_handle.0 as u64, STRUCT_HANDLE_INDEX_MAX);
            lemma_holds_first(c1, body);
            assert(body.subrange(1, body.len() as int) =~= spec_field_defs_bytes(fields));
            lemma_field_defs_round_trip(c1.skip(1), fields);
            assert(c1.skip(1) == c.skip(handle.len() + 1));
        },
    }
}

/// The bytes of a table of struct definitions: the records, one behind the other.
pub open spec fn spec_struct_def_table_bytes(items: Seq<StructDefinitionView>) -> Seq<u8>
    decreases items.len(),
{
    if items.len() == 0 {
        Seq::empty()
    } else {
        spec_struct_def_bytes(items[0]) + spec_struct_def_table_bytes(items.subrange(1, items.len() as int))
    }
}

/// Decoding the bytes of a table of struct definitions up to the end of the table gives
/// the records.
pub proof fn lemma_struct_def_table_round_trip(c: CursorView, items: Seq<StructDefinitionView>)
    requires
        spec_holds(c, spec_struct_def_table_bytes(items)),
        c.position + spec_struct_def_table_bytes(items).len() == c.bytes.len(),
        forall|i: int| 0 <= i < items.len() ==> spec_encodable_struct_def(c.version, (#[trigger] items[i])),
    ensures
        spec_load_struct_def_sequence(c) == Ok::<(Seq<StructDefinitionView>, nat), PartialVMError>(
            (items, spec_struct_def_table_bytes(items).len()),
        ),
    decreases items.len(),
{
    if items.len() == 0 {
        assert(items =~= Seq::<StructDefinitionView>::empty());
    } else {
        let first = spec_struct_def_bytes(items[0]);
        let tail = items.subrange(1, items.len() as int);
        lemma_holds_split(c, first, spec_struct_def_table_bytes(tail));
        lemma_struct_def_round_trip(c, items[0]);
        lemma_load_struct_def_advances(c);
        assert forall|i: int| 0 <= i < tail.len() implies spec_encodable_struct_def(c.version, (#[trigger] tail[i])) by {
            assert(tail[i] == items[i + 1]);
        }
        lemma_struct_def_table_round_trip(c.skip(first.len()), tail);
        assert(seq![items[0]] + tail =~= items);
    }
}

/// The bytes of the index of a struct definition.
pub open spec fn spec_struct_def_index_bytes(index: StructDefinitionIndex) -> Seq<u8> {
    spec_uleb128_bytes(index.0 as nat)
}

proof fn lemma_struct_def_index_round_trip(c: CursorView, index: StructDefinitionIndex)
    requires
        spec_holds(c, spec_struct_def_index_bytes(index)),
    ensures
        crate::indices::spec_load_struct_def_index(c) == Ok::<
            (StructDefinitionIndex, nat),
            PartialVMError,
        >((index, spec_struct_def_index_bytes(index).len())),
{
    lemma_bounded_uleb128_round_trip(c, index.0 as u64, STRUCT_DEF_INDEX_MAX);
}

/// The bytes of indices of struct definitions that stand one behind the other.
pub open spec fn spec_struct_definition_indices_list_bytes(items: Seq<StructDefinitionIndex>) -> Seq<u8>
    decreases items.len(),
{
    if items.len() == 0 {
        Seq::empty()
    } else {
        spec_struct_def_index_bytes(items[0]) + spec_struct_definition_indices_list_bytes(items.subrange(1, items.len() as int))
    }
}

/// The bytes of a list of indices of struct definitions: their number and then each of them.
pub open spec fn spec_struct_definition_indices_bytes(items: Seq<StructDefinitionIndex>) -> Seq<u8> {
    spec_uleb128_bytes(items.len()) + spec_struct_definition_indices_list_bytes(items)
}

proof fn lemma_struct_definition_indices_list_round_trip(c: CursorView, items: Seq<StructDefinitionIndex>)
    requires
        spec_holds(c, spec_struct_definition_indices_list_bytes(items)),
    ensures
        spec_struct_def_index_list(c, items.len()) == Ok::<(Seq<StructDefinitionIndex>, nat), PartialVMError>(
            (items, spec_struct_definition_indices_list_bytes(items).len()),
        ),
    decreases items.len(),
{
    if items.len() == 0 {
        assert(items =~= Seq::<StructDefinitionIndex>::empty());
    } else {
        let first = spec_struct_def_index_bytes(items[0]);
        let tail = items.subrange(1, items.len() as int);
        lemma_holds_split(c, first, spec_struct_definition_indices_list_bytes(tail));
        lemma_struct_def_index_round_trip(c, items[0]);
        lemma_struct_definition_indices_list_round_trip(c.skip(first.len()), tail);
        assert(seq![items[0]] + tail =~= items);
    }
}

/// Decoding the bytes of a list of indices of struct definitions gives the list.
pub proof fn lemma_struct_definition_indices_round_trip(c: CursorView, items: Seq<StructDefinitionIndex>)
    requires
        spec_holds(c, spec_struct_definition_indices_bytes(items)),
        items.len() <= ACQUIRES_COUNT_MAX,
    ensures
        spec_load_struct_definition_indices(c) == Ok::<(Seq<StructDefinitionIndex>, nat), PartialVMError>(
            (items, spec_struct_definition_indices_bytes(items).len()),
        ),
{
    let count = spec_uleb128_bytes(items.len());
    lemma_holds_split(c, count, spec_struct_definition_indices_list_bytes(items));
    lemma_bounded_uleb128_round_trip(c, items.len() as u64, ACQUIRES_COUNT_MAX);
    lemma_struct_definition_indices_list_round_trip(c.skip(count.len()), items);
}

/// The byte that stands for a visibility.
pub open spec fn spec_visibility_byte(visibility: Visibility) -> u8 {
    match visibility {
        Visibility::Private => 0x0,
        Visibility::Public => 0x1,
        Visibility::Friend => 0x3,
    }
}

/// The flag bytes of a function. Version 1 has one byte, which says
/// whether the function is public. Later versions have two: the first is
/// the visibility or, before version 5, for an entry function, the script
/// visibility; the second says whether the function is native and, from
/// version 5 on, whether it is an entry function.
pub open spec fn spec_function_flags_bytes(version: u32, def: FunctionDefinitionView) -> Seq<u8> {
    if version == VERSION_1 {
        seq![
            if def.visibility == Visibility::Public {
                FUNCTION_DEPRECATED_PUBLIC_BIT
            } else {
                0u8
            },
        ]
    } else {
        seq![
            if version < VERSION_5 && def.is_entry {
                VISIBILITY_DEPRECATED_SCRIPT
            } else {
                spec_visibility_byte(def.visibility)
            },
            ((if version >= VERSION_5 && def.is_entry {
                2int
            } else {
                0int
            }) + (if def.code is None {
                1int
            } else {
                0int
            })) as u8,
        ]
    }
}

/// Whether the function definition can be written in a binary of the
/// version: it acquires no more resources than the maximum, and its body
/// has no more instructions than the maximum, all of which the version
/// has. Before version 5 an entry function is public. In version 1 a
/// function is public or private, is no entry function, and has a body.
pub open spec fn spec_encodable_function_def(version: u32, def: FunctionDefinitionView) -> bool {
    &&& def.acquires_global_resources.len() <= ACQUIRES_COUNT_MAX
    &&& def.code matches Some(unit) ==> unit.code.len() <= BYTECODE_COUNT_MAX
        && spec_code_in_version(unit.code, version)
    &&& version < VERSION_5 && def.is_entry ==> def.visibility == Visibility::Public
    &&& version == VERSION_1 ==> !def.is_entry && def.code is Some && def.visibility
        != Visibility::Friend
}

/// The bytes of a function definition: the index of its handle, its flag
/// bytes, the struct definitions whose resources it acquires, and its body
/// unless it is native.
pub open spec fn spec_function_def_bytes(version: u32, def: FunctionDefinitionView) -> Seq<u8> {
    spec_uleb128_bytes(def.function.0 as nat) + (spec_function_flags_bytes(version, def) + (
    spec_struct_definition_indices_bytes(def.acquires_global_resources) + (match def.code {
        Some(unit) => spec_code_unit_bytes(unit),
        None => Seq::empty(),
    })))
}

/// The flags that are left of the flag bytes once the visibility and the
/// entry flag have been taken off.
pub open spec fn spec_flags_of(def: FunctionDefinitionView) -> FunctionFlags {
    FunctionFlags {
        visibility: def.visibility,
        is_entry: def.is_entry,
        extra_flags: (if def.code is None {
            1u8
        } else {
            0u8
        }),
    }
}

proof fn lemma_function_flags_round_trip(c: CursorView, def: FunctionDefinitionView)
    requires
        spec_holds(c, spec_function_flags_bytes(c.version, def)),
        spec_encodable_function_def(c.version, def),
        c.version >= VERSION_1,
    ensures
        spec_load_function_flags(c) == Ok::<(FunctionFlags, nat), PartialVMError>(
            (spec_flags_of(def), spec_function_flags_bytes(c.version, def).len()),
        ),
{
    reveal(spec_load_function_flags);
    let flags = spec_function_flags_bytes(c.version, def);
    lemma_holds_first(c, flags);
    if c.version != VERSION_1 {
        lemma_holds_first(c.skip(1), flags.subrange(1, 2));
        assert(flags.subrange(1, 2)[0] == flags[1]);
    }
}

proof fn lemma_function_body_round_trip(c: CursorView, def: FunctionDefinitionView)
    requires
        spec_holds(
            c,
            match def.code {
                Some(unit) => spec_code_unit_bytes(unit),
                None => Seq::empty(),
            },
        ),
        spec_encodable_function_def(c.version, def),
        c.version >= VERSION_1,
    ensures
        spec_load_function_body(c, spec_flags_of(def).extra_flags) == Ok::<
            (Option<CodeUnitView>, nat),
            PartialVMError,
        >(
            (
                def.code,
                match def.code {
                    Some(unit) => spec_code_unit_bytes(unit).len(),
                    None => 0,
                },
            ),
        ),
        crate::definitions::spec_clear_bit(
            spec_flags_of(def).extra_flags,
            crate::file_format::FUNCTION_NATIVE,
        ) == 0,
{
    match def.code {
        Some(unit) => {
            lemma_code_unit_round_trip(c, unit);
        },
        None => {},
    }
}

/// Decoding the bytes of a function definition gives the definition.
#[verifier::rlimit(40)]
pub proof fn lemma_function_def_round_trip(c: CursorView, def: FunctionDefinitionView)
    requires
        spec_holds(c, spec_function_def_bytes(c.version, def)),
        spec_encodable_function_def(c.version, def),
        c.version >= VERSION_1,
    ensures
        spec_load_function_def(c) == Ok::<(FunctionDefinitionView, nat), PartialVMError>(
            (def, spec_function_def_bytes(c.version, def).len()),
        ),
{
    let handle = spec_uleb128_bytes(def.function.0 as nat);
    let flags = spec_function_flags_bytes(c.version, def);
    let acquires = spec_struct_definition_indices_bytes(def.acquires_global_resources);
    let body = match def.code {
        Some(unit) => spec_code_unit_bytes(unit),
        None => Seq::empty(),
    };
    lemma_holds_split(c, handle, flags + (acquires + body));
    lemma_bounded_uleb128_round_trip(c, def.function.0 as u64, FUNCTION_HANDLE_INDEX_MAX);
    let c1 = c.skip(handle.len());
    lemma_holds_split(c1, flags, acquires + body);
    lemma_function_flags_round_trip(c1, def);
    let c2 = c1.skip(flags.len());
    assert(c2 == c.skip(handle.len() + flags.len()));
    lemma_holds_split(c2, acquires, body);
    lemma_struct_definition_indices_round_trip(c2, def.acquires_global_resources);
    let c3 = c2.skip(acquires.len());
    assert(c3 == c.skip(handle.len() + flags.len() + acquires.len()));
    lemma_function_body_round_trip(c3, def);
}

/// The bytes of a table of function definitions: the records, one behind the other.
pub open spec fn spec_function_def_table_bytes(version: u32, items: Seq<FunctionDefinitionView>) -> Seq<u8>
    decreases items.len(),
{
    if items.len() == 0 {
        Seq::empty()
    } else {
        spec_function_def_bytes(version, items[0]) + spec_function_def_table_bytes(version, items.subrange(1, items.len() as int))
    }
}

/// Decoding the bytes of a table of function definitions up to the end of the table gives
/// the records.
pub proof fn lemma_function_def_table_round_trip(c: CursorView, items: Seq<FunctionDefinitionView>)
    requires
        spec_holds(c, spec_function_def_table_bytes(c.version, items)),
        c.position + spec_function_def_table_bytes(c.version, items).len() == c.bytes.len(),
        forall|i: int| 0 <= i < items.len() ==> spec_encodable_function_def(c.version, (#[trigger] items[i])),
        c.version >= VERSION_1,
    ensures
        spec_load_function_def_sequence(c) == Ok::<(Seq<FunctionDefinitionView>, nat), PartialVMError>(
            (items, spec_function_def_table_bytes(c.version, items).len()),
        ),
    decreases items.len(),
{
    if items.len() == 0 {
        assert(items =~= Seq::<FunctionDefinitionView>::empty());
    } else {
        let first = spec_function_def_bytes(c.version, items[0]);
        let tail = items.subrange(1, items.len() as int);
        lemma_holds_split(c, first, spec_function_def_table_bytes(c.version, tail));
        lemma_function_def_round_trip(c, items[0]);
        lemma_load_function_def_advances(c);
        assert forall|i: int| 0 <= i < tail.len() implies spec_encodable_function_def(c.version, (#[trigger] tail[i])) by {
            assert(tail[i] == items[i + 1]);
        }
        lemma_function_def_table_round_trip(c.skip(first.len()), tail);
        assert(seq![items[0]] + tail =~= items);
    }
}

} // verus!
