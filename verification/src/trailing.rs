//! Bytes behind what a decoder reads do not change what it decodes: the law
//! that a binary that decodes still decodes, to the same module or script,
//! with any bytes appended behind its trailer.

use vstd::prelude::*;
use crate::abilities::{
    spec_ability_set_list, spec_load_ability_set, spec_load_ability_sets, AbilitySetPosition,
};
use crate::code::{spec_bytecode_list, spec_load_bytecode, spec_load_code_unit, spec_operands};
use crate::cursor::{
    has_magic, spec_header, spec_read_exact, spec_read_u8, spec_uleb128_from, CursorView,
};
use crate::deserializer::{
    spec_deserialize_compiled_module, spec_deserialize_compiled_script, spec_read_directory,
};
use crate::file_format_common::{Opcodes, Table};
use crate::indices::{spec_load_bytecode_count, spec_load_signature_index, spec_load_table_count};
use crate::laws::{
    lemma_check_tables_decides_layout, lemma_directory_in_bounds, lemma_read_tables_in_bounds,
};
use crate::primitives::{
    lemma_read_uleb, spec_read_le, spec_read_u128, spec_read_u16, spec_read_u256, spec_read_u32,
    spec_read_u64, spec_read_uleb,
};
use crate::tables::{spec_check_tables, spec_read_table, spec_read_tables, spec_sort_by_offset};

verus! {

/// The reader `c` over its bytes with `extra` appended.
pub open spec fn spec_extended(c: CursorView, extra: Seq<u8>) -> CursorView {
    CursorView { bytes: c.bytes + extra, version: c.version, position: c.position }
}

proof fn lemma_read_u8_extends(c: CursorView, extra: Seq<u8>)
    ensures
        spec_read_u8(c) is Some ==> spec_read_u8(spec_extended(c, extra)) == spec_read_u8(c),
{
}

proof fn lemma_read_exact_extends(c: CursorView, extra: Seq<u8>, n: nat)
    ensures
        spec_read_exact(c, n) is Some ==> spec_read_exact(spec_extended(c, extra), n)
            == spec_read_exact(c, n),
{
    if spec_read_exact(c, n) is Some {
        assert((c.bytes + extra).subrange(c.position, c.position + n) =~= c.bytes.subrange(
            c.position,
            c.position + n,
        ));
    }
}

proof fn lemma_uleb128_from_extends(c: CursorView, extra: Seq<u8>, i: nat, acc: nat)
    ensures
        spec_uleb128_from(c, i, acc) is Some ==> spec_uleb128_from(
            spec_extended(c, extra),
            i,
            acc,
        ) == spec_uleb128_from(c, i, acc),
    decreases 10 - i,
{
    if i < 10 {
        lemma_read_u8_extends(c.skip(i), extra);
        assert(spec_extended(c, extra).skip(i) == spec_extended(c.skip(i), extra));
        match spec_read_u8(c.skip(i)) {
            None => {},
            Some(byte) => {
                let value = acc + ((byte % 128) as nat) * crate::cursor::pow128(i);
                if value <= u64::MAX && byte >= 128 {
                    lemma_uleb128_from_extends(c, extra, i + 1, value);
                }
            },
        }
    }
}

/// A bounded integer that decodes is not changed by bytes appended.
pub proof fn lemma_read_uleb_extends(c: CursorView, extra: Seq<u8>, max: u64)
    ensures
        spec_read_uleb(c, max) is Ok ==> spec_read_uleb(spec_extended(c, extra), max)
            == spec_read_uleb(c, max),
{
    lemma_uleb128_from_extends(c, extra, 0, 0);
}

proof fn lemma_read_table_extends(c: CursorView, extra: Seq<u8>)
    ensures
        spec_read_table(c) is Ok ==> spec_read_table(spec_extended(c, extra)) == spec_read_table(
            c,
        ),
{
    lemma_read_u8_extends(c, extra);
    lemma_read_uleb_extends(c.skip(1), extra, crate::constants::TABLE_OFFSET_MAX);
    assert(spec_extended(c, extra).skip(1) == spec_extended(c.skip(1), extra));
    match crate::indices::spec_load_table_offset(c.skip(1)) {
        Err(e) => {},
        Ok((offset, n)) => {
            lemma_read_uleb_extends(c.skip(1 + n), extra, crate::constants::TABLE_SIZE_MAX);
            assert(spec_extended(c, extra).skip(1 + n) == spec_extended(c.skip(1 + n), extra));
        },
    }
}

proof fn lemma_read_tables_extends(c: CursorView, extra: Seq<u8>, count: nat)
    ensures
        spec_read_tables(c, count) is Ok ==> spec_read_tables(spec_extended(c, extra), count)
            == spec_read_tables(c, count),
    decreases count,
{
    if count > 0 {
        lemma_read_table_extends(c, extra);
        match spec_read_table(c) {
            Err(e) => {},
            Ok((table, n)) => {
                lemma_read_tables_extends(c.skip(n), extra, (count - 1) as nat);
                assert(spec_extended(c, extra).skip(n) == spec_extended(c.skip(n), extra));
            },
        }
    }
}

/// Tables that pass the check against a number of bytes pass it against a
/// greater number, with the same result.
pub proof fn lemma_check_tables_extends(tables: Seq<Table>, len: int, more: int)
    requires
        0 <= len <= more,
    ensures
        spec_check_tables(tables, len) is Ok ==> spec_check_tables(tables, more)
            == spec_check_tables(tables, len),
{
    lemma_check_tables_decides_layout(tables, len);
    lemma_check_tables_decides_layout(tables, more);
}

/// A binary that can be read up to its trailer can be read as far with
/// bytes appended: the directory and the table contents are the same, and
/// the trailer starts at the same position.
pub proof fn lemma_read_directory_extends(bytes: Seq<u8>, extra: Seq<u8>, max_version: u32)
    ensures
        spec_read_directory(bytes, max_version) matches Ok(d) ==> spec_read_directory(
            bytes + extra,
            max_version,
        ) matches Ok(e) && e.version == d.version && e.tables == d.tables && e.contents
            == d.contents && e.trailer == spec_extended(d.trailer, extra),
{
    let long = bytes + extra;
    lemma_directory_in_bounds(bytes, max_version);
    match spec_header(bytes, max_version) {
        Err(e) => {},
        Ok((version, n0)) => {
            let h = CursorView::start(bytes, 0).skip(4);
            lemma_uleb128_from_extends(h, extra, 0, 0);
            assert(CursorView::start(long, 0).skip(4) == spec_extended(h, extra));
            assert(has_magic(long));
            crate::cursor::lemma_uleb128_length(h, 0, 0);
            let c = CursorView::start(bytes, version).skip(n0);
            let cl = CursorView::start(long, version).skip(n0);
            assert(cl == spec_extended(c, extra));
            lemma_read_uleb_extends(c, extra, crate::constants::TABLE_COUNT_MAX);
            lemma_read_uleb(c, crate::constants::TABLE_COUNT_MAX);
            match spec_load_table_count(c) {
                Err(e) => {},
                Ok((count, n1)) => {
                    lemma_read_tables_extends(c.skip(n1), extra, count as nat);
                    lemma_read_tables_in_bounds(c.skip(n1), count as nat);
                    assert(cl.skip(n1) == spec_extended(c.skip(n1), extra));
                    match spec_read_tables(c.skip(n1), count as nat) {
                        Err(e) => {},
                        Ok((tables, n2)) => {
                            let at = c.skip(n1 + n2);
                            lemma_check_tables_extends(
                                tables,
                                at.remaining(),
                                cl.skip(n1 + n2).remaining(),
                            );
                            match spec_check_tables(tables, at.remaining()) {
                                Err(e) => {},
                                Ok(content_len) => {
                                    lemma_check_tables_decides_layout(tables, at.remaining());
                                    crate::deserializer::lemma_checked_tables_in_bounds(
                                        spec_sort_by_offset(tables),
                                        0,
                                        0,
                                        at.remaining(),
                                    );
                                    assert(long.subrange(
                                        at.position,
                                        at.position + content_len,
                                    ) =~= bytes.subrange(at.position, at.position + content_len));
                                },
                            }
                        },
                    }
                },
            }
        },
    }
}

/// Bytes behind the trailer of a module are not looked at: a binary that
/// decodes as a module decodes as the same module with bytes appended.
pub proof fn lemma_module_ignores_bytes_behind_trailer(
    bytes: Seq<u8>,
    extra: Seq<u8>,
    max_version: u32,
)
    requires
        spec_deserialize_compiled_module(bytes, max_version) is Ok,
    ensures
        spec_deserialize_compiled_module(bytes + extra, max_version)
            == spec_deserialize_compiled_module(bytes, max_version),
{
    lemma_read_directory_extends(bytes, extra, max_version);
    let d = spec_read_directory(bytes, max_version)->Ok_0;
    lemma_read_uleb_extends(d.trailer, extra, crate::constants::MODULE_HANDLE_INDEX_MAX);
}

proof fn lemma_ability_set_extends(c: CursorView, extra: Seq<u8>, pos: AbilitySetPosition)
    ensures
        spec_load_ability_set(c, pos) is Ok ==> spec_load_ability_set(
            spec_extended(c, extra),
            pos,
        ) == spec_load_ability_set(c, pos),
{
    lemma_read_u8_extends(c, extra);
    lemma_read_uleb_extends(c, extra, crate::file_format::ABILITY_SET_ALL as u64);
}

proof fn lemma_ability_set_list_extends(
    c: CursorView,
    extra: Seq<u8>,
    pos: AbilitySetPosition,
    count: nat,
)
    ensures
        spec_ability_set_list(c, pos, count) is Ok ==> spec_ability_set_list(
            spec_extended(c, extra),
            pos,
            count,
        ) == spec_ability_set_list(c, pos, count),
    decreases count,
{
    if count > 0 {
        lemma_ability_set_extends(c, extra, pos);
        match spec_load_ability_set(c, pos) {
            Err(e) => {},
            Ok((x, n)) => {
                lemma_ability_set_list_extends(c.skip(n), extra, pos, (count - 1) as nat);
                assert(spec_extended(c, extra).skip(n) == spec_extended(c.skip(n), extra));
            },
        }
    }
}

proof fn lemma_ability_sets_extends(c: CursorView, extra: Seq<u8>, pos: AbilitySetPosition)
    ensures
        spec_load_ability_sets(c, pos) is Ok ==> spec_load_ability_sets(
            spec_extended(c, extra),
            pos,
        ) == spec_load_ability_sets(c, pos),
{
    lemma_read_uleb_extends(c, extra, crate::constants::TYPE_PARAMETER_COUNT_MAX);
    match crate::indices::spec_load_type_parameter_count(c) {
        Err(e) => {},
        Ok((len, n)) => {
            lemma_ability_set_list_extends(c.skip(n), extra, pos, len as nat);
            assert(spec_extended(c, extra).skip(n) == spec_extended(c.skip(n), extra));
        },
    }
}

/// Little-endian integers that decode are not changed by bytes appended.
proof fn lemma_fixed_width_extends(c: CursorView, extra: Seq<u8>)
    ensures
        spec_read_u16(c) is Ok ==> spec_read_u16(spec_extended(c, extra)) == spec_read_u16(c),
        spec_read_u32(c) is Ok ==> spec_read_u32(spec_extended(c, extra)) == spec_read_u32(c),
        spec_read_u64(c) is Ok ==> spec_read_u64(spec_extended(c, extra)) == spec_read_u64(c),
        spec_read_u128(c) is Ok ==> spec_read_u128(spec_extended(c, extra)) == spec_read_u128(c),
        spec_read_u256(c) is Ok ==> spec_read_u256(spec_extended(c, extra)) == spec_read_u256(c),
{
    reveal(spec_read_le);
    reveal(spec_read_u256);
    lemma_read_exact_extends(c, extra, 2);
    lemma_read_exact_extends(c, extra, 4);
    lemma_read_exact_extends(c, extra, 8);
    lemma_read_exact_extends(c, extra, 16);
    lemma_read_exact_extends(c, extra, 32);
}

#[verifier::rlimit(40)]
proof fn lemma_operands_extends(c: CursorView, extra: Seq<u8>, opcode: Opcodes)
    ensures
        spec_operands(c, opcode) is Ok ==> spec_operands(spec_extended(c, extra), opcode)
            == spec_operands(c, opcode),
{
    reveal(spec_operands);
    lemma_read_u8_extends(c, extra);
    lemma_uleb128_from_extends(c, extra, 0, 0);
    lemma_fixed_width_extends(c, extra);
    match spec_load_signature_index(c) {
        Err(e) => {},
        Ok((idx, n)) => {
            lemma_fixed_width_extends(c.skip(n), extra);
            assert(spec_extended(c, extra).skip(n) == spec_extended(c.skip(n), extra));
        },
    }
}

proof fn lemma_bytecode_extends(c: CursorView, extra: Seq<u8>)
    ensures
        spec_load_bytecode(c) is Ok ==> spec_load_bytecode(spec_extended(c, extra))
            == spec_load_bytecode(c),
{
    reveal(spec_load_bytecode);
    lemma_read_u8_extends(c, extra);
    assert(spec_extended(c, extra).skip(1) == spec_extended(c.skip(1), extra));
    match spec_read_u8(c) {
        None => {},
        Some(byte) => match Opcodes::spec_from_u8(byte) {
            Err(e) => {},
            Ok(opcode) => {
                lemma_operands_extends(c.skip(1), extra, opcode);
            },
        },
    }
}

proof fn lemma_bytecode_list_extends(c: CursorView, extra: Seq<u8>, count: nat)
    ensures
        spec_bytecode_list(c, count) is Ok ==> spec_bytecode_list(spec_extended(c, extra), count)
            == spec_bytecode_list(c, count),
    decreases count,
{
    if count > 0 {
        lemma_bytecode_extends(c, extra);
        match spec_load_bytecode(c) {
            Err(e) => {},
            Ok((x, n)) => {
                lemma_bytecode_list_extends(c.skip(n), extra, (count - 1) as nat);
                assert(spec_extended(c, extra).skip(n) == spec_extended(c.skip(n), extra));
            },
        }
    }
}

/// A code unit that decodes is not changed by bytes appended.
pub proof fn lemma_code_unit_extends(c: CursorView, extra: Seq<u8>)
    ensures
        spec_load_code_unit(c) is Ok ==> spec_load_code_unit(spec_extended(c, extra))
            == spec_load_code_unit(c),
{
    lemma_read_uleb_extends(c, extra, crate::constants::SIGNATURE_INDEX_MAX);
    match spec_load_signature_index(c) {
        Err(e) => {},
        Ok((locals, n)) => {
            let c1 = c.skip(n);
            assert(spec_extended(c, extra).skip(n) == spec_extended(c1, extra));
            lemma_read_uleb_extends(c1, extra, crate::constants::BYTECODE_COUNT_MAX);
            match spec_load_bytecode_count(c1) {
                Err(e) => {},
                Ok((count, m)) => {
                    lemma_bytecode_list_extends(c1.skip(m), extra, count as nat);
                    assert(spec_extended(c1, extra).skip(m) == spec_extended(c1.skip(m), extra));
                },
            }
        },
    }
}

/// Bytes behind the trailer of a script are not looked at: a binary that
/// decodes as a script decodes as the same script with bytes appended.
pub proof fn lemma_script_ignores_bytes_behind_trailer(
    bytes: Seq<u8>,
    extra: Seq<u8>,
    max_version: u32,
)
    requires
        spec_deserialize_compiled_script(bytes, max_version) is Ok,
    ensures
        spec_deserialize_compiled_script(bytes + extra, max_version)
            == spec_deserialize_compiled_script(bytes, max_version),
{
    lemma_read_directory_extends(bytes, extra, max_version);
    let d = spec_read_directory(bytes, max_version)->Ok_0;
    let pos = AbilitySetPosition::FunctionTypeParameters;
    lemma_ability_sets_extends(d.trailer, extra, pos);
    match spec_load_ability_sets(d.trailer, pos) {
        Err(e) => {},
        Ok((type_parameters, n)) => {
            let t1 = d.trailer.skip(n);
            assert(spec_extended(d.trailer, extra).skip(n) == spec_extended(t1, extra));
            lemma_read_uleb_extends(t1, extra, crate::constants::SIGNATURE_INDEX_MAX);
            match spec_load_signature_index(t1) {
                Err(e) => {},
                Ok((parameters, m)) => {
                    lemma_code_unit_extends(d.trailer.skip(n + m), extra);
                    assert(spec_extended(d.trailer, extra).skip(n + m) == spec_extended(
                        d.trailer.skip(n + m),
                        extra,
                    ));
                },
            }
        },
    }
}

} // verus!
