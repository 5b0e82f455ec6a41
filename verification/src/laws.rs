//! What holds of every binary: laws that follow from the description of the
//! format and are proved from it.

use vstd::prelude::*;
use crate::code::{spec_load_bytecode, spec_operands};
use crate::constants::{SIGNATURE_TOKEN_DEPTH_MAX, VERSION_2, VERSION_4, VERSION_5, VERSION_6};
use crate::cursor::{spec_read_u8, CursorView};
use crate::deserializer::{
    spec_build_common_tables_from, spec_build_script_tables_from, spec_common_table,
    spec_deserialize_compiled_module, spec_deserialize_compiled_script, spec_is_module_table,
    spec_read_directory, yields,
};
use crate::errors::{malformed, Message, PartialVMError, StatusCode};
use crate::file_format::{CommonTablesView, CompiledModule, CompiledScript, SignatureTokenView};
use crate::file_format_common::{Opcodes, Table, TableType};
use crate::signatures::{
    shift, spec_load_signature_token, spec_token_at, spec_token_head, spec_type_arguments,
    TypeBuilderView,
};
use crate::tables::{
    spec_check_tables, spec_check_tables_from, spec_kind_repeated, spec_sort_by_offset,
};

verus! {

/// Whether the tables of a directory in the order of its offsets lie one
/// behind the other from offset 0, none of them empty and none of a kind
/// that another has, and end within `binary_len` bytes and within 32 bits.
pub open spec fn spec_layout_is_valid(sorted: Seq<Table>, binary_len: int) -> bool {
    &&& forall|i: int|
        0 <= i < sorted.len() ==> (#[trigger] sorted[i]).offset == spec_end_of_tables(sorted, i)
    &&& forall|i: int| 0 <= i < sorted.len() ==> (#[trigger] sorted[i]).count > 0
    &&& forall|i: int, j: int|
        0 <= i < j < sorted.len() ==> (#[trigger] sorted[i]).kind != (#[trigger] sorted[j]).kind
    &&& spec_end_of_tables(sorted, sorted.len() as int) <= binary_len
    &&& spec_end_of_tables(sorted, sorted.len() as int) <= u32::MAX
}

/// The sum of the lengths of the first `i` tables.
pub open spec fn spec_end_of_tables(tables: Seq<Table>, i: int) -> int
    decreases i,
{
    if i <= 0 || i > tables.len() {
        0
    } else {
        spec_end_of_tables(tables, i - 1) + tables[i - 1].count
    }
}

proof fn lemma_end_of_tables_grows(tables: Seq<Table>, i: int, j: int)
    requires
        0 <= i <= j <= tables.len(),
    ensures
        spec_end_of_tables(tables, i) <= spec_end_of_tables(tables, j),
    decreases j - i,
{
    if i < j {
        lemma_end_of_tables_grows(tables, i, j - 1);
    }
}

proof fn lemma_check_tables_from(tables: Seq<Table>, i: int, current_offset: u32, binary_len: int)
    requires
        0 <= i <= tables.len(),
        current_offset == spec_end_of_tables(tables, i),
        forall|k: int| 0 <= k < i ==> (#[trigger] tables[k]).offset == spec_end_of_tables(tables, k),
        forall|k: int| 0 <= k < i ==> (#[trigger] tables[k]).count > 0,
        forall|k: int, j: int|
            0 <= k < j < i ==> (#[trigger] tables[k]).kind != (#[trigger] tables[j]).kind,
        current_offset <= binary_len,
    ensures
        match spec_check_tables_from(tables, i, current_offset, binary_len) {
            Ok(total) => spec_layout_is_valid(tables, binary_len) && total == spec_end_of_tables(
                tables,
                tables.len() as int,
            ),
            Err(e) => !spec_layout_is_valid(tables, binary_len) && e.message == Message::Absent
                && (e.major_status == StatusCode::BadHeaderTable || e.major_status
                == StatusCode::DuplicateTable),
        },
    decreases tables.len() - i,
{
    if i < tables.len() {
        let table = tables[i];
        let end = current_offset + table.count;
        lemma_end_of_tables_grows(tables, i + 1, tables.len() as int);
        assert(spec_end_of_tables(tables, i + 1) == end);
        if table.offset != current_offset || table.count == 0 {
        } else if end > u32::MAX || end > binary_len {
        } else if spec_kind_repeated(tables, i) {
            let j = choose|j: int| 0 <= j < i && (#[trigger] tables[j]).kind == tables[i].kind;
            assert(tables[j].kind == tables[i].kind);
        } else {
            assert forall|k: int, j: int| 0 <= k < j < i + 1 implies (#[trigger] tables[k]).kind != (
            #[trigger] tables[j]).kind by {
                if j == i {
                    assert(!(0 <= k < i && tables[k].kind == tables[i].kind));
                }
            }
            lemma_check_tables_from(tables, i + 1, end as u32, binary_len);
        }
    }
}

/// The check of a table directory passes exactly where the layout of its
/// tables is valid, and then returns the sum of their lengths. Where the
/// layout is not valid the error is `BadHeaderTable` or `DuplicateTable`.
pub proof fn lemma_check_tables_decides_layout(tables: Seq<Table>, binary_len: int)
    requires
        0 <= binary_len,
    ensures
        match spec_check_tables(tables, binary_len) {
            Ok(total) => spec_layout_is_valid(spec_sort_by_offset(tables), binary_len) && total
                == spec_end_of_tables(
                spec_sort_by_offset(tables),
                spec_sort_by_offset(tables).len() as int,
            ),
            Err(e) => !spec_layout_is_valid(spec_sort_by_offset(tables), binary_len) && e.message
                == Message::Absent && (e.major_status == StatusCode::BadHeaderTable
                || e.major_status == StatusCode::DuplicateTable),
        },
{
    lemma_check_tables_from(spec_sort_by_offset(tables), 0, 0, binary_len);
}

/// In a valid layout the offsets grow strictly and no two tables share a
/// byte.
pub proof fn lemma_valid_layout_is_disjoint(sorted: Seq<Table>, binary_len: int, i: int, j: int)
    requires
        spec_layout_is_valid(sorted, binary_len),
        0 <= i < j < sorted.len(),
    ensures
        sorted[i].offset < sorted[j].offset,
        sorted[i].offset + sorted[i].count <= sorted[j].offset,
        sorted[j].offset + sorted[j].count <= binary_len,
{
    lemma_end_of_tables_grows(sorted, i + 1, j);
    lemma_end_of_tables_grows(sorted, j + 1, sorted.len() as int);
}

/// Whether the offsets never fall from one entry to the next.
pub open spec fn spec_is_sorted_by_offset(tables: Seq<Table>) -> bool {
    forall|i: int, j: int|
        0 <= i < j < tables.len() ==> (#[trigger] tables[i]).offset <= (#[trigger] tables[j]).offset
}

/// Where an entry is put into a sorted directory: behind the entries whose
/// offset is not greater than its own, before the others.
proof fn lemma_insert_by_offset(sorted: Seq<Table>, table: Table) -> (pos: int)
    requires
        spec_is_sorted_by_offset(sorted),
    ensures
        0 <= pos <= sorted.len(),
        crate::tables::spec_insert_by_offset(sorted, table) == sorted.insert(pos, table),
        forall|k: int| 0 <= k < pos ==> (#[trigger] sorted[k]).offset <= table.offset,
        forall|k: int| pos <= k < sorted.len() ==> (#[trigger] sorted[k]).offset > table.offset,
    decreases sorted.len(),
{
    if sorted.len() == 0 {
        assert(seq![table] =~= sorted.insert(0, table));
        0
    } else if sorted.last().offset <= table.offset {
        assert(sorted.push(table) =~= sorted.insert(sorted.len() as int, table));
        sorted.len() as int
    } else {
        let front = sorted.drop_last();
        assert forall|i: int, j: int| 0 <= i < j < front.len() implies (#[trigger] front[i]).offset
            <= (#[trigger] front[j]).offset by {
            assert(front[i] == sorted[i] && front[j] == sorted[j]);
        }
        let pos = lemma_insert_by_offset(front, table);
        assert(front.insert(pos, table).push(sorted.last()) =~= sorted.insert(pos, table));
        assert forall|k: int| 0 <= k < pos implies (#[trigger] sorted[k]).offset
            <= table.offset by {
            assert(front[k] == sorted[k]);
        }
        assert forall|k: int| pos <= k < sorted.len() implies (#[trigger] sorted[k]).offset
            > table.offset by {
            if k < front.len() {
                assert(front[k] == sorted[k]);
            }
        }
        pos
    }
}

/// Sorting a directory by offset gives the same entries in an order in
/// which the offsets never fall.
pub proof fn lemma_sort_by_offset_sorts(tables: Seq<Table>)
    ensures
        spec_is_sorted_by_offset(spec_sort_by_offset(tables)),
        spec_sort_by_offset(tables).to_multiset() == tables.to_multiset(),
        spec_sort_by_offset(tables).len() == tables.len(),
    decreases tables.len(),
{
    broadcast use vstd::seq_lib::to_multiset_build, vstd::seq_lib::to_multiset_insert;

    if tables.len() == 0 {
        assert(tables =~= Seq::<Table>::empty());
    } else {
        let front = tables.drop_last();
        lemma_sort_by_offset_sorts(front);
        let sorted = spec_sort_by_offset(front);
        let pos = lemma_insert_by_offset(sorted, tables.last());
        let result = sorted.insert(pos, tables.last());
        assert(tables =~= front.push(tables.last()));
        assert forall|i: int, j: int| 0 <= i < j < result.len() implies (#[trigger] result[i]).offset
            <= (#[trigger] result[j]).offset by {
            if i < pos && j > pos {
                assert(result[i] == sorted[i] && result[j] == sorted[j - 1]);
            } else if i < pos && j < pos {
                assert(result[i] == sorted[i] && result[j] == sorted[j]);
            } else if i > pos {
                assert(result[i] == sorted[i - 1] && result[j] == sorted[j - 1]);
            } else if i == pos {
                assert(result[j] == sorted[j - 1]);
            } else {
                assert(result[i] == sorted[i]);
            }
        }
    }
}

proof fn lemma_max_depth_bound(tokens: Seq<SignatureTokenView>, bound: nat)
    requires
        forall|i: int| 0 <= i < tokens.len() ==> (#[trigger] tokens[i]).depth() <= bound,
    ensures
        SignatureTokenView::max_depth(tokens) <= bound,
    decreases tokens.len(),
{
    if tokens.len() > 0 {
        let front = tokens.drop_last();
        assert forall|i: int| 0 <= i < front.len() implies (#[trigger] front[i]).depth()
            <= bound by {
            assert(front[i] == tokens[i]);
        }
        lemma_max_depth_bound(front, bound);
        assert(tokens.last() == tokens[tokens.len() - 1]);
    }
}

/// A token that decodes at a level of a tree has none of its tokens at a
/// level beyond the maximum and one, and each generic struct in it has a
/// type argument.
pub proof fn lemma_decoded_token_depth(c: CursorView, level: nat)
    requires
        level >= 1,
    ensures
        spec_token_at(c, level) matches Ok((token, _)) ==> level + token.depth()
            <= SIGNATURE_TOKEN_DEPTH_MAX + 1 && token.well_formed(),
    decreases SIGNATURE_TOKEN_DEPTH_MAX + 2 - level, 0nat,
{
    if level <= SIGNATURE_TOKEN_DEPTH_MAX + 1 {
        match spec_token_head(c) {
            Err(e) => {},
            Ok((head, n)) => match head {
                TypeBuilderView::Saturated(token) => {},
                TypeBuilderView::StructInst { sh_idx, arity, ty_args } => {
                    assert(arity > 0 && ty_args.len() == 0);
                    lemma_decoded_arguments_depth(c.skip(n), level + 1, arity, ty_args);
                    match spec_type_arguments(c.skip(n), level + 1, arity, ty_args) {
                        Err(e) => {},
                        Ok((args, _)) => {
                            assert(level + 1 + args[0].depth() <= SIGNATURE_TOKEN_DEPTH_MAX + 1);
                            lemma_max_depth_bound(args, (SIGNATURE_TOKEN_DEPTH_MAX - level) as nat);
                        },
                    }
                },
                _ => {
                    lemma_decoded_token_depth(c.skip(n), level + 1);
                },
            },
        }
    }
}

/// The type arguments that decode at a level of a tree have none of their
/// tokens at a level beyond the maximum and one, and there are as many as
/// the arity says.
pub proof fn lemma_decoded_arguments_depth(
    c: CursorView,
    level: nat,
    arity: nat,
    ty_args: Seq<SignatureTokenView>,
)
    requires
        level >= 1,
        forall|i: int|
            0 <= i < ty_args.len() ==> level + (#[trigger] ty_args[i]).depth()
                <= SIGNATURE_TOKEN_DEPTH_MAX + 1 && ty_args[i].well_formed(),
    ensures
        spec_type_arguments(c, level, arity, ty_args) matches Ok((args, _)) ==> args.len() >= arity
            && forall|i: int|
            0 <= i < args.len() ==> level + (#[trigger] args[i]).depth()
                <= SIGNATURE_TOKEN_DEPTH_MAX + 1 && args[i].well_formed(),
    decreases SIGNATURE_TOKEN_DEPTH_MAX + 2 - level, arity - ty_args.len() + 1,
{
    if ty_args.len() < arity {
        lemma_decoded_token_depth(c, level);
        match spec_token_at(c, level) {
            Err(e) => {},
            Ok((t, n)) => {
                let more = ty_args.push(t);
                assert forall|i: int| 0 <= i < more.len() implies level + (#[trigger] more[i]).depth()
                    <= SIGNATURE_TOKEN_DEPTH_MAX + 1 && more[i].well_formed() by {
                    if i < ty_args.len() {
                        assert(more[i] == ty_args[i]);
                    }
                }
                lemma_decoded_arguments_depth(c.skip(n), level, arity, more);
            },
        }
    }
}

/// A signature token that decodes has a nesting depth of at most the
/// maximum: one of a greater nesting depth is rejected.
pub proof fn lemma_depth_guard(c: CursorView)
    ensures
        spec_load_signature_token(c) matches Ok((token, _)) ==> token.depth()
            <= SIGNATURE_TOKEN_DEPTH_MAX && token.well_formed(),
{
    lemma_decoded_token_depth(c, 1);
}

/// The bytes of `vectors` vectors, one in the other, around an 8 bit
/// integer.
pub open spec fn spec_nested_vector_bytes(vectors: nat) -> Seq<u8> {
    Seq::new(vectors, |i: int| 0x0Au8).push(0x02u8)
}

/// The token of `vectors` vectors, one in the other, around an 8 bit
/// integer.
pub open spec fn spec_nested_vector_token(vectors: nat) -> SignatureTokenView
    decreases vectors,
{
    if vectors == 0 {
        SignatureTokenView::U8
    } else {
        SignatureTokenView::Vector(Box::new(spec_nested_vector_token((vectors - 1) as nat)))
    }
}

proof fn lemma_nested_vectors_from(c: CursorView, vectors: nat, level: nat)
    requires
        c.bytes == spec_nested_vector_bytes(vectors),
        0 <= c.position <= vectors,
        level >= 1,
    ensures
        spec_token_at(c, level) == (if level + (vectors - c.position)
            <= SIGNATURE_TOKEN_DEPTH_MAX + 1 {
            Ok::<(SignatureTokenView, nat), PartialVMError>(
                (
                    spec_nested_vector_token((vectors - c.position) as nat),
                    (vectors - c.position + 1) as nat,
                ),
            )
        } else {
            Err::<(SignatureTokenView, nat), PartialVMError>(
                malformed(Message::MaximumRecursionDepthReached),
            )
        }),
        spec_nested_vector_token((vectors - c.position) as nat).depth() == vectors - c.position,
    decreases vectors - c.position,
{
    if c.position < vectors {
        assert(c.bytes[c.position] == 0x0Au8);
        assert(spec_token_head(c) == Ok::<(TypeBuilderView, nat), PartialVMError>(
            (TypeBuilderView::Vector, 1),
        ));
        lemma_nested_vectors_from(c.skip(1), vectors, level + 1);
    } else {
        assert(c.bytes[c.position] == 0x02u8);
        assert(spec_token_head(c) == Ok::<(TypeBuilderView, nat), PartialVMError>(
            (TypeBuilderView::Saturated(SignatureTokenView::U8), 1),
        ));
    }
}

/// The depth guard is exact: an 8 bit integer inside `vectors` vectors has
/// the nesting depth `vectors`; it decodes where that is at most the
/// maximum, and is rejected as too deep where it is more.
pub proof fn lemma_depth_guard_is_exact(vectors: nat, version: u32)
    ensures
        spec_nested_vector_token(vectors).depth() == vectors,
        vectors <= SIGNATURE_TOKEN_DEPTH_MAX ==> spec_load_signature_token(
            CursorView::start(spec_nested_vector_bytes(vectors), version),
        ) == Ok::<(SignatureTokenView, nat), PartialVMError>(
            (spec_nested_vector_token(vectors), vectors + 1),
        ),
        vectors > SIGNATURE_TOKEN_DEPTH_MAX ==> spec_load_signature_token(
            CursorView::start(spec_nested_vector_bytes(vectors), version),
        ) == Err::<(SignatureTokenView, nat), PartialVMError>(
            malformed(Message::MaximumRecursionDepthReached),
        ),
{
    lemma_nested_vectors_from(
        CursorView::start(spec_nested_vector_bytes(vectors), version),
        vectors,
        1,
    );
}

/// The types of 16, 32 and 256 bits exist from version 6 on: there a token
/// of one of their tags decodes, and in a binary of a lower version the same
/// byte is malformed.
pub proof fn lemma_wide_integer_types_are_gated(c: CursorView, level: nat)
    requires
        1 <= level <= SIGNATURE_TOKEN_DEPTH_MAX + 1,
        spec_read_u8(c) matches Some(byte) && 0x0D <= byte <= 0x0F,
    ensures
        c.version < VERSION_6 ==> spec_token_at(c, level) == Err::<
            (SignatureTokenView, nat),
            PartialVMError,
        >(malformed(Message::IntegerTypeNotSupported(c.version))),
        c.version >= VERSION_6 ==> spec_token_at(c, level) == Ok::<
            (SignatureTokenView, nat),
            PartialVMError,
        >(
            (
                if c.bytes[c.position] == 0x0D {
                    SignatureTokenView::U16
                } else if c.bytes[c.position] == 0x0E {
                    SignatureTokenView::U32
                } else {
                    SignatureTokenView::U256
                },
                1,
            ),
        ),
{
}

/// The instructions on vectors exist from version 4 on: there one of their
/// opcodes is followed by its operands, and in a binary of a lower version
/// the same byte is malformed.
pub proof fn lemma_vector_instructions_are_gated(c: CursorView)
    requires
        spec_read_u8(c) matches Some(byte) && 0x40 <= byte <= 0x47,
    ensures
        c.version < VERSION_4 ==> spec_load_bytecode(c) == Err::<(crate::file_format::Bytecode, nat), PartialVMError>(
            malformed(Message::VectorOperationsNotAvailable),
        ),
        c.version >= VERSION_4 ==> spec_load_bytecode(c) == shift(
            1,
            spec_operands(c.skip(1), Opcodes::spec_from_u8(c.bytes[c.position])->Ok_0),
        ),
{
    reveal(spec_load_bytecode);
}

/// The instructions on integers of 16, 32 and 256 bits exist from version 6
/// on: there one of their opcodes is followed by its operands, and in a
/// binary of a lower version the same byte is malformed.
pub proof fn lemma_wide_integer_instructions_are_gated(c: CursorView)
    requires
        spec_read_u8(c) matches Some(byte) && 0x48 <= byte <= 0x4D,
    ensures
        c.version < VERSION_6 ==> spec_load_bytecode(c) == Err::<(crate::file_format::Bytecode, nat), PartialVMError>(
            malformed(Message::IntegerOperationNotSupported(c.version)),
        ),
        c.version >= VERSION_6 ==> spec_load_bytecode(c) == shift(
            1,
            spec_operands(c.skip(1), Opcodes::spec_from_u8(c.bytes[c.position])->Ok_0),
        ),
{
    reveal(spec_load_bytecode);
}

/// Whether a table of the kind exists in a binary of the version.
pub open spec fn spec_table_kind_exists(kind: TableType, version: u32) -> bool {
    &&& kind == TableType::METADATA ==> version >= VERSION_5
    &&& kind == TableType::FRIEND_DECLS ==> version >= VERSION_2
}

/// The metadata table exists from version 5 on and friend declarations from
/// version 2 on: a binary of a lower version that has such a table is
/// malformed at that table.
pub proof fn lemma_tables_are_gated(binary: CursorView, table: Table, acc: CommonTablesView)
    requires
        !spec_table_kind_exists(table.kind, binary.version),
    ensures
        spec_common_table(binary, table, acc) == Err::<CommonTablesView, PartialVMError>(
            malformed(
                if table.kind == TableType::METADATA {
                    Message::MetadataNotApplicable(binary.version)
                } else {
                    Message::FriendDeclarationsNotApplicable
                },
            ),
        ),
{
    reveal(spec_common_table);
}

/// The common tables decode only where the version of the binary has every
/// table of the directory.
pub proof fn lemma_gated_tables_are_rejected(
    binary: CursorView,
    tables: Seq<Table>,
    i: int,
    acc: CommonTablesView,
)
    requires
        0 <= i,
        spec_build_common_tables_from(binary, tables, i, acc) is Ok,
    ensures
        forall|k: int|
            i <= k < tables.len() ==> spec_table_kind_exists(
                (#[trigger] tables[k]).kind,
                binary.version,
            ),
    decreases tables.len() - i,
{
    if i < tables.len() {
        match spec_common_table(binary, tables[i], acc) {
            Err(e) => {},
            Ok(next) => {
                if !spec_table_kind_exists(tables[i].kind, binary.version) {
                    lemma_tables_are_gated(binary, tables[i], acc);
                }
                lemma_gated_tables_are_rejected(binary, tables, i + 1, next);
            },
        }
    }
}

/// The check of the tables of a script passes exactly where no table is
/// one that only modules have.
pub proof fn lemma_script_tables(tables: Seq<Table>, i: int)
    requires
        0 <= i,
    ensures
        match spec_build_script_tables_from(tables, i) {
            Ok(_) => forall|k: int|
                i <= k < tables.len() ==> !spec_is_module_table((#[trigger] tables[k]).kind),
            Err(e) => e == malformed(Message::BadTableInScript) && exists|k: int|
                i <= k < tables.len() && spec_is_module_table((#[trigger] tables[k]).kind),
        },
    decreases tables.len() - i,
{
    if i < tables.len() {
        if spec_is_module_table(tables[i].kind) {
        } else {
            lemma_script_tables(tables, i + 1);
            if spec_build_script_tables_from(tables, i + 1) is Err {
                let k = choose|k: int|
                    i + 1 <= k < tables.len() && spec_is_module_table((#[trigger] tables[k]).kind);
                assert(i <= k < tables.len() && spec_is_module_table(tables[k].kind));
            }
        }
    }
}

/// A binary whose directory has a table that only modules have does not
/// decode as a script.
pub proof fn lemma_script_exclusion(bytes: Seq<u8>, max_version: u32, k: int)
    requires
        spec_read_directory(bytes, max_version) matches Ok(d) && 0 <= k < d.tables.len()
            && spec_is_module_table(d.tables[k].kind),
    ensures
        spec_deserialize_compiled_script(bytes, max_version) is Err,
{
    let d = spec_read_directory(bytes, max_version)->Ok_0;
    lemma_script_tables(d.tables, 0);
}

/// Decoding is a function of its input: two results that meet the contract
/// of decoding on one input are both a success, with one model, or both the
/// same error.
pub proof fn lemma_decoding_is_deterministic<T: DeepView>(
    first: Result<T, PartialVMError>,
    second: Result<T, PartialVMError>,
    expected: Result<T::V, PartialVMError>,
)
    requires
        yields(first, expected),
        yields(second, expected),
    ensures
        first is Ok <==> second is Ok,
        first is Ok ==> first->Ok_0.deep_view() == second->Ok_0.deep_view(),
        first is Err ==> first->Err_0 == second->Err_0,
{
}

/// Two decodings of the same bytes as a module, under the same cap on the
/// version, agree.
pub proof fn lemma_module_decoding_is_deterministic(
    bytes: Seq<u8>,
    max_version: u32,
    first: Result<CompiledModule, PartialVMError>,
    second: Result<CompiledModule, PartialVMError>,
)
    requires
        yields(first, spec_deserialize_compiled_module(bytes, max_version)),
        yields(second, spec_deserialize_compiled_module(bytes, max_version)),
    ensures
        first is Ok <==> second is Ok,
        first is Ok ==> first->Ok_0.deep_view() == second->Ok_0.deep_view(),
        first is Err ==> first->Err_0 == second->Err_0,
{
}

/// Two decodings of the same bytes as a script, under the same cap on the
/// version, agree.
pub proof fn lemma_script_decoding_is_deterministic(
    bytes: Seq<u8>,
    max_version: u32,
    first: Result<CompiledScript, PartialVMError>,
    second: Result<CompiledScript, PartialVMError>,
)
    requires
        yields(first, spec_deserialize_compiled_script(bytes, max_version)),
        yields(second, spec_deserialize_compiled_script(bytes, max_version)),
    ensures
        first is Ok <==> second is Ok,
        first is Ok ==> first->Ok_0.deep_view() == second->Ok_0.deep_view(),
        first is Err ==> first->Err_0 == second->Err_0,
{
}

/// Directory entries that have been read lie within the bytes.
pub proof fn lemma_read_tables_in_bounds(c: CursorView, count: nat)
    requires
        0 <= c.position <= c.bytes.len(),
    ensures
        crate::tables::spec_read_tables(c, count) matches Ok((_, n)) ==> c.position + n
            <= c.bytes.len(),
    decreases count,
{
    if count > 0 {
        match crate::tables::spec_read_table(c) {
            Err(e) => {},
            Ok((table, n)) => {
                crate::primitives::lemma_read_uleb(c.skip(1), crate::constants::TABLE_OFFSET_MAX);
                match crate::indices::spec_load_table_offset(c.skip(1)) {
                    Err(e) => {},
                    Ok((offset, k)) => {
                        crate::primitives::lemma_read_uleb(
                            c.skip(1 + k),
                            crate::constants::TABLE_SIZE_MAX,
                        );
                    },
                }
                lemma_read_tables_in_bounds(c.skip(n), (count - 1) as nat);
            },
        }
    }
}

/// What holds of a directory that has been read: its tables are laid out
/// validly within the table contents, which are the bytes behind the
/// directory in the length of the tables, and the trailer starts behind
/// them, within the binary.
pub proof fn lemma_directory_in_bounds(bytes: Seq<u8>, max_version: u32)
    ensures
        spec_read_directory(bytes, max_version) matches Ok(d) ==> {
            &&& d.contents.version == d.version
            &&& d.trailer.version == d.version
            &&& d.trailer.bytes == bytes
            &&& d.contents.position == 0
            &&& 0 <= d.trailer.position - d.contents.bytes.len()
            &&& d.trailer.position <= bytes.len()
            &&& d.contents.bytes == bytes.subrange(
                d.trailer.position - d.contents.bytes.len(),
                d.trailer.position,
            )
            &&& crate::deserializer::spec_tables_in_bounds(
                d.tables,
                d.contents.bytes.len() as int,
            )
            &&& spec_layout_is_valid(d.tables, d.contents.bytes.len() as int)
        },
{
    match crate::cursor::spec_header(bytes, max_version) {
        Err(e) => {},
        Ok((version, n0)) => {
            crate::cursor::lemma_uleb128_length(CursorView::start(bytes, 0).skip(4), 0, 0);
            let c = CursorView::start(bytes, version).skip(n0);
            crate::primitives::lemma_read_uleb(c, crate::constants::TABLE_COUNT_MAX);
            match crate::indices::spec_load_table_count(c) {
                Err(e) => {},
                Ok((count, n1)) => {
                    lemma_read_tables_in_bounds(c.skip(n1), count as nat);
                    match crate::tables::spec_read_tables(c.skip(n1), count as nat) {
                        Err(e) => {},
                        Ok((tables, n2)) => {
                            let remaining = c.skip(n1 + n2).remaining();
                            crate::deserializer::lemma_checked_tables_in_bounds(
                                spec_sort_by_offset(tables),
                                0,
                                0,
                                remaining,
                            );
                            lemma_check_tables_decides_layout(tables, remaining);
                        },
                    }
                },
            }
        },
    }
}

/// The layout of the tables decides whether a binary whose directory can
/// be read can be read up to its trailer: it can exactly where the tables,
/// in the order of their offsets, are laid out validly within the bytes
/// that remain behind the directory. Where they are not, the error is
/// `BadHeaderTable` or `DuplicateTable`.
pub proof fn lemma_directory_layout_decides(
    bytes: Seq<u8>,
    max_version: u32,
    version: u32,
    n0: nat,
    count: u8,
    n1: nat,
    tables: Seq<Table>,
    n2: nat,
)
    requires
        crate::cursor::spec_header(bytes, max_version) == Ok::<(u32, nat), PartialVMError>(
            (version, n0),
        ),
        crate::indices::spec_load_table_count(CursorView::start(bytes, version).skip(n0)) == Ok::<
            (u8, nat),
            PartialVMError,
        >((count, n1)),
        crate::tables::spec_read_tables(
            CursorView::start(bytes, version).skip(n0 + n1),
            count as nat,
        ) == Ok::<(Seq<Table>, nat), PartialVMError>((tables, n2)),
    ensures
        match spec_read_directory(bytes, max_version) {
            Ok(d) => spec_layout_is_valid(
                spec_sort_by_offset(tables),
                bytes.len() - (n0 + n1 + n2),
            ),
            Err(e) => !spec_layout_is_valid(
                spec_sort_by_offset(tables),
                bytes.len() - (n0 + n1 + n2),
            ) && e.message == Message::Absent && (e.major_status == StatusCode::BadHeaderTable
                || e.major_status == StatusCode::DuplicateTable),
        },
{
    let c = CursorView::start(bytes, version).skip(n0);
    crate::cursor::lemma_uleb128_length(CursorView::start(bytes, 0).skip(4), 0, 0);
    crate::primitives::lemma_read_uleb(c, crate::constants::TABLE_COUNT_MAX);
    lemma_read_tables_in_bounds(c.skip(n1), count as nat);
    assert(c.skip(n1) == CursorView::start(bytes, version).skip(n0 + n1));
    lemma_check_tables_decides_layout(tables, c.skip(n1 + n2).remaining());
}

} // verus!
