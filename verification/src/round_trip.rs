//! The bytes that stand for a whole module or script in its version of the
//! format, and the law that decoding them gives the module or script back,
//! for every version.

use vstd::prelude::*;
use crate::constants::{
    TABLE_COUNT_MAX, TABLE_OFFSET_MAX, TABLE_SIZE_MAX, VERSION_1, VERSION_2, VERSION_5,
    VERSION_MAX,
};
use crate::cursor::{spec_header, CursorView};
use crate::deserializer::spec_read_directory;
use crate::encoding::{
    lemma_bounded_uleb128_round_trip, lemma_holds_exact, lemma_holds_first, lemma_holds_split,
    lemma_uleb128_round_trip, spec_holds, spec_uleb128_bytes,
};
use crate::abilities::AbilitySetPosition;
use crate::constants::{
    BYTECODE_COUNT_MAX, CONSTANT_SIZE_MAX, FIELD_OFFSET_MAX, METADATA_KEY_SIZE_MAX,
    METADATA_VALUE_SIZE_MAX, MODULE_HANDLE_INDEX_MAX, SIGNATURE_INDEX_MAX,
    TYPE_PARAMETER_COUNT_MAX,
};
use crate::deserializer::{
    spec_build_common_tables_from, spec_build_compiled_module, spec_build_compiled_script,
    spec_build_module_tables_from, spec_build_script_tables_from, spec_common_table,
    spec_deserialize_compiled_module, spec_deserialize_compiled_script, spec_empty_module,
    spec_common_of_module, spec_common_of_script, spec_is_module_table, spec_module_table,
    spec_module_with_common, spec_no_common_tables, spec_script_with_common,
};
use crate::encoded_definitions::{
    lemma_code_unit_round_trip, lemma_function_def_table_round_trip, spec_code_in_version,
    lemma_struct_def_table_round_trip, spec_code_unit_bytes, spec_encodable_function_def,
    spec_encodable_struct_def, spec_function_def_table_bytes, spec_struct_def_table_bytes,
};
use crate::encoded_handles::{
    lemma_ability_sets_round_trip, lemma_field_handle_table_round_trip,
    lemma_field_instantiation_table_round_trip, lemma_function_handle_table_round_trip,
    lemma_function_instantiation_table_round_trip, lemma_module_handle_table_round_trip,
    lemma_struct_handle_table_round_trip, lemma_struct_instantiation_table_round_trip,
    spec_ability_sets_bytes, spec_encodable_ability_set, spec_encodable_function_handle,
    spec_encodable_struct_handle, spec_field_handle_table_bytes,
    spec_field_instantiation_table_bytes, spec_function_handle_table_bytes,
    spec_function_instantiation_table_bytes, spec_module_handle_table_bytes,
    spec_struct_handle_table_bytes, spec_struct_instantiation_table_bytes,
};
use crate::encoded_pools::{
    lemma_address_table_round_trip, lemma_constant_table_round_trip,
    lemma_identifier_table_round_trip, lemma_metadata_entry_table_round_trip,
    lemma_signature_table_round_trip, spec_address_table_bytes, spec_constant_table_bytes,
    spec_encodable_identifier, spec_encodable_root_token, spec_encodable_signature,
    spec_identifier_table_bytes, spec_metadata_entry_table_bytes, spec_signature_table_bytes,
};
use crate::errors::PartialVMError;
use crate::file_format::{CommonTablesView, CompiledModuleView, CompiledScriptView, ADDRESS_LENGTH};
use crate::file_format_common::spec_table_window;
use crate::file_format_common::{Table, TableType};
use crate::tables::{
    spec_check_tables_from, spec_kind_repeated, spec_read_table, spec_read_tables,
    spec_sort_by_offset,
};

verus! {

/// The content of a table of a binary that is to be written: its kind and
/// its bytes. A table without bytes is left out of the binary.
pub struct Section {
    pub kind: TableType,
    pub bytes: Seq<u8>,
}

/// The directory of the sections from index `j` on, where the first of them
/// starts at `offset` of the table contents.
pub open spec fn spec_directory(sections: Seq<Section>, j: int, offset: int) -> Seq<Table>
    decreases sections.len() - j,
{
    if j < 0 || j >= sections.len() {
        Seq::empty()
    } else {
        let rest = spec_directory(sections, j + 1, offset + sections[j].bytes.len());
        if sections[j].bytes.len() == 0 {
            rest
        } else {
            seq![
                Table {
                    kind: sections[j].kind,
                    offset: offset as u32,
                    count: sections[j].bytes.len() as u32,
                },
            ] + rest
        }
    }
}

/// The table contents of the sections from index `j` on.
pub open spec fn spec_contents(sections: Seq<Section>, j: int) -> Seq<u8>
    decreases sections.len() - j,
{
    if j < 0 || j >= sections.len() {
        Seq::empty()
    } else {
        sections[j].bytes + spec_contents(sections, j + 1)
    }
}

/// Whether the kinds of the sections grow from each section to the next.
pub open spec fn spec_sections_are_ordered(sections: Seq<Section>) -> bool {
    forall|i: int, j: int|
        0 <= i < j < sections.len() ==> (#[trigger] sections[i]).kind.spec_to_u8() < (
        #[trigger] sections[j]).kind.spec_to_u8()
}

/// The bytes of an entry of the table directory.
pub open spec fn spec_table_bytes(table: Table) -> Seq<u8> {
    seq![table.kind.spec_to_u8()] + (spec_uleb128_bytes(table.offset as nat) + spec_uleb128_bytes(
        table.count as nat,
    ))
}

/// The bytes of a table directory.
pub open spec fn spec_tables_bytes(tables: Seq<Table>) -> Seq<u8>
    decreases tables.len(),
{
    if tables.len() == 0 {
        Seq::empty()
    } else {
        spec_table_bytes(tables[0]) + spec_tables_bytes(tables.subrange(1, tables.len() as int))
    }
}

/// The magic of the format.
pub open spec fn spec_magic_bytes() -> Seq<u8> {
    seq![0xA1u8, 0x1Cu8, 0xEBu8, 0x0Bu8]
}

/// The bytes of a binary of the version: the magic, the version, the number
/// of tables, the directory, the table contents and the trailer.
pub open spec fn spec_binary_bytes(version: u32, sections: Seq<Section>, trailer: Seq<u8>) -> Seq<u8> {
    spec_magic_bytes() + (spec_uleb128_bytes(version as nat) + (spec_uleb128_bytes(
        spec_directory(sections, 0, 0).len(),
    ) + (spec_tables_bytes(spec_directory(sections, 0, 0)) + (spec_contents(sections, 0)
        + trailer))))
}

proof fn lemma_table_round_trip(c: CursorView, table: Table)
    requires
        spec_holds(c, spec_table_bytes(table)),
    ensures
        spec_read_table(c) == Ok::<(Table, nat), PartialVMError>(
            (table, spec_table_bytes(table).len()),
        ),
{
    let bytes = spec_table_bytes(table);
    let offset = spec_uleb128_bytes(table.offset as nat);
    let count = spec_uleb128_bytes(table.count as nat);
    lemma_holds_first(c, bytes);
    assert(bytes.subrange(1, bytes.len() as int) =~= offset + count);
    let c1 = c.skip(1);
    lemma_holds_split(c1, offset, count);
    lemma_bounded_uleb128_round_trip(c1, table.offset as u64, TABLE_OFFSET_MAX);
    lemma_bounded_uleb128_round_trip(c1.skip(offset.len()), table.count as u64, TABLE_SIZE_MAX);
    assert(c1.skip(offset.len()) == c.skip(1 + offset.len()));
}

proof fn lemma_tables_round_trip(c: CursorView, tables: Seq<Table>)
    requires
        spec_holds(c, spec_tables_bytes(tables)),
    ensures
        spec_read_tables(c, tables.len()) == Ok::<(Seq<Table>, nat), PartialVMError>(
            (tables, spec_tables_bytes(tables).len()),
        ),
    decreases tables.len(),
{
    if tables.len() == 0 {
        assert(tables =~= Seq::<Table>::empty());
    } else {
        let first = spec_table_bytes(tables[0]);
        let tail = tables.subrange(1, tables.len() as int);
        lemma_holds_split(c, first, spec_tables_bytes(tail));
        lemma_table_round_trip(c, tables[0]);
        lemma_tables_round_trip(c.skip(first.len()), tail);
        assert(seq![tables[0]] + tail =~= tables);
    }
}

/// What holds of the directory of sections: it has no more entries than
/// there are sections, each entry lies within the table contents, and the
/// offsets and kinds grow.
proof fn lemma_directory(sections: Seq<Section>, j: int, offset: int)
    requires
        0 <= j,
        0 <= offset,
        offset + spec_contents(sections, j).len() <= u32::MAX,
        spec_sections_are_ordered(sections),
    ensures
        spec_directory(sections, j, offset).len() <= sections.len() - j || j >= sections.len(),
        j >= sections.len() ==> spec_directory(sections, j, offset).len() == 0,
        forall|i: int|
            0 <= i < spec_directory(sections, j, offset).len() ==> {
                let t = #[trigger] spec_directory(sections, j, offset)[i];
                &&& offset <= t.offset
                &&& t.count > 0
                &&& t.offset + t.count <= offset + spec_contents(sections, j).len()
                &&& t.kind.spec_to_u8() >= sections[j].kind.spec_to_u8()
            },
        forall|i: int, k: int|
            0 <= i < k < spec_directory(sections, j, offset).len() ==> (
            #[trigger] spec_directory(sections, j, offset)[i]).offset <= (#[trigger] spec_directory(
                sections,
                j,
                offset,
            )[k]).offset,
    decreases sections.len() - j,
{
    if j < sections.len() {
        let size = sections[j].bytes.len();
        let next = offset + size;
        lemma_directory(sections, j + 1, next);
        let rest = spec_directory(sections, j + 1, next);
        let all = spec_directory(sections, j, offset);
        assert forall|i: int| 0 <= i < rest.len() implies (#[trigger] rest[i]).kind.spec_to_u8()
            >= sections[j].kind.spec_to_u8() by {
            assert(rest[i].kind.spec_to_u8() >= sections[j + 1].kind.spec_to_u8());
        }
        if size > 0 {
            assert forall|i: int| 0 < i < all.len() implies all[i] == rest[i - 1] by {}
        }
    }
}

/// Sorting a directory whose offsets never fall leaves it as it is.
proof fn lemma_sorted_stays(tables: Seq<Table>)
    requires
        forall|i: int, k: int|
            0 <= i < k < tables.len() ==> (#[trigger] tables[i]).offset <= (#[trigger] tables[k]).offset,
    ensures
        spec_sort_by_offset(tables) == tables,
    decreases tables.len(),
{
    if tables.len() == 0 {
        assert(tables =~= Seq::<Table>::empty());
    } else {
        let front = tables.drop_last();
        assert forall|i: int, k: int| 0 <= i < k < front.len() implies (#[trigger] front[i]).offset
            <= (#[trigger] front[k]).offset by {
            assert(front[i] == tables[i] && front[k] == tables[k]);
        }
        lemma_sorted_stays(front);
        if front.len() > 0 {
            assert(front.last() == tables[front.len() - 1]);
            assert(tables.last() == tables[tables.len() - 1]);
        }
        assert(front.push(tables.last()) =~= tables);
    }
}

/// The directory of sections passes the check.
#[verifier::rlimit(40)]
proof fn lemma_directory_checks(
    sections: Seq<Section>,
    all: Seq<Table>,
    k: int,
    j: int,
    offset: int,
    binary_len: int,
)
    requires
        0 <= j,
        0 <= k <= all.len(),
        0 <= offset,
        all.subrange(k, all.len() as int) == spec_directory(sections, j, offset),
        spec_sections_are_ordered(sections),
        forall|i: int|
            0 <= i < k && j < sections.len() ==> (#[trigger] all[i]).kind.spec_to_u8()
                < sections[j].kind.spec_to_u8(),
        offset + spec_contents(sections, j).len() <= u32::MAX,
        offset + spec_contents(sections, j).len() <= binary_len,
    ensures
        spec_check_tables_from(all, k, offset as u32, binary_len) == Ok::<u32, PartialVMError>(
            (offset + spec_contents(sections, j).len()) as u32,
        ),
    decreases sections.len() - j,
{
    let directory = spec_directory(sections, j, offset);
    if j >= sections.len() {
        assert(all.subrange(k, all.len() as int).len() == 0);
    } else {
        let size = sections[j].bytes.len();
        let next = offset + size;
        assert forall|i: int| 0 <= i < k && j + 1 < sections.len() implies (#[trigger] all[i]).kind.spec_to_u8()
            < sections[j + 1].kind.spec_to_u8() by {}
        if size == 0 {
            lemma_directory_checks(sections, all, k, j + 1, next, binary_len);
        } else {
            let rest = spec_directory(sections, j + 1, next);
            assert(directory.len() >= 1);
            assert(all.subrange(k, all.len() as int).len() == directory.len());
            assert(k < all.len());
            assert(directory[0] == all.subrange(k, all.len() as int)[0]);
            assert(all[k] == directory[0]);
            assert(all[k] == Table {
                kind: sections[j].kind,
                offset: offset as u32,
                count: size as u32,
            });
            assert(all.subrange(k + 1, all.len() as int) =~= directory.subrange(
                1,
                directory.len() as int,
            ));
            assert(directory.subrange(1, directory.len() as int) =~= rest);
            assert(!spec_kind_repeated(all, k)) by {
                if spec_kind_repeated(all, k) {
                    let i = choose|i: int| 0 <= i < k && (#[trigger] all[i]).kind == all[k].kind;
                    assert(all[i].kind.spec_to_u8() < sections[j].kind.spec_to_u8());
                }
            }
            assert forall|i: int| 0 <= i < k + 1 && j + 1 < sections.len() implies (
            #[trigger] all[i]).kind.spec_to_u8() < sections[j + 1].kind.spec_to_u8() by {
                if i == k {
                    assert(sections[j].kind.spec_to_u8() < sections[j + 1].kind.spec_to_u8());
                }
            }
            lemma_directory_checks(sections, all, k + 1, j + 1, next, binary_len);
        }
    }
}

/// Whether sections can be written: their kinds grow, there are no more
/// than the greatest number of tables, and their bytes fit 32 bits.
pub open spec fn spec_encodable_sections(sections: Seq<Section>) -> bool {
    &&& spec_sections_are_ordered(sections)
    &&& sections.len() <= TABLE_COUNT_MAX
    &&& spec_contents(sections, 0).len() <= u32::MAX
}

/// Reading the bytes of a binary up to its trailer gives the directory of
/// its sections, their contents, and a reader at which the trailer stands.
#[verifier::rlimit(40)]
pub proof fn lemma_directory_round_trip(
    version: u32, sections: Seq<Section>,
    trailer: Seq<u8>,
    max_version: u32,
)
    requires
        spec_encodable_sections(sections),
        VERSION_1 <= version <= VERSION_MAX,
        version <= max_version,
    ensures
        spec_read_directory(spec_binary_bytes(version, sections, trailer), max_version) matches Ok(d) && {
            &&& d.version == version
            &&& d.tables == spec_directory(sections, 0, 0)
            &&& d.contents == CursorView::start(spec_contents(sections, 0), version)
            &&& d.trailer.version == version
            &&& spec_holds(d.trailer, trailer)
        },
{
    let bytes = spec_binary_bytes(version, sections, trailer);
    let tables = spec_directory(sections, 0, 0);
    let contents = spec_contents(sections, 0);
    let magic = spec_magic_bytes();
    let header_version = spec_uleb128_bytes(version as nat);
    let count = spec_uleb128_bytes(tables.len());
    let directory = spec_tables_bytes(tables);
    lemma_directory(sections, 0, 0);
    // the header
    let h = CursorView::start(bytes, 0);
    assert(bytes.subrange(0, bytes.len() as int) =~= bytes);
    assert(spec_holds(h, magic + (header_version + (count + (directory + (contents + trailer))))));
    lemma_holds_split(h, magic, header_version + (count + (directory + (contents + trailer))));
    assert(bytes.subrange(0, 4) == magic);
    assert(bytes.subrange(0, 4)[0] == bytes[0] && bytes.subrange(0, 4)[1] == bytes[1]
        && bytes.subrange(0, 4)[2] == bytes[2] && bytes.subrange(0, 4)[3] == bytes[3]);
    let h1 = h.skip(4);
    lemma_holds_split(h1, header_version, count + (directory + (contents + trailer)));
    lemma_uleb128_round_trip(h1, version as u64);
    assert(header_version.len() == 1);
    assert(spec_header(bytes, max_version) == Ok::<(u32, nat), PartialVMError>(
        (version, 5),
    ));
    // the directory
    let c = CursorView::start(bytes, version).skip(5);
    assert(spec_holds(c, count + (directory + (contents + trailer)))) by {
        assert(h1.skip(1).bytes == c.bytes && h1.skip(1).position == c.position);
    }
    lemma_holds_split(c, count, directory + (contents + trailer));
    lemma_bounded_uleb128_round_trip(c, tables.len() as u64, TABLE_COUNT_MAX);
    let c1 = c.skip(count.len());
    lemma_holds_split(c1, directory, contents + trailer);
    lemma_tables_round_trip(c1, tables);
    let c2 = c1.skip(directory.len());
    assert(c2 == c.skip(count.len() + directory.len()));
    // the check
    lemma_sorted_stays(tables);
    assert(tables.subrange(0, tables.len() as int) =~= tables);
    lemma_directory_checks(sections, tables, 0, 0, 0, c2.remaining());
    // the contents
    lemma_holds_split(c2, contents, trailer);
    lemma_holds_exact(c2, contents);
    assert(c2.skip(contents.len()) == c.skip(count.len() + directory.len() + contents.len()));
}

/// The bytes of the common table of the given kind.
pub open spec fn spec_common_section(version: u32, common: CommonTablesView, kind: TableType) -> Seq<u8> {
    match kind {
        TableType::MODULE_HANDLES => spec_module_handle_table_bytes(common.module_handles),
        TableType::STRUCT_HANDLES => spec_struct_handle_table_bytes(version, common.struct_handles),
        TableType::FUNCTION_HANDLES => spec_function_handle_table_bytes(version, common.function_handles),
        TableType::FUNCTION_INST => spec_function_instantiation_table_bytes(common.function_instantiations),
        TableType::SIGNATURES => spec_signature_table_bytes(common.signatures),
        TableType::CONSTANT_POOL => spec_constant_table_bytes(common.constant_pool),
        TableType::IDENTIFIERS => spec_identifier_table_bytes(common.identifiers),
        TableType::ADDRESS_IDENTIFIERS => spec_address_table_bytes(common.address_identifiers),
        TableType::METADATA => spec_metadata_entry_table_bytes(common.metadata),
        _ => Seq::empty(),
    }
}

/// The common tables with the records of the given kind appended from
/// `common`.
pub open spec fn spec_append_common(acc: CommonTablesView, common: CommonTablesView, kind: TableType) -> CommonTablesView {
    match kind {
        TableType::MODULE_HANDLES => CommonTablesView { module_handles: acc.module_handles + common.module_handles, ..acc },
        TableType::STRUCT_HANDLES => CommonTablesView { struct_handles: acc.struct_handles + common.struct_handles, ..acc },
        TableType::FUNCTION_HANDLES => CommonTablesView { function_handles: acc.function_handles + common.function_handles, ..acc },
        TableType::FUNCTION_INST => CommonTablesView { function_instantiations: acc.function_instantiations + common.function_instantiations, ..acc },
        TableType::SIGNATURES => CommonTablesView { signatures: acc.signatures + common.signatures, ..acc },
        TableType::CONSTANT_POOL => CommonTablesView { constant_pool: acc.constant_pool + common.constant_pool, ..acc },
        TableType::IDENTIFIERS => CommonTablesView { identifiers: acc.identifiers + common.identifiers, ..acc },
        TableType::ADDRESS_IDENTIFIERS => CommonTablesView { address_identifiers: acc.address_identifiers + common.address_identifiers, ..acc },
        TableType::METADATA => CommonTablesView { metadata: acc.metadata + common.metadata, ..acc },
        _ => acc,
    }
}

/// Whether the records of the common tables can be written in a binary of
/// the version. Metadata exist from version 5 on.
#[verifier::opaque]
pub open spec fn spec_encodable_common(version: u32, common: CommonTablesView) -> bool {
    &&& forall|i: int| 0 <= i < common.struct_handles.len() ==> spec_encodable_struct_handle(version, (#[trigger] common.struct_handles[i]))
    &&& forall|i: int| 0 <= i < common.function_handles.len() ==> spec_encodable_function_handle(version, (#[trigger] common.function_handles[i]))
    &&& forall|i: int| 0 <= i < common.signatures.len() ==> spec_encodable_signature(version, (#[trigger] common.signatures[i]))
    &&& forall|i: int| 0 <= i < common.constant_pool.len() ==> spec_encodable_root_token(version, (#[trigger] common.constant_pool[i]).type_) && common.constant_pool[i].data.len() <= CONSTANT_SIZE_MAX
    &&& forall|i: int| 0 <= i < common.identifiers.len() ==> spec_encodable_identifier((#[trigger] common.identifiers[i]))
    &&& forall|i: int| 0 <= i < common.address_identifiers.len() ==> (#[trigger] common.address_identifiers[i]).len() == ADDRESS_LENGTH
    &&& forall|i: int| 0 <= i < common.metadata.len() ==> (#[trigger] common.metadata[i]).key.len() <= METADATA_KEY_SIZE_MAX && common.metadata[i].value.len() <= METADATA_VALUE_SIZE_MAX
    &&& version < VERSION_5 ==> common.metadata.len() == 0
}

/// Whether the sections have no friend declarations where the version is
/// below 2, which has none.
pub open spec fn spec_sections_fit_version(version: u32, sections: Seq<Section>) -> bool {
    version < VERSION_2 ==> forall|j: int|
        0 <= j < sections.len() && (#[trigger] sections[j]).kind == TableType::FRIEND_DECLS
            ==> sections[j].bytes.len() == 0
}

/// Whether a table of the kind is one that modules and scripts share.
pub open spec fn spec_is_common_table(kind: TableType) -> bool {
    !spec_is_module_table(kind)
}

/// Decoding the common table that holds the bytes of records gives the
/// records.
#[verifier::rlimit(40)]
proof fn lemma_common_table_round_trip(
    binary: CursorView,
    table: Table,
    acc: CommonTablesView,
    common: CommonTablesView,
)
    requires
        VERSION_1 <= binary.version <= VERSION_MAX,
        0 <= table.offset + table.count <= binary.bytes.len(),
        binary.bytes.subrange(table.offset as int, table.offset + table.count)
            == spec_common_section(binary.version, common, table.kind) || spec_is_module_table(table.kind),
        table.count == spec_common_section(binary.version, common, table.kind).len() || spec_is_module_table(
            table.kind,
        ),
        table.count > 0,
        table.kind == TableType::FRIEND_DECLS ==> binary.version >= VERSION_2,
        spec_encodable_common(binary.version, common),
    ensures
        spec_common_table(binary, table, acc) == Ok::<CommonTablesView, PartialVMError>(
            spec_append_common(acc, common, table.kind),
        ),
{
    reveal(spec_encodable_common);
    reveal(spec_common_table);
    let window = spec_table_window(binary, table);
    assert(window.bytes.subrange(0, window.bytes.len() as int) =~= window.bytes);
    match table.kind {
        TableType::MODULE_HANDLES => {
            lemma_module_handle_table_round_trip(window, common.module_handles);
        },
        TableType::STRUCT_HANDLES => {
            lemma_struct_handle_table_round_trip(window, common.struct_handles);
        },
        TableType::FUNCTION_HANDLES => {
            lemma_function_handle_table_round_trip(window, common.function_handles);
        },
        TableType::FUNCTION_INST => {
            lemma_function_instantiation_table_round_trip(window, common.function_instantiations);
        },
        TableType::SIGNATURES => {
            lemma_signature_table_round_trip(window, common.signatures);
        },
        TableType::CONSTANT_POOL => {
            lemma_constant_table_round_trip(window, common.constant_pool);
        },
        TableType::IDENTIFIERS => {
            lemma_identifier_table_round_trip(window, common.identifiers);
        },
        TableType::ADDRESS_IDENTIFIERS => {
            lemma_address_table_round_trip(binary, table, common.address_identifiers);
        },
        TableType::METADATA => {
            lemma_metadata_entry_table_round_trip(window, common.metadata);
        },
        _ => {},
    }
}

/// A section without bytes holds no record.
proof fn lemma_empty_common_section(version: u32, acc: CommonTablesView, common: CommonTablesView, kind: TableType)
    requires
        spec_common_section(version, common, kind).len() == 0 || spec_is_module_table(kind),
        spec_encodable_common(version, common),
    ensures
        spec_append_common(acc, common, kind) == acc,
{
    reveal(spec_encodable_common);
    match kind {
        TableType::MODULE_HANDLES => {
            if common.module_handles.len() > 0 {
                lemma_load_module_handle_length(common.module_handles[0]);
            }
            assert(acc.module_handles + common.module_handles =~= acc.module_handles);
        },
        TableType::STRUCT_HANDLES => {
            if common.struct_handles.len() > 0 {
                lemma_load_struct_handle_length(version, common.struct_handles[0]);
            }
            assert(acc.struct_handles + common.struct_handles =~= acc.struct_handles);
        },
        TableType::FUNCTION_HANDLES => {
            if common.function_handles.len() > 0 {
                lemma_load_function_handle_length(version, common.function_handles[0]);
            }
            assert(acc.function_handles + common.function_handles =~= acc.function_handles);
        },
        TableType::FUNCTION_INST => {
            if common.function_instantiations.len() > 0 {
                lemma_load_function_instantiation_length(common.function_instantiations[0]);
            }
            assert(acc.function_instantiations + common.function_instantiations =~= acc.function_instantiations);
        },
        TableType::SIGNATURES => {
            if common.signatures.len() > 0 {
                lemma_load_signature_length(common.signatures[0]);
            }
            assert(acc.signatures + common.signatures =~= acc.signatures);
        },
        TableType::CONSTANT_POOL => {
            if common.constant_pool.len() > 0 {
                lemma_load_constant_length(common.constant_pool[0]);
            }
            assert(acc.constant_pool + common.constant_pool =~= acc.constant_pool);
        },
        TableType::IDENTIFIERS => {
            if common.identifiers.len() > 0 {
                lemma_load_identifier_length(common.identifiers[0]);
            }
            assert(acc.identifiers + common.identifiers =~= acc.identifiers);
        },
        TableType::ADDRESS_IDENTIFIERS => {
            if common.address_identifiers.len() > 0 {
                assert(common.address_identifiers.last() == common.address_identifiers[common.address_identifiers.len() - 1]);
            }
            assert(acc.address_identifiers + common.address_identifiers =~= acc.address_identifiers);
        },
        TableType::METADATA => {
            if common.metadata.len() > 0 {
                lemma_load_metadata_entry_length(common.metadata[0]);
            }
            assert(acc.metadata + common.metadata =~= acc.metadata);
        },
        _ => {},
    }
}

proof fn lemma_load_module_handle_length(x: crate::file_format::ModuleHandle)
    ensures
        crate::encoded_handles::spec_module_handle_bytes(x).len() >= 1,
{
}

proof fn lemma_load_struct_handle_length(version: u32, x: crate::file_format::StructHandleView)
    ensures
        crate::encoded_handles::spec_struct_handle_bytes(version, x).len() >= 1,
{
}

proof fn lemma_load_function_handle_length(version: u32, x: crate::file_format::FunctionHandleView)
    ensures
        crate::encoded_handles::spec_function_handle_bytes(version, x).len() >= 1,
{
}

proof fn lemma_load_function_instantiation_length(x: crate::file_format::FunctionInstantiation)
    ensures
        crate::encoded_handles::spec_function_instantiation_bytes(x).len() >= 1,
{
}

proof fn lemma_load_signature_length(x: Seq<crate::file_format::SignatureTokenView>)
    ensures
        crate::encoded_pools::spec_pooled_signature_bytes(x).len() >= 1,
{
}

proof fn lemma_load_constant_length(x: crate::file_format::ConstantView)
    ensures
        crate::encoded_pools::spec_constant_bytes(x).len() >= 1,
{
}

proof fn lemma_load_identifier_length(x: Seq<char>)
    ensures
        crate::encoded_pools::spec_identifier_bytes(x).len() >= 1,
{
}

proof fn lemma_load_metadata_entry_length(x: crate::file_format::MetadataView)
    ensures
        crate::encoded_pools::spec_metadata_entry_bytes(x).len() >= 1,
{
}

proof fn lemma_load_struct_def_length(x: crate::file_format::StructDefinitionView)
    ensures
        crate::encoded_definitions::spec_struct_def_bytes(x).len() >= 1,
{
}

proof fn lemma_load_struct_instantiation_length(x: crate::file_format::StructDefInstantiation)
    ensures
        crate::encoded_handles::spec_struct_instantiation_bytes(x).len() >= 1,
{
}

proof fn lemma_load_function_def_length(version: u32, x: crate::file_format::FunctionDefinitionView)
    ensures
        crate::encoded_definitions::spec_function_def_bytes(version, x).len() >= 1,
{
}

proof fn lemma_load_field_handle_length(x: crate::file_format::FieldHandle)
    ensures
        crate::encoded_handles::spec_field_handle_bytes(x).len() >= 1,
{
}

proof fn lemma_load_field_instantiation_length(x: crate::file_format::FieldInstantiation)
    ensures
        crate::encoded_handles::spec_field_instantiation_bytes(x).len() >= 1,
{
}

/// The common tables after the records of the kinds of the sections from
/// index `j` on have been appended from `common`.
pub open spec fn spec_append_common_sections(
    sections: Seq<Section>,
    j: int,
    acc: CommonTablesView,
    common: CommonTablesView,
) -> CommonTablesView
    decreases sections.len() - j,
{
    if j < 0 || j >= sections.len() {
        acc
    } else {
        spec_append_common_sections(
            sections,
            j + 1,
            spec_append_common(acc, common, sections[j].kind),
            common,
        )
    }
}

/// Whether the sections of the kinds that modules and scripts share hold
/// the bytes of the records of `common`.
pub open spec fn spec_sections_hold_common(version: u32, sections: Seq<Section>, common: CommonTablesView) -> bool {
    forall|j: int|
        0 <= j < sections.len() && spec_is_common_table((#[trigger] sections[j]).kind)
            ==> sections[j].bytes == spec_common_section(version, common, sections[j].kind)
}

proof fn lemma_contents_split(sections: Seq<Section>, j: int, offset: int, bytes: Seq<u8>)
    requires
        0 <= j < sections.len(),
        0 <= offset,
        offset + spec_contents(sections, j).len() <= bytes.len(),
        bytes.subrange(offset, offset + spec_contents(sections, j).len()) == spec_contents(
            sections,
            j,
        ),
    ensures
        bytes.subrange(offset, offset + sections[j].bytes.len()) == sections[j].bytes,
        bytes.subrange(
            offset + sections[j].bytes.len(),
            offset + sections[j].bytes.len() + spec_contents(sections, j + 1).len(),
        ) == spec_contents(sections, j + 1),
{
    let c = CursorView { bytes, version: 0, position: offset };
    lemma_holds_split(c, sections[j].bytes, spec_contents(sections, j + 1));
}

/// Decoding the common tables of the directory of sections gives the
/// records that the sections hold.
#[verifier::rlimit(40)]
proof fn lemma_common_tables_round_trip(
    sections: Seq<Section>,
    common: CommonTablesView,
    binary: CursorView,
    all: Seq<Table>,
    k: int,
    j: int,
    offset: int,
    acc: CommonTablesView,
)
    requires
        0 <= j,
        0 <= k <= all.len(),
        0 <= offset,
        all.subrange(k, all.len() as int) == spec_directory(sections, j, offset),
        offset + spec_contents(sections, j).len() <= binary.bytes.len(),
        binary.bytes.len() <= u32::MAX,
        binary.bytes.subrange(offset, offset + spec_contents(sections, j).len()) == spec_contents(
            sections,
            j,
        ),
        VERSION_1 <= binary.version <= VERSION_MAX,
        spec_sections_hold_common(binary.version, sections, common),
        spec_sections_fit_version(binary.version, sections),
        spec_encodable_common(binary.version, common),
    ensures
        spec_build_common_tables_from(binary, all, k, acc) == Ok::<
            CommonTablesView,
            PartialVMError,
        >(spec_append_common_sections(sections, j, acc, common)),
    decreases sections.len() - j,
{
    if j >= sections.len() {
        assert(all.subrange(k, all.len() as int).len() == 0);
    } else {
        let size = sections[j].bytes.len();
        let kind = sections[j].kind;
        let directory = spec_directory(sections, j, offset);
        lemma_contents_split(sections, j, offset, binary.bytes);
        if size == 0 {
            lemma_empty_common_section(binary.version, acc, common, kind);
            lemma_common_tables_round_trip(sections, common, binary, all, k, j + 1, offset, acc);
        } else {
            let rest = spec_directory(sections, j + 1, offset + size);
            assert(directory.len() >= 1);
            assert(all.subrange(k, all.len() as int).len() == directory.len());
            assert(k < all.len());
            assert(directory[0] == all.subrange(k, all.len() as int)[0]);
            assert(all[k] == directory[0]);
            assert(all.subrange(k + 1, all.len() as int) =~= directory.subrange(
                1,
                directory.len() as int,
            ));
            assert(directory.subrange(1, directory.len() as int) =~= rest);
            lemma_common_table_round_trip(binary, all[k], acc, common);
            lemma_common_tables_round_trip(
                sections,
                common,
                binary,
                all,
                k + 1,
                j + 1,
                offset + size,
                spec_append_common(acc, common, kind),
            );
        }
    }
}

/// The bytes of the table of the given kind that only modules have.
pub open spec fn spec_module_section(module: CompiledModuleView, kind: TableType) -> Seq<u8> {
    match kind {
        TableType::STRUCT_DEFS => spec_struct_def_table_bytes(module.struct_defs),
        TableType::STRUCT_DEF_INST => spec_struct_instantiation_table_bytes(module.struct_def_instantiations),
        TableType::FUNCTION_DEFS => spec_function_def_table_bytes(module.version, module.function_defs),
        TableType::FIELD_HANDLE => spec_field_handle_table_bytes(module.field_handles),
        TableType::FIELD_INST => spec_field_instantiation_table_bytes(module.field_instantiations),
        TableType::FRIEND_DECLS => spec_module_handle_table_bytes(module.friend_decls),
        _ => Seq::empty(),
    }
}

/// The module with the records of the given kind appended from `module`.
pub open spec fn spec_append_module(acc: CompiledModuleView, module: CompiledModuleView, kind: TableType) -> CompiledModuleView {
    match kind {
        TableType::STRUCT_DEFS => CompiledModuleView { struct_defs: acc.struct_defs + module.struct_defs, ..acc },
        TableType::STRUCT_DEF_INST => CompiledModuleView { struct_def_instantiations: acc.struct_def_instantiations + module.struct_def_instantiations, ..acc },
        TableType::FUNCTION_DEFS => CompiledModuleView { function_defs: acc.function_defs + module.function_defs, ..acc },
        TableType::FIELD_HANDLE => CompiledModuleView { field_handles: acc.field_handles + module.field_handles, ..acc },
        TableType::FIELD_INST => CompiledModuleView { field_instantiations: acc.field_instantiations + module.field_instantiations, ..acc },
        TableType::FRIEND_DECLS => CompiledModuleView { friend_decls: acc.friend_decls + module.friend_decls, ..acc },
        _ => acc,
    }
}

/// Whether each record of the tables that only modules have can be written
/// in a binary of the version of the module. Friend declarations exist from
/// version 2 on.
#[verifier::opaque]
pub open spec fn spec_encodable_module_records(module: CompiledModuleView) -> bool {
    &&& forall|i: int| 0 <= i < module.struct_defs.len() ==> spec_encodable_struct_def(module.version, (#[trigger] module.struct_defs[i]))
    &&& forall|i: int| 0 <= i < module.function_defs.len() ==> spec_encodable_function_def(module.version, (#[trigger] module.function_defs[i]))
    &&& forall|i: int| 0 <= i < module.field_handles.len() ==> (#[trigger] module.field_handles[i]).field <= FIELD_OFFSET_MAX
    &&& module.version < VERSION_2 ==> module.friend_decls.len() == 0
}

/// Whether the module can be written as a binary of its version: the
/// version is one of the format, each of its records can be written in it,
/// and its tables fit 32 bits.
pub open spec fn spec_encodable_module(module: CompiledModuleView) -> bool {
    &&& VERSION_1 <= module.version <= VERSION_MAX
    &&& spec_encodable_common(module.version, spec_common_of_module(module))
    &&& spec_encodable_module_records(module)
    &&& spec_contents(spec_module_sections(module), 0).len() <= u32::MAX
}

/// Whether the script can be written as a binary of its version.
pub open spec fn spec_encodable_script(script: CompiledScriptView) -> bool {
    &&& VERSION_1 <= script.version <= VERSION_MAX
    &&& spec_encodable_common(script.version, spec_common_of_script(script))
    &&& script.type_parameters.len() <= TYPE_PARAMETER_COUNT_MAX
    &&& forall|i: int|
        0 <= i < script.type_parameters.len() ==> spec_encodable_ability_set(
            script.version,
            AbilitySetPosition::FunctionTypeParameters,
            #[trigger] script.type_parameters[i],
        )
    &&& script.code.code.len() <= BYTECODE_COUNT_MAX
    &&& spec_code_in_version(script.code.code, script.version)
    &&& spec_contents(spec_script_sections(script), 0).len() <= u32::MAX
}

/// The sections of a module, in the order of their kinds.
#[verifier::opaque]
pub open spec fn spec_module_sections(module: CompiledModuleView) -> Seq<Section> {
    seq![
        Section { kind: TableType::MODULE_HANDLES, bytes: spec_common_section(module.version, spec_common_of_module(module), TableType::MODULE_HANDLES) },
        Section { kind: TableType::STRUCT_HANDLES, bytes: spec_common_section(module.version, spec_common_of_module(module), TableType::STRUCT_HANDLES) },
        Section { kind: TableType::FUNCTION_HANDLES, bytes: spec_common_section(module.version, spec_common_of_module(module), TableType::FUNCTION_HANDLES) },
        Section { kind: TableType::FUNCTION_INST, bytes: spec_common_section(module.version, spec_common_of_module(module), TableType::FUNCTION_INST) },
        Section { kind: TableType::SIGNATURES, bytes: spec_common_section(module.version, spec_common_of_module(module), TableType::SIGNATURES) },
        Section { kind: TableType::CONSTANT_POOL, bytes: spec_common_section(module.version, spec_common_of_module(module), TableType::CONSTANT_POOL) },
        Section { kind: TableType::IDENTIFIERS, bytes: spec_common_section(module.version, spec_common_of_module(module), TableType::IDENTIFIERS) },
        Section { kind: TableType::ADDRESS_IDENTIFIERS, bytes: spec_common_section(module.version, spec_common_of_module(module), TableType::ADDRESS_IDENTIFIERS) },
        Section { kind: TableType::STRUCT_DEFS, bytes: spec_module_section(module, TableType::STRUCT_DEFS) },
        Section { kind: TableType::STRUCT_DEF_INST, bytes: spec_module_section(module, TableType::STRUCT_DEF_INST) },
        Section { kind: TableType::FUNCTION_DEFS, bytes: spec_module_section(module, TableType::FUNCTION_DEFS) },
        Section { kind: TableType::FIELD_HANDLE, bytes: spec_module_section(module, TableType::FIELD_HANDLE) },
        Section { kind: TableType::FIELD_INST, bytes: spec_module_section(module, TableType::FIELD_INST) },
        Section { kind: TableType::FRIEND_DECLS, bytes: spec_module_section(module, TableType::FRIEND_DECLS) },
        Section { kind: TableType::METADATA, bytes: spec_common_section(module.version, spec_common_of_module(module), TableType::METADATA) },
    ]
}

/// The sections of a script, in the order of their kinds.
#[verifier::opaque]
pub open spec fn spec_script_sections(script: CompiledScriptView) -> Seq<Section> {
    seq![
        Section { kind: TableType::MODULE_HANDLES, bytes: spec_common_section(script.version, spec_common_of_script(script), TableType::MODULE_HANDLES) },
        Section { kind: TableType::STRUCT_HANDLES, bytes: spec_common_section(script.version, spec_common_of_script(script), TableType::STRUCT_HANDLES) },
        Section { kind: TableType::FUNCTION_HANDLES, bytes: spec_common_section(script.version, spec_common_of_script(script), TableType::FUNCTION_HANDLES) },
        Section { kind: TableType::FUNCTION_INST, bytes: spec_common_section(script.version, spec_common_of_script(script), TableType::FUNCTION_INST) },
        Section { kind: TableType::SIGNATURES, bytes: spec_common_section(script.version, spec_common_of_script(script), TableType::SIGNATURES) },
        Section { kind: TableType::CONSTANT_POOL, bytes: spec_common_section(script.version, spec_common_of_script(script), TableType::CONSTANT_POOL) },
        Section { kind: TableType::IDENTIFIERS, bytes: spec_common_section(script.version, spec_common_of_script(script), TableType::IDENTIFIERS) },
        Section { kind: TableType::ADDRESS_IDENTIFIERS, bytes: spec_common_section(script.version, spec_common_of_script(script), TableType::ADDRESS_IDENTIFIERS) },
        Section { kind: TableType::METADATA, bytes: spec_common_section(script.version, spec_common_of_script(script), TableType::METADATA) },
    ]
}

/// The bytes of a module: the start of a binary with the sections of the
/// module, and as trailer the index of the handle of the module itself.
pub open spec fn spec_module_bytes(module: CompiledModuleView) -> Seq<u8> {
    spec_binary_bytes(
        module.version, spec_module_sections(module),
        spec_uleb128_bytes(module.self_module_handle_idx.0 as nat),
    )
}

/// The trailer of a script: the constraints on its type parameters, the
/// index of the signature of its parameters and its code unit.
pub open spec fn spec_script_trailer_bytes(script: CompiledScriptView) -> Seq<u8> {
    spec_ability_sets_bytes(script.version, AbilitySetPosition::FunctionTypeParameters, script.type_parameters) + (spec_uleb128_bytes(
        script.parameters.0 as nat,
    ) + spec_code_unit_bytes(script.code))
}

/// The bytes of a script: the start of a binary with the sections of the
/// script, and its trailer.
pub open spec fn spec_script_bytes(script: CompiledScriptView) -> Seq<u8> {
    spec_binary_bytes(script.version, spec_script_sections(script), spec_script_trailer_bytes(script))
}

/// Decoding the table that only modules have and that holds the bytes of
/// records gives the records.
#[verifier::rlimit(40)]
proof fn lemma_module_table_round_trip(
    binary: CursorView,
    table: Table,
    acc: CompiledModuleView,
    module: CompiledModuleView,
)
    requires
        VERSION_1 <= binary.version <= VERSION_MAX,
        0 <= table.offset + table.count <= binary.bytes.len(),
        binary.bytes.subrange(table.offset as int, table.offset + table.count)
            == spec_module_section(module, table.kind) || spec_is_common_table(table.kind),
        spec_encodable_module_records(module),
        binary.version == module.version,
    ensures
        spec_module_table(binary, table, acc) == Ok::<CompiledModuleView, PartialVMError>(
            spec_append_module(acc, module, table.kind),
        ),
{
    reveal(spec_encodable_module_records);
    reveal(spec_module_table);
    let window = spec_table_window(binary, table);
    assert(window.bytes.subrange(0, window.bytes.len() as int) =~= window.bytes);
    match table.kind {
        TableType::STRUCT_DEFS => {
            lemma_struct_def_table_round_trip(window, module.struct_defs);
        },
        TableType::STRUCT_DEF_INST => {
            lemma_struct_instantiation_table_round_trip(window, module.struct_def_instantiations);
        },
        TableType::FUNCTION_DEFS => {
            lemma_function_def_table_round_trip(window, module.function_defs);
        },
        TableType::FIELD_HANDLE => {
            lemma_field_handle_table_round_trip(window, module.field_handles);
        },
        TableType::FIELD_INST => {
            lemma_field_instantiation_table_round_trip(window, module.field_instantiations);
        },
        TableType::FRIEND_DECLS => {
            lemma_module_handle_table_round_trip(window, module.friend_decls);
        },
        _ => {},
    }
}

proof fn lemma_empty_module_section(acc: CompiledModuleView, module: CompiledModuleView, kind: TableType)
    requires
        spec_module_section(module, kind).len() == 0 || spec_is_common_table(kind),
    ensures
        spec_append_module(acc, module, kind) == acc,
{
    match kind {
        TableType::STRUCT_DEFS => {
            if module.struct_defs.len() > 0 {
                lemma_load_struct_def_length(module.struct_defs[0]);
            }
            assert(acc.struct_defs + module.struct_defs =~= acc.struct_defs);
        },
        TableType::STRUCT_DEF_INST => {
            if module.struct_def_instantiations.len() > 0 {
                lemma_load_struct_instantiation_length(module.struct_def_instantiations[0]);
            }
            assert(acc.struct_def_instantiations + module.struct_def_instantiations =~= acc.struct_def_instantiations);
        },
        TableType::FUNCTION_DEFS => {
            if module.function_defs.len() > 0 {
                lemma_load_function_def_length(module.version, module.function_defs[0]);
            }
            assert(acc.function_defs + module.function_defs =~= acc.function_defs);
        },
        TableType::FIELD_HANDLE => {
            if module.field_handles.len() > 0 {
                lemma_load_field_handle_length(module.field_handles[0]);
            }
            assert(acc.field_handles + module.field_handles =~= acc.field_handles);
        },
        TableType::FIELD_INST => {
            if module.field_instantiations.len() > 0 {
                lemma_load_field_instantiation_length(module.field_instantiations[0]);
            }
            assert(acc.field_instantiations + module.field_instantiations =~= acc.field_instantiations);
        },
        TableType::FRIEND_DECLS => {
            if module.friend_decls.len() > 0 {
                lemma_load_module_handle_length(module.friend_decls[0]);
            }
            assert(acc.friend_decls + module.friend_decls =~= acc.friend_decls);
        },
        _ => {},
    }
}

/// The module after the records of the kinds of the sections from index
/// `j` on have been appended from `module`.
pub open spec fn spec_append_module_sections(
    sections: Seq<Section>,
    j: int,
    acc: CompiledModuleView,
    module: CompiledModuleView,
) -> CompiledModuleView
    decreases sections.len() - j,
{
    if j < 0 || j >= sections.len() {
        acc
    } else {
        spec_append_module_sections(
            sections,
            j + 1,
            spec_append_module(acc, module, sections[j].kind),
            module,
        )
    }
}

/// Whether the sections of the kinds that only modules have hold the bytes
/// of the records of `module`.
pub open spec fn spec_sections_hold_module(sections: Seq<Section>, module: CompiledModuleView) -> bool {
    forall|j: int|
        0 <= j < sections.len() && spec_is_module_table((#[trigger] sections[j]).kind)
            ==> sections[j].bytes == spec_module_section(module, sections[j].kind)
}

/// Decoding the tables of the directory of sections that only modules have
/// gives the records that the sections hold.
#[verifier::rlimit(40)]
proof fn lemma_module_tables_round_trip(
    sections: Seq<Section>,
    module: CompiledModuleView,
    binary: CursorView,
    all: Seq<Table>,
    k: int,
    j: int,
    offset: int,
    acc: CompiledModuleView,
)
    requires
        0 <= j,
        0 <= k <= all.len(),
        0 <= offset,
        all.subrange(k, all.len() as int) == spec_directory(sections, j, offset),
        offset + spec_contents(sections, j).len() <= binary.bytes.len(),
        binary.bytes.len() <= u32::MAX,
        binary.bytes.subrange(offset, offset + spec_contents(sections, j).len()) == spec_contents(
            sections,
            j,
        ),
        VERSION_1 <= binary.version <= VERSION_MAX,
        spec_sections_hold_module(sections, module),
        spec_encodable_module_records(module),
        binary.version == module.version,
    ensures
        spec_build_module_tables_from(binary, all, k, acc) == Ok::<
            CompiledModuleView,
            PartialVMError,
        >(spec_append_module_sections(sections, j, acc, module)),
    decreases sections.len() - j,
{
    if j >= sections.len() {
        assert(all.subrange(k, all.len() as int).len() == 0);
    } else {
        let size = sections[j].bytes.len();
        let kind = sections[j].kind;
        let directory = spec_directory(sections, j, offset);
        lemma_contents_split(sections, j, offset, binary.bytes);
        if size == 0 {
            lemma_empty_module_section(acc, module, kind);
            lemma_module_tables_round_trip(sections, module, binary, all, k, j + 1, offset, acc);
        } else {
            let rest = spec_directory(sections, j + 1, offset + size);
            assert(directory.len() >= 1);
            assert(all.subrange(k, all.len() as int).len() == directory.len());
            assert(k < all.len());
            assert(directory[0] == all.subrange(k, all.len() as int)[0]);
            assert(all[k] == directory[0]);
            assert(all.subrange(k + 1, all.len() as int) =~= directory.subrange(
                1,
                directory.len() as int,
            ));
            assert(directory.subrange(1, directory.len() as int) =~= rest);
            lemma_module_table_round_trip(binary, all[k], acc, module);
            lemma_module_tables_round_trip(
                sections,
                module,
                binary,
                all,
                k + 1,
                j + 1,
                offset + size,
                spec_append_module(acc, module, kind),
            );
        }
    }
}

/// What holds of the sections of a module.
proof fn lemma_module_sections(module: CompiledModuleView)
    ensures
        spec_sections_are_ordered(spec_module_sections(module)),
        spec_module_sections(module).len() == 15,
        spec_sections_hold_common(module.version, spec_module_sections(module), spec_common_of_module(module)),
        spec_sections_hold_module(spec_module_sections(module), module),
        spec_encodable_module_records(module) ==> spec_sections_fit_version(
            module.version,
            spec_module_sections(module),
        ),
{
    reveal(spec_module_sections);
    reveal(spec_encodable_module_records);
}

/// What holds of the sections of a script.
proof fn lemma_script_sections(script: CompiledScriptView)
    ensures
        spec_sections_are_ordered(spec_script_sections(script)),
        spec_script_sections(script).len() == 9,
        spec_sections_hold_common(script.version, spec_script_sections(script), spec_common_of_script(script)),
        forall|j: int|
            0 <= j < spec_script_sections(script).len() ==> !spec_is_module_table(
                (#[trigger] spec_script_sections(script)[j]).kind,
            ),
        spec_sections_fit_version(script.version, spec_script_sections(script)),
{
    reveal(spec_script_sections);
}

/// Appending the records of every common table of a module to no records
/// gives the common tables of the module.
proof fn lemma_append_all_common_of_module(module: CompiledModuleView)
    ensures
        spec_append_common_sections(
            spec_module_sections(module),
            0,
            spec_no_common_tables(),
            spec_common_of_module(module),
        ) == spec_common_of_module(module),
{
    let sections = spec_module_sections(module);
    let common = spec_common_of_module(module);
    reveal(spec_module_sections);
    reveal_with_fuel(spec_append_common_sections, 17);
    let result = spec_append_common_sections(sections, 0, spec_no_common_tables(), common);
    assert(result.module_handles =~= common.module_handles);
    assert(result.struct_handles =~= common.struct_handles);
    assert(result.function_handles =~= common.function_handles);
    assert(result.function_instantiations =~= common.function_instantiations);
    assert(result.signatures =~= common.signatures);
    assert(result.constant_pool =~= common.constant_pool);
    assert(result.identifiers =~= common.identifiers);
    assert(result.address_identifiers =~= common.address_identifiers);
    assert(result.metadata =~= common.metadata);
}

/// Appending the records of every common table of a script to no records
/// gives the common tables of the script.
proof fn lemma_append_all_common_of_script(script: CompiledScriptView)
    ensures
        spec_append_common_sections(
            spec_script_sections(script),
            0,
            spec_no_common_tables(),
            spec_common_of_script(script),
        ) == spec_common_of_script(script),
{
    let sections = spec_script_sections(script);
    let common = spec_common_of_script(script);
    reveal(spec_script_sections);
    reveal_with_fuel(spec_append_common_sections, 11);
    let result = spec_append_common_sections(sections, 0, spec_no_common_tables(), common);
    assert(result.module_handles =~= common.module_handles);
    assert(result.struct_handles =~= common.struct_handles);
    assert(result.function_handles =~= common.function_handles);
    assert(result.function_instantiations =~= common.function_instantiations);
    assert(result.signatures =~= common.signatures);
    assert(result.constant_pool =~= common.constant_pool);
    assert(result.identifiers =~= common.identifiers);
    assert(result.address_identifiers =~= common.address_identifiers);
    assert(result.metadata =~= common.metadata);
}

/// Appending the records of every table that only modules have to a module
/// that has its common tables gives the module.
proof fn lemma_append_all_of_module(module: CompiledModuleView)
    ensures
        spec_append_module_sections(
            spec_module_sections(module),
            0,
            spec_module_with_common(
                spec_empty_module(module.version, module.self_module_handle_idx),
                spec_common_of_module(module),
            ),
            module,
        ) == module,
{
    let sections = spec_module_sections(module);
    let start = spec_module_with_common(
        spec_empty_module(module.version, module.self_module_handle_idx),
        spec_common_of_module(module),
    );
    reveal(spec_module_sections);
    reveal_with_fuel(spec_append_module_sections, 17);
    let result = spec_append_module_sections(sections, 0, start, module);
    assert(result.module_handles =~= module.module_handles);
    assert(result.struct_handles =~= module.struct_handles);
    assert(result.function_handles =~= module.function_handles);
    assert(result.function_instantiations =~= module.function_instantiations);
    assert(result.signatures =~= module.signatures);
    assert(result.constant_pool =~= module.constant_pool);
    assert(result.identifiers =~= module.identifiers);
    assert(result.address_identifiers =~= module.address_identifiers);
    assert(result.metadata =~= module.metadata);
    assert(result.struct_defs =~= module.struct_defs);
    assert(result.struct_def_instantiations =~= module.struct_def_instantiations);
    assert(result.function_defs =~= module.function_defs);
    assert(result.field_handles =~= module.field_handles);
    assert(result.field_instantiations =~= module.field_instantiations);
    assert(result.friend_decls =~= module.friend_decls);
}

/// Decoding the tables of a module from the contents of its sections
/// gives the module.
#[verifier::rlimit(40)]
proof fn lemma_module_build(module: CompiledModuleView)
    requires
        spec_encodable_module(module),
    ensures
        spec_build_compiled_module(
            spec_empty_module(module.version, module.self_module_handle_idx),
            CursorView::start(spec_contents(spec_module_sections(module), 0), module.version),
            spec_directory(spec_module_sections(module), 0, 0),
        ) == Ok::<CompiledModuleView, PartialVMError>(module),
{
    let sections = spec_module_sections(module);
    let common = spec_common_of_module(module);
    let contents = spec_contents(sections, 0);
    let binary = CursorView::start(contents, module.version);
    let tables = spec_directory(sections, 0, 0);
    lemma_module_sections(module);
    assert(tables.subrange(0, tables.len() as int) =~= tables);
    assert(contents.subrange(0, contents.len() as int) =~= contents);
    lemma_common_tables_round_trip(sections, common, binary, tables, 0, 0, 0, spec_no_common_tables());
    lemma_append_all_common_of_module(module);
    let start = spec_module_with_common(
        spec_empty_module(module.version, module.self_module_handle_idx),
        common,
    );
    lemma_module_tables_round_trip(sections, module, binary, tables, 0, 0, 0, start);
    lemma_append_all_of_module(module);
}

/// Round trip of modules: decoding the bytes of a module that can be
/// written gives the module.
pub proof fn lemma_module_round_trip(module: CompiledModuleView, max_version: u32)
    requires
        spec_encodable_module(module),
        max_version >= module.version,
    ensures
        spec_deserialize_compiled_module(spec_module_bytes(module), max_version) == Ok::<
            CompiledModuleView,
            PartialVMError,
        >(module),
{
    let sections = spec_module_sections(module);
    let trailer = spec_uleb128_bytes(module.self_module_handle_idx.0 as nat);
    lemma_module_sections(module);
    lemma_directory_round_trip(module.version, sections, trailer, max_version);
    let d = spec_read_directory(spec_module_bytes(module), max_version)->Ok_0;
    lemma_bounded_uleb128_round_trip(
        d.trailer,
        module.self_module_handle_idx.0 as u64,
        MODULE_HANDLE_INDEX_MAX,
    );
    lemma_module_build(module);
}

/// The directory of sections of which none is of a kind that only modules
/// have has no table of such a kind.
proof fn lemma_common_directory(sections: Seq<Section>, j: int, offset: int, k: int)
    requires
        0 <= j,
        0 <= k < spec_directory(sections, j, offset).len(),
        forall|i: int| 0 <= i < sections.len() ==> !spec_is_module_table((#[trigger] sections[i]).kind),
    ensures
        !spec_is_module_table(spec_directory(sections, j, offset)[k].kind),
    decreases sections.len() - j,
{
    if j < sections.len() {
        let size = sections[j].bytes.len();
        if size == 0 {
            lemma_common_directory(sections, j + 1, offset + size, k);
        } else if k > 0 {
            lemma_common_directory(sections, j + 1, offset + size, k - 1);
        }
    }
}

proof fn lemma_script_tables_pass(tables: Seq<Table>, i: int)
    requires
        0 <= i,
        forall|k: int| 0 <= k < tables.len() ==> !spec_is_module_table((#[trigger] tables[k]).kind),
    ensures
        spec_build_script_tables_from(tables, i) == Ok::<(), PartialVMError>(()),
    decreases tables.len() - i,
{
    if i < tables.len() {
        lemma_script_tables_pass(tables, i + 1);
    }
}

/// A script without the records of its tables.
pub open spec fn spec_script_without_tables(script: CompiledScriptView) -> CompiledScriptView {
    CompiledScriptView {
        version: script.version,
        module_handles: Seq::empty(),
        struct_handles: Seq::empty(),
        function_handles: Seq::empty(),
        function_instantiations: Seq::empty(),
        signatures: Seq::empty(),
        constant_pool: Seq::empty(),
        identifiers: Seq::empty(),
        address_identifiers: Seq::empty(),
        metadata: Seq::empty(),
        type_parameters: script.type_parameters,
        parameters: script.parameters,
        code: script.code,
    }
}

/// Decoding the tables of a script from the contents of its sections gives
/// the script.
#[verifier::rlimit(40)]
proof fn lemma_script_build(script: CompiledScriptView)
    requires
        spec_encodable_script(script),
    ensures
        spec_build_compiled_script(
            spec_script_without_tables(script),
            CursorView::start(spec_contents(spec_script_sections(script), 0), script.version),
            spec_directory(spec_script_sections(script), 0, 0),
        ) == Ok::<CompiledScriptView, PartialVMError>(script),
{
    let sections = spec_script_sections(script);
    let common = spec_common_of_script(script);
    let contents = spec_contents(sections, 0);
    let binary = CursorView::start(contents, script.version);
    let tables = spec_directory(sections, 0, 0);
    lemma_script_sections(script);
    assert(tables.subrange(0, tables.len() as int) =~= tables);
    assert(contents.subrange(0, contents.len() as int) =~= contents);
    lemma_common_tables_round_trip(sections, common, binary, tables, 0, 0, 0, spec_no_common_tables());
    lemma_append_all_common_of_script(script);
    assert forall|k: int| 0 <= k < tables.len() implies !spec_is_module_table(
        (#[trigger] tables[k]).kind,
    ) by {
        lemma_common_directory(sections, 0, 0, k);
    }
    lemma_script_tables_pass(tables, 0);
    let result = spec_script_with_common(spec_script_without_tables(script), common);
    assert(result.module_handles =~= script.module_handles);
    assert(result.struct_handles =~= script.struct_handles);
    assert(result.function_handles =~= script.function_handles);
    assert(result.function_instantiations =~= script.function_instantiations);
    assert(result.signatures =~= script.signatures);
    assert(result.constant_pool =~= script.constant_pool);
    assert(result.identifiers =~= script.identifiers);
    assert(result.address_identifiers =~= script.address_identifiers);
    assert(result.metadata =~= script.metadata);
}

/// Decoding the trailer of a script gives its parts.
proof fn lemma_script_trailer_round_trip(c: CursorView, script: CompiledScriptView)
    requires
        spec_holds(c, spec_script_trailer_bytes(script)),
        spec_encodable_script(script),
        c.version == script.version,
    ensures
        crate::abilities::spec_load_ability_sets(c, AbilitySetPosition::FunctionTypeParameters)
            == Ok::<(Seq<crate::file_format::AbilitySet>, nat), PartialVMError>(
            (script.type_parameters, spec_ability_sets_bytes(c.version, AbilitySetPosition::FunctionTypeParameters, script.type_parameters).len()),
        ),
        crate::indices::spec_load_signature_index(
            c.skip(spec_ability_sets_bytes(c.version, AbilitySetPosition::FunctionTypeParameters, script.type_parameters).len()),
        ) == Ok::<(crate::file_format::SignatureIndex, nat), PartialVMError>(
            (script.parameters, spec_uleb128_bytes(script.parameters.0 as nat).len()),
        ),
        crate::code::spec_load_code_unit(
            c.skip(
                spec_ability_sets_bytes(c.version, AbilitySetPosition::FunctionTypeParameters, script.type_parameters).len() + spec_uleb128_bytes(
                    script.parameters.0 as nat,
                ).len(),
            ),
        ) == Ok::<(crate::file_format::CodeUnitView, nat), PartialVMError>(
            (script.code, spec_code_unit_bytes(script.code).len()),
        ),
{
    let parameters = spec_ability_sets_bytes(c.version, AbilitySetPosition::FunctionTypeParameters, script.type_parameters);
    let signature = spec_uleb128_bytes(script.parameters.0 as nat);
    let code = spec_code_unit_bytes(script.code);
    lemma_holds_split(c, parameters, signature + code);
    lemma_ability_sets_round_trip(
        c,
        AbilitySetPosition::FunctionTypeParameters,
        script.type_parameters,
    );
    let t1 = c.skip(parameters.len());
    lemma_holds_split(t1, signature, code);
    lemma_bounded_uleb128_round_trip(t1, script.parameters.0 as u64, SIGNATURE_INDEX_MAX);
    let t2 = t1.skip(signature.len());
    assert(t2 == c.skip(parameters.len() + signature.len()));
    lemma_code_unit_round_trip(t2, script.code);
}

/// Round trip of scripts: decoding the bytes of a script that can be
/// written gives the script.
pub proof fn lemma_script_round_trip(script: CompiledScriptView, max_version: u32)
    requires
        spec_encodable_script(script),
        max_version >= script.version,
    ensures
        spec_deserialize_compiled_script(spec_script_bytes(script), max_version) == Ok::<
            CompiledScriptView,
            PartialVMError,
        >(script),
{
    let sections = spec_script_sections(script);
    let trailer = spec_script_trailer_bytes(script);
    lemma_script_sections(script);
    lemma_directory_round_trip(script.version, sections, trailer, max_version);
    let d = spec_read_directory(spec_script_bytes(script), max_version)->Ok_0;
    lemma_script_trailer_round_trip(d.trailer, script);
    lemma_script_build(script);
}

} // verus!
