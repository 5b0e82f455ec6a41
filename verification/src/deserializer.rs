//! The decoder of whole binaries: header, table directory, table contents
//! and trailer, for modules and for scripts.

use vstd::prelude::*;
use crate::abilities::{load_ability_sets, spec_load_ability_sets, AbilitySetPosition};
use crate::code::{load_code_unit, spec_load_code_unit};
use crate::constants::{VERSION_2, VERSION_5, VERSION_MAX};
use crate::cursor::{
    malformed_error, spec_header, spec_read_exact, CursorView, VersionedBinary, VersionedCursor,
};
use crate::definitions::{
    load_function_defs, load_struct_defs, spec_load_function_defs, spec_load_struct_defs,
};
use crate::errors::{malformed, BinaryLoaderResult, Message, PartialVMError};
use crate::file_format::{
    lemma_empty_deep_view, AddressIdentifierPool, CommonTablesView, CompiledModule,
    CompiledModuleView, CompiledScript, CompiledScriptView, CompiledUnitView, ConstantPool,
    FunctionHandle, FunctionInstantiation, IdentifierPool, Metadata, ModuleHandle,
    ModuleHandleIndex, SignaturePool, SignatureToken, StructHandle,
};
use crate::file_format_common::{Table, TableType};
use crate::handles::{
    load_field_handles, load_field_instantiations, load_function_handles,
    load_function_instantiations, load_module_handles, load_struct_handles,
    load_struct_instantiations, spec_load_field_handles, spec_load_field_instantiations,
    spec_load_function_handles, spec_load_function_instantiations, spec_load_module_handles,
    spec_load_struct_handles, spec_load_struct_instantiations,
};
use crate::indices::{
    load_module_handle_index, load_signature_index, load_table_count,
    spec_load_module_handle_index, spec_load_signature_index, spec_load_table_count,
};
use crate::invariants::{
    lemma_decoded_module_is_valid, lemma_decoded_script_is_valid, spec_valid_module,
    spec_valid_script, spec_valid_token,
};
use crate::laws::lemma_depth_guard;
use crate::pools::{
    load_address_identifiers, load_constant_pool, load_identifiers, load_metadata, load_signatures,
    spec_load_address_identifiers, spec_load_constant_pool, spec_load_identifiers,
    spec_load_metadata, spec_load_signatures,
};
use crate::signatures::{load_signature_token, spec_load_signature_token};
use crate::tables::{
    check_tables, read_tables, spec_check_tables, spec_check_tables_from, spec_read_tables,
    spec_sort_by_offset,
};

verus! {

/// Whether every table lies within `len` bytes.
pub open spec fn spec_tables_in_bounds(tables: Seq<Table>, len: int) -> bool {
    forall|i: int| 0 <= i < tables.len() ==> (#[trigger] tables[i]).offset + tables[i].count <= len
}

/// Tables that pass the check lie within the length that the check returns.
pub proof fn lemma_checked_tables_in_bounds(
    tables: Seq<Table>,
    i: int,
    current_offset: u32,
    binary_len: int,
)
    requires
        0 <= i,
    ensures
        spec_check_tables_from(tables, i, current_offset, binary_len) matches Ok(total)
            ==> current_offset <= total && (i < tables.len() ==> total <= binary_len) && forall|
            k: int,
        |
            i <= k < tables.len() ==> (#[trigger] tables[k]).offset + tables[k].count <= total,
    decreases tables.len() - i,
{
    if i < tables.len() {
        let table = tables[i];
        if spec_check_tables_from(tables, i, current_offset, binary_len) is Ok {
            lemma_checked_tables_in_bounds(
                tables,
                i + 1,
                (current_offset + table.count) as u32,
                binary_len,
            );
        }
    }
}

/// No common table has been decoded.
pub open spec fn spec_no_common_tables() -> CommonTablesView {
    CommonTablesView {
        module_handles: Seq::empty(),
        struct_handles: Seq::empty(),
        function_handles: Seq::empty(),
        function_instantiations: Seq::empty(),
        signatures: Seq::empty(),
        identifiers: Seq::empty(),
        address_identifiers: Seq::empty(),
        constant_pool: Seq::empty(),
        metadata: Seq::empty(),
    }
}

/// The common tables after the table `table` of `binary` has been decoded
/// and its records have been appended to those of its kind. A table that
/// only modules have is passed over. A metadata table wants version 5 and
/// friend declarations want version 2.
#[verifier::opaque]
pub open spec fn spec_common_table(binary: CursorView, table: Table, acc: CommonTablesView) -> Result<
    CommonTablesView,
    PartialVMError,
> {
    match table.kind {
        TableType::MODULE_HANDLES => match spec_load_module_handles(binary, table) {
            Err(e) => Err(e),
            Ok(items) => Ok(CommonTablesView { module_handles: acc.module_handles + items, ..acc }),
        },
        TableType::STRUCT_HANDLES => match spec_load_struct_handles(binary, table) {
            Err(e) => Err(e),
            Ok(items) => Ok(CommonTablesView { struct_handles: acc.struct_handles + items, ..acc }),
        },
        TableType::FUNCTION_HANDLES => match spec_load_function_handles(binary, table) {
            Err(e) => Err(e),
            Ok(items) => Ok(CommonTablesView { function_handles: acc.function_handles + items, ..acc }),
        },
        TableType::FUNCTION_INST => match spec_load_function_instantiations(binary, table) {
            Err(e) => Err(e),
            Ok(items) => Ok(CommonTablesView { function_instantiations: acc.function_instantiations + items, ..acc }),
        },
        TableType::SIGNATURES => match spec_load_signatures(binary, table) {
            Err(e) => Err(e),
            Ok(items) => Ok(CommonTablesView { signatures: acc.signatures + items, ..acc }),
        },
        TableType::CONSTANT_POOL => match spec_load_constant_pool(binary, table) {
            Err(e) => Err(e),
            Ok(items) => Ok(CommonTablesView { constant_pool: acc.constant_pool + items, ..acc }),
        },
        TableType::METADATA => {
            if binary.version < VERSION_5 {
                Err(malformed(Message::MetadataNotApplicable(binary.version)))
            } else {
                match spec_load_metadata(binary, table) {
                    Err(e) => Err(e),
                    Ok(items) => Ok(CommonTablesView { metadata: acc.metadata + items, ..acc }),
                }
            }
        },
        TableType::IDENTIFIERS => match spec_load_identifiers(binary, table) {
            Err(e) => Err(e),
            Ok(items) => Ok(CommonTablesView { identifiers: acc.identifiers + items, ..acc }),
        },
        TableType::ADDRESS_IDENTIFIERS => match spec_load_address_identifiers(binary, table) {
            Err(e) => Err(e),
            Ok(items) => Ok(CommonTablesView { address_identifiers: acc.address_identifiers + items, ..acc }),
        },
        TableType::FUNCTION_DEFS
        | TableType::STRUCT_DEFS
        | TableType::STRUCT_DEF_INST
        | TableType::FIELD_HANDLE
        | TableType::FIELD_INST => Ok(acc),
        TableType::FRIEND_DECLS => {
            if binary.version < VERSION_2 {
                Err(malformed(Message::FriendDeclarationsNotApplicable))
            } else {
                Ok(acc)
            }
        },
    }
}

/// The common tables after the tables from index `i` on have been decoded,
/// in the order of the directory.
pub open spec fn spec_build_common_tables_from(
    binary: CursorView,
    tables: Seq<Table>,
    i: int,
    acc: CommonTablesView,
) -> Result<CommonTablesView, PartialVMError>
    decreases tables.len() - i,
{
    if i < 0 || i >= tables.len() {
        Ok(acc)
    } else {
        match spec_common_table(binary, tables[i], acc) {
            Err(e) => Err(e),
            Ok(next) => spec_build_common_tables_from(binary, tables, i + 1, next),
        }
    }
}

/// Decodes the common tables of the directory `tables` and appends their
/// records to those of `common`.
#[verifier::rlimit(40)]
pub fn build_common_tables<T: CommonTables>(binary: &VersionedBinary, tables: &Vec<Table>, common: &mut T) -> (r:
    Result<(), PartialVMError>)
    requires
        spec_tables_in_bounds(tables@, binary@.bytes.len() as int),
    ensures
        match spec_build_common_tables_from(binary@, tables@, 0, old(common).common_tables()) {
            Ok(view) => r is Ok && final(common).common_tables() == view
                && final(common).without_common_tables() == old(common).without_common_tables(),
            Err(e) => r == Err::<(), PartialVMError>(e) && e.is_decoder_error(),
        },
{
    let mut i: usize = 0;
    while i < tables.len()
        invariant
            i <= tables.len(),
            spec_tables_in_bounds(tables@, binary@.bytes.len() as int),
            common.without_common_tables() == old(common).without_common_tables(),
            spec_build_common_tables_from(binary@, tables@, 0, old(common).common_tables())
                == spec_build_common_tables_from(
                binary@,
                tables@,
                i as int,
                common.common_tables(),
            ),
        decreases tables.len() - i,
    {
        let table = &tables[i];
        proof {
            reveal(spec_common_table);
        }
        match table.kind {
            TableType::MODULE_HANDLES => {
                load_module_handles(binary, table, common.get_module_handles())?;
            },
            TableType::STRUCT_HANDLES => {
                load_struct_handles(binary, table, common.get_struct_handles())?;
            },
            TableType::FUNCTION_HANDLES => {
                load_function_handles(binary, table, common.get_function_handles())?;
            },
            TableType::FUNCTION_INST => {
                load_function_instantiations(binary, table, common.get_function_instantiations())?;
            },
            TableType::SIGNATURES => {
                load_signatures(binary, table, common.get_signatures())?;
            },
            TableType::CONSTANT_POOL => {
                load_constant_pool(binary, table, common.get_constant_pool())?;
            },
            TableType::METADATA => {
                if binary.version() < VERSION_5 {
                    return Err(malformed_error(Message::MetadataNotApplicable(binary.version())));
                }
                load_metadata(binary, table, common.get_metadata())?;
            },
            TableType::IDENTIFIERS => {
                load_identifiers(binary, table, common.get_identifiers())?;
            },
            TableType::ADDRESS_IDENTIFIERS => {
                load_address_identifiers(binary, table, common.get_address_identifiers())?;
            },
            TableType::FUNCTION_DEFS
            | TableType::STRUCT_DEFS
            | TableType::STRUCT_DEF_INST
            | TableType::FIELD_HANDLE
            | TableType::FIELD_INST => {},
            TableType::FRIEND_DECLS => {
                if binary.version() < VERSION_2 {
                    return Err(malformed_error(Message::FriendDeclarationsNotApplicable));
                }
            },
        }
        i = i + 1;
    }
    Ok(())
}

/// The module after the table `table` of `binary` has been decoded and its
/// records have been appended to those of its kind. A common table is
/// passed over.
#[verifier::opaque]
pub open spec fn spec_module_table(binary: CursorView, table: Table, acc: CompiledModuleView) -> Result<
    CompiledModuleView,
    PartialVMError,
> {
    match table.kind {
        TableType::STRUCT_DEFS => match spec_load_struct_defs(binary, table) {
            Err(e) => Err(e),
            Ok(items) => Ok(CompiledModuleView { struct_defs: acc.struct_defs + items, ..acc }),
        },
        TableType::STRUCT_DEF_INST => match spec_load_struct_instantiations(binary, table) {
            Err(e) => Err(e),
            Ok(items) => Ok(CompiledModuleView { struct_def_instantiations: acc.struct_def_instantiations + items, ..acc }),
        },
        TableType::FUNCTION_DEFS => match spec_load_function_defs(binary, table) {
            Err(e) => Err(e),
            Ok(items) => Ok(CompiledModuleView { function_defs: acc.function_defs + items, ..acc }),
        },
        TableType::FIELD_HANDLE => match spec_load_field_handles(binary, table) {
            Err(e) => Err(e),
            Ok(items) => Ok(CompiledModuleView { field_handles: acc.field_handles + items, ..acc }),
        },
        TableType::FIELD_INST => match spec_load_field_instantiations(binary, table) {
            Err(e) => Err(e),
            Ok(items) => Ok(CompiledModuleView { field_instantiations: acc.field_instantiations + items, ..acc }),
        },
        TableType::FRIEND_DECLS => match spec_load_module_handles(binary, table) {
            Err(e) => Err(e),
            Ok(items) => Ok(CompiledModuleView { friend_decls: acc.friend_decls + items, ..acc }),
        },
        TableType::MODULE_HANDLES
        | TableType::STRUCT_HANDLES
        | TableType::FUNCTION_HANDLES
        | TableType::FUNCTION_INST
        | TableType::IDENTIFIERS
        | TableType::ADDRESS_IDENTIFIERS
        | TableType::CONSTANT_POOL
        | TableType::METADATA
        | TableType::SIGNATURES => Ok(acc),
    }
}

/// The module after the tables from index `i` on that only modules have
/// have been decoded, in the order of the directory.
pub open spec fn spec_build_module_tables_from(
    binary: CursorView,
    tables: Seq<Table>,
    i: int,
    acc: CompiledModuleView,
) -> Result<CompiledModuleView, PartialVMError>
    decreases tables.len() - i,
{
    if i < 0 || i >= tables.len() {
        Ok(acc)
    } else {
        match spec_module_table(binary, tables[i], acc) {
            Err(e) => Err(e),
            Ok(next) => spec_build_module_tables_from(binary, tables, i + 1, next),
        }
    }
}

/// Decodes the tables of the directory `tables` that only modules have and
/// appends their records to `module`.
#[verifier::rlimit(40)]
pub fn build_module_tables(binary: &VersionedBinary, tables: &Vec<Table>, module: &mut CompiledModule) -> (r:
    Result<(), PartialVMError>)
    requires
        spec_tables_in_bounds(tables@, binary@.bytes.len() as int),
    ensures
        match spec_build_module_tables_from(binary@, tables@, 0, old(module).deep_view()) {
            Ok(view) => r is Ok && final(module).deep_view() == view,
            Err(e) => r == Err::<(), PartialVMError>(e) && e.is_decoder_error(),
        },
{
    let mut i: usize = 0;
    while i < tables.len()
        invariant
            i <= tables.len(),
            spec_tables_in_bounds(tables@, binary@.bytes.len() as int),
            spec_build_module_tables_from(binary@, tables@, 0, old(module).deep_view())
                == spec_build_module_tables_from(binary@, tables@, i as int, module.deep_view()),
        decreases tables.len() - i,
    {
        let table = &tables[i];
        proof {
            reveal(spec_module_table);
        }
        match table.kind {
            TableType::STRUCT_DEFS => {
                load_struct_defs(binary, table, &mut module.struct_defs)?;
            },
            TableType::STRUCT_DEF_INST => {
                load_struct_instantiations(binary, table, &mut module.struct_def_instantiations)?;
            },
            TableType::FUNCTION_DEFS => {
                load_function_defs(binary, table, &mut module.function_defs)?;
            },
            TableType::FIELD_HANDLE => {
                load_field_handles(binary, table, &mut module.field_handles)?;
            },
            TableType::FIELD_INST => {
                load_field_instantiations(binary, table, &mut module.field_instantiations)?;
            },
            TableType::FRIEND_DECLS => {
                load_module_handles(binary, table, &mut module.friend_decls)?;
            },
            TableType::MODULE_HANDLES
            | TableType::STRUCT_HANDLES
            | TableType::FUNCTION_HANDLES
            | TableType::FUNCTION_INST
            | TableType::IDENTIFIERS
            | TableType::ADDRESS_IDENTIFIERS
            | TableType::CONSTANT_POOL
            | TableType::METADATA
            | TableType::SIGNATURES => {},
        }
        i = i + 1;
    }
    Ok(())
}

/// Whether only modules have tables of the kind.
pub open spec fn spec_is_module_table(kind: TableType) -> bool {
    kind == TableType::STRUCT_DEFS || kind == TableType::STRUCT_DEF_INST || kind
        == TableType::FUNCTION_DEFS || kind == TableType::FIELD_INST || kind
        == TableType::FIELD_HANDLE || kind == TableType::FRIEND_DECLS
}

/// The check of the tables of a script from index `i` on: a table that only
/// modules have is an error.
pub open spec fn spec_build_script_tables_from(tables: Seq<Table>, i: int) -> Result<
    (),
    PartialVMError,
>
    decreases tables.len() - i,
{
    if i < 0 || i >= tables.len() {
        Ok(())
    } else if spec_is_module_table(tables[i].kind) {
        Err(malformed(Message::BadTableInScript))
    } else {
        spec_build_script_tables_from(tables, i + 1)
    }
}

/// Checks that the directory of a script holds no table that only modules
/// have.
pub fn build_script_tables(binary: &VersionedBinary, tables: &Vec<Table>, script: &mut CompiledScript) -> (r:
    Result<(), PartialVMError>)
    ensures
        r == spec_build_script_tables_from(tables@, 0),
        r matches Err(e) ==> e.is_decoder_error(),
        *final(script) == *old(script),
{
    let mut i: usize = 0;
    while i < tables.len()
        invariant
            i <= tables.len(),
            spec_build_script_tables_from(tables@, 0) == spec_build_script_tables_from(
                tables@,
                i as int,
            ),
        decreases tables.len() - i,
    {
        match tables[i].kind {
            TableType::MODULE_HANDLES
            | TableType::STRUCT_HANDLES
            | TableType::FUNCTION_HANDLES
            | TableType::FUNCTION_INST
            | TableType::SIGNATURES
            | TableType::IDENTIFIERS
            | TableType::ADDRESS_IDENTIFIERS
            | TableType::CONSTANT_POOL
            | TableType::METADATA => {},
            TableType::STRUCT_DEFS
            | TableType::STRUCT_DEF_INST
            | TableType::FUNCTION_DEFS
            | TableType::FIELD_INST
            | TableType::FIELD_HANDLE
            | TableType::FRIEND_DECLS => {
                return Err(malformed_error(Message::BadTableInScript));
            },
        }
        i = i + 1;
    }
    Ok(())
}

/// What a binary holds before its trailer.
pub struct DirectoryView {
    /// The format version of the binary.
    pub version: u32,
    /// The table directory, in the order of the offsets.
    pub tables: Seq<Table>,
    /// The table contents, as a binary of their own.
    pub contents: CursorView,
    /// The reader at the trailer.
    pub trailer: CursorView,
}

/// The start of a binary: the header, the number of tables, that many
/// directory entries, which must pass the check against the number of
/// bytes that remain behind the directory, and the table contents in the
/// length that the check returns.
pub open spec fn spec_read_directory(bytes: Seq<u8>, max_version: u32) -> Result<
    DirectoryView,
    PartialVMError,
> {
    match spec_header(bytes, max_version) {
        Err(e) => Err(e),
        Ok((version, n0)) => {
            let c = CursorView::start(bytes, version).skip(n0);
            match spec_load_table_count(c) {
                Err(e) => Err(e),
                Ok((count, n1)) => match spec_read_tables(c.skip(n1), count as nat) {
                    Err(e) => Err(e),
                    Ok((tables, n2)) => match spec_check_tables(
                        tables,
                        c.skip(n1 + n2).remaining(),
                    ) {
                        Err(e) => Err(e),
                        Ok(content_len) => Ok(
                            DirectoryView {
                                version,
                                tables: spec_sort_by_offset(tables),
                                contents: CursorView::start(
                                    bytes.subrange(
                                        c.skip(n1 + n2).position,
                                        c.skip(n1 + n2).position + content_len,
                                    ),
                                    version,
                                ),
                                trailer: c.skip(n1 + n2 + content_len as nat),
                            },
                        ),
                    },
                },
            }
        },
    }
}

/// The table contents at the reader: `n` bytes, as a binary of their own.
pub open spec fn spec_read_table_contents(c: CursorView, n: nat) -> Result<
    (CursorView, nat),
    PartialVMError,
> {
    match spec_read_exact(c, n) {
        None => Err(malformed(Message::ErrorReadingTableContents)),
        Some(contents) => Ok((CursorView::start(contents, c.version), n)),
    }
}

/// Takes the `n` bytes of the table contents off the reader.
pub fn read_table_contents<'a>(cursor: &mut VersionedCursor<'a>, n: usize) -> (r: Result<
    VersionedBinary<'a>,
    PartialVMError,
>)
    ensures
        final(cursor)@.bytes == old(cursor)@.bytes,
        final(cursor)@.version == old(cursor)@.version,
        match spec_read_table_contents(old(cursor)@, n as nat) {
            Ok((contents, n)) => r is Ok && r->Ok_0@ == contents && final(cursor)@ == old(
                cursor,
            )@.skip(n),
            Err(e) => r == Err::<VersionedBinary<'a>, PartialVMError>(e) && e.is_decoder_error(),
        },
{
    match cursor.read_new_binary(n) {
        Some(table_contents) => Ok(table_contents),
        None => Err(malformed_error(Message::ErrorReadingTableContents)),
    }
}

/// Reads a binary up to its trailer: returns the reader at the trailer, the
/// checked table directory and the table contents.
#[verifier::rlimit(40)]
pub fn read_directory<'a>(binary: &'a [u8], max_binary_format_version: u32) -> (r: Result<
    (VersionedCursor<'a>, Vec<Table>, VersionedBinary<'a>),
    PartialVMError,
>)
    ensures
        match spec_read_directory(binary@, max_binary_format_version) {
            Ok(d) => r is Ok && r->Ok_0.0@ == d.trailer && r->Ok_0.1@ == d.tables && r->Ok_0.2@
                == d.contents && d.contents.version == d.version && d.trailer.version == d.version
                && spec_tables_in_bounds(d.tables, d.contents.bytes.len() as int),
            Err(e) => r == Err::<
                (VersionedCursor<'a>, Vec<Table>, VersionedBinary<'a>),
                PartialVMError,
            >(e) && e.is_decoder_error(),
        },
{
    let mut cursor = VersionedCursor::new(binary, max_binary_format_version)?;
    let table_count = load_table_count(&mut cursor)?;
    let mut tables: Vec<Table> = Vec::new();
    read_tables(&mut cursor, table_count, &mut tables)?;
    let ghost read = tables@;
    proof {
        assert(Seq::<Table>::empty() + read =~= read);
    }
    let remaining = binary.len() - cursor.position();
    let content_len = check_tables(&mut tables, remaining)?;
    proof {
        lemma_checked_tables_in_bounds(tables@, 0, 0, remaining as int);
    }
    // The check has found the contents within the bytes that remain.
    let table_contents = read_table_contents(&mut cursor, content_len as usize)?;
    Ok((cursor, tables, table_contents))
}

/// How the result `r` of decoding a whole binary follows from the outcome
/// `expected` that the format prescribes: success with a value whose model
/// is the prescribed one, or the prescribed error.
pub open spec fn yields<T: DeepView>(
    r: Result<T, PartialVMError>,
    expected: Result<T::V, PartialVMError>,
) -> bool {
    match expected {
        Ok(v) => r is Ok && r->Ok_0.deep_view() == v,
        Err(e) => r == Err::<T, PartialVMError>(e) && e.is_decoder_error(),
    }
}

/// `module` with `common` as its common tables.
pub open spec fn spec_module_with_common(module: CompiledModuleView, common: CommonTablesView) -> CompiledModuleView {
    CompiledModuleView {
        module_handles: common.module_handles,
        struct_handles: common.struct_handles,
        function_handles: common.function_handles,
        function_instantiations: common.function_instantiations,
        signatures: common.signatures,
        identifiers: common.identifiers,
        address_identifiers: common.address_identifiers,
        constant_pool: common.constant_pool,
        metadata: common.metadata,
        ..module
    }
}

/// `script` with `common` as its common tables.
pub open spec fn spec_script_with_common(script: CompiledScriptView, common: CommonTablesView) -> CompiledScriptView {
    CompiledScriptView {
        module_handles: common.module_handles,
        struct_handles: common.struct_handles,
        function_handles: common.function_handles,
        function_instantiations: common.function_instantiations,
        signatures: common.signatures,
        identifiers: common.identifiers,
        address_identifiers: common.address_identifiers,
        constant_pool: common.constant_pool,
        metadata: common.metadata,
        ..script
    }
}

/// The common tables of a module.
pub open spec fn spec_common_of_module(module: CompiledModuleView) -> CommonTablesView {
    CommonTablesView {
        module_handles: module.module_handles,
        struct_handles: module.struct_handles,
        function_handles: module.function_handles,
        function_instantiations: module.function_instantiations,
        signatures: module.signatures,
        identifiers: module.identifiers,
        address_identifiers: module.address_identifiers,
        constant_pool: module.constant_pool,
        metadata: module.metadata,
    }
}

/// The common tables of a script.
pub open spec fn spec_common_of_script(script: CompiledScriptView) -> CommonTablesView {
    CommonTablesView {
        module_handles: script.module_handles,
        struct_handles: script.struct_handles,
        function_handles: script.function_handles,
        function_instantiations: script.function_instantiations,
        signatures: script.signatures,
        identifiers: script.identifiers,
        address_identifiers: script.address_identifiers,
        constant_pool: script.constant_pool,
        metadata: script.metadata,
    }
}

/// The tables that modules and scripts share, as each of the two holds
/// them.
pub trait CommonTables: Sized {
    /// The model of the common tables.
    spec fn common_tables(&self) -> CommonTablesView;

    /// The model of the module or script without the records of its common
    /// tables.
    spec fn without_common_tables(&self) -> CompiledUnitView;

    /// The module handles, to read and to change.
    fn get_module_handles(&mut self) -> (r: &mut Vec<ModuleHandle>)
        ensures
            r.deep_view() == old(self).common_tables().module_handles,
            final(self).common_tables() == (CommonTablesView {
                module_handles: final(r).deep_view(),
                ..old(self).common_tables()
            }),
            final(self).without_common_tables() == old(self).without_common_tables(),
    ;

    /// The struct handles, to read and to change.
    fn get_struct_handles(&mut self) -> (r: &mut Vec<StructHandle>)
        ensures
            r.deep_view() == old(self).common_tables().struct_handles,
            final(self).common_tables() == (CommonTablesView {
                struct_handles: final(r).deep_view(),
                ..old(self).common_tables()
            }),
            final(self).without_common_tables() == old(self).without_common_tables(),
    ;

    /// The function handles, to read and to change.
    fn get_function_handles(&mut self) -> (r: &mut Vec<FunctionHandle>)
        ensures
            r.deep_view() == old(self).common_tables().function_handles,
            final(self).common_tables() == (CommonTablesView {
                function_handles: final(r).deep_view(),
                ..old(self).common_tables()
            }),
            final(self).without_common_tables() == old(self).without_common_tables(),
    ;

    /// The function instantiations, to read and to change.
    fn get_function_instantiations(&mut self) -> (r: &mut Vec<FunctionInstantiation>)
        ensures
            r.deep_view() == old(self).common_tables().function_instantiations,
            final(self).common_tables() == (CommonTablesView {
                function_instantiations: final(r).deep_view(),
                ..old(self).common_tables()
            }),
            final(self).without_common_tables() == old(self).without_common_tables(),
    ;

    /// The signatures, to read and to change.
    fn get_signatures(&mut self) -> (r: &mut SignaturePool)
        ensures
            r.deep_view() == old(self).common_tables().signatures,
            final(self).common_tables() == (CommonTablesView {
                signatures: final(r).deep_view(),
                ..old(self).common_tables()
            }),
            final(self).without_common_tables() == old(self).without_common_tables(),
    ;

    /// The identifiers, to read and to change.
    fn get_identifiers(&mut self) -> (r: &mut IdentifierPool)
        ensures
            r.deep_view() == old(self).common_tables().identifiers,
            final(self).common_tables() == (CommonTablesView {
                identifiers: final(r).deep_view(),
                ..old(self).common_tables()
            }),
            final(self).without_common_tables() == old(self).without_common_tables(),
    ;

    /// The addresses, to read and to change.
    fn get_address_identifiers(&mut self) -> (r: &mut AddressIdentifierPool)
        ensures
            r.deep_view() == old(self).common_tables().address_identifiers,
            final(self).common_tables() == (CommonTablesView {
                address_identifiers: final(r).deep_view(),
                ..old(self).common_tables()
            }),
            final(self).without_common_tables() == old(self).without_common_tables(),
    ;

    /// The constants, to read and to change.
    fn get_constant_pool(&mut self) -> (r: &mut ConstantPool)
        ensures
            r.deep_view() == old(self).common_tables().constant_pool,
            final(self).common_tables() == (CommonTablesView {
                constant_pool: final(r).deep_view(),
                ..old(self).common_tables()
            }),
            final(self).without_common_tables() == old(self).without_common_tables(),
    ;

    /// The metadata entries, to read and to change.
    fn get_metadata(&mut self) -> (r: &mut Vec<Metadata>)
        ensures
            r.deep_view() == old(self).common_tables().metadata,
            final(self).common_tables() == (CommonTablesView {
                metadata: final(r).deep_view(),
                ..old(self).common_tables()
            }),
            final(self).without_common_tables() == old(self).without_common_tables(),
    ;
}

impl CommonTables for CompiledScript {
    open spec fn common_tables(&self) -> CommonTablesView {
        spec_common_of_script(self.deep_view())
    }

    open spec fn without_common_tables(&self) -> CompiledUnitView {
        CompiledUnitView::Script(spec_script_with_common(self.deep_view(), spec_no_common_tables()))
    }

    fn get_module_handles(&mut self) -> (r: &mut Vec<ModuleHandle>) {
        &mut self.module_handles
    }

    fn get_struct_handles(&mut self) -> (r: &mut Vec<StructHandle>) {
        &mut self.struct_handles
    }

    fn get_function_handles(&mut self) -> (r: &mut Vec<FunctionHandle>) {
        &mut self.function_handles
    }

    fn get_function_instantiations(&mut self) -> (r: &mut Vec<FunctionInstantiation>) {
        &mut self.function_instantiations
    }

    fn get_signatures(&mut self) -> (r: &mut SignaturePool) {
        &mut self.signatures
    }

    fn get_identifiers(&mut self) -> (r: &mut IdentifierPool) {
        &mut self.identifiers
    }

    fn get_address_identifiers(&mut self) -> (r: &mut AddressIdentifierPool) {
        &mut self.address_identifiers
    }

    fn get_constant_pool(&mut self) -> (r: &mut ConstantPool) {
        &mut self.constant_pool
    }

    fn get_metadata(&mut self) -> (r: &mut Vec<Metadata>) {
        &mut self.metadata
    }
}

impl CommonTables for CompiledModule {
    open spec fn common_tables(&self) -> CommonTablesView {
        spec_common_of_module(self.deep_view())
    }

    open spec fn without_common_tables(&self) -> CompiledUnitView {
        CompiledUnitView::Module(spec_module_with_common(self.deep_view(), spec_no_common_tables()))
    }

    fn get_module_handles(&mut self) -> (r: &mut Vec<ModuleHandle>) {
        &mut self.module_handles
    }

    fn get_struct_handles(&mut self) -> (r: &mut Vec<StructHandle>) {
        &mut self.struct_handles
    }

    fn get_function_handles(&mut self) -> (r: &mut Vec<FunctionHandle>) {
        &mut self.function_handles
    }

    fn get_function_instantiations(&mut self) -> (r: &mut Vec<FunctionInstantiation>) {
        &mut self.function_instantiations
    }

    fn get_signatures(&mut self) -> (r: &mut SignaturePool) {
        &mut self.signatures
    }

    fn get_identifiers(&mut self) -> (r: &mut IdentifierPool) {
        &mut self.identifiers
    }

    fn get_address_identifiers(&mut self) -> (r: &mut AddressIdentifierPool) {
        &mut self.address_identifiers
    }

    fn get_constant_pool(&mut self) -> (r: &mut ConstantPool) {
        &mut self.constant_pool
    }

    fn get_metadata(&mut self) -> (r: &mut Vec<Metadata>) {
        &mut self.metadata
    }
}

/// The module `module` after the tables of `binary` have been decoded into
/// it: first all common tables, then all tables that only modules have,
/// each time in the order of the directory.
pub open spec fn spec_build_compiled_module(
    module: CompiledModuleView,
    binary: CursorView,
    tables: Seq<Table>,
) -> Result<CompiledModuleView, PartialVMError> {
    match spec_build_common_tables_from(binary, tables, 0, spec_common_of_module(module)) {
        Err(e) => Err(e),
        Ok(common) => spec_build_module_tables_from(
            binary,
            tables,
            0,
            spec_module_with_common(module, common),
        ),
    }
}

/// The script `script` after the tables of `binary` have been decoded into
/// it: first all common tables, then the check that no table is one that
/// only modules have.
pub open spec fn spec_build_compiled_script(
    script: CompiledScriptView,
    binary: CursorView,
    tables: Seq<Table>,
) -> Result<CompiledScriptView, PartialVMError> {
    match spec_build_common_tables_from(binary, tables, 0, spec_common_of_script(script)) {
        Err(e) => Err(e),
        Ok(common) => match spec_build_script_tables_from(tables, 0) {
            Err(e) => Err(e),
            Ok(_) => Ok(spec_script_with_common(script, common)),
        },
    }
}

/// Decodes the tables of `binary` into `module`.
pub fn build_compiled_module(module: &mut CompiledModule, binary: &VersionedBinary, tables: &Vec<Table>) -> (r:
    Result<(), PartialVMError>)
    requires
        spec_tables_in_bounds(tables@, binary@.bytes.len() as int),
    ensures
        match spec_build_compiled_module(old(module).deep_view(), binary@, tables@) {
            Ok(view) => r is Ok && final(module).deep_view() == view,
            Err(e) => r == Err::<(), PartialVMError>(e) && e.is_decoder_error(),
        },
{
    build_common_tables(binary, tables, module)?;
    build_module_tables(binary, tables, module)
}

/// Decodes the tables of `binary` into `script`.
pub fn build_compiled_script(script: &mut CompiledScript, binary: &VersionedBinary, tables: &Vec<Table>) -> (r:
    Result<(), PartialVMError>)
    requires
        spec_tables_in_bounds(tables@, binary@.bytes.len() as int),
    ensures
        match spec_build_compiled_script(old(script).deep_view(), binary@, tables@) {
            Ok(view) => r is Ok && final(script).deep_view() == view,
            Err(e) => r == Err::<(), PartialVMError>(e) && e.is_decoder_error(),
        },
{
    build_common_tables(binary, tables, script)?;
    build_script_tables(binary, tables, script)
}

/// A module of the given version and self handle without any record.
pub open spec fn spec_empty_module(version: u32, self_module_handle_idx: ModuleHandleIndex) -> CompiledModuleView {
    CompiledModuleView {
        version,
        self_module_handle_idx,
        module_handles: Seq::empty(),
        struct_handles: Seq::empty(),
        function_handles: Seq::empty(),
        function_instantiations: Seq::empty(),
        signatures: Seq::empty(),
        identifiers: Seq::empty(),
        address_identifiers: Seq::empty(),
        constant_pool: Seq::empty(),
        metadata: Seq::empty(),
        struct_defs: Seq::empty(),
        struct_def_instantiations: Seq::empty(),
        function_defs: Seq::empty(),
        field_handles: Seq::empty(),
        field_instantiations: Seq::empty(),
        friend_decls: Seq::empty(),
    }
}

/// The module that a binary holds: what comes before the trailer, the
/// trailer, which is the index of the handle of the module itself, and then
/// the tables. Bytes behind the trailer are not looked at.
pub open spec fn spec_deserialize_compiled_module(bytes: Seq<u8>, max_version: u32) -> Result<
    CompiledModuleView,
    PartialVMError,
> {
    match spec_read_directory(bytes, max_version) {
        Err(e) => Err(e),
        Ok(d) => match spec_load_module_handle_index(d.trailer) {
            Err(e) => Err(e),
            Ok((self_module_handle_idx, _)) => spec_build_compiled_module(
                spec_empty_module(d.version, self_module_handle_idx),
                d.contents,
                d.tables,
            ),
        },
    }
}

/// Decodes a module.
pub fn deserialize_compiled_module(binary: &[u8], max_binary_format_version: u32) -> (r: Result<
    CompiledModule,
    PartialVMError,
>)
    ensures
        yields(r, spec_deserialize_compiled_module(binary@, max_binary_format_version)),
        r matches Ok(module) ==> spec_valid_module(module.deep_view()),
{
    proof {
        lemma_decoded_module_is_valid(binary@, max_binary_format_version);
    }
    let (mut cursor, tables, table_contents) = read_directory(binary, max_binary_format_version)?;
    let mut module = CompiledModule {
        version: cursor.version(),
        self_module_handle_idx: load_module_handle_index(&mut cursor)?,
        module_handles: Vec::new(),
        struct_handles: Vec::new(),
        function_handles: Vec::new(),
        function_instantiations: Vec::new(),
        signatures: Vec::new(),
        identifiers: Vec::new(),
        address_identifiers: Vec::new(),
        constant_pool: Vec::new(),
        metadata: Vec::new(),
        struct_defs: Vec::new(),
        struct_def_instantiations: Vec::new(),
        function_defs: Vec::new(),
        field_handles: Vec::new(),
        field_instantiations: Vec::new(),
        friend_decls: Vec::new(),
    };
    proof {
        lemma_empty_deep_view(module.module_handles);
        lemma_empty_deep_view(module.struct_handles);
        lemma_empty_deep_view(module.function_handles);
        lemma_empty_deep_view(module.function_instantiations);
        lemma_empty_deep_view(module.signatures);
        lemma_empty_deep_view(module.identifiers);
        lemma_empty_deep_view(module.address_identifiers);
        lemma_empty_deep_view(module.constant_pool);
        lemma_empty_deep_view(module.metadata);
        lemma_empty_deep_view(module.struct_defs);
        lemma_empty_deep_view(module.struct_def_instantiations);
        lemma_empty_deep_view(module.function_defs);
        lemma_empty_deep_view(module.field_handles);
        lemma_empty_deep_view(module.field_instantiations);
        lemma_empty_deep_view(module.friend_decls);
    }
    build_compiled_module(&mut module, &table_contents, &tables)?;
    Ok(module)
}

/// The script that a binary holds: what comes before the trailer, the
/// trailer, which is made of the constraints on the type parameters, the
/// index of the signature of the parameters and the code unit, and then the
/// tables. Bytes behind the trailer are not looked at.
pub open spec fn spec_deserialize_compiled_script(bytes: Seq<u8>, max_version: u32) -> Result<
    CompiledScriptView,
    PartialVMError,
> {
    match spec_read_directory(bytes, max_version) {
        Err(e) => Err(e),
        Ok(d) => match spec_load_ability_sets(
            d.trailer,
            AbilitySetPosition::FunctionTypeParameters,
        ) {
            Err(e) => Err(e),
            Ok((type_parameters, n)) => match spec_load_signature_index(d.trailer.skip(n)) {
                Err(e) => Err(e),
                Ok((parameters, m)) => match spec_load_code_unit(d.trailer.skip(n + m)) {
                    Err(e) => Err(e),
                    Ok((code, _)) => spec_build_compiled_script(
                        CompiledScriptView {
                            version: d.version,
                            module_handles: Seq::empty(),
                            struct_handles: Seq::empty(),
                            function_handles: Seq::empty(),
                            function_instantiations: Seq::empty(),
                            signatures: Seq::empty(),
                            identifiers: Seq::empty(),
                            address_identifiers: Seq::empty(),
                            constant_pool: Seq::empty(),
                            metadata: Seq::empty(),
                            type_parameters,
                            parameters,
                            code,
                        },
                        d.contents,
                        d.tables,
                    ),
                },
            },
        },
    }
}

/// Decodes a script.
pub fn deserialize_compiled_script(binary: &[u8], max_binary_format_version: u32) -> (r: Result<
    CompiledScript,
    PartialVMError,
>)
    ensures
        yields(r, spec_deserialize_compiled_script(binary@, max_binary_format_version)),
        r matches Ok(script) ==> spec_valid_script(script.deep_view()),
{
    proof {
        lemma_decoded_script_is_valid(binary@, max_binary_format_version);
    }
    let (mut cursor, tables, table_contents) = read_directory(binary, max_binary_format_version)?;
    let mut script = CompiledScript {
        version: cursor.version(),
        type_parameters: load_ability_sets(
            &mut cursor,
            AbilitySetPosition::FunctionTypeParameters,
        )?,
        parameters: load_signature_index(&mut cursor)?,
        code: load_code_unit(&mut cursor)?,
        module_handles: Vec::new(),
        struct_handles: Vec::new(),
        function_handles: Vec::new(),
        function_instantiations: Vec::new(),
        signatures: Vec::new(),
        identifiers: Vec::new(),
        address_identifiers: Vec::new(),
        constant_pool: Vec::new(),
        metadata: Vec::new(),
    };
    proof {
        lemma_empty_deep_view(script.module_handles);
        lemma_empty_deep_view(script.struct_handles);
        lemma_empty_deep_view(script.function_handles);
        lemma_empty_deep_view(script.function_instantiations);
        lemma_empty_deep_view(script.signatures);
        lemma_empty_deep_view(script.identifiers);
        lemma_empty_deep_view(script.address_identifiers);
        lemma_empty_deep_view(script.constant_pool);
        lemma_empty_deep_view(script.metadata);
    }
    build_compiled_script(&mut script, &table_contents, &tables)?;
    Ok(script)
}

impl CompiledScript {
    /// Decodes a script of any version of the format. Whether its indices
    /// name entries of its tables is for a check that follows decoding.
    pub fn deserialize(binary: &[u8]) -> (r: BinaryLoaderResult<CompiledScript>)
        ensures
            yields(r, spec_deserialize_compiled_script(binary@, VERSION_MAX)),
            r matches Ok(script) ==> spec_valid_script(script.deep_view()),
    {
        Self::deserialize_with_max_version(binary, VERSION_MAX)
    }

    /// Decodes a script of a version up to `max_binary_format_version`.
    pub fn deserialize_with_max_version(binary: &[u8], max_binary_format_version: u32) -> (r:
        BinaryLoaderResult<CompiledScript>)
        ensures
            yields(r, spec_deserialize_compiled_script(binary@, max_binary_format_version)),
            r matches Ok(script) ==> spec_valid_script(script.deep_view()),
    {
        deserialize_compiled_script(binary, max_binary_format_version)
    }

    /// Decodes a script of any version of the format and leaves the check
    /// of its indices to the caller.
    pub fn deserialize_no_check_bounds(binary: &[u8]) -> (r: BinaryLoaderResult<CompiledScript>)
        ensures
            yields(r, spec_deserialize_compiled_script(binary@, VERSION_MAX)),
            r matches Ok(script) ==> spec_valid_script(script.deep_view()),
    {
        deserialize_compiled_script(binary, VERSION_MAX)
    }
}

impl CompiledModule {
    /// Decodes a module of any version of the format. Whether its indices
    /// name entries of its tables is for a check that follows decoding.
    pub fn deserialize(binary: &[u8]) -> (r: BinaryLoaderResult<CompiledModule>)
        ensures
            yields(r, spec_deserialize_compiled_module(binary@, VERSION_MAX)),
            r matches Ok(module) ==> spec_valid_module(module.deep_view()),
    {
        Self::deserialize_with_max_version(binary, VERSION_MAX)
    }

    /// Decodes a module of a version up to `max_binary_format_version`.
    pub fn deserialize_with_max_version(binary: &[u8], max_binary_format_version: u32) -> (r:
        BinaryLoaderResult<CompiledModule>)
        ensures
            yields(r, spec_deserialize_compiled_module(binary@, max_binary_format_version)),
            r matches Ok(module) ==> spec_valid_module(module.deep_view()),
    {
        deserialize_compiled_module(binary, max_binary_format_version)
    }

    /// Decodes a module of any version of the format and leaves the check
    /// of its indices to the caller.
    pub fn deserialize_no_check_bounds(binary: &[u8]) -> (r: BinaryLoaderResult<CompiledModule>)
        ensures
            yields(r, spec_deserialize_compiled_module(binary@, VERSION_MAX)),
            r matches Ok(module) ==> spec_valid_module(module.deep_view()),
    {
        deserialize_compiled_module(binary, VERSION_MAX)
    }
}

/// The signature token at the start of `binary`, read as a binary of the
/// highest version of the format.
pub open spec fn spec_load_signature_token_test_entry(bytes: Seq<u8>) -> Result<
    crate::file_format::SignatureTokenView,
    PartialVMError,
> {
    match spec_load_signature_token(CursorView::start(bytes, VERSION_MAX)) {
        Err(e) => Err(e),
        Ok((token, _)) => Ok(token),
    }
}

/// Decodes the signature token at the start of `binary`, which has no
/// header, as one of the highest version of the format.
pub fn load_signature_token_test_entry(binary: &[u8]) -> (r: BinaryLoaderResult<SignatureToken>)
    ensures
        yields(r, spec_load_signature_token_test_entry(binary@)),
        r matches Ok(token) ==> spec_valid_token(token.deep_view()),
{
    proof {
        lemma_depth_guard(CursorView::start(binary@, VERSION_MAX));
    }
    let mut cursor = VersionedCursor::new_for_test(VERSION_MAX, binary);
    load_signature_token(&mut cursor)
}

} // verus!
