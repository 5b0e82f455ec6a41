//! The decoders of the tables that hold handles and instantiations.

use vstd::prelude::*;
use crate::abilities::{
    load_ability_set, load_ability_sets, load_struct_type_parameters, spec_load_ability_set,
    spec_load_ability_sets, spec_load_struct_type_parameters, AbilitySetPosition,
};
use crate::constants::{
    ADDRESS_INDEX_MAX, FIELD_HANDLE_INDEX_MAX, FUNCTION_HANDLE_INDEX_MAX, MODULE_HANDLE_INDEX_MAX,
    STRUCT_DEF_INDEX_MAX,
};
use crate::cursor::{decodes, CursorView, Decoded, VersionedBinary, VersionedCursor};
use crate::errors::PartialVMError;
use crate::file_format::{
    lemma_push_deep_view, FieldHandle, FieldInstantiation, FunctionHandle, FunctionHandleView,
    FunctionInstantiation, ModuleHandle, StructDefInstantiation, StructHandle, StructHandleView,
};
use crate::file_format_common::{spec_table_window, Table};
use crate::indices::{
    load_address_identifier_index, load_field_handle_index, load_field_offset,
    load_function_handle_index, load_identifier_index, load_module_handle_index,
    load_signature_index, load_struct_def_index, spec_load_address_identifier_index,
    spec_load_field_handle_index, spec_load_field_offset, spec_load_function_handle_index,
    spec_load_identifier_index, spec_load_module_handle_index, spec_load_signature_index,
    spec_load_struct_def_index,
};
use crate::primitives::{
    cons_result, spec_extends, lemma_prepend_empty, lemma_prepend_step, lemma_read_uleb, prepend,
};

verus! {

/// The module handle at the reader: the index of its address and the index
/// of its name.
pub open spec fn spec_load_module_handle(c: CursorView) -> Decoded<ModuleHandle> {
    match spec_load_address_identifier_index(c) {
        Err(e) => Err(e),
        Ok((address, n0)) => match spec_load_identifier_index(c.skip(n0)) {
            Err(e) => Err(e),
            Ok((name, n1)) => Ok((ModuleHandle { address, name }, n0 + n1)),
        },
    }
}

/// Reads what [`spec_load_module_handle`] describes and leaves the reader behind it.
pub fn load_module_handle(cursor: &mut VersionedCursor) -> (r: Result<ModuleHandle, PartialVMError>)
    ensures
        decodes(old(cursor)@, final(cursor)@, r, spec_load_module_handle(old(cursor)@)),
        r is Ok ==> old(cursor)@.position < final(cursor)@.position,
{
    let address = load_address_identifier_index(cursor)?;
    let name = load_identifier_index(cursor)?;
    Ok(ModuleHandle { address, name })
}

/// A record occupies at least one byte.
pub proof fn lemma_load_module_handle_advances(c: CursorView)
    ensures
        spec_load_module_handle(c) matches Ok((_, n)) ==> n >= 1,
{
    lemma_read_uleb(c, ADDRESS_INDEX_MAX);
}

/// The module handles from the reader to the end of its bytes.
pub open spec fn spec_load_module_handle_sequence(c: CursorView) -> Decoded<Seq<ModuleHandle>>
    decreases c.left(),
    via spec_load_module_handle_sequence_decreases
{
    if c.at_end() {
        Ok((Seq::empty(), 0))
    } else {
        match spec_load_module_handle(c) {
            Err(e) => Err(e),
            Ok((x, n)) => cons_result(x, n, spec_load_module_handle_sequence(c.skip(n))),
        }
    }
}

#[via_fn]
proof fn spec_load_module_handle_sequence_decreases(c: CursorView) {
    lemma_load_module_handle_advances(c);
}

/// The module handles that the table `table` of `binary` holds: its bytes are
/// records from the first to the last.
pub open spec fn spec_load_module_handles(binary: CursorView, table: Table) -> Result<
    Seq<ModuleHandle>,
    PartialVMError,
> {
    match spec_load_module_handle_sequence(spec_table_window(binary, table)) {
        Err(e) => Err(e),
        Ok((items, _)) => Ok(items),
    }
}

/// Decodes the table and appends its module handles to `module_handles`. On failure
/// `module_handles` holds what it held and the records decoded before the failure.
pub fn load_module_handles(binary: &VersionedBinary, table: &Table, module_handles: &mut Vec<ModuleHandle>) -> (r: Result<
    (),
    PartialVMError,
>)
    requires
        table.offset + table.count <= binary@.bytes.len(),
    ensures
        match spec_load_module_handles(binary@, *table) {
            Ok(items) => r is Ok && final(module_handles).deep_view() == old(module_handles).deep_view() + items,
            Err(e) => r == Err::<(), PartialVMError>(e) && e.is_decoder_error(),
        },
        spec_extends(old(module_handles)@, final(module_handles)@),
{
    let total = binary.len();
    let start = table.offset as usize;
    let end = start + table.count as usize;
    let mut cursor = binary.new_cursor(start, end);
    let ghost first = cursor@;
    proof {
        assert(first == spec_table_window(binary@, *table));
        lemma_prepend_empty(module_handles.deep_view(), 0, spec_load_module_handle_sequence(first));
        assert(module_handles.deep_view() + Seq::<ModuleHandle>::empty() =~= module_handles.deep_view());
    }
    while !cursor.at_end()
        invariant
            first == spec_table_window(binary@, *table),
            spec_extends(old(module_handles)@, module_handles@),
            cursor@.bytes == first.bytes,
            cursor@.version == first.version,
            0 <= cursor@.position <= cursor@.bytes.len(),
            prepend(old(module_handles).deep_view(), 0, spec_load_module_handle_sequence(first)) == prepend(
                module_handles.deep_view(),
                cursor@.position as nat,
                spec_load_module_handle_sequence(cursor@),
            ),
        decreases cursor@.left(),
    {
        let ghost here = cursor@;
        let ghost before = *module_handles;
        let x = load_module_handle(&mut cursor)?;
        module_handles.push(x);
        proof {
            lemma_push_deep_view(before, *module_handles, module_handles@.last());
            lemma_prepend_step(
                before.deep_view(),
                here.position as nat,
                module_handles@.last().deep_view(),
                (cursor@.position - here.position) as nat,
                spec_load_module_handle_sequence(cursor@),
            );
        }
    }
    proof {
        lemma_prepend_empty(
            module_handles.deep_view(),
            cursor@.position as nat,
            spec_load_module_handle_sequence(cursor@),
        );
    }
    Ok(())
}

/// The struct handle at the reader: its module, its name, its abilities and
/// its type parameters.
pub open spec fn spec_load_struct_handle(c: CursorView) -> Decoded<StructHandleView> {
    match spec_load_module_handle_index(c) {
        Err(e) => Err(e),
        Ok((module, n0)) => match spec_load_identifier_index(c.skip(n0)) {
            Err(e) => Err(e),
            Ok((name, n1)) => match spec_load_ability_set(c.skip(n0 + n1), AbilitySetPosition::StructHandle) {
                Err(e) => Err(e),
                Ok((abilities, n2)) => match spec_load_struct_type_parameters(c.skip(n0 + n1 + n2)) {
                    Err(e) => Err(e),
                    Ok((type_parameters, n3)) => Ok((StructHandleView { module, name, abilities, type_parameters }, n0 + n1 + n2 + n3)),
                },
            },
        },
    }
}

/// Reads what [`spec_load_struct_handle`] describes and leaves the reader behind it.
pub fn load_struct_handle(cursor: &mut VersionedCursor) -> (r: Result<StructHandle, PartialVMError>)
    ensures
        decodes(old(cursor)@, final(cursor)@, r, spec_load_struct_handle(old(cursor)@)),
        r is Ok ==> old(cursor)@.position < final(cursor)@.position,
{
    let module = load_module_handle_index(cursor)?;
    let name = load_identifier_index(cursor)?;
    let abilities = load_ability_set(cursor, AbilitySetPosition::StructHandle)?;
    let type_parameters = load_struct_type_parameters(cursor)?;
    Ok(StructHandle { module, name, abilities, type_parameters })
}

/// A record occupies at least one byte.
pub proof fn lemma_load_struct_handle_advances(c: CursorView)
    ensures
        spec_load_struct_handle(c) matches Ok((_, n)) ==> n >= 1,
{
    lemma_read_uleb(c, MODULE_HANDLE_INDEX_MAX);
}

/// The struct handles from the reader to the end of its bytes.
pub open spec fn spec_load_struct_handle_sequence(c: CursorView) -> Decoded<Seq<StructHandleView>>
    decreases c.left(),
    via spec_load_struct_handle_sequence_decreases
{
    if c.at_end() {
        Ok((Seq::empty(), 0))
    } else {
        match spec_load_struct_handle(c) {
            Err(e) => Err(e),
            Ok((x, n)) => cons_result(x, n, spec_load_struct_handle_sequence(c.skip(n))),
        }
    }
}

#[via_fn]
proof fn spec_load_struct_handle_sequence_decreases(c: CursorView) {
    lemma_load_struct_handle_advances(c);
}

/// The struct handles that the table `table` of `binary` holds: its bytes are
/// records from the first to the last.
pub open spec fn spec_load_struct_handles(binary: CursorView, table: Table) -> Result<
    Seq<StructHandleView>,
    PartialVMError,
> {
    match spec_load_struct_handle_sequence(spec_table_window(binary, table)) {
        Err(e) => Err(e),
        Ok((items, _)) => Ok(items),
    }
}

/// Decodes the table and appends its struct handles to `struct_handles`. On failure
/// `struct_handles` holds what it held and the records decoded before the failure.
pub fn load_struct_handles(binary: &VersionedBinary, table: &Table, struct_handles: &mut Vec<StructHandle>) -> (r: Result<
    (),
    PartialVMError,
>)
    requires
        table.offset + table.count <= binary@.bytes.len(),
    ensures
        match spec_load_struct_handles(binary@, *table) {
            Ok(items) => r is Ok && final(struct_handles).deep_view() == old(struct_handles).deep_view() + items,
            Err(e) => r == Err::<(), PartialVMError>(e) && e.is_decoder_error(),
        },
        spec_extends(old(struct_handles)@, final(struct_handles)@),
{
    let total = binary.len();
    let start = table.offset as usize;
    let end = start + table.count as usize;
    let mut cursor = binary.new_cursor(start, end);
    let ghost first = cursor@;
    proof {
        assert(first == spec_table_window(binary@, *table));
        lemma_prepend_empty(struct_handles.deep_view(), 0, spec_load_struct_handle_sequence(first));
        assert(struct_handles.deep_view() + Seq::<StructHandleView>::empty() =~= struct_handles.deep_view());
    }
    while !cursor.at_end()
        invariant
            first == spec_table_window(binary@, *table),
            spec_extends(old(struct_handles)@, struct_handles@),
            cursor@.bytes == first.bytes,
            cursor@.version == first.version,
            0 <= cursor@.position <= cursor@.bytes.len(),
            prepend(old(struct_handles).deep_view(), 0, spec_load_struct_handle_sequence(first)) == prepend(
                struct_handles.deep_view(),
                cursor@.position as nat,
                spec_load_struct_handle_sequence(cursor@),
            ),
        decreases cursor@.left(),
    {
        let ghost here = cursor@;
        let ghost before = *struct_handles;
        let x = load_struct_handle(&mut cursor)?;
        struct_handles.push(x);
        proof {
            lemma_push_deep_view(before, *struct_handles, struct_handles@.last());
            lemma_prepend_step(
                before.deep_view(),
                here.position as nat,
                struct_handles@.last().deep_view(),
                (cursor@.position - here.position) as nat,
                spec_load_struct_handle_sequence(cursor@),
            );
        }
    }
    proof {
        lemma_prepend_empty(
            struct_handles.deep_view(),
            cursor@.position as nat,
            spec_load_struct_handle_sequence(cursor@),
        );
    }
    Ok(())
}

/// The function handle at the reader: its module, its name, the signatures
/// of its parameters and of its results, and the constraints on its type
/// parameters.
pub open spec fn spec_load_function_handle(c: CursorView) -> Decoded<FunctionHandleView> {
    match spec_load_module_handle_index(c) {
        Err(e) => Err(e),
        Ok((module, n0)) => match spec_load_identifier_index(c.skip(n0)) {
            Err(e) => Err(e),
            Ok((name, n1)) => match spec_load_signature_index(c.skip(n0 + n1)) {
                Err(e) => Err(e),
                Ok((parameters, n2)) => match spec_load_signature_index(c.skip(n0 + n1 + n2)) {
                    Err(e) => Err(e),
                    Ok((return_, n3)) => match spec_load_ability_sets(c.skip(n0 + n1 + n2 + n3), AbilitySetPosition::FunctionTypeParameters) {
                        Err(e) => Err(e),
                        Ok((type_parameters, n4)) => Ok((FunctionHandleView { module, name, parameters, return_, type_parameters }, n0 + n1 + n2 + n3 + n4)),
                    },
                },
            },
        },
    }
}

/// Reads what [`spec_load_function_handle`] describes and leaves the reader behind it.
pub fn load_function_handle(cursor: &mut VersionedCursor) -> (r: Result<FunctionHandle, PartialVMError>)
    ensures
        decodes(old(cursor)@, final(cursor)@, r, spec_load_function_handle(old(cursor)@)),
        r is Ok ==> old(cursor)@.position < final(cursor)@.position,
{
    let module = load_module_handle_index(cursor)?;
    let name = load_identifier_index(cursor)?;
    let parameters = load_signature_index(cursor)?;
    let return_ = load_signature_index(cursor)?;
    let type_parameters = load_ability_sets(cursor, AbilitySetPosition::FunctionTypeParameters)?;
    Ok(FunctionHandle { module, name, parameters, return_, type_parameters })
}

/// A record occupies at least one byte.
pub proof fn lemma_load_function_handle_advances(c: CursorView)
    ensures
        spec_load_function_handle(c) matches Ok((_, n)) ==> n >= 1,
{
    lemma_read_uleb(c, MODULE_HANDLE_INDEX_MAX);
}

/// The function handles from the reader to the end of its bytes.
pub open spec fn spec_load_function_handle_sequence(c: CursorView) -> Decoded<Seq<FunctionHandleView>>
    decreases c.left(),
    via spec_load_function_handle_sequence_decreases
{
    if c.at_end() {
        Ok((Seq::empty(), 0))
    } else {
        match spec_load_function_handle(c) {
            Err(e) => Err(e),
            Ok((x, n)) => cons_result(x, n, spec_load_function_handle_sequence(c.skip(n))),
        }
    }
}

#[via_fn]
proof fn spec_load_function_handle_sequence_decreases(c: CursorView) {
    lemma_load_function_handle_advances(c);
}

/// The function handles that the table `table` of `binary` holds: its bytes are
/// records from the first to the last.
pub open spec fn spec_load_function_handles(binary: CursorView, table: Table) -> Result<
    Seq<FunctionHandleView>,
    PartialVMError,
> {
    match spec_load_function_handle_sequence(spec_table_window(binary, table)) {
        Err(e) => Err(e),
        Ok((items, _)) => Ok(items),
    }
}

/// Decodes the table and appends its function handles to `function_handles`. On failure
/// `function_handles` holds what it held and the records decoded before the failure.
pub fn load_function_handles(binary: &VersionedBinary, table: &Table, function_handles: &mut Vec<FunctionHandle>) -> (r: Result<
    (),
    PartialVMError,
>)
    requires
        table.offset + table.count <= binary@.bytes.len(),
    ensures
        match spec_load_function_handles(binary@, *table) {
            Ok(items) => r is Ok && final(function_handles).deep_view() == old(function_handles).deep_view() + items,
            Err(e) => r == Err::<(), PartialVMError>(e) && e.is_decoder_error(),
        },
        spec_extends(old(function_handles)@, final(function_handles)@),
{
    let total = binary.len();
    let start = table.offset as usize;
    let end = start + table.count as usize;
    let mut cursor = binary.new_cursor(start, end);
    let ghost first = cursor@;
    proof {
        assert(first == spec_table_window(binary@, *table));
        lemma_prepend_empty(function_handles.deep_view(), 0, spec_load_function_handle_sequence(first));
        assert(function_handles.deep_view() + Seq::<FunctionHandleView>::empty() =~= function_handles.deep_view());
    }
    while !cursor.at_end()
        invariant
            first == spec_table_window(binary@, *table),
            spec_extends(old(function_handles)@, function_handles@),
            cursor@.bytes == first.bytes,
            cursor@.version == first.version,
            0 <= cursor@.position <= cursor@.bytes.len(),
            prepend(old(function_handles).deep_view(), 0, spec_load_function_handle_sequence(first)) == prepend(
                function_handles.deep_view(),
                cursor@.position as nat,
                spec_load_function_handle_sequence(cursor@),
            ),
        decreases cursor@.left(),
    {
        let ghost here = cursor@;
        let ghost before = *function_handles;
        let x = load_function_handle(&mut cursor)?;
        function_handles.push(x);
        proof {
            lemma_push_deep_view(before, *function_handles, function_handles@.last());
            lemma_prepend_step(
                before.deep_view(),
                here.position as nat,
                function_handles@.last().deep_view(),
                (cursor@.position - here.position) as nat,
                spec_load_function_handle_sequence(cursor@),
            );
        }
    }
    proof {
        lemma_prepend_empty(
            function_handles.deep_view(),
            cursor@.position as nat,
            spec_load_function_handle_sequence(cursor@),
        );
    }
    Ok(())
}

/// The struct instantiation at the reader: a struct definition and the
/// signature of its type arguments.
pub open spec fn spec_load_struct_instantiation(c: CursorView) -> Decoded<StructDefInstantiation> {
    match spec_load_struct_def_index(c) {
        Err(e) => Err(e),
        Ok((def, n0)) => match spec_load_signature_index(c.skip(n0)) {
            Err(e) => Err(e),
            Ok((type_parameters, n1)) => Ok((StructDefInstantiation { def, type_parameters }, n0 + n1)),
        },
    }
}

/// Reads what [`spec_load_struct_instantiation`] describes and leaves the reader behind it.
pub fn load_struct_instantiation(cursor: &mut VersionedCursor) -> (r: Result<StructDefInstantiation, PartialVMError>)
    ensures
        decodes(old(cursor)@, final(cursor)@, r, spec_load_struct_instantiation(old(cursor)@)),
        r is Ok ==> old(cursor)@.position < final(cursor)@.position,
{
    let def = load_struct_def_index(cursor)?;
    let type_parameters = load_signature_index(cursor)?;
    Ok(StructDefInstantiation { def, type_parameters })
}

/// A record occupies at least one byte.
pub proof fn lemma_load_struct_instantiation_advances(c: CursorView)
    ensures
        spec_load_struct_instantiation(c) matches Ok((_, n)) ==> n >= 1,
{
    lemma_read_uleb(c, STRUCT_DEF_INDEX_MAX);
}

/// The struct instantiations from the reader to the end of its bytes.
pub open spec fn spec_load_struct_instantiation_sequence(c: CursorView) -> Decoded<Seq<StructDefInstantiation>>
    decreases c.left(),
    via spec_load_struct_instantiation_sequence_decreases
{
    if c.at_end() {
        Ok((Seq::empty(), 0))
    } else {
        match spec_load_struct_instantiation(c) {
            Err(e) => Err(e),
            Ok((x, n)) => cons_result(x, n, spec_load_struct_instantiation_sequence(c.skip(n))),
        }
    }
}

#[via_fn]
proof fn spec_load_struct_instantiation_sequence_decreases(c: CursorView) {
    lemma_load_struct_instantiation_advances(c);
}

/// The struct instantiations that the table `table` of `binary` holds: its bytes are
/// records from the first to the last.
pub open spec fn spec_load_struct_instantiations(binary: CursorView, table: Table) -> Result<
    Seq<StructDefInstantiation>,
    PartialVMError,
> {
    match spec_load_struct_instantiation_sequence(spec_table_window(binary, table)) {
        Err(e) => Err(e),
        Ok((items, _)) => Ok(items),
    }
}

/// Decodes the table and appends its struct instantiations to `struct_insts`. On failure
/// `struct_insts` holds what it held and the records decoded before the failure.
pub fn load_struct_instantiations(binary: &VersionedBinary, table: &Table, struct_insts: &mut Vec<StructDefInstantiation>) -> (r: Result<
    (),
    PartialVMError,
>)
    requires
        table.offset + table.count <= binary@.bytes.len(),
    ensures
        match spec_load_struct_instantiations(binary@, *table) {
            Ok(items) => r is Ok && final(struct_insts).deep_view() == old(struct_insts).deep_view() + items,
            Err(e) => r == Err::<(), PartialVMError>(e) && e.is_decoder_error(),
        },
        spec_extends(old(struct_insts)@, final(struct_insts)@),
{
    let total = binary.len();
    let start = table.offset as usize;
    let end = start + table.count as usize;
    let mut cursor = binary.new_cursor(start, end);
    let ghost first = cursor@;
    proof {
        assert(first == spec_table_window(binary@, *table));
        lemma_prepend_empty(struct_insts.deep_view(), 0, spec_load_struct_instantiation_sequence(first));
        assert(struct_insts.deep_view() + Seq::<StructDefInstantiation>::empty() =~= struct_insts.deep_view());
    }
    while !cursor.at_end()
        invariant
            first == spec_table_window(binary@, *table),
            spec_extends(old(struct_insts)@, struct_insts@),
            cursor@.bytes == first.bytes,
            cursor@.version == first.version,
            0 <= cursor@.position <= cursor@.bytes.len(),
            prepend(old(struct_insts).deep_view(), 0, spec_load_struct_instantiation_sequence(first)) == prepend(
                struct_insts.deep_view(),
                cursor@.position as nat,
                spec_load_struct_instantiation_sequence(cursor@),
            ),
        decreases cursor@.left(),
    {
        let ghost here = cursor@;
        let ghost before = *struct_insts;
        let x = load_struct_instantiation(&mut cursor)?;
        struct_insts.push(x);
        proof {
            lemma_push_deep_view(before, *struct_insts, struct_insts@.last());
            lemma_prepend_step(
                before.deep_view(),
                here.position as nat,
                struct_insts@.last().deep_view(),
                (cursor@.position - here.position) as nat,
                spec_load_struct_instantiation_sequence(cursor@),
            );
        }
    }
    proof {
        lemma_prepend_empty(
            struct_insts.deep_view(),
            cursor@.position as nat,
            spec_load_struct_instantiation_sequence(cursor@),
        );
    }
    Ok(())
}

/// The function instantiation at the reader: a function handle and the
/// signature of its type arguments.
pub open spec fn spec_load_function_instantiation(c: CursorView) -> Decoded<FunctionInstantiation> {
    match spec_load_function_handle_index(c) {
        Err(e) => Err(e),
        Ok((handle, n0)) => match spec_load_signature_index(c.skip(n0)) {
            Err(e) => Err(e),
            Ok((type_parameters, n1)) => Ok((FunctionInstantiation { handle, type_parameters }, n0 + n1)),
        },
    }
}

/// Reads what [`spec_load_function_instantiation`] describes and leaves the reader behind it.
pub fn load_function_instantiation(cursor: &mut VersionedCursor) -> (r: Result<FunctionInstantiation, PartialVMError>)
    ensures
        decodes(old(cursor)@, final(cursor)@, r, spec_load_function_instantiation(old(cursor)@)),
        r is Ok ==> old(cursor)@.position < final(cursor)@.position,
{
    let handle = load_function_handle_index(cursor)?;
    let type_parameters = load_signature_index(cursor)?;
    Ok(FunctionInstantiation { handle, type_parameters })
}

/// A record occupies at least one byte.
pub proof fn lemma_load_function_instantiation_advances(c: CursorView)
    ensures
        spec_load_function_instantiation(c) matches Ok((_, n)) ==> n >= 1,
{
    lemma_read_uleb(c, FUNCTION_HANDLE_INDEX_MAX);
}

/// The function instantiations from the reader to the end of its bytes.
pub open spec fn spec_load_function_instantiation_sequence(c: CursorView) -> Decoded<Seq<FunctionInstantiation>>
    decreases c.left(),
    via spec_load_function_instantiation_sequence_decreases
{
    if c.at_end() {
        Ok((Seq::empty(), 0))
    } else {
        match spec_load_function_instantiation(c) {
            Err(e) => Err(e),
            Ok((x, n)) => cons_result(x, n, spec_load_function_instantiation_sequence(c.skip(n))),
        }
    }
}

#[via_fn]
proof fn spec_load_function_instantiation_sequence_decreases(c: CursorView) {
    lemma_load_function_instantiation_advances(c);
}

/// The function instantiations that the table `table` of `binary` holds: its bytes are
/// records from the first to the last.
pub open spec fn spec_load_function_instantiations(binary: CursorView, table: Table) -> Result<
    Seq<FunctionInstantiation>,
    PartialVMError,
> {
    match spec_load_function_instantiation_sequence(spec_table_window(binary, table)) {
        Err(e) => Err(e),
        Ok((items, _)) => Ok(items),
    }
}

/// Decodes the table and appends its function instantiations to `func_insts`. On failure
/// `func_insts` holds what it held and the records decoded before the failure.
pub fn load_function_instantiations(binary: &VersionedBinary, table: &Table, func_insts: &mut Vec<FunctionInstantiation>) -> (r: Result<
    (),
    PartialVMError,
>)
    requires
        table.offset + table.count <= binary@.bytes.len(),
    ensures
        match spec_load_function_instantiations(binary@, *table) {
            Ok(items) => r is Ok && final(func_insts).deep_view() == old(func_insts).deep_view() + items,
            Err(e) => r == Err::<(), PartialVMError>(e) && e.is_decoder_error(),
        },
        spec_extends(old(func_insts)@, final(func_insts)@),
{
    let total = binary.len();
    let start = table.offset as usize;
    let end = start + table.count as usize;
    let mut cursor = binary.new_cursor(start, end);
    let ghost first = cursor@;
    proof {
        assert(first == spec_table_window(binary@, *table));
        lemma_prepend_empty(func_insts.deep_view(), 0, spec_load_function_instantiation_sequence(first));
        assert(func_insts.deep_view() + Seq::<FunctionInstantiation>::empty() =~= func_insts.deep_view());
    }
    while !cursor.at_end()
        invariant
            first == spec_table_window(binary@, *table),
            spec_extends(old(func_insts)@, func_insts@),
            cursor@.bytes == first.bytes,
            cursor@.version == first.version,
            0 <= cursor@.position <= cursor@.bytes.len(),
            prepend(old(func_insts).deep_view(), 0, spec_load_function_instantiation_sequence(first)) == prepend(
                func_insts.deep_view(),
                cursor@.position as nat,
                spec_load_function_instantiation_sequence(cursor@),
            ),
        decreases cursor@.left(),
    {
        let ghost here = cursor@;
        let ghost before = *func_insts;
        let x = load_function_instantiation(&mut cursor)?;
        func_insts.push(x);
        proof {
            lemma_push_deep_view(before, *func_insts, func_insts@.last());
            lemma_prepend_step(
                before.deep_view(),
                here.position as nat,
                func_insts@.last().deep_view(),
                (cursor@.position - here.position) as nat,
                spec_load_function_instantiation_sequence(cursor@),
            );
        }
    }
    proof {
        lemma_prepend_empty(
            func_insts.deep_view(),
            cursor@.position as nat,
            spec_load_function_instantiation_sequence(cursor@),
        );
    }
    Ok(())
}

/// The field handle at the reader: a struct definition and the position of
/// the field in it.
pub open spec fn spec_load_field_handle(c: CursorView) -> Decoded<FieldHandle> {
    match spec_load_struct_def_index(c) {
        Err(e) => Err(e),
        Ok((owner, n0)) => match spec_load_field_offset(c.skip(n0)) {
            Err(e) => Err(e),
            Ok((field, n1)) => Ok((FieldHandle { owner, field }, n0 + n1)),
        },
    }
}

/// Reads what [`spec_load_field_handle`] describes and leaves the reader behind it.
pub fn load_field_handle(cursor: &mut VersionedCursor) -> (r: Result<FieldHandle, PartialVMError>)
    ensures
        decodes(old(cursor)@, final(cursor)@, r, spec_load_field_handle(old(cursor)@)),
        r is Ok ==> old(cursor)@.position < final(cursor)@.position,
{
    let owner = load_struct_def_index(cursor)?;
    let field = load_field_offset(cursor)?;
    Ok(FieldHandle { owner, field })
}

/// A record occupies at least one byte.
pub proof fn lemma_load_field_handle_advances(c: CursorView)
    ensures
        spec_load_field_handle(c) matches Ok((_, n)) ==> n >= 1,
{
    lemma_read_uleb(c, STRUCT_DEF_INDEX_MAX);
}

/// The field handles from the reader to the end of its bytes.
pub open spec fn spec_load_field_handle_sequence(c: CursorView) -> Decoded<Seq<FieldHandle>>
    decreases c.left(),
    via spec_load_field_handle_sequence_decreases
{
    if c.at_end() {
        Ok((Seq::empty(), 0))
    } else {
        match spec_load_field_handle(c) {
            Err(e) => Err(e),
            Ok((x, n)) => cons_result(x, n, spec_load_field_handle_sequence(c.skip(n))),
        }
    }
}

#[via_fn]
proof fn spec_load_field_handle_sequence_decreases(c: CursorView) {
    lemma_load_field_handle_advances(c);
}

/// The field handles that the table `table` of `binary` holds: its bytes are
/// records from the first to the last.
pub open spec fn spec_load_field_handles(binary: CursorView, table: Table) -> Result<
    Seq<FieldHandle>,
    PartialVMError,
> {
    match spec_load_field_handle_sequence(spec_table_window(binary, table)) {
        Err(e) => Err(e),
        Ok((items, _)) => Ok(items),
    }
}

/// Decodes the table and appends its field handles to `field_handles`. On failure
/// `field_handles` holds what it held and the records decoded before the failure.
pub fn load_field_handles(binary: &VersionedBinary, table: &Table, field_handles: &mut Vec<FieldHandle>) -> (r: Result<
    (),
    PartialVMError,
>)
    requires
        table.offset + table.count <= binary@.bytes.len(),
    ensures
        match spec_load_field_handles(binary@, *table) {
            Ok(items) => r is Ok && final(field_handles).deep_view() == old(field_handles).deep_view() + items,
            Err(e) => r == Err::<(), PartialVMError>(e) && e.is_decoder_error(),
        },
        spec_extends(old(field_handles)@, final(field_handles)@),
{
    let total = binary.len();
    let start = table.offset as usize;
    let end = start + table.count as usize;
    let mut cursor = binary.new_cursor(start, end);
    let ghost first = cursor@;
    proof {
        assert(first == spec_table_window(binary@, *table));
        lemma_prepend_empty(field_handles.deep_view(), 0, spec_load_field_handle_sequence(first));
        assert(field_handles.deep_view() + Seq::<FieldHandle>::empty() =~= field_handles.deep_view());
    }
    while !cursor.at_end()
        invariant
            first == spec_table_window(binary@, *table),
            spec_extends(old(field_handles)@, field_handles@),
            cursor@.bytes == first.bytes,
            cursor@.version == first.version,
            0 <= cursor@.position <= cursor@.bytes.len(),
            prepend(old(field_handles).deep_view(), 0, spec_load_field_handle_sequence(first)) == prepend(
                field_handles.deep_view(),
                cursor@.position as nat,
                spec_load_field_handle_sequence(cursor@),
            ),
        decreases cursor@.left(),
    {
        let ghost here = cursor@;
        let ghost before = *field_handles;
        let x = load_field_handle(&mut cursor)?;
        field_handles.push(x);
        proof {
            lemma_push_deep_view(before, *field_handles, field_handles@.last());
            lemma_prepend_step(
                before.deep_view(),
                here.position as nat,
                field_handles@.last().deep_view(),
                (cursor@.position - here.position) as nat,
                spec_load_field_handle_sequence(cursor@),
            );
        }
    }
    proof {
        lemma_prepend_empty(
            field_handles.deep_view(),
            cursor@.position as nat,
            spec_load_field_handle_sequence(cursor@),
        );
    }
    Ok(())
}

/// The field instantiation at the reader: a field handle and the signature
/// of the type arguments of its struct.
pub open spec fn spec_load_field_instantiation(c: CursorView) -> Decoded<FieldInstantiation> {
    match spec_load_field_handle_index(c) {
        Err(e) => Err(e),
        Ok((handle, n0)) => match spec_load_signature_index(c.skip(n0)) {
            Err(e) => Err(e),
            Ok((type_parameters, n1)) => Ok((FieldInstantiation { handle, type_parameters }, n0 + n1)),
        },
    }
}

/// Reads what [`spec_load_field_instantiation`] describes and leaves the reader behind it.
pub fn load_field_instantiation(cursor: &mut VersionedCursor) -> (r: Result<FieldInstantiation, PartialVMError>)
    ensures
        decodes(old(cursor)@, final(cursor)@, r, spec_load_field_instantiation(old(cursor)@)),
        r is Ok ==> old(cursor)@.position < final(cursor)@.position,
{
    let handle = load_field_handle_index(cursor)?;
    let type_parameters = load_signature_index(cursor)?;
    Ok(FieldInstantiation { handle, type_parameters })
}

/// A record occupies at least one byte.
pub proof fn lemma_load_field_instantiation_advances(c: CursorView)
    ensures
        spec_load_field_instantiation(c) matches Ok((_, n)) ==> n >= 1,
{
    lemma_read_uleb(c, FIELD_HANDLE_INDEX_MAX);
}

/// The field instantiations from the reader to the end of its bytes.
pub open spec fn spec_load_field_instantiation_sequence(c: CursorView) -> Decoded<Seq<FieldInstantiation>>
    decreases c.left(),
    via spec_load_field_instantiation_sequence_decreases
{
    if c.at_end() {
        Ok((Seq::empty(), 0))
    } else {
        match spec_load_field_instantiation(c) {
            Err(e) => Err(e),
            Ok((x, n)) => cons_result(x, n, spec_load_field_instantiation_sequence(c.skip(n))),
        }
    }
}

#[via_fn]
proof fn spec_load_field_instantiation_sequence_decreases(c: CursorView) {
    lemma_load_field_instantiation_advances(c);
}

/// The field instantiations that the table `table` of `binary` holds: its bytes are
/// records from the first to the last.
pub open spec fn spec_load_field_instantiations(binary: CursorView, table: Table) -> Result<
    Seq<FieldInstantiation>,
    PartialVMError,
> {
    match spec_load_field_instantiation_sequence(spec_table_window(binary, table)) {
        Err(e) => Err(e),
        Ok((items, _)) => Ok(items),
    }
}

/// Decodes the table and appends its field instantiations to `field_insts`. On failure
/// `field_insts` holds what it held and the records decoded before the failure.
pub fn load_field_instantiations(binary: &VersionedBinary, table: &Table, field_insts: &mut Vec<FieldInstantiation>) -> (r: Result<
    (),
    PartialVMError,
>)
    requires
        table.offset + table.count <= binary@.bytes.len(),
    ensures
        match spec_load_field_instantiations(binary@, *table) {
            Ok(items) => r is Ok && final(field_insts).deep_view() == old(field_insts).deep_view() + items,
            Err(e) => r == Err::<(), PartialVMError>(e) && e.is_decoder_error(),
        },
        spec_extends(old(field_insts)@, final(field_insts)@),
{
    let total = binary.len();
    let start = table.offset as usize;
    let end = start + table.count as usize;
    let mut cursor = binary.new_cursor(start, end);
    let ghost first = cursor@;
    proof {
        assert(first == spec_table_window(binary@, *table));
        lemma_prepend_empty(field_insts.deep_view(), 0, spec_load_field_instantiation_sequence(first));
        assert(field_insts.deep_view() + Seq::<FieldInstantiation>::empty() =~= field_insts.deep_view());
    }
    while !cursor.at_end()
        invariant
            first == spec_table_window(binary@, *table),
            spec_extends(old(field_insts)@, field_insts@),
            cursor@.bytes == first.bytes,
            cursor@.version == first.version,
            0 <= cursor@.position <= cursor@.bytes.len(),
            prepend(old(field_insts).deep_view(), 0, spec_load_field_instantiation_sequence(first)) == prepend(
                field_insts.deep_view(),
                cursor@.position as nat,
                spec_load_field_instantiation_sequence(cursor@),
            ),
        decreases cursor@.left(),
    {
        let ghost here = cursor@;
        let ghost before = *field_insts;
        let x = load_field_instantiation(&mut cursor)?;
        field_insts.push(x);
        proof {
            lemma_push_deep_view(before, *field_insts, field_insts@.last());
            lemma_prepend_step(
                before.deep_view(),
                here.position as nat,
                field_insts@.last().deep_view(),
                (cursor@.position - here.position) as nat,
                spec_load_field_instantiation_sequence(cursor@),
            );
        }
    }
    proof {
        lemma_prepend_empty(
            field_insts.deep_view(),
            cursor@.position as nat,
            spec_load_field_instantiation_sequence(cursor@),
        );
    }
    Ok(())
}

} // verus!
