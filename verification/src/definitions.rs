//! The decoders of the definitions of a module: its structs and its
//! functions.

use vstd::prelude::*;
use crate::code::{load_code_unit, spec_load_code_unit};
use crate::constants::{FUNCTION_HANDLE_INDEX_MAX, STRUCT_HANDLE_INDEX_MAX, VERSION_1, VERSION_5};
use crate::cursor::{
    decodes, malformed_error, spec_read_u8, CursorView, Decoded, VersionedBinary, VersionedCursor,
};
use crate::errors::{malformed, Message, PartialVMError, StatusCode};
use crate::file_format::{
    lemma_empty_deep_view, lemma_push_deep_view, CodeUnitView, FieldDefinition,
    FieldDefinitionView, FunctionDefinition, FunctionDefinitionView, StructDefinition,
    StructDefinitionIndex, StructDefinitionView, StructFieldInformation,
    StructFieldInformationView, TypeSignature, Visibility, FUNCTION_DEPRECATED_PUBLIC_BIT,
    FUNCTION_ENTRY, FUNCTION_NATIVE, VISIBILITY_DEPRECATED_SCRIPT,
};
use crate::file_format_common::{spec_table_window, SerializedNativeStructFlag, Table};
use crate::indices::{
    load_acquires_count, load_field_count, load_function_handle_index, load_identifier_index,
    load_struct_def_index, load_struct_handle_index, spec_load_acquires_count,
    spec_load_field_count, spec_load_function_handle_index, spec_load_identifier_index,
    spec_load_struct_def_index, spec_load_struct_handle_index,
};
use crate::primitives::{
    cons_result, spec_extends, lemma_prepend_empty, lemma_prepend_step, lemma_read_uleb, prepend,
};
use crate::signatures::{load_signature_token, shift, spec_load_signature_token};

verus! {

/// The field at the reader: the index of its name and its type.
pub open spec fn spec_load_field_def(c: CursorView) -> Decoded<FieldDefinitionView> {
    match spec_load_identifier_index(c) {
        Err(e) => Err(e),
        Ok((name, n)) => match spec_load_signature_token(c.skip(n)) {
            Err(e) => Err(e),
            Ok((signature, m)) => Ok((FieldDefinitionView { name, signature }, n + m)),
        },
    }
}

/// Reads what [`spec_load_field_def`] describes and leaves the reader behind it.
pub fn load_field_def(cursor: &mut VersionedCursor) -> (r: Result<FieldDefinition, PartialVMError>)
    ensures
        decodes(old(cursor)@, final(cursor)@, r, spec_load_field_def(old(cursor)@)),
        r is Ok ==> old(cursor)@.position < final(cursor)@.position,
{
    let name = load_identifier_index(cursor)?;
    let signature = load_signature_token(cursor)?;
    Ok(FieldDefinition { name, signature: TypeSignature(signature) })
}

/// `count` fields, one after the other.
pub open spec fn spec_field_def_list(c: CursorView, count: nat) -> Decoded<Seq<FieldDefinitionView>>
    decreases count,
{
    if count == 0 {
        Ok((Seq::empty(), 0))
    } else {
        match spec_load_field_def(c) {
            Err(e) => Err(e),
            Ok((x, n)) => cons_result(x, n, spec_field_def_list(c.skip(n), (count - 1) as nat)),
        }
    }
}

/// A count and that many fields.
pub open spec fn spec_load_field_defs(c: CursorView) -> Decoded<Seq<FieldDefinitionView>> {
    match spec_load_field_count(c) {
        Err(e) => Err(e),
        Ok((len, n)) => shift(n, spec_field_def_list(c.skip(n), len as nat)),
    }
}

/// Reads what [`spec_load_field_defs`] describes and leaves the reader behind it.
pub fn load_field_defs(cursor: &mut VersionedCursor) -> (r: Result<Vec<FieldDefinition>, PartialVMError>)
    ensures
        decodes(old(cursor)@, final(cursor)@, r, spec_load_field_defs(old(cursor)@)),
        r is Ok ==> old(cursor)@.position < final(cursor)@.position,
{
    let len = load_field_count(cursor)?;
    let ghost first = cursor@;
    let ghost n0 = (first.position - old(cursor)@.position) as nat;
    let mut fields: Vec<FieldDefinition> = Vec::new();
    let mut i: u64 = 0;
    proof {
        lemma_empty_deep_view(fields);
        lemma_prepend_empty(fields.deep_view(), 0, spec_field_def_list(first, len as nat));
    }
    while i < len
        invariant
            i <= len,
            first == old(cursor)@.skip(n0),
            spec_load_field_count(old(cursor)@) == Ok::<(u64, nat), PartialVMError>((len, n0)),
            cursor@.bytes == first.bytes,
            cursor@.version == first.version,
            0 <= first.position <= cursor@.position <= cursor@.bytes.len(),
            spec_field_def_list(first, len as nat) == prepend(
                fields.deep_view(),
                (cursor@.position - first.position) as nat,
                spec_field_def_list(cursor@, (len - i) as nat),
            ),
        decreases len - i,
    {
        let ghost here = cursor@;
        let ghost before = fields;
        let x = load_field_def(cursor)?;
        fields.push(x);
        i = i + 1;
        proof {
            lemma_push_deep_view(before, fields, fields@.last());
            lemma_prepend_step(
                before.deep_view(),
                (here.position - first.position) as nat,
                fields@.last().deep_view(),
                (cursor@.position - here.position) as nat,
                spec_field_def_list(cursor@, (len - i) as nat),
            );
        }
    }
    proof {
        lemma_prepend_empty(
            fields.deep_view(),
            (cursor@.position - first.position) as nat,
            spec_field_def_list(cursor@, 0),
        );
    }
    Ok(fields)
}

/// The struct definition at the reader: the index of its handle, a flag,
/// and its fields where the flag says that it declares them.
pub open spec fn spec_load_struct_def(c: CursorView) -> Decoded<StructDefinitionView> {
    match spec_load_struct_handle_index(c) {
        Err(e) => Err(e),
        Ok((struct_handle, n)) => match spec_read_u8(c.skip(n)) {
            None => Err(malformed(Message::InvalidFieldInfoInStruct)),
            Some(byte) => match SerializedNativeStructFlag::spec_from_u8(byte) {
                Err(e) => Err(e),
                Ok(SerializedNativeStructFlag::NATIVE) => Ok(
                    (
                        StructDefinitionView {
                            struct_handle,
                            field_information: StructFieldInformationView::Native,
                        },
                        n + 1,
                    ),
                ),
                Ok(SerializedNativeStructFlag::DECLARED) => match spec_load_field_defs(
                    c.skip(n + 1),
                ) {
                    Err(e) => Err(e),
                    Ok((fields, m)) => Ok(
                        (
                            StructDefinitionView {
                                struct_handle,
                                field_information: StructFieldInformationView::Declared(fields),
                            },
                            n + 1 + m,
                        ),
                    ),
                },
            },
        },
    }
}

/// Reads what [`spec_load_struct_def`] describes and leaves the reader behind it.
pub fn load_struct_def(cursor: &mut VersionedCursor) -> (r: Result<
    StructDefinition,
    PartialVMError,
>)
    ensures
        decodes(old(cursor)@, final(cursor)@, r, spec_load_struct_def(old(cursor)@)),
        r is Ok ==> old(cursor)@.position < final(cursor)@.position,
{
    let struct_handle = load_struct_handle_index(cursor)?;
    let field_information_flag = match cursor.read_u8() {
        Some(byte) => SerializedNativeStructFlag::from_u8(byte)?,
        None => {
            return Err(malformed_error(Message::InvalidFieldInfoInStruct));
        },
    };
    let field_information = match field_information_flag {
        SerializedNativeStructFlag::NATIVE => StructFieldInformation::Native,
        SerializedNativeStructFlag::DECLARED => {
            let fields = load_field_defs(cursor)?;
            StructFieldInformation::Declared(fields)
        },
    };
    Ok(StructDefinition { struct_handle, field_information })
}

/// A record occupies at least one byte.
pub proof fn lemma_load_struct_def_advances(c: CursorView)
    ensures
        spec_load_struct_def(c) matches Ok((_, n)) ==> n >= 1,
{
    lemma_read_uleb(c, STRUCT_HANDLE_INDEX_MAX);
}

/// The struct definitions from the reader to the end of its bytes.
pub open spec fn spec_load_struct_def_sequence(c: CursorView) -> Decoded<Seq<StructDefinitionView>>
    decreases c.left(),
    via spec_load_struct_def_sequence_decreases
{
    if c.at_end() {
        Ok((Seq::empty(), 0))
    } else {
        match spec_load_struct_def(c) {
            Err(e) => Err(e),
            Ok((x, n)) => cons_result(x, n, spec_load_struct_def_sequence(c.skip(n))),
        }
    }
}

#[via_fn]
proof fn spec_load_struct_def_sequence_decreases(c: CursorView) {
    lemma_load_struct_def_advances(c);
}

/// The struct definitions that the table `table` of `binary` holds: its bytes are
/// records from the first to the last.
pub open spec fn spec_load_struct_defs(binary: CursorView, table: Table) -> Result<
    Seq<StructDefinitionView>,
    PartialVMError,
> {
    match spec_load_struct_def_sequence(spec_table_window(binary, table)) {
        Err(e) => Err(e),
        Ok((items, _)) => Ok(items),
    }
}

/// Decodes the table and appends its struct definitions to `struct_defs`. On failure
/// `struct_defs` holds what it held and the records decoded before the failure.
pub fn load_struct_defs(binary: &VersionedBinary, table: &Table, struct_defs: &mut Vec<StructDefinition>) -> (r: Result<
    (),
    PartialVMError,
>)
    requires
        table.offset + table.count <= binary@.bytes.len(),
    ensures
        match spec_load_struct_defs(binary@, *table) {
            Ok(items) => r is Ok && final(struct_defs).deep_view() == old(struct_defs).deep_view() + items,
            Err(e) => r == Err::<(), PartialVMError>(e) && e.is_decoder_error(),
        },
        spec_extends(old(struct_defs)@, final(struct_defs)@),
{
    let total = binary.len();
    let start = table.offset as usize;
    let end = start + table.count as usize;
    let mut cursor = binary.new_cursor(start, end);
    let ghost first = cursor@;
    proof {
        assert(first == spec_table_window(binary@, *table));
        lemma_prepend_empty(struct_defs.deep_view(), 0, spec_load_struct_def_sequence(first));
        assert(struct_defs.deep_view() + Seq::<StructDefinitionView>::empty() =~= struct_defs.deep_view());
    }
    while !cursor.at_end()
        invariant
            first == spec_table_window(binary@, *table),
            spec_extends(old(struct_defs)@, struct_defs@),
            cursor@.bytes == first.bytes,
            cursor@.version == first.version,
            0 <= cursor@.position <= cursor@.bytes.len(),
            prepend(old(struct_defs).deep_view(), 0, spec_load_struct_def_sequence(first)) == prepend(
                struct_defs.deep_view(),
                cursor@.position as nat,
                spec_load_struct_def_sequence(cursor@),
            ),
        decreases cursor@.left(),
    {
        let ghost here = cursor@;
        let ghost before = *struct_defs;
        let x = load_struct_def(&mut cursor)?;
        struct_defs.push(x);
        proof {
            lemma_push_deep_view(before, *struct_defs, struct_defs@.last());
            lemma_prepend_step(
                before.deep_view(),
                here.position as nat,
                struct_defs@.last().deep_view(),
                (cursor@.position - here.position) as nat,
                spec_load_struct_def_sequence(cursor@),
            );
        }
    }
    proof {
        lemma_prepend_empty(
            struct_defs.deep_view(),
            cursor@.position as nat,
            spec_load_struct_def_sequence(cursor@),
        );
    }
    Ok(())
}

/// `count` indices of struct definitions, one after the other.
pub open spec fn spec_struct_def_index_list(c: CursorView, count: nat) -> Decoded<Seq<StructDefinitionIndex>>
    decreases count,
{
    if count == 0 {
        Ok((Seq::empty(), 0))
    } else {
        match spec_load_struct_def_index(c) {
            Err(e) => Err(e),
            Ok((x, n)) => cons_result(x, n, spec_struct_def_index_list(c.skip(n), (count - 1) as nat)),
        }
    }
}

/// A count and that many indices of struct definitions.
pub open spec fn spec_load_struct_definition_indices(c: CursorView) -> Decoded<Seq<StructDefinitionIndex>> {
    match spec_load_acquires_count(c) {
        Err(e) => Err(e),
        Ok((len, n)) => shift(n, spec_struct_def_index_list(c.skip(n), len as nat)),
    }
}

/// Reads what [`spec_load_struct_definition_indices`] describes and leaves the reader behind it.
pub fn load_struct_definition_indices(cursor: &mut VersionedCursor) -> (r: Result<Vec<StructDefinitionIndex>, PartialVMError>)
    ensures
        decodes(old(cursor)@, final(cursor)@, r, spec_load_struct_definition_indices(old(cursor)@)),
        r is Ok ==> old(cursor)@.position < final(cursor)@.position,
{
    let len = load_acquires_count(cursor)?;
    let ghost first = cursor@;
    let ghost n0 = (first.position - old(cursor)@.position) as nat;
    let mut indices: Vec<StructDefinitionIndex> = Vec::new();
    let mut i: u64 = 0;
    proof {
        lemma_empty_deep_view(indices);
        lemma_prepend_empty(indices.deep_view(), 0, spec_struct_def_index_list(first, len as nat));
    }
    while i < len
        invariant
            i <= len,
            first == old(cursor)@.skip(n0),
            spec_load_acquires_count(old(cursor)@) == Ok::<(u64, nat), PartialVMError>((len, n0)),
            cursor@.bytes == first.bytes,
            cursor@.version == first.version,
            0 <= first.position <= cursor@.position <= cursor@.bytes.len(),
            spec_struct_def_index_list(first, len as nat) == prepend(
                indices.deep_view(),
                (cursor@.position - first.position) as nat,
                spec_struct_def_index_list(cursor@, (len - i) as nat),
            ),
        decreases len - i,
    {
        let ghost here = cursor@;
        let ghost before = indices;
        let x = load_struct_def_index(cursor)?;
        indices.push(x);
        i = i + 1;
        proof {
            lemma_push_deep_view(before, indices, indices@.last());
            lemma_prepend_step(
                before.deep_view(),
                (here.position - first.position) as nat,
                indices@.last().deep_view(),
                (cursor@.position - here.position) as nat,
                spec_struct_def_index_list(cursor@, (len - i) as nat),
            );
        }
    }
    proof {
        lemma_prepend_empty(
            indices.deep_view(),
            (cursor@.position - first.position) as nat,
            spec_struct_def_index_list(cursor@, 0),
        );
    }
    Ok(indices)
}

/// What the flag bytes of a function definition say.
#[derive(Clone, Copy, Debug, PartialEq, Eq, Structural)]
pub struct FunctionFlags {
    pub visibility: Visibility,
    pub is_entry: bool,
    /// The flags that are left: whether the function is native, and bits
    /// that must not be set.
    pub extra_flags: u8,
}

impl DeepView for FunctionFlags {
    type V = FunctionFlags;

    open spec fn deep_view(&self) -> FunctionFlags {
        *self
    }
}

/// Whether `flags` has the bit `bit` set, where `bit` is a power of two.
pub open spec fn spec_has_bit(flags: u8, bit: u8) -> bool {
    (flags as int / bit as int) % 2 == 1
}

/// `flags` without the bit `bit`.
pub open spec fn spec_clear_bit(flags: u8, bit: u8) -> u8 {
    if spec_has_bit(flags, bit) {
        (flags - bit) as u8
    } else {
        flags
    }
}

/// The visibility that the first flag byte of versions 2 to 4 stands for,
/// and whether the function is an entry function.
pub open spec fn spec_visibility_with_script(byte: u8) -> Result<(Visibility, bool), PartialVMError> {
    if byte == VISIBILITY_DEPRECATED_SCRIPT {
        Ok((Visibility::Public, true))
    } else {
        match Visibility::spec_from_u8(byte) {
            Some(visibility) => Ok((visibility, false)),
            None => Err(malformed(Message::InvalidVisibilityByte)),
        }
    }
}

/// The flags of a function definition at the reader. Version 1 has one
/// byte, whose lowest bit says that the function is public. Later versions
/// have a byte for the visibility and a byte of flags; up to version 4 the
/// visibility may be the deprecated script visibility, which stands for a
/// public entry function, and from version 5 on a flag says whether the
/// function is an entry function.
#[verifier::opaque]
pub open spec fn spec_load_function_flags(c: CursorView) -> Decoded<FunctionFlags> {
    match spec_read_u8(c) {
        None => Err(malformed(Message::UnexpectedEof)),
        Some(flags) => {
            if c.version == VERSION_1 {
                Ok(
                    (
                        FunctionFlags {
                            visibility: if spec_has_bit(flags, FUNCTION_DEPRECATED_PUBLIC_BIT) {
                                Visibility::Public
                            } else {
                                Visibility::Private
                            },
                            is_entry: false,
                            extra_flags: spec_clear_bit(flags, FUNCTION_DEPRECATED_PUBLIC_BIT),
                        },
                        1,
                    ),
                )
            } else if c.version < VERSION_5 {
                match spec_visibility_with_script(flags) {
                    Err(e) => Err(e),
                    Ok((visibility, is_entry)) => match spec_read_u8(c.skip(1)) {
                        None => Err(malformed(Message::UnexpectedEof)),
                        Some(extra_flags) => Ok(
                            (FunctionFlags { visibility, is_entry, extra_flags }, 2),
                        ),
                    },
                }
            } else {
                match Visibility::spec_from_u8(flags) {
                    None => Err(malformed(Message::InvalidVisibilityByte)),
                    Some(visibility) => match spec_read_u8(c.skip(1)) {
                        None => Err(malformed(Message::UnexpectedEof)),
                        Some(extra_flags) => Ok(
                            (
                                FunctionFlags {
                                    visibility,
                                    is_entry: spec_has_bit(extra_flags, FUNCTION_ENTRY),
                                    extra_flags: spec_clear_bit(extra_flags, FUNCTION_ENTRY),
                                },
                                2,
                            ),
                        ),
                    },
                }
            }
        },
    }
}

fn has_bit(flags: u8, bit: u8) -> (b: bool)
    requires
        bit > 0,
    ensures
        b == spec_has_bit(flags, bit),
{
    (flags / bit) % 2 == 1
}

fn clear_bit(flags: u8, bit: u8) -> (r: u8)
    requires
        bit == 1 || bit == 2,
    ensures
        r == spec_clear_bit(flags, bit),
{
    if has_bit(flags, bit) {
        flags - bit
    } else {
        flags
    }
}

/// Reads the flag bytes of a function definition.
pub fn load_function_flags(cursor: &mut VersionedCursor) -> (r: Result<
    FunctionFlags,
    PartialVMError,
>)
    ensures
        decodes(old(cursor)@, final(cursor)@, r, spec_load_function_flags(old(cursor)@)),
{
    reveal(spec_load_function_flags);
    let flags = match cursor.read_u8() {
        Some(flags) => flags,
        None => {
            return Err(malformed_error(Message::UnexpectedEof));
        },
    };
    if cursor.version() == VERSION_1 {
        let visibility = if has_bit(flags, FUNCTION_DEPRECATED_PUBLIC_BIT) {
            Visibility::Public
        } else {
            Visibility::Private
        };
        Ok(
            FunctionFlags {
                visibility,
                is_entry: false,
                extra_flags: clear_bit(flags, FUNCTION_DEPRECATED_PUBLIC_BIT),
            },
        )
    } else if cursor.version() < VERSION_5 {
        let (visibility, is_entry) = if flags == VISIBILITY_DEPRECATED_SCRIPT {
            (Visibility::Public, true)
        } else {
            match Visibility::from_u8(flags) {
                Some(visibility) => (visibility, false),
                None => {
                    return Err(malformed_error(Message::InvalidVisibilityByte));
                },
            }
        };
        let extra_flags = match cursor.read_u8() {
            Some(extra_flags) => extra_flags,
            None => {
                return Err(malformed_error(Message::UnexpectedEof));
            },
        };
        Ok(FunctionFlags { visibility, is_entry, extra_flags })
    } else {
        let visibility = match Visibility::from_u8(flags) {
            Some(visibility) => visibility,
            None => {
                return Err(malformed_error(Message::InvalidVisibilityByte));
            },
        };
        let extra_flags = match cursor.read_u8() {
            Some(extra_flags) => extra_flags,
            None => {
                return Err(malformed_error(Message::UnexpectedEof));
            },
        };
        Ok(
            FunctionFlags {
                visibility,
                is_entry: has_bit(extra_flags, FUNCTION_ENTRY),
                extra_flags: clear_bit(extra_flags, FUNCTION_ENTRY),
            },
        )
    }
}

/// The body of a function whose flags are `extra_flags`: none for a native
/// function, else the code unit at the reader.
pub open spec fn spec_load_function_body(c: CursorView, extra_flags: u8) -> Decoded<
    Option<CodeUnitView>,
> {
    if spec_has_bit(extra_flags, FUNCTION_NATIVE) {
        Ok((None, 0))
    } else {
        match spec_load_code_unit(c) {
            Err(e) => Err(e),
            Ok((unit, n)) => Ok((Some(unit), n)),
        }
    }
}

/// The function definition at the reader: the index of its handle, its
/// flags, the struct definitions whose resources it acquires, and its body
/// unless it is native. A flag bit without a meaning is an error, which
/// comes after any error of the body.
pub open spec fn spec_load_function_def(c: CursorView) -> Decoded<FunctionDefinitionView> {
    match spec_load_function_handle_index(c) {
        Err(e) => Err(e),
        Ok((function, n)) => match spec_load_function_flags(c.skip(n)) {
            Err(e) => Err(e),
            Ok((flags, m)) => match spec_load_struct_definition_indices(c.skip(n + m)) {
                Err(e) => Err(e),
                Ok((acquires_global_resources, k)) => match spec_load_function_body(
                    c.skip(n + m + k),
                    flags.extra_flags,
                ) {
                    Err(e) => Err(e),
                    Ok((code, j)) => {
                        if spec_clear_bit(flags.extra_flags, FUNCTION_NATIVE) != 0 {
                            Err(PartialVMError::spec_new(StatusCode::InvalidFlagBits))
                        } else {
                            Ok(
                                (
                                    FunctionDefinitionView {
                                        function,
                                        visibility: flags.visibility,
                                        is_entry: flags.is_entry,
                                        acquires_global_resources,
                                        code,
                                    },
                                    n + m + k + j,
                                ),
                            )
                        }
                    },
                },
            },
        },
    }
}

/// Decodes one function definition.
pub fn load_function_def(cursor: &mut VersionedCursor) -> (r: Result<
    FunctionDefinition,
    PartialVMError,
>)
    ensures
        decodes(old(cursor)@, final(cursor)@, r, spec_load_function_def(old(cursor)@)),
        r is Ok ==> old(cursor)@.position < final(cursor)@.position,
{
    let function = load_function_handle_index(cursor)?;
    let flags = load_function_flags(cursor)?;
    let acquires_global_resources = load_struct_definition_indices(cursor)?;
    let mut extra_flags = flags.extra_flags;
    let code_unit = if has_bit(extra_flags, FUNCTION_NATIVE) {
        extra_flags = clear_bit(extra_flags, FUNCTION_NATIVE);
        None
    } else {
        Some(load_code_unit(cursor)?)
    };
    if extra_flags != 0 {
        return Err(PartialVMError::new(StatusCode::InvalidFlagBits));
    }
    Ok(
        FunctionDefinition {
            function,
            visibility: flags.visibility,
            is_entry: flags.is_entry,
            acquires_global_resources,
            code: code_unit,
        },
    )
}

/// A record occupies at least one byte.
pub proof fn lemma_load_function_def_advances(c: CursorView)
    ensures
        spec_load_function_def(c) matches Ok((_, n)) ==> n >= 1,
{
    lemma_read_uleb(c, FUNCTION_HANDLE_INDEX_MAX);
}

/// The function definitions from the reader to the end of its bytes.
pub open spec fn spec_load_function_def_sequence(c: CursorView) -> Decoded<Seq<FunctionDefinitionView>>
    decreases c.left(),
    via spec_load_function_def_sequence_decreases
{
    if c.at_end() {
        Ok((Seq::empty(), 0))
    } else {
        match spec_load_function_def(c) {
            Err(e) => Err(e),
            Ok((x, n)) => cons_result(x, n, spec_load_function_def_sequence(c.skip(n))),
        }
    }
}

#[via_fn]
proof fn spec_load_function_def_sequence_decreases(c: CursorView) {
    lemma_load_function_def_advances(c);
}

/// The function definitions that the table `table` of `binary` holds: its bytes are
/// records from the first to the last.
pub open spec fn spec_load_function_defs(binary: CursorView, table: Table) -> Result<
    Seq<FunctionDefinitionView>,
    PartialVMError,
> {
    match spec_load_function_def_sequence(spec_table_window(binary, table)) {
        Err(e) => Err(e),
        Ok((items, _)) => Ok(items),
    }
}

/// Decodes the table and appends its function definitions to `func_defs`. On failure
/// `func_defs` holds what it held and the records decoded before the failure.
pub fn load_function_defs(binary: &VersionedBinary, table: &Table, func_defs: &mut Vec<FunctionDefinition>) -> (r: Result<
    (),
    PartialVMError,
>)
    requires
        table.offset + table.count <= binary@.bytes.len(),
    ensures
        match spec_load_function_defs(binary@, *table) {
            Ok(items) => r is Ok && final(func_defs).deep_view() == old(func_defs).deep_view() + items,
            Err(e) => r == Err::<(), PartialVMError>(e) && e.is_decoder_error(),
        },
        spec_extends(old(func_defs)@, final(func_defs)@),
{
    let total = binary.len();
    let start = table.offset as usize;
    let end = start + table.count as usize;
    let mut cursor = binary.new_cursor(start, end);
    let ghost first = cursor@;
    proof {
        assert(first == spec_table_window(binary@, *table));
        lemma_prepend_empty(func_defs.deep_view(), 0, spec_load_function_def_sequence(first));
        assert(func_defs.deep_view() + Seq::<FunctionDefinitionView>::empty() =~= func_defs.deep_view());
    }
    while !cursor.at_end()
        invariant
            first == spec_table_window(binary@, *table),
            spec_extends(old(func_defs)@, func_defs@),
            cursor@.bytes == first.bytes,
            cursor@.version == first.version,
            0 <= cursor@.position <= cursor@.bytes.len(),
            prepend(old(func_defs).deep_view(), 0, spec_load_function_def_sequence(first)) == prepend(
                func_defs.deep_view(),
                cursor@.position as nat,
                spec_load_function_def_sequence(cursor@),
            ),
        decreases cursor@.left(),
    {
        let ghost here = cursor@;
        let ghost before = *func_defs;
        let x = load_function_def(&mut cursor)?;
        func_defs.push(x);
        proof {
            lemma_push_deep_view(before, *func_defs, func_defs@.last());
            lemma_prepend_step(
                before.deep_view(),
                here.position as nat,
                func_defs@.last().deep_view(),
                (cursor@.position - here.position) as nat,
                spec_load_function_def_sequence(cursor@),
            );
        }
    }
    proof {
        lemma_prepend_empty(
            func_defs.deep_view(),
            cursor@.position as nat,
            spec_load_function_def_sequence(cursor@),
        );
    }
    Ok(())
}

} // verus!
