//! What holds of every decoded value: the bounds of the format, the shape of
//! signature tokens and the grammar of identifiers, proved of whatever the
//! format prescribes as the result of decoding.

use vstd::prelude::*;
use crate::abilities::{
    spec_ability_set_list, spec_load_ability_set, spec_load_ability_sets,
    spec_load_struct_type_parameter, spec_load_struct_type_parameters,
    spec_struct_type_parameter_list, AbilitySetPosition,
};
use crate::code::{spec_bytecode_list, spec_load_bytecode, spec_load_code_unit};
use crate::constants::{
    ACQUIRES_COUNT_MAX, BYTECODE_COUNT_MAX, CONSTANT_SIZE_MAX, FIELD_COUNT_MAX,
    IDENTIFIER_SIZE_MAX, METADATA_KEY_SIZE_MAX, METADATA_VALUE_SIZE_MAX, SIGNATURE_SIZE_MAX,
    SIGNATURE_TOKEN_DEPTH_MAX, TYPE_PARAMETER_COUNT_MAX,
};
use crate::cursor::{CursorView, Decoded};
use crate::definitions::{
    lemma_load_function_def_advances, lemma_load_struct_def_advances, spec_field_def_list,
    spec_load_field_def, spec_load_function_def, spec_load_function_def_sequence,
    spec_load_function_defs, spec_load_struct_def, spec_load_struct_def_sequence,
    spec_load_struct_definition_indices, spec_load_struct_defs, spec_struct_def_index_list,
};
use crate::deserializer::{
    spec_build_common_tables_from, spec_build_module_tables_from, spec_common_table,
    spec_deserialize_compiled_module, spec_deserialize_compiled_script, spec_module_table,
    spec_module_with_common, spec_no_common_tables, spec_read_directory,
};
use crate::file_format::{
    AbilitySet, CodeUnitView, CommonTablesView, CompiledModuleView, CompiledScriptView,
    ConstantView, FieldDefinitionView, FunctionDefinitionView, FunctionHandleView, MetadataView,
    SignatureTokenView, StructDefinitionView, StructFieldInformationView, StructHandleView,
    StructTypeParameter, ADDRESS_LENGTH,
};
use crate::file_format_common::{Table, TableType};
use crate::handles::{
    lemma_load_function_handle_advances, lemma_load_struct_handle_advances,
    spec_load_function_handle, spec_load_function_handle_sequence, spec_load_function_handles,
    spec_load_struct_handle, spec_load_struct_handle_sequence, spec_load_struct_handles,
};
use crate::laws::lemma_depth_guard;
use crate::pools::{
    lemma_load_constant_advances, lemma_load_identifier_advances,
    lemma_load_metadata_entry_advances, lemma_load_signature_advances, spec_ascii_text,
    spec_is_valid_identifier, spec_load_address_identifiers, spec_load_constant,
    spec_load_constant_pool, spec_load_constant_sequence, spec_load_identifier,
    spec_load_identifier_sequence, spec_load_identifiers, spec_load_metadata,
    spec_load_metadata_entry, spec_load_metadata_entry_sequence, spec_load_signature,
    spec_load_signature_sequence, spec_load_signatures, spec_signature_token_list,
};
use crate::primitives::{cons_result, lemma_read_uleb};
use crate::signatures::spec_load_signature_token;

verus! {

/// Whether every item meets `p`.
pub open spec fn all<T>(items: Seq<T>, p: spec_fn(T) -> bool) -> bool {
    forall|i: int| 0 <= i < items.len() ==> p(#[trigger] items[i])
}

/// Whether the nesting depth of the token is at most the maximum and each
/// generic struct in it has a type argument.
pub open spec fn spec_valid_token(token: SignatureTokenView) -> bool {
    token.well_formed() && token.depth() <= SIGNATURE_TOKEN_DEPTH_MAX
}

pub open spec fn valid_token() -> spec_fn(SignatureTokenView) -> bool {
    |token: SignatureTokenView| spec_valid_token(token)
}

/// Whether the signature has no more tokens than the maximum, each valid.
pub open spec fn spec_valid_signature(signature: Seq<SignatureTokenView>) -> bool {
    signature.len() <= SIGNATURE_SIZE_MAX && all(signature, valid_token())
}

pub open spec fn valid_signature() -> spec_fn(Seq<SignatureTokenView>) -> bool {
    |signature: Seq<SignatureTokenView>| spec_valid_signature(signature)
}

/// Whether the text is that of an identifier of at most the greatest
/// length.
pub open spec fn spec_valid_identifier_text(text: Seq<char>) -> bool {
    exists|bytes: Seq<u8>|
        bytes.len() <= IDENTIFIER_SIZE_MAX && spec_is_valid_identifier(bytes) && text
            == #[trigger] spec_ascii_text(bytes)
}

pub open spec fn valid_identifier_text() -> spec_fn(Seq<char>) -> bool {
    |text: Seq<char>| spec_valid_identifier_text(text)
}

pub open spec fn valid_address() -> spec_fn(Seq<u8>) -> bool {
    |address: Seq<u8>| address.len() == ADDRESS_LENGTH
}

pub open spec fn valid_ability_set() -> spec_fn(AbilitySet) -> bool {
    |abilities: AbilitySet| abilities.wf()
}

pub open spec fn valid_struct_type_parameter() -> spec_fn(StructTypeParameter) -> bool {
    |parameter: StructTypeParameter| parameter.constraints.wf()
}

/// Whether the abilities of the handle and of its type parameters are sets
/// of abilities, and the type parameters no more than the maximum.
pub open spec fn spec_valid_struct_handle(handle: StructHandleView) -> bool {
    &&& handle.abilities.wf()
    &&& handle.type_parameters.len() <= TYPE_PARAMETER_COUNT_MAX
    &&& all(handle.type_parameters, valid_struct_type_parameter())
}

pub open spec fn valid_struct_handle() -> spec_fn(StructHandleView) -> bool {
    |handle: StructHandleView| spec_valid_struct_handle(handle)
}

/// Whether the constraints on the type parameters of the handle are sets of
/// abilities, and the type parameters no more than the maximum.
pub open spec fn spec_valid_function_handle(handle: FunctionHandleView) -> bool {
    &&& handle.type_parameters.len() <= TYPE_PARAMETER_COUNT_MAX
    &&& all(handle.type_parameters, valid_ability_set())
}

pub open spec fn valid_function_handle() -> spec_fn(FunctionHandleView) -> bool {
    |handle: FunctionHandleView| spec_valid_function_handle(handle)
}

/// Whether the type of the constant is valid and its value no longer than
/// the maximum.
pub open spec fn spec_valid_constant(constant: ConstantView) -> bool {
    spec_valid_token(constant.type_) && constant.data.len() <= CONSTANT_SIZE_MAX
}

pub open spec fn valid_constant() -> spec_fn(ConstantView) -> bool {
    |constant: ConstantView| spec_valid_constant(constant)
}

/// Whether the key and the value are no longer than their maxima.
pub open spec fn spec_valid_metadata(entry: MetadataView) -> bool {
    entry.key.len() <= METADATA_KEY_SIZE_MAX && entry.value.len() <= METADATA_VALUE_SIZE_MAX
}

pub open spec fn valid_metadata() -> spec_fn(MetadataView) -> bool {
    |entry: MetadataView| spec_valid_metadata(entry)
}

pub open spec fn valid_field() -> spec_fn(FieldDefinitionView) -> bool {
    |field: FieldDefinitionView| spec_valid_token(field.signature)
}

/// Whether the struct declares no more fields than the maximum, each of a
/// valid type.
pub open spec fn spec_valid_struct_def(def: StructDefinitionView) -> bool {
    match def.field_information {
        StructFieldInformationView::Native => true,
        StructFieldInformationView::Declared(fields) => fields.len() <= FIELD_COUNT_MAX && all(
            fields,
            valid_field(),
        ),
    }
}

pub open spec fn valid_struct_def() -> spec_fn(StructDefinitionView) -> bool {
    |def: StructDefinitionView| spec_valid_struct_def(def)
}

/// Whether the code unit has no more instructions than the maximum.
pub open spec fn spec_valid_code_unit(unit: CodeUnitView) -> bool {
    unit.code.len() <= BYTECODE_COUNT_MAX
}

/// Whether the function acquires no more resources than the maximum and
/// its body, if it has one, is valid.
pub open spec fn spec_valid_function_def(def: FunctionDefinitionView) -> bool {
    &&& def.acquires_global_resources.len() <= ACQUIRES_COUNT_MAX
    &&& def.code matches Some(unit) ==> spec_valid_code_unit(unit)
}

pub open spec fn valid_function_def() -> spec_fn(FunctionDefinitionView) -> bool {
    |def: FunctionDefinitionView| spec_valid_function_def(def)
}

/// Whether every record of the common tables is valid.
pub open spec fn spec_valid_common_tables(common: CommonTablesView) -> bool {
    &&& all(common.struct_handles, valid_struct_handle())
    &&& all(common.function_handles, valid_function_handle())
    &&& all(common.signatures, valid_signature())
    &&& all(common.identifiers, valid_identifier_text())
    &&& all(common.address_identifiers, valid_address())
    &&& all(common.constant_pool, valid_constant())
    &&& all(common.metadata, valid_metadata())
}

/// Whether every record of the module is valid.
pub open spec fn spec_valid_module(module: CompiledModuleView) -> bool {
    &&& all(module.struct_handles, valid_struct_handle())
    &&& all(module.function_handles, valid_function_handle())
    &&& all(module.signatures, valid_signature())
    &&& all(module.identifiers, valid_identifier_text())
    &&& all(module.address_identifiers, valid_address())
    &&& all(module.constant_pool, valid_constant())
    &&& all(module.metadata, valid_metadata())
    &&& all(module.struct_defs, valid_struct_def())
    &&& all(module.function_defs, valid_function_def())
}

/// Whether every record of the script is valid.
pub open spec fn spec_valid_script(script: CompiledScriptView) -> bool {
    &&& all(script.struct_handles, valid_struct_handle())
    &&& all(script.function_handles, valid_function_handle())
    &&& all(script.signatures, valid_signature())
    &&& all(script.identifiers, valid_identifier_text())
    &&& all(script.address_identifiers, valid_address())
    &&& all(script.constant_pool, valid_constant())
    &&& all(script.metadata, valid_metadata())
    &&& script.type_parameters.len() <= TYPE_PARAMETER_COUNT_MAX
    &&& all(script.type_parameters, valid_ability_set())
    &&& spec_valid_code_unit(script.code)
}

proof fn lemma_cons_all<T>(x: T, n: nat, tail: Decoded<Seq<T>>, p: spec_fn(T) -> bool)
    requires
        p(x),
        tail matches Ok((rest, _)) ==> all(rest, p),
    ensures
        cons_result(x, n, tail) matches Ok((items, _)) ==> all(items, p) && items.len()
            == tail->Ok_0.0.len() + 1,
{
    if let Ok((rest, m)) = tail {
        let items = seq![x] + rest;
        assert forall|i: int| 0 <= i < items.len() implies p(#[trigger] items[i]) by {
            if i > 0 {
                assert(items[i] == rest[i - 1]);
            }
        }
    }
}

proof fn lemma_concat_all<T>(a: Seq<T>, b: Seq<T>, p: spec_fn(T) -> bool)
    requires
        all(a, p),
        all(b, p),
    ensures
        all(a + b, p),
{
    let items = a + b;
    assert forall|i: int| 0 <= i < items.len() implies p(#[trigger] items[i]) by {
        if i < a.len() {
            assert(items[i] == a[i]);
        } else {
            assert(items[i] == b[i - a.len()]);
        }
    }
}

proof fn lemma_ability_set(c: CursorView, pos: AbilitySetPosition)
    ensures
        spec_load_ability_set(c, pos) matches Ok((x, _)) ==> x.wf(),
{

}

proof fn lemma_valid_ability_set_list(c: CursorView, pos: AbilitySetPosition, count: nat)
    ensures
        spec_ability_set_list(c, pos, count) matches Ok((items, _)) ==> items.len() == count && all(
            items,
            valid_ability_set(),
        ),
    decreases count,
{
    if count > 0 {
        match spec_load_ability_set(c, pos) {
            Err(e) => {},
            Ok((x, n)) => {
                lemma_ability_set(c, pos);
                lemma_valid_ability_set_list(c.skip(n), pos, (count - 1) as nat);
                lemma_cons_all(x, n, spec_ability_set_list(c.skip(n), pos, (count - 1) as nat), valid_ability_set());
            },
        }
    }
}

proof fn lemma_ability_sets(c: CursorView, pos: AbilitySetPosition)
    ensures
        spec_load_ability_sets(c, pos) matches Ok((x, _)) ==> x.len() <= TYPE_PARAMETER_COUNT_MAX && all(x, valid_ability_set()),
{
    match crate::indices::spec_load_type_parameter_count(c) {
        Err(e) => {},
        Ok((len, n)) => {
            lemma_read_uleb(c, TYPE_PARAMETER_COUNT_MAX);
            lemma_valid_ability_set_list(c.skip(n), pos, len as nat);
        },
    }
}

proof fn lemma_struct_type_parameter(c: CursorView)
    ensures
        spec_load_struct_type_parameter(c) matches Ok((x, _)) ==> x.constraints.wf(),
{
    lemma_ability_set(c, AbilitySetPosition::StructTypeParameters);
}

proof fn lemma_valid_struct_type_parameter_list(c: CursorView, count: nat)
    ensures
        spec_struct_type_parameter_list(c, count) matches Ok((items, _)) ==> items.len() == count && all(
            items,
            valid_struct_type_parameter(),
        ),
    decreases count,
{
    if count > 0 {
        match spec_load_struct_type_parameter(c) {
            Err(e) => {},
            Ok((x, n)) => {
                lemma_struct_type_parameter(c);
                lemma_valid_struct_type_parameter_list(c.skip(n), (count - 1) as nat);
                lemma_cons_all(x, n, spec_struct_type_parameter_list(c.skip(n), (count - 1) as nat), valid_struct_type_parameter());
            },
        }
    }
}

proof fn lemma_struct_type_parameters(c: CursorView)
    ensures
        spec_load_struct_type_parameters(c) matches Ok((x, _)) ==> x.len() <= TYPE_PARAMETER_COUNT_MAX && all(x, valid_struct_type_parameter()),
{
    match crate::indices::spec_load_type_parameter_count(c) {
        Err(e) => {},
        Ok((len, n)) => {
            lemma_read_uleb(c, TYPE_PARAMETER_COUNT_MAX);
            lemma_valid_struct_type_parameter_list(c.skip(n), len as nat);
        },
    }
}

proof fn lemma_load_struct_handle(c: CursorView)
    ensures
        spec_load_struct_handle(c) matches Ok((x, _)) ==> spec_valid_struct_handle(x),
{
    match crate::indices::spec_load_module_handle_index(c) {
        Err(e) => {},
        Ok((module, n0)) => match crate::indices::spec_load_identifier_index(c.skip(n0)) {
            Err(e) => {},
            Ok((name, n1)) => {
                lemma_ability_set(c.skip(n0 + n1), AbilitySetPosition::StructHandle);
                match spec_load_ability_set(c.skip(n0 + n1), AbilitySetPosition::StructHandle) {
                    Err(e) => {},
                    Ok((abilities, n2)) => {
                        lemma_struct_type_parameters(c.skip(n0 + n1 + n2));
                    },
                }
            },
        },
    }
}

proof fn lemma_load_struct_handle_sequence(c: CursorView)
    ensures
        spec_load_struct_handle_sequence(c) matches Ok((items, _)) ==> all(items, valid_struct_handle()),
    decreases c.left(),
{
    if !c.at_end() {
        match spec_load_struct_handle(c) {
            Err(e) => {},
            Ok((x, n)) => {
                lemma_load_struct_handle(c);
                lemma_load_struct_handle_advances(c);
                lemma_load_struct_handle_sequence(c.skip(n));
                lemma_cons_all(x, n, spec_load_struct_handle_sequence(c.skip(n)), valid_struct_handle());
            },
        }
    }
}

proof fn lemma_load_function_handle(c: CursorView)
    ensures
        spec_load_function_handle(c) matches Ok((x, _)) ==> spec_valid_function_handle(x),
{
    match crate::indices::spec_load_module_handle_index(c) {
        Err(e) => {},
        Ok((module, n0)) => match crate::indices::spec_load_identifier_index(c.skip(n0)) {
            Err(e) => {},
            Ok((name, n1)) => match crate::indices::spec_load_signature_index(c.skip(n0 + n1)) {
                Err(e) => {},
                Ok((parameters, n2)) => match crate::indices::spec_load_signature_index(
                    c.skip(n0 + n1 + n2),
                ) {
                    Err(e) => {},
                    Ok((return_, n3)) => {
                        lemma_ability_sets(
                            c.skip(n0 + n1 + n2 + n3),
                            AbilitySetPosition::FunctionTypeParameters,
                        );
                    },
                },
            },
        },
    }
}

proof fn lemma_load_function_handle_sequence(c: CursorView)
    ensures
        spec_load_function_handle_sequence(c) matches Ok((items, _)) ==> all(items, valid_function_handle()),
    decreases c.left(),
{
    if !c.at_end() {
        match spec_load_function_handle(c) {
            Err(e) => {},
            Ok((x, n)) => {
                lemma_load_function_handle(c);
                lemma_load_function_handle_advances(c);
                lemma_load_function_handle_sequence(c.skip(n));
                lemma_cons_all(x, n, spec_load_function_handle_sequence(c.skip(n)), valid_function_handle());
            },
        }
    }
}

proof fn lemma_load_signature_token(c: CursorView)
    ensures
        spec_load_signature_token(c) matches Ok((x, _)) ==> spec_valid_token(x),
{
    lemma_depth_guard(c);
}

proof fn lemma_valid_signature_token_list(c: CursorView, count: nat)
    ensures
        spec_signature_token_list(c, count) matches Ok((items, _)) ==> items.len() == count && all(
            items,
            valid_token(),
        ),
    decreases count,
{
    if count > 0 {
        match spec_load_signature_token(c) {
            Err(e) => {},
            Ok((x, n)) => {
                lemma_load_signature_token(c);
                lemma_valid_signature_token_list(c.skip(n), (count - 1) as nat);
                lemma_cons_all(x, n, spec_signature_token_list(c.skip(n), (count - 1) as nat), valid_token());
            },
        }
    }
}

proof fn lemma_load_signature(c: CursorView)
    ensures
        spec_load_signature(c) matches Ok((x, _)) ==> spec_valid_signature(x),
{
    match crate::indices::spec_load_signature_size(c) {
        Err(e) => {},
        Ok((len, n)) => {
            lemma_read_uleb(c, SIGNATURE_SIZE_MAX);
            lemma_valid_signature_token_list(c.skip(n), len as nat);
        },
    }
}

proof fn lemma_load_signature_sequence(c: CursorView)
    ensures
        spec_load_signature_sequence(c) matches Ok((items, _)) ==> all(items, valid_signature()),
    decreases c.left(),
{
    if !c.at_end() {
        match spec_load_signature(c) {
            Err(e) => {},
            Ok((x, n)) => {
                lemma_load_signature(c);
                lemma_load_signature_advances(c);
                lemma_load_signature_sequence(c.skip(n));
                lemma_cons_all(x, n, spec_load_signature_sequence(c.skip(n)), valid_signature());
            },
        }
    }
}

proof fn lemma_load_identifier(c: CursorView)
    ensures
        spec_load_identifier(c) matches Ok((x, _)) ==> spec_valid_identifier_text(x),
{
    match crate::indices::spec_load_identifier_size(c) {
        Err(e) => {},
        Ok((size, n)) => {
            lemma_read_uleb(c, IDENTIFIER_SIZE_MAX);
            match crate::cursor::spec_read_exact(c.skip(n), size as nat) {
                None => {},
                Some(bytes) => {
                    if spec_is_valid_identifier(bytes) {
                        assert(bytes.len() <= IDENTIFIER_SIZE_MAX && spec_is_valid_identifier(bytes)
                            && spec_ascii_text(bytes) == spec_ascii_text(bytes));
                    }
                },
            }
        },
    }
}

proof fn lemma_load_identifier_sequence(c: CursorView)
    ensures
        spec_load_identifier_sequence(c) matches Ok((items, _)) ==> all(items, valid_identifier_text()),
    decreases c.left(),
{
    if !c.at_end() {
        match spec_load_identifier(c) {
            Err(e) => {},
            Ok((x, n)) => {
                lemma_load_identifier(c);
                lemma_load_identifier_advances(c);
                lemma_load_identifier_sequence(c.skip(n));
                lemma_cons_all(x, n, spec_load_identifier_sequence(c.skip(n)), valid_identifier_text());
            },
        }
    }
}

proof fn lemma_load_constant(c: CursorView)
    ensures
        spec_load_constant(c) matches Ok((x, _)) ==> spec_valid_constant(x),
{
    lemma_depth_guard(c);
    match spec_load_signature_token(c) {
        Err(e) => {},
        Ok((type_, n)) => {
            lemma_read_uleb(c.skip(n), CONSTANT_SIZE_MAX);
        },
    }
}

proof fn lemma_load_constant_sequence(c: CursorView)
    ensures
        spec_load_constant_sequence(c) matches Ok((items, _)) ==> all(items, valid_constant()),
    decreases c.left(),
{
    if !c.at_end() {
        match spec_load_constant(c) {
            Err(e) => {},
            Ok((x, n)) => {
                lemma_load_constant(c);
                lemma_load_constant_advances(c);
                lemma_load_constant_sequence(c.skip(n));
                lemma_cons_all(x, n, spec_load_constant_sequence(c.skip(n)), valid_constant());
            },
        }
    }
}

proof fn lemma_load_metadata_entry(c: CursorView)
    ensures
        spec_load_metadata_entry(c) matches Ok((x, _)) ==> spec_valid_metadata(x),
{
    lemma_read_uleb(c, METADATA_KEY_SIZE_MAX);
    match crate::indices::spec_load_metadata_key_size(c) {
        Err(e) => {},
        Ok((key_size, n)) => match crate::pools::spec_load_byte_blob(c.skip(n), key_size as nat) {
            Err(e) => {},
            Ok((key, m)) => {
                lemma_read_uleb(c.skip(n + m), METADATA_VALUE_SIZE_MAX);
            },
        },
    }
}

proof fn lemma_load_metadata_entry_sequence(c: CursorView)
    ensures
        spec_load_metadata_entry_sequence(c) matches Ok((items, _)) ==> all(items, valid_metadata()),
    decreases c.left(),
{
    if !c.at_end() {
        match spec_load_metadata_entry(c) {
            Err(e) => {},
            Ok((x, n)) => {
                lemma_load_metadata_entry(c);
                lemma_load_metadata_entry_advances(c);
                lemma_load_metadata_entry_sequence(c.skip(n));
                lemma_cons_all(x, n, spec_load_metadata_entry_sequence(c.skip(n)), valid_metadata());
            },
        }
    }
}

proof fn lemma_load_field_def(c: CursorView)
    ensures
        spec_load_field_def(c) matches Ok((x, _)) ==> spec_valid_token(x.signature),
{
    match crate::indices::spec_load_identifier_index(c) {
        Err(e) => {},
        Ok((name, n)) => {
            lemma_depth_guard(c.skip(n));
        },
    }
}

proof fn lemma_valid_field_def_list(c: CursorView, count: nat)
    ensures
        spec_field_def_list(c, count) matches Ok((items, _)) ==> items.len() == count && all(
            items,
            valid_field(),
        ),
    decreases count,
{
    if count > 0 {
        match spec_load_field_def(c) {
            Err(e) => {},
            Ok((x, n)) => {
                lemma_load_field_def(c);
                lemma_valid_field_def_list(c.skip(n), (count - 1) as nat);
                lemma_cons_all(x, n, spec_field_def_list(c.skip(n), (count - 1) as nat), valid_field());
            },
        }
    }
}

proof fn lemma_load_struct_def(c: CursorView)
    ensures
        spec_load_struct_def(c) matches Ok((x, _)) ==> spec_valid_struct_def(x),
{
    match crate::indices::spec_load_struct_handle_index(c) {
        Err(e) => {},
        Ok((struct_handle, n)) => {
            match crate::indices::spec_load_field_count(c.skip(n + 1)) {
                Err(e) => {},
                Ok((len, m)) => {
                    lemma_read_uleb(c.skip(n + 1), FIELD_COUNT_MAX);
                    lemma_valid_field_def_list(c.skip(n + 1).skip(m), len as nat);
                },
            }
        },
    }
}

proof fn lemma_load_struct_def_sequence(c: CursorView)
    ensures
        spec_load_struct_def_sequence(c) matches Ok((items, _)) ==> all(items, valid_struct_def()),
    decreases c.left(),
{
    if !c.at_end() {
        match spec_load_struct_def(c) {
            Err(e) => {},
            Ok((x, n)) => {
                lemma_load_struct_def(c);
                lemma_load_struct_def_advances(c);
                lemma_load_struct_def_sequence(c.skip(n));
                lemma_cons_all(x, n, spec_load_struct_def_sequence(c.skip(n)), valid_struct_def());
            },
        }
    }
}

proof fn lemma_valid_bytecode_list(c: CursorView, count: nat)
    ensures
        spec_bytecode_list(c, count) matches Ok((items, _)) ==> items.len() == count,
    decreases count,
{
    if count > 0 {
        match spec_load_bytecode(c) {
            Err(e) => {},
            Ok((x, n)) => {
                lemma_valid_bytecode_list(c.skip(n), (count - 1) as nat);
            },
        }
    }
}

proof fn lemma_load_code_unit(c: CursorView)
    ensures
        spec_load_code_unit(c) matches Ok((unit, _)) ==> spec_valid_code_unit(unit),
{
    match crate::indices::spec_load_signature_index(c) {
        Err(e) => {},
        Ok((locals, n)) => match crate::indices::spec_load_bytecode_count(c.skip(n)) {
            Err(e) => {},
            Ok((count, m)) => {
                lemma_read_uleb(c.skip(n), BYTECODE_COUNT_MAX);
                lemma_valid_bytecode_list(c.skip(n).skip(m), count as nat);
            },
        },
    }
}

proof fn lemma_valid_struct_def_index_list(c: CursorView, count: nat)
    ensures
        spec_struct_def_index_list(c, count) matches Ok((items, _)) ==> items.len() == count,
    decreases count,
{
    if count > 0 {
        match crate::indices::spec_load_struct_def_index(c) {
            Err(e) => {},
            Ok((x, n)) => {
                lemma_valid_struct_def_index_list(c.skip(n), (count - 1) as nat);
            },
        }
    }
}

proof fn lemma_load_function_def(c: CursorView)
    ensures
        spec_load_function_def(c) matches Ok((def, _)) ==> spec_valid_function_def(def),
{
    match crate::indices::spec_load_function_handle_index(c) {
        Err(e) => {},
        Ok((function, n)) => match crate::definitions::spec_load_function_flags(c.skip(n)) {
            Err(e) => {},
            Ok((flags, m)) => {
                let c2 = c.skip(n + m);
                match crate::indices::spec_load_acquires_count(c2) {
                    Err(e) => {},
                    Ok((len, k0)) => {
                        lemma_read_uleb(c2, ACQUIRES_COUNT_MAX);
                        lemma_valid_struct_def_index_list(c2.skip(k0), len as nat);
                    },
                }
                match spec_load_struct_definition_indices(c2) {
                    Err(e) => {},
                    Ok((acquires, k)) => {
                        lemma_load_code_unit(c.skip(n + m + k));
                    },
                }
            },
        },
    }
}

proof fn lemma_load_function_def_sequence(c: CursorView)
    ensures
        spec_load_function_def_sequence(c) matches Ok((items, _)) ==> all(items, valid_function_def()),
    decreases c.left(),
{
    if !c.at_end() {
        match spec_load_function_def(c) {
            Err(e) => {},
            Ok((x, n)) => {
                lemma_load_function_def(c);
                lemma_load_function_def_advances(c);
                lemma_load_function_def_sequence(c.skip(n));
                lemma_cons_all(x, n, spec_load_function_def_sequence(c.skip(n)), valid_function_def());
            },
        }
    }
}

/// The addresses of a table have the length of an address.
proof fn lemma_load_address_identifiers(binary: CursorView, table: Table)
    requires
        0 <= table.offset + table.count <= binary.bytes.len(),
    ensures
        spec_load_address_identifiers(binary, table) matches Ok(items) ==> all(
            items,
            valid_address(),
        ),
{
    if let Ok(items) = spec_load_address_identifiers(binary, table) {
        assert forall|i: int| 0 <= i < items.len() implies valid_address()(
            #[trigger] items[i],
        ) by {
            assert(table.offset + ADDRESS_LENGTH * i + ADDRESS_LENGTH <= table.offset
                + table.count) by (nonlinear_arith)
                requires
                    0 <= i < table.count as int / ADDRESS_LENGTH as int,
                    table.count as int % ADDRESS_LENGTH as int == 0,
                    ADDRESS_LENGTH == 16,
            ;
        }
    }
}

/// Decoding a common table keeps the common tables valid.
proof fn lemma_common_table(binary: CursorView, table: Table, acc: CommonTablesView)
    requires
        spec_valid_common_tables(acc),
        0 <= table.offset + table.count <= binary.bytes.len(),
    ensures
        spec_common_table(binary, table, acc) matches Ok(next) ==> spec_valid_common_tables(next),
{
    reveal(spec_common_table);
    let window = crate::file_format_common::spec_table_window(binary, table);
    match table.kind {
        TableType::STRUCT_HANDLES => {
            lemma_load_struct_handle_sequence(window);
            if let Ok(items) = spec_load_struct_handles(binary, table) {
                lemma_concat_all(acc.struct_handles, items, valid_struct_handle());
            }
        },
        TableType::FUNCTION_HANDLES => {
            lemma_load_function_handle_sequence(window);
            if let Ok(items) = spec_load_function_handles(binary, table) {
                lemma_concat_all(acc.function_handles, items, valid_function_handle());
            }
        },
        TableType::SIGNATURES => {
            lemma_load_signature_sequence(window);
            if let Ok(items) = spec_load_signatures(binary, table) {
                lemma_concat_all(acc.signatures, items, valid_signature());
            }
        },
        TableType::CONSTANT_POOL => {
            lemma_load_constant_sequence(window);
            if let Ok(items) = spec_load_constant_pool(binary, table) {
                lemma_concat_all(acc.constant_pool, items, valid_constant());
            }
        },
        TableType::METADATA => {
            lemma_load_metadata_entry_sequence(window);
            if let Ok(items) = spec_load_metadata(binary, table) {
                lemma_concat_all(acc.metadata, items, valid_metadata());
            }
        },
        TableType::IDENTIFIERS => {
            lemma_load_identifier_sequence(window);
            if let Ok(items) = spec_load_identifiers(binary, table) {
                lemma_concat_all(acc.identifiers, items, valid_identifier_text());
            }
        },
        TableType::ADDRESS_IDENTIFIERS => {
            lemma_load_address_identifiers(binary, table);
            if let Ok(items) = spec_load_address_identifiers(binary, table) {
                lemma_concat_all(acc.address_identifiers, items, valid_address());
            }
        },
        _ => {},
    }
}

proof fn lemma_build_common_tables(
    binary: CursorView,
    tables: Seq<Table>,
    i: int,
    acc: CommonTablesView,
)
    requires
        0 <= i,
        spec_valid_common_tables(acc),
        crate::deserializer::spec_tables_in_bounds(tables, binary.bytes.len() as int),
    ensures
        spec_build_common_tables_from(binary, tables, i, acc) matches Ok(common)
            ==> spec_valid_common_tables(common),
    decreases tables.len() - i,
{
    if i < tables.len() {
        lemma_common_table(binary, tables[i], acc);
        match spec_common_table(binary, tables[i], acc) {
            Err(e) => {},
            Ok(next) => {
                lemma_build_common_tables(binary, tables, i + 1, next);
            },
        }
    }
}

/// Decoding a table that only modules have keeps the module valid.
proof fn lemma_module_table(binary: CursorView, table: Table, acc: CompiledModuleView)
    requires
        spec_valid_module(acc),
    ensures
        spec_module_table(binary, table, acc) matches Ok(next) ==> spec_valid_module(next),
{
    reveal(spec_module_table);
    let window = crate::file_format_common::spec_table_window(binary, table);
    match table.kind {
        TableType::STRUCT_DEFS => {
            lemma_load_struct_def_sequence(window);
            if let Ok(items) = spec_load_struct_defs(binary, table) {
                lemma_concat_all(acc.struct_defs, items, valid_struct_def());
            }
        },
        TableType::FUNCTION_DEFS => {
            lemma_load_function_def_sequence(window);
            if let Ok(items) = spec_load_function_defs(binary, table) {
                lemma_concat_all(acc.function_defs, items, valid_function_def());
            }
        },
        _ => {},
    }
}

proof fn lemma_build_module_tables(
    binary: CursorView,
    tables: Seq<Table>,
    i: int,
    acc: CompiledModuleView,
)
    requires
        0 <= i,
        spec_valid_module(acc),
    ensures
        spec_build_module_tables_from(binary, tables, i, acc) matches Ok(module)
            ==> spec_valid_module(module),
    decreases tables.len() - i,
{
    if i < tables.len() {
        lemma_module_table(binary, tables[i], acc);
        match spec_module_table(binary, tables[i], acc) {
            Err(e) => {},
            Ok(next) => {
                lemma_build_module_tables(binary, tables, i + 1, next);
            },
        }
    }
}

/// Every module that the format prescribes as the result of decoding is
/// valid: its tokens are no deeper than the maximum and each generic struct
/// in them has a type argument, its identifiers follow their grammar, its
/// addresses have the length of an address, its ability sets hold
/// abilities only, and its lists and blobs are no longer than their maxima.
pub proof fn lemma_decoded_module_is_valid(bytes: Seq<u8>, max_version: u32)
    ensures
        spec_deserialize_compiled_module(bytes, max_version) matches Ok(module)
            ==> spec_valid_module(module),
{
    match spec_read_directory(bytes, max_version) {
        Err(e) => {},
        Ok(d) => {
            crate::laws::lemma_directory_in_bounds(bytes, max_version);
            match crate::indices::spec_load_module_handle_index(d.trailer) {
                Err(e) => {},
                Ok((self_module_handle_idx, _)) => {
                    let empty = crate::deserializer::spec_empty_module(
                        d.version,
                        self_module_handle_idx,
                    );
                    lemma_build_common_tables(d.contents, d.tables, 0, spec_no_common_tables());
                    match spec_build_common_tables_from(
                        d.contents,
                        d.tables,
                        0,
                        spec_no_common_tables(),
                    ) {
                        Err(e) => {},
                        Ok(common) => {
                            lemma_build_module_tables(
                                d.contents,
                                d.tables,
                                0,
                                spec_module_with_common(empty, common),
                            );
                        },
                    }
                },
            }
        },
    }
}

/// Every script that the format prescribes as the result of decoding is
/// valid, in the same sense as a module.
pub proof fn lemma_decoded_script_is_valid(bytes: Seq<u8>, max_version: u32)
    ensures
        spec_deserialize_compiled_script(bytes, max_version) matches Ok(script)
            ==> spec_valid_script(script),
{
    match spec_read_directory(bytes, max_version) {
        Err(e) => {},
        Ok(d) => {
            crate::laws::lemma_directory_in_bounds(bytes, max_version);
            lemma_ability_sets(d.trailer, AbilitySetPosition::FunctionTypeParameters);
            match spec_load_ability_sets(d.trailer, AbilitySetPosition::FunctionTypeParameters) {
                Err(e) => {},
                Ok((type_parameters, n)) => match crate::indices::spec_load_signature_index(
                    d.trailer.skip(n),
                ) {
                    Err(e) => {},
                    Ok((parameters, m)) => {
                        lemma_load_code_unit(d.trailer.skip(n + m));
                        lemma_build_common_tables(
                            d.contents,
                            d.tables,
                            0,
                            spec_no_common_tables(),
                        );
                    },
                },
            }
        },
    }
}

} // verus!
