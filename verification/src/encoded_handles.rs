//! The bytes that stand for the handles and instantiations of a binary of
//! each version of the format, and the law that decoding them gives the
//! records back.

use vstd::prelude::*;
use crate::abilities::{
    spec_kind_abilities, spec_struct_abilities, spec_ability_set_list, spec_load_ability_set,
    spec_load_ability_sets, spec_load_struct_type_parameter, spec_load_struct_type_parameters,
    spec_struct_type_parameter_list, AbilitySetPosition,
};
use crate::constants::{
    ADDRESS_INDEX_MAX, FIELD_HANDLE_INDEX_MAX, FIELD_OFFSET_MAX, FUNCTION_HANDLE_INDEX_MAX,
    IDENTIFIER_INDEX_MAX, MODULE_HANDLE_INDEX_MAX, SIGNATURE_INDEX_MAX, STRUCT_DEF_INDEX_MAX,
    TYPE_PARAMETER_COUNT_MAX, VERSION_2, VERSION_3,
};
use crate::cursor::CursorView;
use crate::encoding::{
    lemma_bounded_uleb128_round_trip, lemma_holds_first, lemma_holds_split, spec_holds,
    spec_uleb128_bytes,
};
use crate::errors::PartialVMError;
use crate::file_format_common::{DeprecatedKind, DeprecatedNominalResourceFlag};
use crate::file_format::{
    AbilitySet, FieldHandle, FieldInstantiation, FunctionHandleView, FunctionInstantiation,
    ModuleHandle, StructDefInstantiation, StructHandleView, StructTypeParameter, ABILITY_SET_ALL,
};
use crate::handles::{
    lemma_load_field_handle_advances, lemma_load_field_instantiation_advances,
    lemma_load_function_handle_advances, lemma_load_function_instantiation_advances,
    lemma_load_module_handle_advances, lemma_load_struct_handle_advances,
    lemma_load_struct_instantiation_advances, spec_load_field_handle,
    spec_load_field_handle_sequence, spec_load_field_instantiation,
    spec_load_field_instantiation_sequence, spec_load_function_handle,
    spec_load_function_handle_sequence, spec_load_function_instantiation,
    spec_load_function_instantiation_sequence, spec_load_module_handle,
    spec_load_module_handle_sequence, spec_load_struct_handle, spec_load_struct_handle_sequence,
    spec_load_struct_instantiation, spec_load_struct_instantiation_sequence,
};

verus! {

/// Whether the ability set can be written at the position in a binary of
/// the version. From version 2 on every set of abilities can. Version 1
/// has a kind in place of the set, and only the sets that kinds stand for
/// can be written.
pub open spec fn spec_encodable_ability_set(
    version: u32,
    pos: AbilitySetPosition,
    abilities: AbilitySet,
) -> bool {
    if version >= VERSION_2 {
        abilities.wf()
    } else {
        match pos {
            AbilitySetPosition::StructHandle => {
                ||| abilities == spec_struct_abilities(
                    DeprecatedNominalResourceFlag::NOMINAL_RESOURCE,
                )
                ||| abilities == spec_struct_abilities(DeprecatedNominalResourceFlag::NORMAL_STRUCT)
            },
            _ => {
                let of_function = pos == AbilitySetPosition::FunctionTypeParameters;
                ||| abilities == spec_kind_abilities(DeprecatedKind::ALL, of_function)
                ||| abilities == spec_kind_abilities(DeprecatedKind::COPYABLE, of_function)
                ||| abilities == spec_kind_abilities(DeprecatedKind::RESOURCE, of_function)
            },
        }
    }
}

/// The byte of an ability set at the position: from version 2 on the sum
/// of the bits of its members, in version 1 the kind that stands for it.
pub open spec fn spec_ability_set_bytes(
    version: u32,
    pos: AbilitySetPosition,
    abilities: AbilitySet,
) -> Seq<u8> {
    if version >= VERSION_2 {
        spec_uleb128_bytes(abilities.0 as nat)
    } else {
        match pos {
            AbilitySetPosition::StructHandle => {
                if abilities == spec_struct_abilities(
                    DeprecatedNominalResourceFlag::NOMINAL_RESOURCE,
                ) {
                    seq![DeprecatedNominalResourceFlag::NOMINAL_RESOURCE.spec_to_u8()]
                } else {
                    seq![DeprecatedNominalResourceFlag::NORMAL_STRUCT.spec_to_u8()]
                }
            },
            _ => {
                let of_function = pos == AbilitySetPosition::FunctionTypeParameters;
                if abilities == spec_kind_abilities(DeprecatedKind::ALL, of_function) {
                    seq![DeprecatedKind::ALL.spec_to_u8()]
                } else if abilities == spec_kind_abilities(DeprecatedKind::COPYABLE, of_function) {
                    seq![DeprecatedKind::COPYABLE.spec_to_u8()]
                } else {
                    seq![DeprecatedKind::RESOURCE.spec_to_u8()]
                }
            },
        }
    }
}

/// Decoding the byte of an ability set gives the set.
pub proof fn lemma_ability_set_round_trip(
    c: CursorView,
    abilities: AbilitySet,
    pos: AbilitySetPosition,
)
    requires
        spec_holds(c, spec_ability_set_bytes(c.version, pos, abilities)),
        spec_encodable_ability_set(c.version, pos, abilities),
    ensures
        spec_load_ability_set(c, pos) == Ok::<(AbilitySet, nat), PartialVMError>(
            (abilities, spec_ability_set_bytes(c.version, pos, abilities).len()),
        ),
{
    if c.version >= VERSION_2 {
        lemma_bounded_uleb128_round_trip(c, abilities.0 as u64, ABILITY_SET_ALL as u64);
    } else {
        lemma_holds_first(c, spec_ability_set_bytes(c.version, pos, abilities));
    }
}

/// The bytes of ability sets that stand one behind the other.
pub open spec fn spec_ability_sets_list_bytes(version: u32, pos: AbilitySetPosition, items: Seq<AbilitySet>) -> Seq<u8>
    decreases items.len(),
{
    if items.len() == 0 {
        Seq::empty()
    } else {
        spec_ability_set_bytes(version, pos, items[0]) + spec_ability_sets_list_bytes(version, pos, items.subrange(1, items.len() as int))
    }
}

/// The bytes of a list of ability sets: their number and then each of them.
pub open spec fn spec_ability_sets_bytes(version: u32, pos: AbilitySetPosition, items: Seq<AbilitySet>) -> Seq<u8> {
    spec_uleb128_bytes(items.len()) + spec_ability_sets_list_bytes(version, pos, items)
}

proof fn lemma_ability_sets_list_round_trip(c: CursorView, pos: AbilitySetPosition, items: Seq<AbilitySet>)
    requires
        spec_holds(c, spec_ability_sets_list_bytes(c.version, pos, items)),
        forall|i: int| 0 <= i < items.len() ==> spec_encodable_ability_set(c.version, pos, #[trigger] items[i]),
    ensures
        spec_ability_set_list(c, pos, items.len()) == Ok::<(Seq<AbilitySet>, nat), PartialVMError>(
            (items, spec_ability_sets_list_bytes(c.version, pos, items).len()),
        ),
    decreases items.len(),
{
    if items.len() == 0 {
        assert(items =~= Seq::<AbilitySet>::empty());
    } else {
        let first = spec_ability_set_bytes(c.version, pos, items[0]);
        let tail = items.subrange(1, items.len() as int);
        lemma_holds_split(c, first, spec_ability_sets_list_bytes(c.version, pos, tail));
        lemma_ability_set_round_trip(c, items[0], pos);
        assert forall|i: int| 0 <= i < tail.len() implies spec_encodable_ability_set(c.version, pos, #[trigger] tail[i]) by {
            assert(tail[i] == items[i + 1]);
        }
        lemma_ability_sets_list_round_trip(c.skip(first.len()), pos, tail);
        assert(seq![items[0]] + tail =~= items);
    }
}

/// Decoding the bytes of a list of ability sets gives the list.
pub proof fn lemma_ability_sets_round_trip(c: CursorView, pos: AbilitySetPosition, items: Seq<AbilitySet>)
    requires
        spec_holds(c, spec_ability_sets_bytes(c.version, pos, items)),
        items.len() <= TYPE_PARAMETER_COUNT_MAX,
        forall|i: int| 0 <= i < items.len() ==> spec_encodable_ability_set(c.version, pos, #[trigger] items[i]),
    ensures
        spec_load_ability_sets(c, pos) == Ok::<(Seq<AbilitySet>, nat), PartialVMError>(
            (items, spec_ability_sets_bytes(c.version, pos, items).len()),
        ),
{
    let count = spec_uleb128_bytes(items.len());
    lemma_holds_split(c, count, spec_ability_sets_list_bytes(c.version, pos, items));
    lemma_bounded_uleb128_round_trip(c, items.len() as u64, TYPE_PARAMETER_COUNT_MAX);
    lemma_ability_sets_list_round_trip(c.skip(count.len()), pos, items);
}

/// Whether the type parameter of a struct can be written in a binary of
/// the version: its constraints are a set of abilities, and it is phantom
/// only from version 3 on.
pub open spec fn spec_encodable_struct_type_parameter(
    version: u32,
    parameter: StructTypeParameter,
) -> bool {
    spec_encodable_ability_set(
        version,
        AbilitySetPosition::StructTypeParameters,
        parameter.constraints,
    ) && (version >= VERSION_3 || !parameter.is_phantom)
}

/// The bytes of a type parameter of a struct: its constraints and, from
/// version 3 on, whether it is phantom.
pub open spec fn spec_struct_type_parameter_bytes(
    version: u32,
    parameter: StructTypeParameter,
) -> Seq<u8> {
    if version >= VERSION_3 {
        spec_ability_set_bytes(version, AbilitySetPosition::StructTypeParameters, parameter.constraints) + spec_uleb128_bytes(
            (if parameter.is_phantom {
                1u8
            } else {
                0u8
            }) as nat,
        )
    } else {
        spec_ability_set_bytes(version, AbilitySetPosition::StructTypeParameters, parameter.constraints)
    }
}

/// Decoding the bytes of a type parameter of a struct gives the parameter.
pub proof fn lemma_struct_type_parameter_round_trip(c: CursorView, parameter: StructTypeParameter)
    requires
        spec_holds(c, spec_struct_type_parameter_bytes(c.version, parameter)),
        spec_encodable_struct_type_parameter(c.version, parameter),
    ensures
        spec_load_struct_type_parameter(c) == Ok::<(StructTypeParameter, nat), PartialVMError>(
            (parameter, spec_struct_type_parameter_bytes(c.version, parameter).len()),
        ),
{
    let constraints = spec_ability_set_bytes(c.version, AbilitySetPosition::StructTypeParameters, parameter.constraints);
    if c.version >= VERSION_3 {
        let phantom = spec_uleb128_bytes((if parameter.is_phantom { 1u8 } else { 0u8 }) as nat);
        lemma_holds_split(c, constraints, phantom);
        lemma_ability_set_round_trip(
            c,
            parameter.constraints,
            AbilitySetPosition::StructTypeParameters,
        );
        lemma_bounded_uleb128_round_trip(
            c.skip(constraints.len()),
            (if parameter.is_phantom { 1u8 } else { 0u8 }) as u64,
            1,
        );
    } else {
        lemma_ability_set_round_trip(
            c,
            parameter.constraints,
            AbilitySetPosition::StructTypeParameters,
        );
    }
}

/// The bytes of type parameters of a struct that stand one behind the other.
pub open spec fn spec_struct_type_parameters_list_bytes(version: u32, items: Seq<StructTypeParameter>) -> Seq<u8>
    decreases items.len(),
{
    if items.len() == 0 {
        Seq::empty()
    } else {
        spec_struct_type_parameter_bytes(version, items[0]) + spec_struct_type_parameters_list_bytes(version, items.subrange(1, items.len() as int))
    }
}

/// The bytes of a list of type parameters of a struct: their number and then each of them.
pub open spec fn spec_struct_type_parameters_bytes(version: u32, items: Seq<StructTypeParameter>) -> Seq<u8> {
    spec_uleb128_bytes(items.len()) + spec_struct_type_parameters_list_bytes(version, items)
}

proof fn lemma_struct_type_parameters_list_round_trip(c: CursorView, items: Seq<StructTypeParameter>)
    requires
        spec_holds(c, spec_struct_type_parameters_list_bytes(c.version, items)),
        forall|i: int| 0 <= i < items.len() ==> spec_encodable_struct_type_parameter(c.version, #[trigger] items[i]),
    ensures
        spec_struct_type_parameter_list(c, items.len()) == Ok::<(Seq<StructTypeParameter>, nat), PartialVMError>(
            (items, spec_struct_type_parameters_list_bytes(c.version, items).len()),
        ),
    decreases items.len(),
{
    if items.len() == 0 {
        assert(items =~= Seq::<StructTypeParameter>::empty());
    } else {
        let first = spec_struct_type_parameter_bytes(c.version, items[0]);
        let tail = items.subrange(1, items.len() as int);
        lemma_holds_split(c, first, spec_struct_type_parameters_list_bytes(c.version, tail));
        lemma_struct_type_parameter_round_trip(c, items[0]);
        assert forall|i: int| 0 <= i < tail.len() implies spec_encodable_struct_type_parameter(c.version, #[trigger] tail[i]) by {
            assert(tail[i] == items[i + 1]);
        }
        lemma_struct_type_parameters_list_round_trip(c.skip(first.len()), tail);
        assert(seq![items[0]] + tail =~= items);
    }
}

/// Decoding the bytes of a list of type parameters of a struct gives the list.
pub proof fn lemma_struct_type_parameters_round_trip(c: CursorView, items: Seq<StructTypeParameter>)
    requires
        spec_holds(c, spec_struct_type_parameters_bytes(c.version, items)),
        items.len() <= TYPE_PARAMETER_COUNT_MAX,
        forall|i: int| 0 <= i < items.len() ==> spec_encodable_struct_type_parameter(c.version, #[trigger] items[i]),
    ensures
        spec_load_struct_type_parameters(c) == Ok::<(Seq<StructTypeParameter>, nat), PartialVMError>(
            (items, spec_struct_type_parameters_bytes(c.version, items).len()),
        ),
{
    let count = spec_uleb128_bytes(items.len());
    lemma_holds_split(c, count, spec_struct_type_parameters_list_bytes(c.version, items));
    lemma_bounded_uleb128_round_trip(c, items.len() as u64, TYPE_PARAMETER_COUNT_MAX);
    lemma_struct_type_parameters_list_round_trip(c.skip(count.len()), items);
}

/// The bytes of a module handle: the index of its address and the index of
/// its name.
pub open spec fn spec_module_handle_bytes(handle: ModuleHandle) -> Seq<u8> {
    spec_uleb128_bytes(handle.address.0 as nat) + (spec_uleb128_bytes(handle.name.0 as nat))
}

/// Decoding the bytes of a module handle gives the handle.
pub proof fn lemma_module_handle_round_trip(c: CursorView, handle: ModuleHandle)
    requires
        spec_holds(c, spec_module_handle_bytes(handle)),
    ensures
        spec_load_module_handle(c) == Ok::<(ModuleHandle, nat), PartialVMError>(
            (handle, spec_module_handle_bytes(handle).len()),
        ),
{
    let c0 = c;
    let b0 = spec_uleb128_bytes(handle.address.0 as nat);
    let b1 = spec_uleb128_bytes(handle.name.0 as nat);
    lemma_holds_split(c0, b0, b1);
    lemma_bounded_uleb128_round_trip(c0, handle.address.0 as u64, ADDRESS_INDEX_MAX);
    let c1 = c.skip(b0.len());
    assert(c0.skip(b0.len()) == c1);
    lemma_bounded_uleb128_round_trip(c1, handle.name.0 as u64, IDENTIFIER_INDEX_MAX);
}

/// The bytes of a table of module handles: the records, one behind the other.
pub open spec fn spec_module_handle_table_bytes(items: Seq<ModuleHandle>) -> Seq<u8>
    decreases items.len(),
{
    if items.len() == 0 {
        Seq::empty()
    } else {
        spec_module_handle_bytes(items[0]) + spec_module_handle_table_bytes(items.subrange(1, items.len() as int))
    }
}

/// Decoding the bytes of a table of module handles up to the end of the table gives
/// the records.
pub proof fn lemma_module_handle_table_round_trip(c: CursorView, items: Seq<ModuleHandle>)
    requires
        spec_holds(c, spec_module_handle_table_bytes(items)),
        c.position + spec_module_handle_table_bytes(items).len() == c.bytes.len(),
    ensures
        spec_load_module_handle_sequence(c) == Ok::<(Seq<ModuleHandle>, nat), PartialVMError>(
            (items, spec_module_handle_table_bytes(items).len()),
        ),
    decreases items.len(),
{
    if items.len() == 0 {
        assert(items =~= Seq::<ModuleHandle>::empty());
    } else {
        let first = spec_module_handle_bytes(items[0]);
        let tail = items.subrange(1, items.len() as int);
        lemma_holds_split(c, first, spec_module_handle_table_bytes(tail));
        lemma_module_handle_round_trip(c, items[0]);
        lemma_load_module_handle_advances(c);
        lemma_module_handle_table_round_trip(c.skip(first.len()), tail);
        assert(seq![items[0]] + tail =~= items);
    }
}

/// Whether the struct handle can be written.
pub open spec fn spec_encodable_struct_handle(version: u32, handle: StructHandleView) -> bool {
    &&& spec_encodable_ability_set(version, AbilitySetPosition::StructHandle, handle.abilities)
    &&& handle.type_parameters.len() <= TYPE_PARAMETER_COUNT_MAX
    &&& forall|i: int|
        0 <= i < handle.type_parameters.len() ==> spec_encodable_struct_type_parameter(
            version,
            #[trigger] handle.type_parameters[i],
        )
}

/// Whether the function handle can be written.
pub open spec fn spec_encodable_function_handle(version: u32, handle: FunctionHandleView) -> bool {
    &&& handle.type_parameters.len() <= TYPE_PARAMETER_COUNT_MAX
    &&& forall|i: int|
        0 <= i < handle.type_parameters.len() ==> spec_encodable_ability_set(
            version,
            AbilitySetPosition::FunctionTypeParameters,
            #[trigger] handle.type_parameters[i],
        )
}

/// The bytes of a struct handle: its module, its name, its abilities and its
/// type parameters.
pub open spec fn spec_struct_handle_bytes(version: u32, handle: StructHandleView) -> Seq<u8> {
    spec_uleb128_bytes(handle.module.0 as nat) + (spec_uleb128_bytes(handle.name.0 as nat) + (spec_ability_set_bytes(version, AbilitySetPosition::StructHandle, handle.abilities) + (spec_struct_type_parameters_bytes(version, handle.type_parameters))))
}

/// Decoding the bytes of a struct handle gives the handle.
pub proof fn lemma_struct_handle_round_trip(c: CursorView, handle: StructHandleView)
    requires
        spec_holds(c, spec_struct_handle_bytes(c.version, handle)),
        spec_encodable_struct_handle(c.version, handle),
    ensures
        spec_load_struct_handle(c) == Ok::<(StructHandleView, nat), PartialVMError>(
            (handle, spec_struct_handle_bytes(c.version, handle).len()),
        ),
{
    let c0 = c;
    let b0 = spec_uleb128_bytes(handle.module.0 as nat);
    let b1 = spec_uleb128_bytes(handle.name.0 as nat);
    let b2 = spec_ability_set_bytes(c.version, AbilitySetPosition::StructHandle, handle.abilities);
    let b3 = spec_struct_type_parameters_bytes(c.version, handle.type_parameters);
    lemma_holds_split(c0, b0, b1 + (b2 + (b3)));
    lemma_bounded_uleb128_round_trip(c0, handle.module.0 as u64, MODULE_HANDLE_INDEX_MAX);
    let c1 = c.skip(b0.len());
    assert(c0.skip(b0.len()) == c1);
    lemma_holds_split(c1, b1, b2 + (b3));
    lemma_bounded_uleb128_round_trip(c1, handle.name.0 as u64, IDENTIFIER_INDEX_MAX);
    let c2 = c.skip(b0.len() + b1.len());
    assert(c1.skip(b1.len()) == c2);
    lemma_holds_split(c2, b2, b3);
    lemma_ability_set_round_trip(c2, handle.abilities, AbilitySetPosition::StructHandle);
    let c3 = c.skip(b0.len() + b1.len() + b2.len());
    assert(c2.skip(b2.len()) == c3);
    lemma_struct_type_parameters_round_trip(c3, handle.type_parameters);
}

/// The bytes of a table of struct handles: the records, one behind the other.
pub open spec fn spec_struct_handle_table_bytes(version: u32, items: Seq<StructHandleView>) -> Seq<u8>
    decreases items.len(),
{
    if items.len() == 0 {
        Seq::empty()
    } else {
        spec_struct_handle_bytes(version, items[0]) + spec_struct_handle_table_bytes(version, items.subrange(1, items.len() as int))
    }
}

/// Decoding the bytes of a table of struct handles up to the end of the table gives
/// the records.
pub proof fn lemma_struct_handle_table_round_trip(c: CursorView, items: Seq<StructHandleView>)
    requires
        spec_holds(c, spec_struct_handle_table_bytes(c.version, items)),
        c.position + spec_struct_handle_table_bytes(c.version, items).len() == c.bytes.len(),
        forall|i: int| 0 <= i < items.len() ==> spec_encodable_struct_handle(c.version, (#[trigger] items[i])),
    ensures
        spec_load_struct_handle_sequence(c) == Ok::<(Seq<StructHandleView>, nat), PartialVMError>(
            (items, spec_struct_handle_table_bytes(c.version, items).len()),
        ),
    decreases items.len(),
{
    if items.len() == 0 {
        assert(items =~= Seq::<StructHandleView>::empty());
    } else {
        let first = spec_struct_handle_bytes(c.version, items[0]);
        let tail = items.subrange(1, items.len() as int);
        lemma_holds_split(c, first, spec_struct_handle_table_bytes(c.version, tail));
        lemma_struct_handle_round_trip(c, items[0]);
        lemma_load_struct_handle_advances(c);
        assert forall|i: int| 0 <= i < tail.len() implies spec_encodable_struct_handle(c.version, (#[trigger] tail[i])) by {
            assert(tail[i] == items[i + 1]);
        }
        lemma_struct_handle_table_round_trip(c.skip(first.len()), tail);
        assert(seq![items[0]] + tail =~= items);
    }
}

/// The bytes of a function handle: its module, its name, the signatures of
/// its parameters and of its results, and the constraints on its type
/// parameters.
pub open spec fn spec_function_handle_bytes(version: u32, handle: FunctionHandleView) -> Seq<u8> {
    spec_uleb128_bytes(handle.module.0 as nat) + (spec_uleb128_bytes(handle.name.0 as nat) + (spec_uleb128_bytes(handle.parameters.0 as nat) + (spec_uleb128_bytes(handle.return_.0 as nat) + (spec_ability_sets_bytes(version, AbilitySetPosition::FunctionTypeParameters, handle.type_parameters)))))
}

/// Decoding the bytes of a function handle gives the handle.
pub proof fn lemma_function_handle_round_trip(c: CursorView, handle: FunctionHandleView)
    requires
        spec_holds(c, spec_function_handle_bytes(c.version, handle)),
        spec_encodable_function_handle(c.version, handle),
    ensures
        spec_load_function_handle(c) == Ok::<(FunctionHandleView, nat), PartialVMError>(
            (handle, spec_function_handle_bytes(c.version, handle).len()),
        ),
{
    let c0 = c;
    let b0 = spec_uleb128_bytes(handle.module.0 as nat);
    let b1 = spec_uleb128_bytes(handle.name.0 as nat);
    let b2 = spec_uleb128_bytes(handle.parameters.0 as nat);
    let b3 = spec_uleb128_bytes(handle.return_.0 as nat);
    let b4 = spec_ability_sets_bytes(c.version, AbilitySetPosition::FunctionTypeParameters, handle.type_parameters);
    lemma_holds_split(c0, b0, b1 + (b2 + (b3 + (b4))));
    lemma_bounded_uleb128_round_trip(c0, handle.module.0 as u64, MODULE_HANDLE_INDEX_MAX);
    let c1 = c.skip(b0.len());
    assert(c0.skip(b0.len()) == c1);
    lemma_holds_split(c1, b1, b2 + (b3 + (b4)));
    lemma_bounded_uleb128_round_trip(c1, handle.name.0 as u64, IDENTIFIER_INDEX_MAX);
    let c2 = c.skip(b0.len() + b1.len());
    assert(c1.skip(b1.len()) == c2);
    lemma_holds_split(c2, b2, b3 + (b4));
    lemma_bounded_uleb128_round_trip(c2, handle.parameters.0 as u64, SIGNATURE_INDEX_MAX);
    let c3 = c.skip(b0.len() + b1.len() + b2.len());
    assert(c2.skip(b2.len()) == c3);
    lemma_holds_split(c3, b3, b4);
    lemma_bounded_uleb128_round_trip(c3, handle.return_.0 as u64, SIGNATURE_INDEX_MAX);
    let c4 = c.skip(b0.len() + b1.len() + b2.len() + b3.len());
    assert(c3.skip(b3.len()) == c4);
    lemma_ability_sets_round_trip(c4, AbilitySetPosition::FunctionTypeParameters, handle.type_parameters);
}

/// The bytes of a table of function handles: the records, one behind the other.
pub open spec fn spec_function_handle_table_bytes(version: u32, items: Seq<FunctionHandleView>) -> Seq<u8>
    decreases items.len(),
{
    if items.len() == 0 {
        Seq::empty()
    } else {
        spec_function_handle_bytes(version, items[0]) + spec_function_handle_table_bytes(version, items.subrange(1, items.len() as int))
    }
}

/// Decoding the bytes of a table of function handles up to the end of the table gives
/// the records.
pub proof fn lemma_function_handle_table_round_trip(c: CursorView, items: Seq<FunctionHandleView>)
    requires
        spec_holds(c, spec_function_handle_table_bytes(c.version, items)),
        c.position + spec_function_handle_table_bytes(c.version, items).len() == c.bytes.len(),
        forall|i: int| 0 <= i < items.len() ==> spec_encodable_function_handle(c.version, (#[trigger] items[i])),
    ensures
        spec_load_function_handle_sequence(c) == Ok::<(Seq<FunctionHandleView>, nat), PartialVMError>(
            (items, spec_function_handle_table_bytes(c.version, items).len()),
        ),
    decreases items.len(),
{
    if items.len() == 0 {
        assert(items =~= Seq::<FunctionHandleView>::empty());
    } else {
        let first = spec_function_handle_bytes(c.version, items[0]);
        let tail = items.subrange(1, items.len() as int);
        lemma_holds_split(c, first, spec_function_handle_table_bytes(c.version, tail));
        lemma_function_handle_round_trip(c, items[0]);
        lemma_load_function_handle_advances(c);
        assert forall|i: int| 0 <= i < tail.len() implies spec_encodable_function_handle(c.version, (#[trigger] tail[i])) by {
            assert(tail[i] == items[i + 1]);
        }
        lemma_function_handle_table_round_trip(c.skip(first.len()), tail);
        assert(seq![items[0]] + tail =~= items);
    }
}

/// The bytes of a struct instantiation: the index of its definition and the
/// index of the signature of its type arguments.
pub open spec fn spec_struct_instantiation_bytes(instantiation: StructDefInstantiation) -> Seq<u8> {
    spec_uleb128_bytes(instantiation.def.0 as nat) + (spec_uleb128_bytes(instantiation.type_parameters.0 as nat))
}

/// Decoding the bytes of a struct instantiation gives the instantiation.
pub proof fn lemma_struct_instantiation_round_trip(c: CursorView, instantiation: StructDefInstantiation)
    requires
        spec_holds(c, spec_struct_instantiation_bytes(instantiation)),
    ensures
        spec_load_struct_instantiation(c) == Ok::<(StructDefInstantiation, nat), PartialVMError>(
            (instantiation, spec_struct_instantiation_bytes(instantiation).len()),
        ),
{
    let c0 = c;
    let b0 = spec_uleb128_bytes(instantiation.def.0 as nat);
    let b1 = spec_uleb128_bytes(instantiation.type_parameters.0 as nat);
    lemma_holds_split(c0, b0, b1);
    lemma_bounded_uleb128_round_trip(c0, instantiation.def.0 as u64, STRUCT_DEF_INDEX_MAX);
    let c1 = c.skip(b0.len());
    assert(c0.skip(b0.len()) == c1);
    lemma_bounded_uleb128_round_trip(c1, instantiation.type_parameters.0 as u64, SIGNATURE_INDEX_MAX);
}

/// The bytes of a table of struct instantiations: the records, one behind the other.
pub open spec fn spec_struct_instantiation_table_bytes(items: Seq<StructDefInstantiation>) -> Seq<u8>
    decreases items.len(),
{
    if items.len() == 0 {
        Seq::empty()
    } else {
        spec_struct_instantiation_bytes(items[0]) + spec_struct_instantiation_table_bytes(items.subrange(1, items.len() as int))
    }
}

/// Decoding the bytes of a table of struct instantiations up to the end of the table gives
/// the records.
pub proof fn lemma_struct_instantiation_table_round_trip(c: CursorView, items: Seq<StructDefInstantiation>)
    requires
        spec_holds(c, spec_struct_instantiation_table_bytes(items)),
        c.position + spec_struct_instantiation_table_bytes(items).len() == c.bytes.len(),
    ensures
        spec_load_struct_instantiation_sequence(c) == Ok::<(Seq<StructDefInstantiation>, nat), PartialVMError>(
            (items, spec_struct_instantiation_table_bytes(items).len()),
        ),
    decreases items.len(),
{
    if items.len() == 0 {
        assert(items =~= Seq::<StructDefInstantiation>::empty());
    } else {
        let first = spec_struct_instantiation_bytes(items[0]);
        let tail = items.subrange(1, items.len() as int);
        lemma_holds_split(c, first, spec_struct_instantiation_table_bytes(tail));
        lemma_struct_instantiation_round_trip(c, items[0]);
        lemma_load_struct_instantiation_advances(c);
        lemma_struct_instantiation_table_round_trip(c.skip(first.len()), tail);
        assert(seq![items[0]] + tail =~= items);
    }
}

/// The bytes of a function instantiation: the index of its handle and the
/// index of the signature of its type arguments.
pub open spec fn spec_function_instantiation_bytes(instantiation: FunctionInstantiation) -> Seq<u8> {
    spec_uleb128_bytes(instantiation.handle.0 as nat) + (spec_uleb128_bytes(instantiation.type_parameters.0 as nat))
}

/// Decoding the bytes of a function instantiation gives the instantiation.
pub proof fn lemma_function_instantiation_round_trip(c: CursorView, instantiation: FunctionInstantiation)
    requires
        spec_holds(c, spec_function_instantiation_bytes(instantiation)),
    ensures
        spec_load_function_instantiation(c) == Ok::<(FunctionInstantiation, nat), PartialVMError>(
            (instantiation, spec_function_instantiation_bytes(instantiation).len()),
        ),
{
    let c0 = c;
    let b0 = spec_uleb128_bytes(instantiation.handle.0 as nat);
    let b1 = spec_uleb128_bytes(instantiation.type_parameters.0 as nat);
    lemma_holds_split(c0, b0, b1);
    lemma_bounded_uleb128_round_trip(c0, instantiation.handle.0 as u64, FUNCTION_HANDLE_INDEX_MAX);
    let c1 = c.skip(b0.len());
    assert(c0.skip(b0.len()) == c1);
    lemma_bounded_uleb128_round_trip(c1, instantiation.type_parameters.0 as u64, SIGNATURE_INDEX_MAX);
}

/// The bytes of a table of function instantiations: the records, one behind the other.
pub open spec fn spec_function_instantiation_table_bytes(items: Seq<FunctionInstantiation>) -> Seq<u8>
    decreases items.len(),
{
    if items.len() == 0 {
        Seq::empty()
    } else {
        spec_function_instantiation_bytes(items[0]) + spec_function_instantiation_table_bytes(items.subrange(1, items.len() as int))
    }
}

/// Decoding the bytes of a table of function instantiations up to the end of the table gives
/// the records.
pub proof fn lemma_function_instantiation_table_round_trip(c: CursorView, items: Seq<FunctionInstantiation>)
    requires
        spec_holds(c, spec_function_instantiation_table_bytes(items)),
        c.position + spec_function_instantiation_table_bytes(items).len() == c.bytes.len(),
    ensures
        spec_load_function_instantiation_sequence(c) == Ok::<(Seq<FunctionInstantiation>, nat), PartialVMError>(
            (items, spec_function_instantiation_table_bytes(items).len()),
        ),
    decreases items.len(),
{
    if items.len() == 0 {
        assert(items =~= Seq::<FunctionInstantiation>::empty());
    } else {
        let first = spec_function_instantiation_bytes(items[0]);
        let tail = items.subrange(1, items.len() as int);
        lemma_holds_split(c, first, spec_function_instantiation_table_bytes(tail));
        lemma_function_instantiation_round_trip(c, items[0]);
        lemma_load_function_instantiation_advances(c);
        lemma_function_instantiation_table_round_trip(c.skip(first.len()), tail);
        assert(seq![items[0]] + tail =~= items);
    }
}

/// The bytes of a field handle: the index of its struct definition and the
/// position of the field.
pub open spec fn spec_field_handle_bytes(handle: FieldHandle) -> Seq<u8> {
    spec_uleb128_bytes(handle.owner.0 as nat) + (spec_uleb128_bytes(handle.field as nat))
}

/// Decoding the bytes of a field handle gives the handle.
pub proof fn lemma_field_handle_round_trip(c: CursorView, handle: FieldHandle)
    requires
        spec_holds(c, spec_field_handle_bytes(handle)),
        handle.field <= FIELD_OFFSET_MAX,
    ensures
        spec_load_field_handle(c) == Ok::<(FieldHandle, nat), PartialVMError>(
            (handle, spec_field_handle_bytes(handle).len()),
        ),
{
    let c0 = c;
    let b0 = spec_uleb128_bytes(handle.owner.0 as nat);
    let b1 = spec_uleb128_bytes(handle.field as nat);
    lemma_holds_split(c0, b0, b1);
    lemma_bounded_uleb128_round_trip(c0, handle.owner.0 as u64, STRUCT_DEF_INDEX_MAX);
    let c1 = c.skip(b0.len());
    assert(c0.skip(b0.len()) == c1);
    lemma_bounded_uleb128_round_trip(c1, handle.field as u64, FIELD_OFFSET_MAX);
}

/// The bytes of a table of field handles: the records, one behind the other.
pub open spec fn spec_field_handle_table_bytes(items: Seq<FieldHandle>) -> Seq<u8>
    decreases items.len(),
{
    if items.len() == 0 {
        Seq::empty()
    } else {
        spec_field_handle_bytes(items[0]) + spec_field_handle_table_bytes(items.subrange(1, items.len() as int))
    }
}

/// Decoding the bytes of a table of field handles up to the end of the table gives
/// the records.
pub proof fn lemma_field_handle_table_round_trip(c: CursorView, items: Seq<FieldHandle>)
    requires
        spec_holds(c, spec_field_handle_table_bytes(items)),
        c.position + spec_field_handle_table_bytes(items).len() == c.bytes.len(),
        forall|i: int| 0 <= i < items.len() ==> (#[trigger] items[i]).field <= FIELD_OFFSET_MAX,
    ensures
        spec_load_field_handle_sequence(c) == Ok::<(Seq<FieldHandle>, nat), PartialVMError>(
            (items, spec_field_handle_table_bytes(items).len()),
        ),
    decreases items.len(),
{
    if items.len() == 0 {
        assert(items =~= Seq::<FieldHandle>::empty());
    } else {
        let first = spec_field_handle_bytes(items[0]);
        let tail = items.subrange(1, items.len() as int);
        lemma_holds_split(c, first, spec_field_handle_table_bytes(tail));
        lemma_field_handle_round_trip(c, items[0]);
        lemma_load_field_handle_advances(c);
        assert forall|i: int| 0 <= i < tail.len() implies (#[trigger] tail[i]).field <= FIELD_OFFSET_MAX by {
            assert(tail[i] == items[i + 1]);
        }
        lemma_field_handle_table_round_trip(c.skip(first.len()), tail);
        assert(seq![items[0]] + tail =~= items);
    }
}

/// The bytes of a field instantiation: the index of its handle and the index
/// of the signature of the type arguments of its struct.
pub open spec fn spec_field_instantiation_bytes(instantiation: FieldInstantiation) -> Seq<u8> {
    spec_uleb128_bytes(instantiation.handle.0 as nat) + (spec_uleb128_bytes(instantiation.type_parameters.0 as nat))
}

/// Decoding the bytes of a field instantiation gives the instantiation.
pub proof fn lemma_field_instantiation_round_trip(c: CursorView, instantiation: FieldInstantiation)
    requires
        spec_holds(c, spec_field_instantiation_bytes(instantiation)),
    ensures
        spec_load_field_instantiation(c) == Ok::<(FieldInstantiation, nat), PartialVMError>(
            (instantiation, spec_field_instantiation_bytes(instantiation).len()),
        ),
{
    let c0 = c;
    let b0 = spec_uleb128_bytes(instantiation.handle.0 as nat);
    let b1 = spec_uleb128_bytes(instantiation.type_parameters.0 as nat);
    lemma_holds_split(c0, b0, b1);
    lemma_bounded_uleb128_round_trip(c0, instantiation.handle.0 as u64, FIELD_HANDLE_INDEX_MAX);
    let c1 = c.skip(b0.len());
    assert(c0.skip(b0.len()) == c1);
    lemma_bounded_uleb128_round_trip(c1, instantiation.type_parameters.0 as u64, SIGNATURE_INDEX_MAX);
}

/// The bytes of a table of field instantiations: the records, one behind the other.
pub open spec fn spec_field_instantiation_table_bytes(items: Seq<FieldInstantiation>) -> Seq<u8>
    decreases items.len(),
{
    if items.len() == 0 {
        Seq::empty()
    } else {
        spec_field_instantiation_bytes(items[0]) + spec_field_instantiation_table_bytes(items.subrange(1, items.len() as int))
    }
}

/// Decoding the bytes of a table of field instantiations up to the end of the table gives
/// the records.
pub proof fn lemma_field_instantiation_table_round_trip(c: CursorView, items: Seq<FieldInstantiation>)
    requires
        spec_holds(c, spec_field_instantiation_table_bytes(items)),
        c.position + spec_field_instantiation_table_bytes(items).len() == c.bytes.len(),
    ensures
        spec_load_field_instantiation_sequence(c) == Ok::<(Seq<FieldInstantiation>, nat), PartialVMError>(
            (items, spec_field_instantiation_table_bytes(items).len()),
        ),
    decreases items.len(),
{
    if items.len() == 0 {
        assert(items =~= Seq::<FieldInstantiation>::empty());
    } else {
        let first = spec_field_instantiation_bytes(items[0]);
        let tail = items.subrange(1, items.len() as int);
        lemma_holds_split(c, first, spec_field_instantiation_table_bytes(tail));
        lemma_field_instantiation_round_trip(c, items[0]);
        lemma_load_field_instantiation_advances(c);
        lemma_field_instantiation_table_round_trip(c.skip(first.len()), tail);
        assert(seq![items[0]] + tail =~= items);
    }
}

} // verus!
