//! Readers of ability sets and of the type parameters that carry them.
//!
//! From version 2 on a binary holds an ability set as one bounded integer.
//! Version 1 holds a kind in its place, which is read as the ability set
//! that gives old code the same rights.

use vstd::prelude::*;
use crate::constants::VERSION_2;
use crate::constants::VERSION_3;
use crate::cursor::{decodes, malformed_error, spec_read_u8, CursorView, Decoded, VersionedCursor};
use crate::errors::{malformed, Message, PartialVMError, StatusCode};
use crate::file_format::{
    lemma_empty_deep_view, lemma_push_deep_view, AbilitySet, StructTypeParameter, ABILITY_SET_ALL,
};
use crate::file_format_common::{DeprecatedKind, DeprecatedNominalResourceFlag};
use crate::indices::{load_type_parameter_count, spec_load_type_parameter_count};
use crate::primitives::{
    cons_result, lemma_prepend_empty, lemma_prepend_step, prepend, read_uleb_internal,
    spec_read_uleb,
};
use crate::signatures::shift;

verus! {

/// Where an ability set stands in a binary.
#[derive(Clone, Copy, Debug, PartialEq, Eq, Structural)]
pub enum AbilitySetPosition {
    FunctionTypeParameters,
    StructTypeParameters,
    StructHandle,
}

/// The abilities that a struct of version 1 has.
pub open spec fn spec_struct_abilities(flag: DeprecatedNominalResourceFlag) -> AbilitySet {
    match flag {
        DeprecatedNominalResourceFlag::NOMINAL_RESOURCE => AbilitySet::of(
            false,
            false,
            true,
            true,
        ),
        DeprecatedNominalResourceFlag::NORMAL_STRUCT => AbilitySet::of(true, true, true, false),
    }
}

/// The abilities that a kind of version 1 asks of a type argument: of a
/// function, where the argument may go to storage, and of a struct.
pub open spec fn spec_kind_abilities(kind: DeprecatedKind, of_function: bool) -> AbilitySet {
    match kind {
        DeprecatedKind::ALL => AbilitySet::of(false, false, of_function, false),
        DeprecatedKind::COPYABLE => AbilitySet::of(true, true, of_function, false),
        DeprecatedKind::RESOURCE => AbilitySet::of(false, false, of_function, true),
    }
}

/// The ability set at the reader, for the position `pos`.
pub open spec fn spec_load_ability_set(c: CursorView, pos: AbilitySetPosition) -> Decoded<
    AbilitySet,
> {
    if c.version < VERSION_2 {
        match spec_read_u8(c) {
            None => Err(malformed(Message::UnexpectedEof)),
            Some(byte) => match pos {
                AbilitySetPosition::StructHandle => {
                    match DeprecatedNominalResourceFlag::spec_from_u8(byte) {
                        Err(e) => Err(e),
                        Ok(flag) => Ok((spec_struct_abilities(flag), 1)),
                    }
                },
                _ => match DeprecatedKind::spec_from_u8(byte) {
                    Err(e) => Err(e),
                    Ok(kind) => Ok(
                        (
                            spec_kind_abilities(
                                kind,
                                pos == AbilitySetPosition::FunctionTypeParameters,
                            ),
                            1,
                        ),
                    ),
                },
            },
        }
    } else {
        match spec_read_uleb(c, ABILITY_SET_ALL as u64) {
            Err(e) => Err(e),
            Ok((u, n)) => match AbilitySet::spec_from_u8(u as u8) {
                Some(abilities) => Ok((abilities, n)),
                None => Err(PartialVMError::spec_new(StatusCode::UnknownAbility)),
            },
        }
    }
}

fn ability_set_of(copy: bool, drop: bool, store: bool, key: bool) -> (r: AbilitySet)
    ensures
        r == AbilitySet::of(copy, drop, store, key),
{
    let mut bits: u8 = 0;
    if copy {
        bits = bits + 0x1;
    }
    if drop {
        bits = bits + 0x2;
    }
    if store {
        bits = bits + 0x4;
    }
    if key {
        bits = bits + 0x8;
    }
    AbilitySet(bits)
}

/// Reads what [`spec_load_ability_set`] describes and leaves the reader behind it.
pub fn load_ability_set(cursor: &mut VersionedCursor, pos: AbilitySetPosition) -> (r: Result<
    AbilitySet,
    PartialVMError,
>)
    ensures
        decodes(old(cursor)@, final(cursor)@, r, spec_load_ability_set(old(cursor)@, pos)),
        r is Ok ==> old(cursor)@.position < final(cursor)@.position,
{
    if cursor.version() < VERSION_2 {
        let byte = match cursor.read_u8() {
            Some(byte) => byte,
            None => {
                return Err(malformed_error(Message::UnexpectedEof));
            },
        };
        match pos {
            AbilitySetPosition::StructHandle => {
                Ok(
                    match DeprecatedNominalResourceFlag::from_u8(byte)? {
                        DeprecatedNominalResourceFlag::NOMINAL_RESOURCE => ability_set_of(
                            false,
                            false,
                            true,
                            true,
                        ),
                        DeprecatedNominalResourceFlag::NORMAL_STRUCT => ability_set_of(
                            true,
                            true,
                            true,
                            false,
                        ),
                    },
                )
            },
            AbilitySetPosition::FunctionTypeParameters | AbilitySetPosition::StructTypeParameters => {
                let store = match pos {
                    AbilitySetPosition::FunctionTypeParameters => true,
                    _ => false,
                };
                Ok(
                    match DeprecatedKind::from_u8(byte)? {
                        DeprecatedKind::ALL => ability_set_of(false, false, store, false),
                        DeprecatedKind::COPYABLE => ability_set_of(true, true, store, false),
                        DeprecatedKind::RESOURCE => ability_set_of(false, false, store, true),
                    },
                )
            },
        }
    } else {
        let u = read_uleb_internal(cursor, ABILITY_SET_ALL as u64)?;
        match AbilitySet::from_u8(u as u8) {
            Some(abilities) => Ok(abilities),
            None => Err(PartialVMError::new(StatusCode::UnknownAbility)),
        }
    }
}

/// `count` ability sets, one after the other.
pub open spec fn spec_ability_set_list(c: CursorView, pos: AbilitySetPosition, count: nat) -> Decoded<
    Seq<AbilitySet>,
>
    decreases count,
{
    if count == 0 {
        Ok((Seq::empty(), 0))
    } else {
        match spec_load_ability_set(c, pos) {
            Err(e) => Err(e),
            Ok((x, n)) => cons_result(
                x,
                n,
                spec_ability_set_list(c.skip(n), pos, (count - 1) as nat),
            ),
        }
    }
}

/// A count and that many ability sets.
pub open spec fn spec_load_ability_sets(c: CursorView, pos: AbilitySetPosition) -> Decoded<
    Seq<AbilitySet>,
> {
    match spec_load_type_parameter_count(c) {
        Err(e) => Err(e),
        Ok((len, n)) => shift(n, spec_ability_set_list(c.skip(n), pos, len as nat)),
    }
}

/// Reads what [`spec_load_ability_sets`] describes and leaves the reader behind it.
pub fn load_ability_sets(cursor: &mut VersionedCursor, pos: AbilitySetPosition) -> (r: Result<
    Vec<AbilitySet>,
    PartialVMError,
>)
    ensures
        decodes(old(cursor)@, final(cursor)@, r, spec_load_ability_sets(old(cursor)@, pos)),
        r is Ok ==> old(cursor)@.position < final(cursor)@.position,
{
    let len = load_type_parameter_count(cursor)?;
    let ghost first = cursor@;
    let ghost n0 = (first.position - old(cursor)@.position) as nat;
    let mut kinds: Vec<AbilitySet> = Vec::new();
    let mut i: usize = 0;
    proof {
        lemma_empty_deep_view(kinds);
        lemma_prepend_empty(
            kinds.deep_view(),
            0,
            spec_ability_set_list(first, pos, len as nat),
        );
    }
    while i < len
        invariant
            i <= len,
            first == old(cursor)@.skip(n0),
            spec_load_type_parameter_count(old(cursor)@) == Ok::<(usize, nat), PartialVMError>(
                (len, n0),
            ),
            cursor@.bytes == first.bytes,
            cursor@.version == first.version,
            0 <= first.position <= cursor@.position <= cursor@.bytes.len(),
            spec_ability_set_list(first, pos, len as nat) == prepend(
                kinds.deep_view(),
                (cursor@.position - first.position) as nat,
                spec_ability_set_list(cursor@, pos, (len - i) as nat),
            ),
        decreases len - i,
    {
        let ghost here = cursor@;
        let ghost before = kinds;
        let x = load_ability_set(cursor, pos)?;
        kinds.push(x);
        i = i + 1;
        proof {
            lemma_push_deep_view(before, kinds, x);
            lemma_prepend_step(
                before.deep_view(),
                (here.position - first.position) as nat,
                x.deep_view(),
                (cursor@.position - here.position) as nat,
                spec_ability_set_list(cursor@, pos, (len - i) as nat),
            );
        }
    }
    proof {
        lemma_prepend_empty(
            kinds.deep_view(),
            (cursor@.position - first.position) as nat,
            spec_ability_set_list(cursor@, pos, 0),
        );
    }
    Ok(kinds)
}

/// The type parameter of a struct at the reader: its constraints and, from
/// version 3 on, whether it is phantom.
pub open spec fn spec_load_struct_type_parameter(c: CursorView) -> Decoded<StructTypeParameter> {
    match spec_load_ability_set(c, AbilitySetPosition::StructTypeParameters) {
        Err(e) => Err(e),
        Ok((constraints, n)) => {
            if c.version < VERSION_3 {
                Ok((StructTypeParameter { constraints, is_phantom: false }, n))
            } else {
                match spec_read_uleb(c.skip(n), 1) {
                    Err(e) => Err(e),
                    Ok((byte, m)) => Ok(
                        (StructTypeParameter { constraints, is_phantom: byte != 0 }, n + m),
                    ),
                }
            }
        },
    }
}

/// Reads what [`spec_load_struct_type_parameter`] describes and leaves the reader behind it.
pub fn load_struct_type_parameter(cursor: &mut VersionedCursor) -> (r: Result<
    StructTypeParameter,
    PartialVMError,
>)
    ensures
        decodes(old(cursor)@, final(cursor)@, r, spec_load_struct_type_parameter(old(cursor)@)),
        r is Ok ==> old(cursor)@.position < final(cursor)@.position,
{
    let constraints = load_ability_set(cursor, AbilitySetPosition::StructTypeParameters)?;
    let is_phantom = if cursor.version() < VERSION_3 {
        false
    } else {
        let byte = read_uleb_internal(cursor, 1)?;
        byte != 0
    };
    Ok(StructTypeParameter { constraints, is_phantom })
}

/// `count` type parameters of a struct, one after the other.
pub open spec fn spec_struct_type_parameter_list(c: CursorView, count: nat) -> Decoded<
    Seq<StructTypeParameter>,
>
    decreases count,
{
    if count == 0 {
        Ok((Seq::empty(), 0))
    } else {
        match spec_load_struct_type_parameter(c) {
            Err(e) => Err(e),
            Ok((x, n)) => cons_result(
                x,
                n,
                spec_struct_type_parameter_list(c.skip(n), (count - 1) as nat),
            ),
        }
    }
}

/// A count and that many type parameters of a struct.
pub open spec fn spec_load_struct_type_parameters(c: CursorView) -> Decoded<
    Seq<StructTypeParameter>,
> {
    match spec_load_type_parameter_count(c) {
        Err(e) => Err(e),
        Ok((len, n)) => shift(n, spec_struct_type_parameter_list(c.skip(n), len as nat)),
    }
}

/// Reads what [`spec_load_struct_type_parameters`] describes and leaves the reader behind it.
pub fn load_struct_type_parameters(cursor: &mut VersionedCursor) -> (r: Result<
    Vec<StructTypeParameter>,
    PartialVMError,
>)
    ensures
        decodes(old(cursor)@, final(cursor)@, r, spec_load_struct_type_parameters(old(cursor)@)),
        r is Ok ==> old(cursor)@.position < final(cursor)@.position,
{
    let len = load_type_parameter_count(cursor)?;
    let ghost first = cursor@;
    let ghost n0 = (first.position - old(cursor)@.position) as nat;
    let mut type_params: Vec<StructTypeParameter> = Vec::with_capacity(len);
    let mut i: usize = 0;
    proof {
        lemma_empty_deep_view(type_params);
        lemma_prepend_empty(
            type_params.deep_view(),
            0,
            spec_struct_type_parameter_list(first, len as nat),
        );
    }
    while i < len
        invariant
            i <= len,
            first == old(cursor)@.skip(n0),
            spec_load_type_parameter_count(old(cursor)@) == Ok::<(usize, nat), PartialVMError>(
                (len, n0),
            ),
            cursor@.bytes == first.bytes,
            cursor@.version == first.version,
            0 <= first.position <= cursor@.position <= cursor@.bytes.len(),
            spec_struct_type_parameter_list(first, len as nat) == prepend(
                type_params.deep_view(),
                (cursor@.position - first.position) as nat,
                spec_struct_type_parameter_list(cursor@, (len - i) as nat),
            ),
        decreases len - i,
    {
        let ghost here = cursor@;
        let ghost before = type_params;
        let x = load_struct_type_parameter(cursor)?;
        type_params.push(x);
        i = i + 1;
        proof {
            lemma_push_deep_view(before, type_params, x);
            lemma_prepend_step(
                before.deep_view(),
                (here.position - first.position) as nat,
                x.deep_view(),
                (cursor@.position - here.position) as nat,
                spec_struct_type_parameter_list(cursor@, (len - i) as nat),
            );
        }
    }
    proof {
        lemma_prepend_empty(
            type_params.deep_view(),
            (cursor@.position - first.position) as nat,
            spec_struct_type_parameter_list(cursor@, 0),
        );
    }
    Ok(type_params)
}

} // verus!
