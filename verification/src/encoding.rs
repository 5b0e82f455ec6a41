//! The bytes that stand for a value in a binary, and the law that decoding
//! them gives the value back. Where the versions of the format differ, the
//! bytes are those of the version that is named.
//!
//! The library does not write binaries. The encodings here are mathematics:
//! they say which bytes a writer of the format puts down, so that the decoder
//! can be held against them.

use vstd::prelude::*;
use crate::cursor::{
    le16, le2, le4, le8, lemma_pow128_values, pow128, spec_read_exact, spec_read_u8,
    spec_read_uleb128, spec_uleb128_from, CursorView,
};
use crate::errors::PartialVMError;
use crate::constants::{
    SIGNATURE_TOKEN_DEPTH_MAX, STRUCT_HANDLE_INDEX_MAX, TYPE_PARAMETER_COUNT_MAX,
    TYPE_PARAMETER_INDEX_MAX, VERSION_6,
};
use crate::file_format::{SignatureTokenView, U256};
use crate::signatures::{spec_token_at, spec_token_head, spec_type_arguments, TypeBuilderView};
use crate::primitives::{
    spec_read_le, spec_read_u128, spec_read_u16, spec_read_u256, spec_read_u32, spec_read_u64,
    spec_read_uleb,
};

verus! {

/// Whether the bytes `s` stand at the reader.
pub open spec fn spec_holds(c: CursorView, s: Seq<u8>) -> bool {
    &&& 0 <= c.position
    &&& c.position + s.len() <= c.bytes.len()
    &&& c.bytes.subrange(c.position, c.position + s.len()) == s
}

/// Where `a + b` stands, `a` stands, and `b` stands behind it.
pub proof fn lemma_holds_split(c: CursorView, a: Seq<u8>, b: Seq<u8>)
    requires
        spec_holds(c, a + b),
    ensures
        spec_holds(c, a),
        spec_holds(c.skip(a.len()), b),
{
    let s = a + b;
    assert(c.bytes.subrange(c.position, c.position + a.len()) =~= s.subrange(0, a.len() as int));
    assert(s.subrange(0, a.len() as int) =~= a);
    assert(c.bytes.subrange(c.position + a.len(), c.position + a.len() + b.len()) =~= s.subrange(
        a.len() as int,
        s.len() as int,
    ));
    assert(s.subrange(a.len() as int, s.len() as int) =~= b);
}

/// Where bytes stand, the first of them is the next byte.
pub proof fn lemma_holds_first(c: CursorView, s: Seq<u8>)
    requires
        spec_holds(c, s),
        s.len() > 0,
    ensures
        spec_read_u8(c) == Some(s[0]),
        spec_holds(c.skip(1), s.subrange(1, s.len() as int)),
{
    assert(c.bytes.subrange(c.position, c.position + s.len())[0] == s[0]);
    assert(c.bytes.subrange(c.position + 1, c.position + 1 + (s.len() - 1)) =~= s.subrange(
        1,
        s.len() as int,
    ));
}

/// The ULEB128 encoding of `value`: seven bits to a byte, the lowest first,
/// and the top bit set in every byte but the last.
pub open spec fn spec_uleb128_bytes(value: nat) -> Seq<u8>
    decreases value,
{
    if value < 128 {
        seq![value as u8]
    } else {
        seq![(128 + value % 128) as u8] + spec_uleb128_bytes(value / 128)
    }
}

proof fn lemma_pow128_grows(i: nat)
    ensures
        pow128(i) >= 1,
        i >= 10 ==> pow128(i) >= 0x40_0000_0000_0000_0000,
    decreases i,
{
    if i > 0 {
        lemma_pow128_grows((i - 1) as nat);
        if i == 10 {
            lemma_pow128_values();
        }
    }
}

proof fn lemma_uleb128_from_bytes(c: CursorView, i: nat, acc: nat, w: nat)
    requires
        spec_holds(c.skip(i), spec_uleb128_bytes(w)),
        acc + w * pow128(i) <= u64::MAX,
        i == 0 || w > 0,
        acc < pow128(i),
    ensures
        spec_uleb128_from(c, i, acc) == Some(
            ((acc + w * pow128(i)) as u64, i + spec_uleb128_bytes(w).len()),
        ),
    decreases w,
{
    let bytes = spec_uleb128_bytes(w);
    lemma_pow128_grows(i);
    assert(i < 10) by {
        if i >= 10 {
            assert(w * pow128(i) >= pow128(i)) by (nonlinear_arith)
                requires
                    w >= 1,
                    pow128(i) >= 0,
            ;
        }
    }
    lemma_holds_first(c.skip(i), bytes);
    if w < 128 {
    } else {
        let low = w % 128;
        let rest = w / 128;
        let value = acc + low * pow128(i);
        assert(bytes.subrange(1, bytes.len() as int) =~= spec_uleb128_bytes(rest));
        assert(c.skip(i).skip(1) == c.skip(i + 1));
        assert(pow128(i + 1) == 128 * pow128(i));
        assert(value + rest * pow128(i + 1) == acc + w * pow128(i)) by (nonlinear_arith)
            requires
                value == acc + low * pow128(i),
                pow128(i + 1) == 128 * pow128(i),
                w == 128 * rest + low,
        ;
        assert(value < pow128(i + 1) && value <= acc + w * pow128(i)) by (nonlinear_arith)
            requires
                value == acc + low * pow128(i),
                pow128(i + 1) == 128 * pow128(i),
                acc < pow128(i),
                0 <= low < 128,
                low <= w,
                pow128(i) >= 1,
        ;
        assert(((128 + low) as u8) % 128 == low);
        lemma_uleb128_from_bytes(c, i + 1, value, rest);
    }
}

/// Decoding the ULEB128 encoding of a value gives the value and the length
/// of the encoding.
pub proof fn lemma_uleb128_round_trip(c: CursorView, value: u64)
    requires
        spec_holds(c, spec_uleb128_bytes(value as nat)),
    ensures
        spec_read_uleb128(c) == Some((value, spec_uleb128_bytes(value as nat).len())),
{
    assert(c.skip(0) == c);
    assert(pow128(0) == 1);
    assert(value as nat * pow128(0) == value) by (nonlinear_arith)
        requires
            pow128(0) == 1,
    ;
    lemma_uleb128_from_bytes(c, 0, 0, value as nat);
}

/// Decoding the encoding of a value within its bound gives the value.
pub proof fn lemma_bounded_uleb128_round_trip(c: CursorView, value: u64, max: u64)
    requires
        spec_holds(c, spec_uleb128_bytes(value as nat)),
        value <= max,
    ensures
        spec_read_uleb(c, max) == Ok::<(u64, nat), PartialVMError>(
            (value, spec_uleb128_bytes(value as nat).len()),
        ),
{
    lemma_uleb128_round_trip(c, value);
}

/// The two bytes of a 16 bit integer, the lower first.
pub open spec fn spec_u16_bytes(value: u16) -> Seq<u8> {
    seq![(value % 0x100) as u8, (value / 0x100) as u8]
}

/// The four bytes of a 32 bit integer, the lowest first.
pub open spec fn spec_u32_bytes(value: u32) -> Seq<u8> {
    spec_u16_bytes((value % 0x1_0000) as u16) + spec_u16_bytes((value / 0x1_0000) as u16)
}

/// The eight bytes of a 64 bit integer, the lowest first.
pub open spec fn spec_u64_bytes(value: u64) -> Seq<u8> {
    spec_u32_bytes((value % 0x1_0000_0000) as u32) + spec_u32_bytes(
        (value / 0x1_0000_0000) as u32,
    )
}

/// The sixteen bytes of a 128 bit integer, the lowest first.
pub open spec fn spec_u128_bytes(value: u128) -> Seq<u8> {
    spec_u64_bytes((value % 0x1_0000_0000_0000_0000) as u64) + spec_u64_bytes(
        (value / 0x1_0000_0000_0000_0000) as u64,
    )
}

/// The thirty-two bytes of a 256 bit integer, the lowest first.
pub open spec fn spec_u256_bytes(value: U256) -> Seq<u8> {
    spec_u128_bytes(value.low) + spec_u128_bytes(value.high)
}

proof fn lemma_le2(s: Seq<u8>, k: int, value: u16)
    requires
        0 <= k,
        k + 2 <= s.len(),
        s.subrange(k, k + 2) == spec_u16_bytes(value),
    ensures
        le2(s, k) == value,
{
    assert(s.subrange(k, k + 2)[0] == s[k]);
    assert(s.subrange(k, k + 2)[1] == s[k + 1]);
}

proof fn lemma_subrange_split(s: Seq<u8>, k: int, a: Seq<u8>, b: Seq<u8>)
    requires
        0 <= k,
        k + a.len() + b.len() <= s.len(),
        s.subrange(k, k + a.len() + b.len()) == a + b,
    ensures
        s.subrange(k, k + a.len()) == a,
        s.subrange(k + a.len(), k + a.len() + b.len()) == b,
{
    let t = a + b;
    assert(s.subrange(k, k + a.len()) =~= t.subrange(0, a.len() as int));
    assert(t.subrange(0, a.len() as int) =~= a);
    assert(s.subrange(k + a.len(), k + a.len() + b.len()) =~= t.subrange(
        a.len() as int,
        t.len() as int,
    ));
    assert(t.subrange(a.len() as int, t.len() as int) =~= b);
}

proof fn lemma_le4(s: Seq<u8>, k: int, value: u32)
    requires
        0 <= k,
        k + 4 <= s.len(),
        s.subrange(k, k + 4) == spec_u32_bytes(value),
    ensures
        le4(s, k) == value,
{
    let low = (value % 0x1_0000) as u16;
    let high = (value / 0x1_0000) as u16;
    lemma_subrange_split(s, k, spec_u16_bytes(low), spec_u16_bytes(high));
    lemma_le2(s, k, low);
    lemma_le2(s, k + 2, high);
}

proof fn lemma_le8(s: Seq<u8>, k: int, value: u64)
    requires
        0 <= k,
        k + 8 <= s.len(),
        s.subrange(k, k + 8) == spec_u64_bytes(value),
    ensures
        le8(s, k) == value,
{
    let low = (value % 0x1_0000_0000) as u32;
    let high = (value / 0x1_0000_0000) as u32;
    lemma_subrange_split(s, k, spec_u32_bytes(low), spec_u32_bytes(high));
    lemma_le4(s, k, low);
    lemma_le4(s, k + 4, high);
}

proof fn lemma_le16(s: Seq<u8>, k: int, value: u128)
    requires
        0 <= k,
        k + 16 <= s.len(),
        s.subrange(k, k + 16) == spec_u128_bytes(value),
    ensures
        le16(s, k) == value,
{
    let low = (value % 0x1_0000_0000_0000_0000) as u64;
    let high = (value / 0x1_0000_0000_0000_0000) as u64;
    lemma_subrange_split(s, k, spec_u64_bytes(low), spec_u64_bytes(high));
    lemma_le8(s, k, low);
    lemma_le8(s, k + 8, high);
}

/// Where bytes stand, reading as many bytes gives them.
pub proof fn lemma_holds_exact(c: CursorView, s: Seq<u8>)
    requires
        spec_holds(c, s),
    ensures
        spec_read_exact(c, s.len()) == Some(s),
{
}

/// Decoding the bytes of a 16 bit integer gives the integer.
pub proof fn lemma_u16_round_trip(c: CursorView, value: u16)
    requires
        spec_holds(c, spec_u16_bytes(value)),
    ensures
        spec_read_u16(c) == Ok::<(u16, nat), PartialVMError>((value, 2)),
{
    reveal(spec_read_le);
    lemma_holds_exact(c, spec_u16_bytes(value));
    let s = spec_u16_bytes(value);
    assert(s.subrange(0, 2) =~= s);
    lemma_le2(s, 0, value);
}

/// Decoding the bytes of a 32 bit integer gives the integer.
pub proof fn lemma_u32_round_trip(c: CursorView, value: u32)
    requires
        spec_holds(c, spec_u32_bytes(value)),
    ensures
        spec_read_u32(c) == Ok::<(u32, nat), PartialVMError>((value, 4)),
{
    reveal(spec_read_le);
    lemma_holds_exact(c, spec_u32_bytes(value));
    let s = spec_u32_bytes(value);
    assert(s.subrange(0, 4) =~= s);
    lemma_le4(s, 0, value);
}

/// Decoding the bytes of a 64 bit integer gives the integer.
pub proof fn lemma_u64_round_trip(c: CursorView, value: u64)
    requires
        spec_holds(c, spec_u64_bytes(value)),
    ensures
        spec_read_u64(c) == Ok::<(u64, nat), PartialVMError>((value, 8)),
{
    reveal(spec_read_le);
    lemma_holds_exact(c, spec_u64_bytes(value));
    let s = spec_u64_bytes(value);
    assert(s.subrange(0, 8) =~= s);
    lemma_le8(s, 0, value);
}

/// Decoding the bytes of a 128 bit integer gives the integer.
pub proof fn lemma_u128_round_trip(c: CursorView, value: u128)
    requires
        spec_holds(c, spec_u128_bytes(value)),
    ensures
        spec_read_u128(c) == Ok::<(u128, nat), PartialVMError>((value, 16)),
{
    reveal(spec_read_le);
    lemma_holds_exact(c, spec_u128_bytes(value));
    let s = spec_u128_bytes(value);
    assert(s.subrange(0, 16) =~= s);
    lemma_le16(s, 0, value);
}

/// Decoding the bytes of a 256 bit integer gives the integer.
pub proof fn lemma_u256_round_trip(c: CursorView, value: U256)
    requires
        spec_holds(c, spec_u256_bytes(value)),
    ensures
        spec_read_u256(c) == Ok::<(U256, nat), PartialVMError>((value, 32)),
{
    reveal(spec_read_u256);
    lemma_holds_exact(c, spec_u256_bytes(value));
    let s = spec_u256_bytes(value);
    assert(s.subrange(0, 32) =~= s);
    lemma_subrange_split(s, 0, spec_u128_bytes(value.low), spec_u128_bytes(value.high));
    lemma_le16(s, 0, value.low);
    lemma_le16(s, 16, value.high);
}

/// The bytes of a signature token: its tag and then its parts, a generic
/// struct with the number of its type arguments before them.
pub open spec fn spec_token_bytes(token: SignatureTokenView) -> Seq<u8>
    decreases token,
{
    match token {
        SignatureTokenView::Bool => seq![0x01u8],
        SignatureTokenView::U8 => seq![0x02u8],
        SignatureTokenView::U64 => seq![0x03u8],
        SignatureTokenView::U128 => seq![0x04u8],
        SignatureTokenView::Address => seq![0x05u8],
        SignatureTokenView::Reference(t) => seq![0x06u8] + spec_token_bytes(*t),
        SignatureTokenView::MutableReference(t) => seq![0x07u8] + spec_token_bytes(*t),
        SignatureTokenView::Struct(sh_idx) => seq![0x08u8] + spec_uleb128_bytes(sh_idx.0 as nat),
        SignatureTokenView::TypeParameter(idx) => seq![0x09u8] + spec_uleb128_bytes(idx as nat),
        SignatureTokenView::Vector(t) => seq![0x0Au8] + spec_token_bytes(*t),
        SignatureTokenView::StructInstantiation(sh_idx, args) => seq![0x0Bu8]
            + spec_uleb128_bytes(sh_idx.0 as nat) + spec_uleb128_bytes(args.len())
            + spec_tokens_bytes(args),
        SignatureTokenView::Signer => seq![0x0Cu8],
        SignatureTokenView::U16 => seq![0x0Du8],
        SignatureTokenView::U32 => seq![0x0Eu8],
        SignatureTokenView::U256 => seq![0x0Fu8],
    }
}

/// The bytes of tokens that stand one behind the other.
pub open spec fn spec_tokens_bytes(tokens: Seq<SignatureTokenView>) -> Seq<u8>
    decreases tokens,
{
    if tokens.len() == 0 {
        Seq::empty()
    } else {
        spec_token_bytes(tokens[0]) + spec_tokens_bytes(tokens.subrange(1, tokens.len() as int))
    }
}

/// Whether the token can be written: each generic struct in it has at
/// least one type argument and no more than the maximum.
pub open spec fn spec_encodable_token(token: SignatureTokenView) -> bool
    decreases token,
{
    match token {
        SignatureTokenView::Vector(t) => spec_encodable_token(*t),
        SignatureTokenView::Reference(t) => spec_encodable_token(*t),
        SignatureTokenView::MutableReference(t) => spec_encodable_token(*t),
        SignatureTokenView::StructInstantiation(_, args) => {
            &&& 1 <= args.len() <= TYPE_PARAMETER_COUNT_MAX
            &&& forall|i: int| 0 <= i < args.len() ==> spec_encodable_token(#[trigger] args[i])
        },
        _ => true,
    }
}

/// Whether the version of the format has every type in the token: those
/// of 16, 32 and 256 bits exist from version 6 on.
pub open spec fn spec_token_in_version(token: SignatureTokenView, version: u32) -> bool
    decreases token,
{
    match token {
        SignatureTokenView::U16 => version >= VERSION_6,
        SignatureTokenView::U32 => version >= VERSION_6,
        SignatureTokenView::U256 => version >= VERSION_6,
        SignatureTokenView::Vector(t) => spec_token_in_version(*t, version),
        SignatureTokenView::Reference(t) => spec_token_in_version(*t, version),
        SignatureTokenView::MutableReference(t) => spec_token_in_version(*t, version),
        SignatureTokenView::StructInstantiation(_, args) => forall|i: int|
            0 <= i < args.len() ==> spec_token_in_version(#[trigger] args[i], version),
        _ => true,
    }
}

proof fn lemma_max_depth_member(tokens: Seq<SignatureTokenView>, i: int)
    requires
        0 <= i < tokens.len(),
    ensures
        tokens[i].depth() <= SignatureTokenView::max_depth(tokens),
    decreases tokens.len(),
{
    if i < tokens.len() - 1 {
        lemma_max_depth_member(tokens.drop_last(), i);
    }
}

/// Decoding the bytes of a token, at a level of a tree at which the token
/// is not too deep, gives the token.
pub proof fn lemma_token_round_trip(c: CursorView, token: SignatureTokenView, level: nat)
    requires
        spec_holds(c, spec_token_bytes(token)),
        spec_encodable_token(token),
        level >= 1,
        level + token.depth() <= SIGNATURE_TOKEN_DEPTH_MAX + 1,
        spec_token_in_version(token, c.version),
    ensures
        spec_token_at(c, level) == Ok::<(SignatureTokenView, nat), PartialVMError>(
            (token, spec_token_bytes(token).len()),
        ),
    decreases token, 0nat,
{
    let bytes = spec_token_bytes(token);
    lemma_holds_first(c, bytes);
    let rest = bytes.subrange(1, bytes.len() as int);
    let c1 = c.skip(1);
    match token {
        SignatureTokenView::Reference(t) => {
            assert(rest =~= spec_token_bytes(*t));
            lemma_token_round_trip(c1, *t, level + 1);
        },
        SignatureTokenView::MutableReference(t) => {
            assert(rest =~= spec_token_bytes(*t));
            lemma_token_round_trip(c1, *t, level + 1);
        },
        SignatureTokenView::Vector(t) => {
            assert(rest =~= spec_token_bytes(*t));
            lemma_token_round_trip(c1, *t, level + 1);
        },
        SignatureTokenView::Struct(sh_idx) => {
            assert(rest =~= spec_uleb128_bytes(sh_idx.0 as nat));
            lemma_bounded_uleb128_round_trip(c1, sh_idx.0 as u64, STRUCT_HANDLE_INDEX_MAX);
        },
        SignatureTokenView::TypeParameter(idx) => {
            assert(rest =~= spec_uleb128_bytes(idx as nat));
            lemma_bounded_uleb128_round_trip(c1, idx as u64, TYPE_PARAMETER_INDEX_MAX);
        },
        SignatureTokenView::StructInstantiation(sh_idx, args) => {
            let handle = spec_uleb128_bytes(sh_idx.0 as nat);
            let arity = spec_uleb128_bytes(args.len());
            let parts = spec_tokens_bytes(args);
            assert(rest =~= handle + (arity + parts));
            lemma_holds_split(c1, handle, arity + parts);
            lemma_bounded_uleb128_round_trip(c1, sh_idx.0 as u64, STRUCT_HANDLE_INDEX_MAX);
            let c2 = c1.skip(handle.len());
            lemma_holds_split(c2, arity, parts);
            lemma_bounded_uleb128_round_trip(c2, args.len() as u64, TYPE_PARAMETER_COUNT_MAX);
            let c3 = c2.skip(arity.len());
            assert(c2 == c.skip(1 + handle.len()));
            assert(c3 == c.skip(1 + handle.len() + arity.len()));
            assert forall|i: int| 0 <= i < args.len() implies level + 1 + (#[trigger] args[i]).depth()
                <= SIGNATURE_TOKEN_DEPTH_MAX + 1 by {
                lemma_max_depth_member(args, i);
            }
            lemma_arguments_round_trip(c3, level + 1, args.len(), Seq::empty(), args);
            assert(Seq::<SignatureTokenView>::empty() + args =~= args);
            assert(spec_token_head(c) == Ok::<(TypeBuilderView, nat), PartialVMError>(
                (
                    TypeBuilderView::StructInst {
                        sh_idx,
                        arity: args.len(),
                        ty_args: Seq::empty(),
                    },
                    1 + handle.len() + arity.len(),
                ),
            ));
        },
        _ => {},
    }
}

/// Decoding the bytes of the type arguments that a generic struct still
/// lacks gives all its type arguments.
pub proof fn lemma_arguments_round_trip(
    c: CursorView,
    level: nat,
    arity: nat,
    done: Seq<SignatureTokenView>,
    rest: Seq<SignatureTokenView>,
)
    requires
        spec_holds(c, spec_tokens_bytes(rest)),
        arity == done.len() + rest.len(),
        level >= 1,
        forall|i: int|
            0 <= i < rest.len() ==> spec_encodable_token(#[trigger] rest[i]) && level
                + rest[i].depth() <= SIGNATURE_TOKEN_DEPTH_MAX + 1 && spec_token_in_version(
                rest[i],
                c.version,
            ),
    ensures
        spec_type_arguments(c, level, arity, done) == Ok::<
            (Seq<SignatureTokenView>, nat),
            PartialVMError,
        >((done + rest, spec_tokens_bytes(rest).len())),
    decreases rest, 1nat,
{
    if rest.len() == 0 {
        assert(done + rest =~= done);
    } else {
        let first = spec_token_bytes(rest[0]);
        let tail = rest.subrange(1, rest.len() as int);
        lemma_holds_split(c, first, spec_tokens_bytes(tail));
        lemma_token_round_trip(c, rest[0], level);
        assert forall|i: int| 0 <= i < tail.len() implies spec_encodable_token(#[trigger] tail[i])
            && level + tail[i].depth() <= SIGNATURE_TOKEN_DEPTH_MAX + 1 && spec_token_in_version(
            tail[i],
            c.version,
        ) by {
            assert(tail[i] == rest[i + 1]);
        }
        lemma_arguments_round_trip(c.skip(first.len()), level, arity, done.push(rest[0]), tail);
        assert(done.push(rest[0]) + tail =~= done + rest);
    }
}

} // verus!
