//! The decoder of signature tokens.
//!
//! A token is a tree that the binary holds in prefix order. The format says
//! what the tree is by recursion on its levels; the decoder builds it with a
//! stack of partly built tokens, so that a deep tree costs no call stack.

use vstd::prelude::*;
use crate::constants::{SIGNATURE_TOKEN_DEPTH_MAX, VERSION_6};
use crate::cursor::{decodes, malformed_error, spec_read_u8, CursorView, Decoded, VersionedCursor};
use crate::errors::{malformed, Message, PartialVMError};
use crate::file_format::{
    lemma_empty_deep_view, lemma_push_deep_view, lemma_struct_instantiation_view, SignatureToken,
    SignatureTokenView, StructHandleIndex,
};
use crate::file_format_common::SerializedType;
use crate::indices::{
    load_struct_handle_index, load_type_parameter_count, load_type_parameter_index,
    spec_load_struct_handle_index, spec_load_type_parameter_count, spec_load_type_parameter_index,
};

verus! {

/// A token under construction.
pub enum TypeBuilder {
    /// A complete token.
    Saturated(SignatureToken),
    /// A vector that waits for the type of its elements.
    Vector,
    /// A reference that waits for the type it refers to.
    Reference,
    /// A mutable reference that waits for the type it refers to.
    MutableReference,
    /// A generic struct that has `ty_args` of its `arity` type arguments.
    StructInst { sh_idx: StructHandleIndex, arity: usize, ty_args: Vec<SignatureToken> },
}

/// The model of a [`TypeBuilder`].
pub enum TypeBuilderView {
    Saturated(SignatureTokenView),
    Vector,
    Reference,
    MutableReference,
    StructInst { sh_idx: StructHandleIndex, arity: nat, ty_args: Seq<SignatureTokenView> },
}

impl DeepView for TypeBuilder {
    type V = TypeBuilderView;

    open spec fn deep_view(&self) -> TypeBuilderView {
        match self {
            TypeBuilder::Saturated(token) => TypeBuilderView::Saturated(token.deep_view()),
            TypeBuilder::Vector => TypeBuilderView::Vector,
            TypeBuilder::Reference => TypeBuilderView::Reference,
            TypeBuilder::MutableReference => TypeBuilderView::MutableReference,
            TypeBuilder::StructInst { sh_idx, arity, ty_args } => TypeBuilderView::StructInst {
                sh_idx: *sh_idx,
                arity: *arity as nat,
                ty_args: ty_args.deep_view(),
            },
        }
    }
}

impl TypeBuilderView {
    /// The builder after it has taken `token` as its next part.
    pub open spec fn apply(self, token: SignatureTokenView) -> TypeBuilderView {
        match self {
            TypeBuilderView::Vector => TypeBuilderView::Saturated(
                SignatureTokenView::Vector(Box::new(token)),
            ),
            TypeBuilderView::Reference => TypeBuilderView::Saturated(
                SignatureTokenView::Reference(Box::new(token)),
            ),
            TypeBuilderView::MutableReference => TypeBuilderView::Saturated(
                SignatureTokenView::MutableReference(Box::new(token)),
            ),
            TypeBuilderView::StructInst { sh_idx, arity, ty_args } => {
                if ty_args.len() + 1 >= arity {
                    TypeBuilderView::Saturated(
                        SignatureTokenView::StructInstantiation(sh_idx, ty_args.push(token)),
                    )
                } else {
                    TypeBuilderView::StructInst { sh_idx, arity, ty_args: ty_args.push(token) }
                }
            },
            TypeBuilderView::Saturated(t) => self,
        }
    }
}

impl TypeBuilder {
    /// Hands the builder its next part.
    pub fn apply(self, tok: SignatureToken) -> (r: TypeBuilder)
        requires
            !(self is Saturated),
        ensures
            r.deep_view() == self.deep_view().apply(tok.deep_view()),
    {
        match self {
            TypeBuilder::Vector => TypeBuilder::Saturated(SignatureToken::Vector(Box::new(tok))),
            TypeBuilder::Reference => TypeBuilder::Saturated(
                SignatureToken::Reference(Box::new(tok)),
            ),
            TypeBuilder::MutableReference => TypeBuilder::Saturated(
                SignatureToken::MutableReference(Box::new(tok)),
            ),
            TypeBuilder::StructInst { sh_idx, arity, ty_args } => {
                let ghost before = ty_args;
                let mut ty_args = ty_args;
                ty_args.push(tok);
                proof {
                    lemma_push_deep_view(before, ty_args, tok);
                    lemma_struct_instantiation_view(sh_idx, ty_args);
                }
                if ty_args.len() >= arity {
                    TypeBuilder::Saturated(SignatureToken::StructInstantiation(sh_idx, ty_args))
                } else {
                    TypeBuilder::StructInst { sh_idx, arity, ty_args }
                }
            },
            TypeBuilder::Saturated(t) => TypeBuilder::Saturated(t),
        }
    }

    /// Whether the builder holds a complete token.
    pub fn is_saturated(&self) -> (b: bool)
        ensures
            b == (self is Saturated),
            b == (self.deep_view() is Saturated),
    {
        match self {
            TypeBuilder::Saturated(_) => true,
            _ => false,
        }
    }

    /// The complete token that the builder holds.
    pub fn unwrap_saturated(self) -> (tok: SignatureToken)
        requires
            self is Saturated,
        ensures
            self.deep_view() == TypeBuilderView::Saturated(tok.deep_view()),
    {
        match self {
            TypeBuilder::Saturated(tok) => tok,
            _ => SignatureToken::Bool,
        }
    }
}

/// What the bytes at the reader start: a token without parts, complete as it
/// stands, or a builder that waits for the tokens that follow. The first
/// byte is the tag. The 16, 32 and 256 bit integers exist from version 6 on.
/// A struct is followed by its handle, a generic struct by its handle and
/// the number of its type arguments, which is not 0, and a type parameter by
/// its index.
pub open spec fn spec_token_head(c: CursorView) -> Decoded<TypeBuilderView> {
    match spec_read_u8(c) {
        None => Err(malformed(Message::UnexpectedEof)),
        Some(byte) => match SerializedType::spec_from_u8(byte) {
            Err(e) => Err(e),
            Ok(tag) => {
                if (tag == SerializedType::U16 || tag == SerializedType::U32 || tag
                    == SerializedType::U256) && c.version < VERSION_6 {
                    Err(malformed(Message::IntegerTypeNotSupported(c.version)))
                } else {
                    match tag {
                        SerializedType::BOOL => Ok(
                            (TypeBuilderView::Saturated(SignatureTokenView::Bool), 1),
                        ),
                        SerializedType::U8 => Ok(
                            (TypeBuilderView::Saturated(SignatureTokenView::U8), 1),
                        ),
                        SerializedType::U16 => Ok(
                            (TypeBuilderView::Saturated(SignatureTokenView::U16), 1),
                        ),
                        SerializedType::U32 => Ok(
                            (TypeBuilderView::Saturated(SignatureTokenView::U32), 1),
                        ),
                        SerializedType::U64 => Ok(
                            (TypeBuilderView::Saturated(SignatureTokenView::U64), 1),
                        ),
                        SerializedType::U128 => Ok(
                            (TypeBuilderView::Saturated(SignatureTokenView::U128), 1),
                        ),
                        SerializedType::U256 => Ok(
                            (TypeBuilderView::Saturated(SignatureTokenView::U256), 1),
                        ),
                        SerializedType::ADDRESS => Ok(
                            (TypeBuilderView::Saturated(SignatureTokenView::Address), 1),
                        ),
                        SerializedType::SIGNER => Ok(
                            (TypeBuilderView::Saturated(SignatureTokenView::Signer), 1),
                        ),
                        SerializedType::VECTOR => Ok((TypeBuilderView::Vector, 1)),
                        SerializedType::REFERENCE => Ok((TypeBuilderView::Reference, 1)),
                        SerializedType::MUTABLE_REFERENCE => Ok(
                            (TypeBuilderView::MutableReference, 1),
                        ),
                        SerializedType::STRUCT => match spec_load_struct_handle_index(c.skip(1)) {
                            Err(e) => Err(e),
                            Ok((sh_idx, n)) => Ok(
                                (
                                    TypeBuilderView::Saturated(SignatureTokenView::Struct(sh_idx)),
                                    1 + n,
                                ),
                            ),
                        },
                        SerializedType::STRUCT_INST => match spec_load_struct_handle_index(
                            c.skip(1),
                        ) {
                            Err(e) => Err(e),
                            Ok((sh_idx, n)) => match spec_load_type_parameter_count(
                                c.skip(1 + n),
                            ) {
                                Err(e) => Err(e),
                                Ok((arity, m)) => if arity == 0 {
                                    Err(malformed(Message::StructInstWithArityZero))
                                } else {
                                    Ok(
                                        (
                                            TypeBuilderView::StructInst {
                                                sh_idx,
                                                arity: arity as nat,
                                                ty_args: Seq::empty(),
                                            },
                                            1 + n + m,
                                        ),
                                    )
                                },
                            },
                        },
                        SerializedType::TYPE_PARAMETER => match spec_load_type_parameter_index(
                            c.skip(1),
                        ) {
                            Err(e) => Err(e),
                            Ok((idx, n)) => Ok(
                                (
                                    TypeBuilderView::Saturated(
                                        SignatureTokenView::TypeParameter(idx),
                                    ),
                                    1 + n,
                                ),
                            ),
                        },
                    }
                }
            },
        }
    }
}

/// The same outcome, `k` bytes further from where the count starts.
pub open spec fn shift<T>(k: nat, d: Decoded<T>) -> Decoded<T> {
    match d {
        Ok((x, n)) => Ok((x, k + n)),
        Err(e) => Err(e),
    }
}

/// The token at the reader, which stands at `level` of a tree; the root is
/// at level 1. A token stands inside `level - 1` others, which wait for it
/// when its first byte is read: where more than
/// [`SIGNATURE_TOKEN_DEPTH_MAX`] wait, that byte is not read and the token
/// is an error. Else what starts the token is read, and then its parts.
pub open spec fn spec_token_at(c: CursorView, level: nat) -> Decoded<SignatureTokenView>
    decreases SIGNATURE_TOKEN_DEPTH_MAX + 2 - level, 0nat,
{
    if level > SIGNATURE_TOKEN_DEPTH_MAX + 1 {
        Err(malformed(Message::MaximumRecursionDepthReached))
    } else {
        match spec_token_head(c) {
            Err(e) => Err(e),
            Ok((head, n)) => match head {
                TypeBuilderView::Saturated(token) => Ok((token, n)),
                TypeBuilderView::Vector => match spec_token_at(c.skip(n), level + 1) {
                    Err(e) => Err(e),
                    Ok((t, m)) => Ok((SignatureTokenView::Vector(Box::new(t)), n + m)),
                },
                TypeBuilderView::Reference => match spec_token_at(c.skip(n), level + 1) {
                    Err(e) => Err(e),
                    Ok((t, m)) => Ok((SignatureTokenView::Reference(Box::new(t)), n + m)),
                },
                TypeBuilderView::MutableReference => match spec_token_at(c.skip(n), level + 1) {
                    Err(e) => Err(e),
                    Ok((t, m)) => Ok((SignatureTokenView::MutableReference(Box::new(t)), n + m)),
                },
                TypeBuilderView::StructInst { sh_idx, arity, ty_args } => {
                    match spec_type_arguments(c.skip(n), level + 1, arity, ty_args) {
                        Err(e) => Err(e),
                        Ok((args, m)) => Ok(
                            (SignatureTokenView::StructInstantiation(sh_idx, args), n + m),
                        ),
                    }
                },
            },
        }
    }
}

/// The `arity` type arguments of a generic struct, of which `ty_args` have
/// been read: those, and the tokens at the reader that complete them, each
/// at `level`.
pub open spec fn spec_type_arguments(
    c: CursorView,
    level: nat,
    arity: nat,
    ty_args: Seq<SignatureTokenView>,
) -> Decoded<Seq<SignatureTokenView>>
    decreases SIGNATURE_TOKEN_DEPTH_MAX + 2 - level, arity - ty_args.len() + 1,
{
    if ty_args.len() >= arity {
        Ok((ty_args, 0))
    } else {
        match spec_token_at(c, level) {
            Err(e) => Err(e),
            Ok((t, n)) => shift(n, spec_type_arguments(c.skip(n), level, arity, ty_args.push(t))),
        }
    }
}

/// The token at the reader.
pub open spec fn spec_load_signature_token(c: CursorView) -> Decoded<SignatureTokenView> {
    spec_token_at(c, 1)
}

/// A token occupies at least one byte.
pub proof fn lemma_signature_token_advances(c: CursorView, level: nat)
    ensures
        spec_token_at(c, level) matches Ok((_, n)) ==> n >= 1,
{
}

/// The token that a stack of waiting builders yields once the builder on
/// top takes `token`, where the reader stands behind `token`. The builder on
/// top stands at the level that is the height of the stack.
spec fn spec_feed(stack: Seq<TypeBuilderView>, token: SignatureTokenView, c: CursorView) -> Decoded<
    SignatureTokenView,
>
    decreases stack.len(),
{
    if stack.len() == 0 {
        Ok((token, 0))
    } else {
        let rest = stack.drop_last();
        match stack.last() {
            TypeBuilderView::Vector => spec_feed(
                rest,
                SignatureTokenView::Vector(Box::new(token)),
                c,
            ),
            TypeBuilderView::Reference => spec_feed(
                rest,
                SignatureTokenView::Reference(Box::new(token)),
                c,
            ),
            TypeBuilderView::MutableReference => spec_feed(
                rest,
                SignatureTokenView::MutableReference(Box::new(token)),
                c,
            ),
            TypeBuilderView::StructInst { sh_idx, arity, ty_args } => {
                match spec_type_arguments(c, stack.len() + 1, arity, ty_args.push(token)) {
                    Err(e) => Err(e),
                    Ok((args, n)) => shift(
                        n,
                        spec_feed(
                            rest,
                            SignatureTokenView::StructInstantiation(sh_idx, args),
                            c.skip(n),
                        ),
                    ),
                }
            },
            TypeBuilderView::Saturated(_) => Ok((token, 0)),
        }
    }
}

/// The token that a stack of waiting builders yields where the next token
/// is still to be read.
spec fn spec_pending(stack: Seq<TypeBuilderView>, c: CursorView) -> Decoded<SignatureTokenView> {
    match spec_token_at(c, stack.len() + 1) {
        Err(e) => Err(e),
        Ok((t, n)) => shift(n, spec_feed(stack, t, c.skip(n))),
    }
}

/// The token that a stack yields whose top has just been pushed.
spec fn spec_resume(stack: Seq<TypeBuilderView>, c: CursorView) -> Decoded<SignatureTokenView> {
    match stack.last() {
        TypeBuilderView::Saturated(token) => spec_feed(stack.drop_last(), token, c),
        _ => spec_pending(stack, c),
    }
}

/// No builder below the top of the stack is complete.
spec fn waiting(stack: Seq<TypeBuilderView>) -> bool {
    forall|i: int| 0 <= i < stack.len() - 1 ==> !(#[trigger] stack[i] is Saturated)
}

proof fn lemma_shift_shift<T>(k: nat, j: nat, d: Decoded<T>)
    ensures
        shift(k, shift(j, d)) == shift(k + j, d),
        shift(0, d) == d,
{
}

/// Reading what starts the next token and pushing it.
#[verifier::rlimit(40)]
proof fn lemma_push_head(stack: Seq<TypeBuilderView>, c: CursorView)
    requires
        forall|i: int| 0 <= i < stack.len() ==> !(#[trigger] stack[i] is Saturated),
        stack.len() <= SIGNATURE_TOKEN_DEPTH_MAX,
    ensures
        match spec_token_head(c) {
            Err(e) => spec_pending(stack, c) == Err::<(SignatureTokenView, nat), PartialVMError>(e),
            Ok((head, n)) => spec_pending(stack, c) == shift(
                n,
                spec_resume(stack.push(head), c.skip(n)),
            ),
        },
{
    match spec_token_head(c) {
        Err(e) => {},
        Ok((head, n)) => {
            let level = stack.len() + 1;
            let pushed = stack.push(head);
            let c1 = c.skip(n);
            assert(pushed.drop_last() =~= stack);
            assert(pushed.last() == head);
            if level <= SIGNATURE_TOKEN_DEPTH_MAX + 1 {
                match head {
                    TypeBuilderView::Saturated(token) => {},
                    TypeBuilderView::StructInst { sh_idx, arity, ty_args } => {
                        assert(ty_args.len() == 0 && arity > 0);
                        let args = spec_type_arguments(c1, (level + 1) as nat, arity, ty_args);
                        assert(spec_token_at(c, level as nat) == (match args {
                            Err(e) => Err::<(SignatureTokenView, nat), PartialVMError>(e),
                            Ok((args, m)) => Ok(
                                (SignatureTokenView::StructInstantiation(sh_idx, args), n + m),
                            ),
                        }));
                        match spec_token_at(c1, level + 1) {
                            Err(e) => {},
                            Ok((t, m1)) => {
                                let c2 = c1.skip(m1);
                                assert(c2 == c.skip(n + m1));
                                match spec_type_arguments(c2, level + 1, arity, ty_args.push(t)) {
                                    Err(e) => {},
                                    Ok((args, m2)) => {
                                        assert(c2.skip(m2) == c.skip(n + m1 + m2));
                                        lemma_shift_shift(
                                            m1,
                                            m2,
                                            spec_feed(
                                                stack,
                                                SignatureTokenView::StructInstantiation(
                                                    sh_idx,
                                                    args,
                                                ),
                                                c2.skip(m2),
                                            ),
                                        );
                                        lemma_shift_shift(
                                            n,
                                            m1 + m2,
                                            spec_feed(
                                                stack,
                                                SignatureTokenView::StructInstantiation(
                                                    sh_idx,
                                                    args,
                                                ),
                                                c2.skip(m2),
                                            ),
                                        );
                                    },
                                }
                            },
                        }
                    },
                    _ => {
                        match spec_token_at(c1, level + 1) {
                            Err(e) => {},
                            Ok((t, m)) => {
                                assert(c1.skip(m) == c.skip(n + m));
                                lemma_shift_shift(n, m, spec_feed(pushed, t, c1.skip(m)));
                            },
                        }
                    },
                }
            }
        },
    }
}

/// Handing a complete token to the builder below it.
#[verifier::rlimit(40)]
proof fn lemma_merge(
    stack: Seq<TypeBuilderView>,
    builder: TypeBuilderView,
    token: SignatureTokenView,
    c: CursorView,
)
    requires
        !(builder is Saturated),
    ensures
        spec_feed(stack.push(builder), token, c) == spec_resume(
            stack.push(builder.apply(token)),
            c,
        ),
{
    let below = stack.push(builder);
    let merged = stack.push(builder.apply(token));
    assert(below.drop_last() =~= stack);
    assert(merged.drop_last() =~= stack);
    assert(below.last() == builder);
    assert(merged.last() == builder.apply(token));
    match builder {
        TypeBuilderView::StructInst { sh_idx, arity, ty_args } => {
            let args = ty_args.push(token);
            if args.len() >= arity {
                assert(c.skip(0) == c);
                lemma_shift_shift(
                    0,
                    0,
                    spec_feed(stack, SignatureTokenView::StructInstantiation(sh_idx, args), c),
                );
            } else {
                let level = below.len() + 1;
                match spec_token_at(c, level) {
                    Err(e) => {},
                    Ok((t, n)) => {
                        match spec_type_arguments(c.skip(n), level, arity, args.push(t)) {
                            Err(e) => {},
                            Ok((full, m)) => {
                                assert(c.skip(n).skip(m) == c.skip(n + m));
                                lemma_shift_shift(
                                    n,
                                    m,
                                    spec_feed(
                                        stack,
                                        SignatureTokenView::StructInstantiation(sh_idx, full),
                                        c.skip(n + m),
                                    ),
                                );
                            },
                        }
                    },
                }
            }
        },
        _ => {},
    }
}

proof fn lemma_pop_deep_view<T: DeepView>(before: Vec<T>, after: Vec<T>)
    requires
        before@.len() > 0,
        after@ == before@.subrange(0, before@.len() - 1),
    ensures
        after.deep_view() == before.deep_view().drop_last(),
        before.deep_view().last() == before@.last().deep_view(),
{
    assert(after.deep_view() =~= before.deep_view().drop_last());
}

/// Reads what starts a token.
fn read_next(cursor: &mut VersionedCursor) -> (r: Result<TypeBuilder, PartialVMError>)
    ensures
        decodes(old(cursor)@, final(cursor)@, r, spec_token_head(old(cursor)@)),
        r is Ok ==> old(cursor)@.position < final(cursor)@.position,
{
    let byte = match cursor.read_u8() {
        Some(byte) => byte,
        None => {
            return Err(malformed_error(Message::UnexpectedEof));
        },
    };
    let tag = SerializedType::from_u8(byte)?;
    match tag {
        SerializedType::U16 | SerializedType::U32 | SerializedType::U256 => {
            if cursor.version() < VERSION_6 {
                return Err(malformed_error(Message::IntegerTypeNotSupported(cursor.version())));
            }
        },
        _ => {},
    }
    match tag {
        SerializedType::BOOL => Ok(TypeBuilder::Saturated(SignatureToken::Bool)),
        SerializedType::U8 => Ok(TypeBuilder::Saturated(SignatureToken::U8)),
        SerializedType::U16 => Ok(TypeBuilder::Saturated(SignatureToken::U16)),
        SerializedType::U32 => Ok(TypeBuilder::Saturated(SignatureToken::U32)),
        SerializedType::U64 => Ok(TypeBuilder::Saturated(SignatureToken::U64)),
        SerializedType::U128 => Ok(TypeBuilder::Saturated(SignatureToken::U128)),
        SerializedType::U256 => Ok(TypeBuilder::Saturated(SignatureToken::U256)),
        SerializedType::ADDRESS => Ok(TypeBuilder::Saturated(SignatureToken::Address)),
        SerializedType::SIGNER => Ok(TypeBuilder::Saturated(SignatureToken::Signer)),
        SerializedType::VECTOR => Ok(TypeBuilder::Vector),
        SerializedType::REFERENCE => Ok(TypeBuilder::Reference),
        SerializedType::MUTABLE_REFERENCE => Ok(TypeBuilder::MutableReference),
        SerializedType::STRUCT => {
            let sh_idx = load_struct_handle_index(cursor)?;
            Ok(TypeBuilder::Saturated(SignatureToken::Struct(sh_idx)))
        },
        SerializedType::STRUCT_INST => {
            let sh_idx = load_struct_handle_index(cursor)?;
            let arity = load_type_parameter_count(cursor)?;
            if arity == 0 {
                return Err(malformed_error(Message::StructInstWithArityZero));
            }
            let ty_args: Vec<SignatureToken> = Vec::new();
            proof {
                lemma_empty_deep_view(ty_args);
            }
            Ok(TypeBuilder::StructInst { sh_idx, arity, ty_args })
        },
        SerializedType::TYPE_PARAMETER => {
            let idx = load_type_parameter_index(cursor)?;
            Ok(TypeBuilder::Saturated(SignatureToken::TypeParameter(idx)))
        },
    }
}

/// Decodes one signature token and leaves the reader behind it.
#[verifier::rlimit(40)]
pub fn load_signature_token(cursor: &mut VersionedCursor) -> (r: Result<
    SignatureToken,
    PartialVMError,
>)
    ensures
        decodes(old(cursor)@, final(cursor)@, r, spec_load_signature_token(old(cursor)@)),
        r is Ok ==> old(cursor)@.position < final(cursor)@.position,
{
    let ghost start = cursor@;
    let first = read_next(cursor)?;
    let mut stack: Vec<TypeBuilder> = Vec::new();
    match first {
        TypeBuilder::Saturated(tok) => {
            return Ok(tok);
        },
        t => {
            proof {
                lemma_empty_deep_view(stack);
                lemma_push_head(stack.deep_view(), start);
            }
            let ghost before = stack;
            stack.push(t);
            proof {
                lemma_push_deep_view(before, stack, t);
                lemma_shift_shift(0, 0, spec_pending(before.deep_view(), start));
            }
        },
    }
    loop
        invariant
            start == old(cursor)@,
            cursor@.bytes == start.bytes,
            cursor@.version == start.version,
            0 <= start.position < cursor@.position <= cursor@.bytes.len(),
            stack.len() >= 1,
            waiting(stack.deep_view()),
            spec_load_signature_token(start) == shift(
                (cursor@.position - start.position) as nat,
                spec_resume(stack.deep_view(), cursor@),
            ),
        decreases cursor@.remaining(), stack.len(),
    {
        let ghost here = cursor@;
        let ghost k = (here.position - start.position) as nat;
        let ghost full = stack;
        if stack[stack.len() - 1].is_saturated() {
            let tok = stack.pop().unwrap().unwrap_saturated();
            let ghost below = stack;
            proof {
                lemma_pop_deep_view(full, below);
            }
            match stack.pop() {
                Some(t) => {
                    let ghost rest = stack;
                    proof {
                        lemma_pop_deep_view(below, rest);
                        assert(below.deep_view() =~= rest.deep_view().push(t.deep_view()));
                        lemma_merge(rest.deep_view(), t.deep_view(), tok.deep_view(), here);
                    }
                    let merged = t.apply(tok);
                    stack.push(merged);
                    proof {
                        lemma_push_deep_view(rest, stack, merged);
                        assert forall|i: int| 0 <= i < stack.deep_view().len() - 1 implies !(
                        #[trigger] stack.deep_view()[i] is Saturated) by {
                            assert(stack.deep_view()[i] == full.deep_view()[i]);
                        }
                    }
                },
                None => {
                    return Ok(tok);
                },
            }
        } else {
            if stack.len() > SIGNATURE_TOKEN_DEPTH_MAX {
                return Err(malformed_error(Message::MaximumRecursionDepthReached));
            }
            let next = match read_next(cursor) {
                Ok(next) => next,
                Err(e) => {
                    proof {
                        lemma_push_head(full.deep_view(), here);
                    }
                    return Err(e);
                },
            };
            proof {
                lemma_push_head(full.deep_view(), here);
                lemma_shift_shift(
                    k,
                    (cursor@.position - here.position) as nat,
                    spec_resume(full.deep_view().push(next.deep_view()), cursor@),
                );
            }
            stack.push(next);
            proof {
                lemma_push_deep_view(full, stack, next);
            }
        }
    }
}

} // verus!
