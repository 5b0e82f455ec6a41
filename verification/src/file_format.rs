//! The decoded form of a binary: modules, scripts and their parts, each with
//! its mathematical model.
//!
//! A part whose fields are plain numbers is its own model. A part that holds
//! vectors has a model of its own, with sequences in their place; `deep_view`
//! gives it.

use vstd::prelude::*;

verus! {

/// The position of an entry in a pool or table.
pub type TableIndex = u16;

/// The position of a local variable.
pub type LocalIndex = u8;

/// The position of a type parameter.
pub type TypeParameterIndex = u16;

/// The position of an instruction in a code unit.
pub type CodeOffset = u16;

/// The position of a field in a struct.
pub type MemberCount = u16;

/// Index into the module handles.
#[derive(Clone, Copy, Debug, PartialEq, Eq, Structural)]
pub struct ModuleHandleIndex(pub TableIndex);

impl DeepView for ModuleHandleIndex {
    type V = ModuleHandleIndex;

    open spec fn deep_view(&self) -> ModuleHandleIndex {
        *self
    }
}

/// Index into the struct handles.
#[derive(Clone, Copy, Debug, PartialEq, Eq, Structural)]
pub struct StructHandleIndex(pub TableIndex);

impl DeepView for StructHandleIndex {
    type V = StructHandleIndex;

    open spec fn deep_view(&self) -> StructHandleIndex {
        *self
    }
}

/// Index into the function handles.
#[derive(Clone, Copy, Debug, PartialEq, Eq, Structural)]
pub struct FunctionHandleIndex(pub TableIndex);

impl DeepView for FunctionHandleIndex {
    type V = FunctionHandleIndex;

    open spec fn deep_view(&self) -> FunctionHandleIndex {
        *self
    }
}

/// Index into the field handles.
#[derive(Clone, Copy, Debug, PartialEq, Eq, Structural)]
pub struct FieldHandleIndex(pub TableIndex);

impl DeepView for FieldHandleIndex {
    type V = FieldHandleIndex;

    open spec fn deep_view(&self) -> FieldHandleIndex {
        *self
    }
}

/// Index into the struct definition instantiations.
#[derive(Clone, Copy, Debug, PartialEq, Eq, Structural)]
pub struct StructDefInstantiationIndex(pub TableIndex);

impl DeepView for StructDefInstantiationIndex {
    type V = StructDefInstantiationIndex;

    open spec fn deep_view(&self) -> StructDefInstantiationIndex {
        *self
    }
}

/// Index into the function instantiations.
#[derive(Clone, Copy, Debug, PartialEq, Eq, Structural)]
pub struct FunctionInstantiationIndex(pub TableIndex);

impl DeepView for FunctionInstantiationIndex {
    type V = FunctionInstantiationIndex;

    open spec fn deep_view(&self) -> FunctionInstantiationIndex {
        *self
    }
}

/// Index into the field instantiations.
#[derive(Clone, Copy, Debug, PartialEq, Eq, Structural)]
pub struct FieldInstantiationIndex(pub TableIndex);

impl DeepView for FieldInstantiationIndex {
    type V = FieldInstantiationIndex;

    open spec fn deep_view(&self) -> FieldInstantiationIndex {
        *self
    }
}

/// Index into the identifier pool.
#[derive(Clone, Copy, Debug, PartialEq, Eq, Structural)]
pub struct IdentifierIndex(pub TableIndex);

impl DeepView for IdentifierIndex {
    type V = IdentifierIndex;

    open spec fn deep_view(&self) -> IdentifierIndex {
        *self
    }
}

/// Index into the address identifier pool.
#[derive(Clone, Copy, Debug, PartialEq, Eq, Structural)]
pub struct AddressIdentifierIndex(pub TableIndex);

impl DeepView for AddressIdentifierIndex {
    type V = AddressIdentifierIndex;

    open spec fn deep_view(&self) -> AddressIdentifierIndex {
        *self
    }
}

/// Index into the constant pool.
#[derive(Clone, Copy, Debug, PartialEq, Eq, Structural)]
pub struct ConstantPoolIndex(pub TableIndex);

impl DeepView for ConstantPoolIndex {
    type V = ConstantPoolIndex;

    open spec fn deep_view(&self) -> ConstantPoolIndex {
        *self
    }
}

/// Index into the signature pool.
#[derive(Clone, Copy, Debug, PartialEq, Eq, Structural)]
pub struct SignatureIndex(pub TableIndex);

impl DeepView for SignatureIndex {
    type V = SignatureIndex;

    open spec fn deep_view(&self) -> SignatureIndex {
        *self
    }
}

/// Index into the struct definitions.
#[derive(Clone, Copy, Debug, PartialEq, Eq, Structural)]
pub struct StructDefinitionIndex(pub TableIndex);

impl DeepView for StructDefinitionIndex {
    type V = StructDefinitionIndex;

    open spec fn deep_view(&self) -> StructDefinitionIndex {
        *self
    }
}

/// A capability of a type.
#[derive(Clone, Copy, Debug, PartialEq, Eq, Structural)]
pub enum Ability {
    Copy,
    Drop,
    Store,
    Key,
}

impl Ability {
    /// The bit that stands for the ability in a set.
    pub open spec fn spec_bit(self) -> u8 {
        match self {
            Ability::Copy => 0x1,
            Ability::Drop => 0x2,
            Ability::Store => 0x4,
            Ability::Key => 0x8,
        }
    }

    /// The bit that stands for the ability in a set.
    #[verifier::when_used_as_spec(spec_bit)]
    pub fn bit(self) -> (b: u8)
        ensures
            b == self.spec_bit(),
    {
        match self {
            Ability::Copy => 0x1,
            Ability::Drop => 0x2,
            Ability::Store => 0x4,
            Ability::Key => 0x8,
        }
    }
}

/// A set of abilities, held as the sum of the bits of its members.
#[derive(Clone, Copy, Debug, PartialEq, Eq, Structural)]
pub struct AbilitySet(pub u8);

/// The sum of the bits of all four abilities.
pub const ABILITY_SET_ALL: u8 = 0xF;

impl AbilitySet {
    /// Whether the set is made of abilities only.
    pub open spec fn wf(self) -> bool {
        self.0 <= ABILITY_SET_ALL
    }

    /// Whether `ability` is a member.
    pub open spec fn spec_has_ability(self, ability: Ability) -> bool {
        (self.0 as int / ability.spec_bit() as int) % 2 == 1
    }

    /// The set with exactly the given members.
    pub open spec fn of(copy: bool, drop: bool, store: bool, key: bool) -> AbilitySet {
        AbilitySet(
            ((if copy { 1int } else { 0 }) + (if drop { 2int } else { 0 }) + (if store { 4int } else { 0 })
                + (if key { 8int } else { 0 })) as u8,
        )
    }

    /// The set that `byte` stands for, if it holds no bit but those of the
    /// four abilities.
    pub open spec fn spec_from_u8(byte: u8) -> Option<AbilitySet> {
        if byte <= ABILITY_SET_ALL {
            Some(AbilitySet(byte))
        } else {
            None
        }
    }

    /// The value that `byte` stands for, if it stands for one.
    #[verifier::when_used_as_spec(spec_from_u8)]
    pub fn from_u8(byte: u8) -> (r: Option<AbilitySet>)
        ensures
            r == Self::spec_from_u8(byte),
    {
        if byte <= ABILITY_SET_ALL {
            Some(AbilitySet(byte))
        } else {
            None
        }
    }

    /// The sum of the bits of the members.
    pub fn into_u8(self) -> (b: u8)
        ensures
            b == self.0,
    {
        self.0
    }

    /// Whether `ability` is a member.
    #[verifier::when_used_as_spec(spec_has_ability)]
    pub fn has_ability(self, ability: Ability) -> (b: bool)
        ensures
            b == self.spec_has_ability(ability),
    {
        (self.0 / ability.bit()) % 2 == 1
    }
}

impl DeepView for Visibility {
    type V = Visibility;

    open spec fn deep_view(&self) -> Visibility {
        *self
    }
}

impl DeepView for AbilitySet {
    type V = AbilitySet;

    open spec fn deep_view(&self) -> AbilitySet {
        *self
    }
}

/// A 256 bit unsigned integer: `low + 2^128 * high`.
#[derive(Clone, Copy, Debug, PartialEq, Eq, Structural)]
pub struct U256 {
    pub low: u128,
    pub high: u128,
}

/// Who may call a function.
#[derive(Clone, Copy, Debug, PartialEq, Eq, Structural)]
pub enum Visibility {
    Private,
    Public,
    Friend,
}

/// The byte that stood for script visibility before entry functions.
pub const VISIBILITY_DEPRECATED_SCRIPT: u8 = 0x2;

impl Visibility {
    /// The visibility that `byte` stands for.
    pub open spec fn spec_from_u8(byte: u8) -> Option<Visibility> {
        if byte == 0x0 {
            Some(Visibility::Private)
        } else if byte == 0x1 {
            Some(Visibility::Public)
        } else if byte == 0x3 {
            Some(Visibility::Friend)
        } else {
            None
        }
    }

    /// The value that `byte` stands for, if it stands for one.
    #[verifier::when_used_as_spec(spec_from_u8)]
    pub fn from_u8(byte: u8) -> (r: Option<Visibility>)
        ensures
            r == Self::spec_from_u8(byte),
    {
        if byte == 0x0 {
            Some(Visibility::Private)
        } else if byte == 0x1 {
            Some(Visibility::Public)
        } else if byte == 0x3 {
            Some(Visibility::Friend)
        } else {
            None
        }
    }
}

/// A reference to a module: its address and its name.
#[derive(Clone, Copy, Debug, PartialEq, Eq, Structural)]
pub struct ModuleHandle {
    pub address: AddressIdentifierIndex,
    pub name: IdentifierIndex,
}

impl DeepView for ModuleHandle {
    type V = ModuleHandle;

    open spec fn deep_view(&self) -> ModuleHandle {
        *self
    }
}

/// A type parameter of a struct.
#[derive(Clone, Copy, Debug, PartialEq, Eq, Structural)]
pub struct StructTypeParameter {
    pub constraints: AbilitySet,
    pub is_phantom: bool,
}

impl DeepView for StructTypeParameter {
    type V = StructTypeParameter;

    open spec fn deep_view(&self) -> StructTypeParameter {
        *self
    }
}

/// A reference to a struct of some module.
#[derive(Clone, Debug, PartialEq, Eq)]
pub struct StructHandle {
    pub module: ModuleHandleIndex,
    pub name: IdentifierIndex,
    pub abilities: AbilitySet,
    pub type_parameters: Vec<StructTypeParameter>,
}

/// The model of a [`StructHandle`].
pub struct StructHandleView {
    pub module: ModuleHandleIndex,
    pub name: IdentifierIndex,
    pub abilities: AbilitySet,
    pub type_parameters: Seq<StructTypeParameter>,
}

impl DeepView for StructHandle {
    type V = StructHandleView;

    open spec fn deep_view(&self) -> StructHandleView {
        StructHandleView {
            module: self.module,
            name: self.name,
            abilities: self.abilities,
            type_parameters: self.type_parameters.deep_view(),
        }
    }
}

/// A reference to a function of some module.
#[derive(Clone, Debug, PartialEq, Eq)]
pub struct FunctionHandle {
    pub module: ModuleHandleIndex,
    pub name: IdentifierIndex,
    pub parameters: SignatureIndex,
    pub return_: SignatureIndex,
    pub type_parameters: Vec<AbilitySet>,
}

/// The model of a [`FunctionHandle`].
pub struct FunctionHandleView {
    pub module: ModuleHandleIndex,
    pub name: IdentifierIndex,
    pub parameters: SignatureIndex,
    pub return_: SignatureIndex,
    pub type_parameters: Seq<AbilitySet>,
}

impl DeepView for FunctionHandle {
    type V = FunctionHandleView;

    open spec fn deep_view(&self) -> FunctionHandleView {
        FunctionHandleView {
            module: self.module,
            name: self.name,
            parameters: self.parameters,
            return_: self.return_,
            type_parameters: self.type_parameters.deep_view(),
        }
    }
}

/// A reference to a field of a struct definition.
#[derive(Clone, Copy, Debug, PartialEq, Eq, Structural)]
pub struct FieldHandle {
    pub owner: StructDefinitionIndex,
    pub field: MemberCount,
}

impl DeepView for FieldHandle {
    type V = FieldHandle;

    open spec fn deep_view(&self) -> FieldHandle {
        *self
    }
}

/// A struct definition with its type arguments.
#[derive(Clone, Copy, Debug, PartialEq, Eq, Structural)]
pub struct StructDefInstantiation {
    pub def: StructDefinitionIndex,
    pub type_parameters: SignatureIndex,
}

impl DeepView for StructDefInstantiation {
    type V = StructDefInstantiation;

    open spec fn deep_view(&self) -> StructDefInstantiation {
        *self
    }
}

/// A function handle with its type arguments.
#[derive(Clone, Copy, Debug, PartialEq, Eq, Structural)]
pub struct FunctionInstantiation {
    pub handle: FunctionHandleIndex,
    pub type_parameters: SignatureIndex,
}

impl DeepView for FunctionInstantiation {
    type V = FunctionInstantiation;

    open spec fn deep_view(&self) -> FunctionInstantiation {
        *self
    }
}

/// A field handle with the type arguments of its struct.
#[derive(Clone, Copy, Debug, PartialEq, Eq, Structural)]
pub struct FieldInstantiation {
    pub handle: FieldHandleIndex,
    pub type_parameters: SignatureIndex,
}

impl DeepView for FieldInstantiation {
    type V = FieldInstantiation;

    open spec fn deep_view(&self) -> FieldInstantiation {
        *self
    }
}

/// A type, as a tree.
#[derive(Debug, PartialEq, Eq)]
pub enum SignatureToken {
    Bool,
    U8,
    U64,
    U128,
    Address,
    Signer,
    Vector(Box<SignatureToken>),
    Struct(StructHandleIndex),
    /// A generic struct with its type arguments, of which there is at least
    /// one.
    StructInstantiation(StructHandleIndex, Vec<SignatureToken>),
    Reference(Box<SignatureToken>),
    MutableReference(Box<SignatureToken>),
    TypeParameter(TypeParameterIndex),
    U16,
    U32,
    U256,
}

/// The model of a [`SignatureToken`].
pub enum SignatureTokenView {
    Bool,
    U8,
    U64,
    U128,
    Address,
    Signer,
    Vector(Box<SignatureTokenView>),
    Struct(StructHandleIndex),
    StructInstantiation(StructHandleIndex, Seq<SignatureTokenView>),
    Reference(Box<SignatureTokenView>),
    MutableReference(Box<SignatureTokenView>),
    TypeParameter(TypeParameterIndex),
    U16,
    U32,
    U256,
}

/// The model of a token: the same tree, with a sequence for the type
/// arguments.
pub open spec fn token_view(token: SignatureToken) -> SignatureTokenView
    decreases token,
{
    match token {
        SignatureToken::Bool => SignatureTokenView::Bool,
        SignatureToken::U8 => SignatureTokenView::U8,
        SignatureToken::U64 => SignatureTokenView::U64,
        SignatureToken::U128 => SignatureTokenView::U128,
        SignatureToken::Address => SignatureTokenView::Address,
        SignatureToken::Signer => SignatureTokenView::Signer,
        SignatureToken::Vector(t) => SignatureTokenView::Vector(Box::new(token_view(*t))),
        SignatureToken::Struct(h) => SignatureTokenView::Struct(h),
        SignatureToken::StructInstantiation(h, args) => SignatureTokenView::StructInstantiation(
            h,
            Seq::new(
                args.len() as nat,
                |i: int|
                    if 0 <= i < args.len() {
                        token_view(args[i])
                    } else {
                        SignatureTokenView::Bool
                    },
            ),
        ),
        SignatureToken::Reference(t) => SignatureTokenView::Reference(Box::new(token_view(*t))),
        SignatureToken::MutableReference(t) => SignatureTokenView::MutableReference(
            Box::new(token_view(*t)),
        ),
        SignatureToken::TypeParameter(i) => SignatureTokenView::TypeParameter(i),
        SignatureToken::U16 => SignatureTokenView::U16,
        SignatureToken::U32 => SignatureTokenView::U32,
        SignatureToken::U256 => SignatureTokenView::U256,
    }
}

impl Clone for SignatureToken {
    /// A token with the same model.
    fn clone(&self) -> (token: SignatureToken)
        ensures
            token.deep_view() == self.deep_view(),
        decreases self,
    {
        match self {
            SignatureToken::Bool => SignatureToken::Bool,
            SignatureToken::U8 => SignatureToken::U8,
            SignatureToken::U64 => SignatureToken::U64,
            SignatureToken::U128 => SignatureToken::U128,
            SignatureToken::Address => SignatureToken::Address,
            SignatureToken::Signer => SignatureToken::Signer,
            SignatureToken::Vector(t) => SignatureToken::Vector(Box::new((**t).clone())),
            SignatureToken::Struct(h) => SignatureToken::Struct(*h),
            SignatureToken::StructInstantiation(h, args) => {
                let mut copies: Vec<SignatureToken> = Vec::new();
                let mut i: usize = 0;
                while i < args.len()
                    invariant
                        i <= args.len(),
                        copies.len() == i,
                        *self == SignatureToken::StructInstantiation(*h, *args),
                        forall|k: int| 0 <= k < i ==> (#[trigger] copies[k]).deep_view() == args[k].deep_view(),
                    decreases args.len() - i,
                {
                    proof {
                        assert(self->StructInstantiation_1 == *args);
                        assert(decreases_to!(*self => self->StructInstantiation_1));
                        assert(decreases_to!(*args => args[i as int]));
                    }
                    let copy = args[i].clone();
                    copies.push(copy);
                    i = i + 1;
                }
                proof {
                    assert(copies.deep_view() =~= args.deep_view());
                    lemma_struct_instantiation_view(*h, copies);
                    lemma_struct_instantiation_view(*h, *args);
                }
                SignatureToken::StructInstantiation(*h, copies)
            },
            SignatureToken::Reference(t) => SignatureToken::Reference(Box::new((**t).clone())),
            SignatureToken::MutableReference(t) => SignatureToken::MutableReference(
                Box::new((**t).clone()),
            ),
            SignatureToken::TypeParameter(i) => SignatureToken::TypeParameter(*i),
            SignatureToken::U16 => SignatureToken::U16,
            SignatureToken::U32 => SignatureToken::U32,
            SignatureToken::U256 => SignatureToken::U256,
        }
    }
}

impl DeepView for SignatureToken {
    type V = SignatureTokenView;

    open spec fn deep_view(&self) -> SignatureTokenView {
        token_view(*self)
    }
}

/// The model of a generic struct is made of the models of its arguments.
pub proof fn lemma_struct_instantiation_view(h: StructHandleIndex, args: Vec<SignatureToken>)
    ensures
        SignatureToken::StructInstantiation(h, args).deep_view()
            == SignatureTokenView::StructInstantiation(h, args.deep_view()),
{
    let token = SignatureToken::StructInstantiation(h, args);
    assert(token_view(token) matches SignatureTokenView::StructInstantiation(_, s) && s
        =~= args.deep_view());
}

impl SignatureTokenView {
    /// The nesting depth of the token: the greatest number of tokens that
    /// one of its tokens stands in, 0 for a token without parts.
    pub open spec fn depth(self) -> nat
        decreases self,
    {
        match self {
            SignatureTokenView::Vector(t) => 1 + t.depth(),
            SignatureTokenView::Reference(t) => 1 + t.depth(),
            SignatureTokenView::MutableReference(t) => 1 + t.depth(),
            SignatureTokenView::StructInstantiation(_, args) => 1 + Self::max_depth(args),
            _ => 0,
        }
    }

    /// Whether every generic struct in the token has a type argument.
    pub open spec fn well_formed(self) -> bool
        decreases self,
    {
        match self {
            SignatureTokenView::Vector(t) => t.well_formed(),
            SignatureTokenView::Reference(t) => t.well_formed(),
            SignatureTokenView::MutableReference(t) => t.well_formed(),
            SignatureTokenView::StructInstantiation(_, args) => {
                &&& args.len() >= 1
                &&& forall|i: int| 0 <= i < args.len() ==> (#[trigger] args[i]).well_formed()
            },
            _ => true,
        }
    }

    /// The greatest depth among `tokens`, 0 where there are none.
    pub open spec fn max_depth(tokens: Seq<SignatureTokenView>) -> nat
        decreases tokens,
    {
        if tokens.len() == 0 {
            0
        } else {
            let rest = Self::max_depth(tokens.drop_last());
            let last = tokens.last().depth();
            if last > rest {
                last
            } else {
                rest
            }
        }
    }
}

/// A list of types: of parameters, of results, of locals, of type arguments.
#[derive(Clone, Debug, PartialEq, Eq)]
pub struct Signature(pub Vec<SignatureToken>);

impl DeepView for Signature {
    type V = Seq<SignatureTokenView>;

    open spec fn deep_view(&self) -> Seq<SignatureTokenView> {
        self.0.deep_view()
    }
}

/// The type of a field.
#[derive(Clone, Debug, PartialEq, Eq)]
pub struct TypeSignature(pub SignatureToken);

impl DeepView for TypeSignature {
    type V = SignatureTokenView;

    open spec fn deep_view(&self) -> SignatureTokenView {
        self.0.deep_view()
    }
}

/// A constant: its type and its serialized value.
#[derive(Clone, Debug, PartialEq, Eq)]
pub struct Constant {
    pub type_: SignatureToken,
    pub data: Vec<u8>,
}

/// The model of a [`Constant`].
pub struct ConstantView {
    pub type_: SignatureTokenView,
    pub data: Seq<u8>,
}

impl DeepView for Constant {
    type V = ConstantView;

    open spec fn deep_view(&self) -> ConstantView {
        ConstantView { type_: self.type_.deep_view(), data: self.data@ }
    }
}

/// An entry of the metadata table. The decoder does not look into it.
#[derive(Clone, Debug, PartialEq, Eq)]
pub struct Metadata {
    pub key: Vec<u8>,
    pub value: Vec<u8>,
}

/// The model of a [`Metadata`].
pub struct MetadataView {
    pub key: Seq<u8>,
    pub value: Seq<u8>,
}

impl DeepView for Metadata {
    type V = MetadataView;

    open spec fn deep_view(&self) -> MetadataView {
        MetadataView { key: self.key@, value: self.value@ }
    }
}

/// A name. Its model is its text.
#[derive(Clone, Debug, PartialEq, Eq)]
pub struct Identifier(pub String);

impl DeepView for Identifier {
    type V = Seq<char>;

    open spec fn deep_view(&self) -> Seq<char> {
        self.0@
    }
}

/// The number of bytes of an account address.
pub const ADDRESS_LENGTH: usize = 16;

/// An account address. Its model is its bytes.
#[derive(Clone, Copy, Debug, PartialEq, Eq)]
pub struct AccountAddress(pub [u8; 16]);

impl DeepView for AccountAddress {
    type V = Seq<u8>;

    open spec fn deep_view(&self) -> Seq<u8> {
        self.0@
    }
}

/// A field of a struct: its name and its type.
#[derive(Clone, Debug, PartialEq, Eq)]
pub struct FieldDefinition {
    pub name: IdentifierIndex,
    pub signature: TypeSignature,
}

/// The model of a [`FieldDefinition`].
pub struct FieldDefinitionView {
    pub name: IdentifierIndex,
    pub signature: SignatureTokenView,
}

impl DeepView for FieldDefinition {
    type V = FieldDefinitionView;

    open spec fn deep_view(&self) -> FieldDefinitionView {
        FieldDefinitionView { name: self.name, signature: self.signature.deep_view() }
    }
}

/// The fields of a struct, unless the host provides the struct.
#[derive(Clone, Debug, PartialEq, Eq)]
pub enum StructFieldInformation {
    Native,
    Declared(Vec<FieldDefinition>),
}

/// The model of a [`StructFieldInformation`].
pub enum StructFieldInformationView {
    Native,
    Declared(Seq<FieldDefinitionView>),
}

impl DeepView for StructFieldInformation {
    type V = StructFieldInformationView;

    open spec fn deep_view(&self) -> StructFieldInformationView {
        match self {
            StructFieldInformation::Native => StructFieldInformationView::Native,
            StructFieldInformation::Declared(fields) => StructFieldInformationView::Declared(
                fields.deep_view(),
            ),
        }
    }
}

/// The definition of a struct of this module.
#[derive(Clone, Debug, PartialEq, Eq)]
pub struct StructDefinition {
    pub struct_handle: StructHandleIndex,
    pub field_information: StructFieldInformation,
}

/// The model of a [`StructDefinition`].
pub struct StructDefinitionView {
    pub struct_handle: StructHandleIndex,
    pub field_information: StructFieldInformationView,
}

impl DeepView for StructDefinition {
    type V = StructDefinitionView;

    open spec fn deep_view(&self) -> StructDefinitionView {
        StructDefinitionView {
            struct_handle: self.struct_handle,
            field_information: self.field_information.deep_view(),
        }
    }
}

/// An instruction.
#[derive(Clone, Copy, Debug, PartialEq, Eq, Structural)]
pub enum Bytecode {
    Pop,
    Ret,
    BrTrue(CodeOffset),
    BrFalse(CodeOffset),
    Branch(CodeOffset),
    LdU8(u8),
    LdU64(u64),
    LdU128(u128),
    CastU8,
    CastU64,
    CastU128,
    LdConst(ConstantPoolIndex),
    LdTrue,
    LdFalse,
    CopyLoc(LocalIndex),
    MoveLoc(LocalIndex),
    StLoc(LocalIndex),
    Call(FunctionHandleIndex),
    CallGeneric(FunctionInstantiationIndex),
    Pack(StructDefinitionIndex),
    PackGeneric(StructDefInstantiationIndex),
    Unpack(StructDefinitionIndex),
    UnpackGeneric(StructDefInstantiationIndex),
    ReadRef,
    WriteRef,
    FreezeRef,
    MutBorrowLoc(LocalIndex),
    ImmBorrowLoc(LocalIndex),
    MutBorrowField(FieldHandleIndex),
    MutBorrowFieldGeneric(FieldInstantiationIndex),
    ImmBorrowField(FieldHandleIndex),
    ImmBorrowFieldGeneric(FieldInstantiationIndex),
    MutBorrowGlobal(StructDefinitionIndex),
    MutBorrowGlobalGeneric(StructDefInstantiationIndex),
    ImmBorrowGlobal(StructDefinitionIndex),
    ImmBorrowGlobalGeneric(StructDefInstantiationIndex),
    Add,
    Sub,
    Mul,
    Mod,
    Div,
    BitOr,
    BitAnd,
    Xor,
    Or,
    And,
    Not,
    Eq,
    Neq,
    Lt,
    Gt,
    Le,
    Ge,
    Abort,
    Nop,
    Exists(StructDefinitionIndex),
    ExistsGeneric(StructDefInstantiationIndex),
    MoveFrom(StructDefinitionIndex),
    MoveFromGeneric(StructDefInstantiationIndex),
    MoveTo(StructDefinitionIndex),
    MoveToGeneric(StructDefInstantiationIndex),
    Shl,
    Shr,
    VecPack(SignatureIndex, u64),
    VecLen(SignatureIndex),
    VecImmBorrow(SignatureIndex),
    VecMutBorrow(SignatureIndex),
    VecPushBack(SignatureIndex),
    VecPopBack(SignatureIndex),
    VecUnpack(SignatureIndex, u64),
    VecSwap(SignatureIndex),
    LdU16(u16),
    LdU32(u32),
    LdU256(U256),
    CastU16,
    CastU32,
    CastU256,
}

impl DeepView for Bytecode {
    type V = Bytecode;

    open spec fn deep_view(&self) -> Bytecode {
        *self
    }
}

/// The body of a function or script: the types of its locals and its
/// instructions.
#[derive(Clone, Debug, PartialEq, Eq)]
pub struct CodeUnit {
    pub locals: SignatureIndex,
    pub code: Vec<Bytecode>,
}

/// The model of a [`CodeUnit`].
pub struct CodeUnitView {
    pub locals: SignatureIndex,
    pub code: Seq<Bytecode>,
}

impl DeepView for CodeUnit {
    type V = CodeUnitView;

    open spec fn deep_view(&self) -> CodeUnitView {
        CodeUnitView { locals: self.locals, code: self.code@ }
    }
}

/// The flag bits of a function definition.
pub const FUNCTION_DEPRECATED_PUBLIC_BIT: u8 = 0b01;

/// The function is provided by the host and has no code.
pub const FUNCTION_NATIVE: u8 = 0b01;

/// The function can start a transaction.
pub const FUNCTION_ENTRY: u8 = 0b10;

/// The definition of a function of this module.
#[derive(Clone, Debug, PartialEq, Eq)]
pub struct FunctionDefinition {
    pub function: FunctionHandleIndex,
    pub visibility: Visibility,
    pub is_entry: bool,
    pub acquires_global_resources: Vec<StructDefinitionIndex>,
    /// The body, absent for a native function.
    pub code: Option<CodeUnit>,
}

/// The model of a [`FunctionDefinition`].
pub struct FunctionDefinitionView {
    pub function: FunctionHandleIndex,
    pub visibility: Visibility,
    pub is_entry: bool,
    pub acquires_global_resources: Seq<StructDefinitionIndex>,
    pub code: Option<CodeUnitView>,
}

impl DeepView for FunctionDefinition {
    type V = FunctionDefinitionView;

    open spec fn deep_view(&self) -> FunctionDefinitionView {
        FunctionDefinitionView {
            function: self.function,
            visibility: self.visibility,
            is_entry: self.is_entry,
            acquires_global_resources: self.acquires_global_resources.deep_view(),
            code: self.code.deep_view(),
        }
    }
}

/// The signatures of a binary.
pub type SignaturePool = Vec<Signature>;

/// The identifiers of a binary.
pub type IdentifierPool = Vec<Identifier>;

/// The addresses of a binary.
pub type AddressIdentifierPool = Vec<AccountAddress>;

/// The constants of a binary.
pub type ConstantPool = Vec<Constant>;

/// The model of the tables that modules and scripts share.
pub struct CommonTablesView {
    pub module_handles: Seq<ModuleHandle>,
    pub struct_handles: Seq<StructHandleView>,
    pub function_handles: Seq<FunctionHandleView>,
    pub function_instantiations: Seq<FunctionInstantiation>,
    pub signatures: Seq<Seq<SignatureTokenView>>,
    pub identifiers: Seq<Seq<char>>,
    pub address_identifiers: Seq<Seq<u8>>,
    pub constant_pool: Seq<ConstantView>,
    pub metadata: Seq<MetadataView>,
}

/// A decoded module.
#[derive(Clone, Debug, PartialEq, Eq)]
pub struct CompiledModule {
    pub version: u32,
    pub self_module_handle_idx: ModuleHandleIndex,
    pub module_handles: Vec<ModuleHandle>,
    pub struct_handles: Vec<StructHandle>,
    pub function_handles: Vec<FunctionHandle>,
    pub function_instantiations: Vec<FunctionInstantiation>,
    pub signatures: Vec<Signature>,
    pub identifiers: Vec<Identifier>,
    pub address_identifiers: Vec<AccountAddress>,
    pub constant_pool: Vec<Constant>,
    pub metadata: Vec<Metadata>,
    pub struct_defs: Vec<StructDefinition>,
    pub struct_def_instantiations: Vec<StructDefInstantiation>,
    pub function_defs: Vec<FunctionDefinition>,
    pub field_handles: Vec<FieldHandle>,
    pub field_instantiations: Vec<FieldInstantiation>,
    pub friend_decls: Vec<ModuleHandle>,
}

/// The model of a [`CompiledModule`].
pub struct CompiledModuleView {
    pub version: u32,
    pub self_module_handle_idx: ModuleHandleIndex,
    pub module_handles: Seq<ModuleHandle>,
    pub struct_handles: Seq<StructHandleView>,
    pub function_handles: Seq<FunctionHandleView>,
    pub function_instantiations: Seq<FunctionInstantiation>,
    pub signatures: Seq<Seq<SignatureTokenView>>,
    pub identifiers: Seq<Seq<char>>,
    pub address_identifiers: Seq<Seq<u8>>,
    pub constant_pool: Seq<ConstantView>,
    pub metadata: Seq<MetadataView>,
    pub struct_defs: Seq<StructDefinitionView>,
    pub struct_def_instantiations: Seq<StructDefInstantiation>,
    pub function_defs: Seq<FunctionDefinitionView>,
    pub field_handles: Seq<FieldHandle>,
    pub field_instantiations: Seq<FieldInstantiation>,
    pub friend_decls: Seq<ModuleHandle>,
}

impl DeepView for CompiledModule {
    type V = CompiledModuleView;

    open spec fn deep_view(&self) -> CompiledModuleView {
        CompiledModuleView {
            version: self.version,
            self_module_handle_idx: self.self_module_handle_idx,
            module_handles: self.module_handles.deep_view(),
            struct_handles: self.struct_handles.deep_view(),
            function_handles: self.function_handles.deep_view(),
            function_instantiations: self.function_instantiations.deep_view(),
            signatures: self.signatures.deep_view(),
            identifiers: self.identifiers.deep_view(),
            address_identifiers: self.address_identifiers.deep_view(),
            constant_pool: self.constant_pool.deep_view(),
            metadata: self.metadata.deep_view(),
            struct_defs: self.struct_defs.deep_view(),
            struct_def_instantiations: self.struct_def_instantiations.deep_view(),
            function_defs: self.function_defs.deep_view(),
            field_handles: self.field_handles.deep_view(),
            field_instantiations: self.field_instantiations.deep_view(),
            friend_decls: self.friend_decls.deep_view(),
        }
    }
}

/// A decoded script.
#[derive(Clone, Debug, PartialEq, Eq)]
pub struct CompiledScript {
    pub version: u32,
    pub module_handles: Vec<ModuleHandle>,
    pub struct_handles: Vec<StructHandle>,
    pub function_handles: Vec<FunctionHandle>,
    pub function_instantiations: Vec<FunctionInstantiation>,
    pub signatures: Vec<Signature>,
    pub identifiers: Vec<Identifier>,
    pub address_identifiers: Vec<AccountAddress>,
    pub constant_pool: Vec<Constant>,
    pub metadata: Vec<Metadata>,
    pub type_parameters: Vec<AbilitySet>,
    pub parameters: SignatureIndex,
    pub code: CodeUnit,
}

/// The model of a [`CompiledScript`].
pub struct CompiledScriptView {
    pub version: u32,
    pub module_handles: Seq<ModuleHandle>,
    pub struct_handles: Seq<StructHandleView>,
    pub function_handles: Seq<FunctionHandleView>,
    pub function_instantiations: Seq<FunctionInstantiation>,
    pub signatures: Seq<Seq<SignatureTokenView>>,
    pub identifiers: Seq<Seq<char>>,
    pub address_identifiers: Seq<Seq<u8>>,
    pub constant_pool: Seq<ConstantView>,
    pub metadata: Seq<MetadataView>,
    pub type_parameters: Seq<AbilitySet>,
    pub parameters: SignatureIndex,
    pub code: CodeUnitView,
}

impl DeepView for CompiledScript {
    type V = CompiledScriptView;

    open spec fn deep_view(&self) -> CompiledScriptView {
        CompiledScriptView {
            version: self.version,
            type_parameters: self.type_parameters.deep_view(),
            parameters: self.parameters,
            code: self.code.deep_view(),
            module_handles: self.module_handles.deep_view(),
            struct_handles: self.struct_handles.deep_view(),
            function_handles: self.function_handles.deep_view(),
            function_instantiations: self.function_instantiations.deep_view(),
            signatures: self.signatures.deep_view(),
            identifiers: self.identifiers.deep_view(),
            address_identifiers: self.address_identifiers.deep_view(),
            constant_pool: self.constant_pool.deep_view(),
            metadata: self.metadata.deep_view(),
        }
    }
}

/// The model of a module or of a script.
pub enum CompiledUnitView {
    Module(CompiledModuleView),
    Script(CompiledScriptView),
}

/// Pushing a value pushes its model.
pub proof fn lemma_push_deep_view<T: DeepView>(before: Vec<T>, after: Vec<T>, x: T)
    requires
        after@ == before@.push(x),
    ensures
        after.deep_view() == before.deep_view().push(x.deep_view()),
{
    assert(after.deep_view() =~= before.deep_view().push(x.deep_view()));
}

/// An empty vector has an empty model.
pub proof fn lemma_empty_deep_view<T: DeepView>(v: Vec<T>)
    requires
        v@.len() == 0,
    ensures
        v.deep_view() == Seq::<T::V>::empty(),
{
    assert(v.deep_view() =~= Seq::<T::V>::empty());
}

} // verus!
