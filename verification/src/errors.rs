//! The error taxonomy of the decoder.

use vstd::prelude::*;

verus! {

/// The kind of a decoding failure.
#[derive(Clone, Copy, Debug, PartialEq, Eq, Structural)]
pub enum StatusCode {
    BadMagic,
    UnknownVersion,
    UnknownTableType,
    BadHeaderTable,
    DuplicateTable,
    Malformed,
    BadU16,
    BadU32,
    BadU64,
    BadU128,
    BadU256,
    UnknownSerializedType,
    UnknownOpcode,
    UnknownAbility,
    UnknownNativeStructFlag,
    InvalidFlagBits,
    /// Reserved for faults of the host that a caller catches around the
    /// decoder. No decoding function returns it.
    VerifierInvariantViolation,
}

impl StatusCode {
    /// The number of the status. Decoding failures have the numbers from
    /// 3000 on.
    pub open spec fn spec_number(self) -> u64 {
        match self {
            StatusCode::BadMagic => 3002,
            StatusCode::UnknownVersion => 3003,
            StatusCode::UnknownTableType => 3004,
            StatusCode::BadHeaderTable => 3008,
            StatusCode::DuplicateTable => 3010,
            StatusCode::Malformed => 3001,
            StatusCode::BadU16 => 3017,
            StatusCode::BadU32 => 3018,
            StatusCode::BadU64 => 3019,
            StatusCode::BadU128 => 3020,
            StatusCode::BadU256 => 3021,
            StatusCode::UnknownSerializedType => 3006,
            StatusCode::UnknownOpcode => 3007,
            StatusCode::UnknownAbility => 3013,
            StatusCode::UnknownNativeStructFlag => 3014,
            StatusCode::InvalidFlagBits => 3025,
            StatusCode::VerifierInvariantViolation => 2016,
        }
    }

    #[verifier::when_used_as_spec(spec_number)]
    pub fn number(self) -> (n: u64)
        ensures
            n == self.spec_number(),
    {
        match self {
            StatusCode::BadMagic => 3002,
            StatusCode::UnknownVersion => 3003,
            StatusCode::UnknownTableType => 3004,
            StatusCode::BadHeaderTable => 3008,
            StatusCode::DuplicateTable => 3010,
            StatusCode::Malformed => 3001,
            StatusCode::BadU16 => 3017,
            StatusCode::BadU32 => 3018,
            StatusCode::BadU64 => 3019,
            StatusCode::BadU128 => 3020,
            StatusCode::BadU256 => 3021,
            StatusCode::UnknownSerializedType => 3006,
            StatusCode::UnknownOpcode => 3007,
            StatusCode::UnknownAbility => 3013,
            StatusCode::UnknownNativeStructFlag => 3014,
            StatusCode::InvalidFlagBits => 3025,
            StatusCode::VerifierInvariantViolation => 2016,
        }
    }
}

/// The short context that accompanies a status.
#[derive(Clone, Copy, Debug, PartialEq, Eq, Structural)]
pub enum Message {
    /// The status stands alone.
    Absent,
    BadUleb,
    UlebGreaterThanMax,
    BadBinaryHeader,
    ErrorReadingTable,
    ErrorReadingTableContents,
    /// A metadata table in a binary of the given version.
    MetadataNotApplicable(u32),
    FriendDeclarationsNotApplicable,
    BadTableInScript,
    BadIdentifierPoolSize,
    InvalidIdentifier,
    BadAddressIdentifierPoolSize,
    InvalidAddressFormat,
    BadByteBlobSize,
    /// A 16, 32 or 256 bit integer type in a binary of the given version.
    IntegerTypeNotSupported(u32),
    StructInstWithArityZero,
    UnexpectedEof,
    MaximumRecursionDepthReached,
    InvalidFieldInfoInStruct,
    InvalidVisibilityByte,
    VectorOperationsNotAvailable,
    /// A load or cast of a 16, 32 or 256 bit integer in a binary of the
    /// given version.
    IntegerOperationNotSupported(u32),
}

/// A decoding failure: its kind and its context.
#[derive(Clone, Copy, Debug, PartialEq, Eq, Structural)]
pub struct PartialVMError {
    pub major_status: StatusCode,
    pub message: Message,
}

/// What decoding gives: a value or a decoding failure.
pub type BinaryLoaderResult<T> = Result<T, PartialVMError>;

impl Message {
    /// The text of the context; the version that some contexts name stands
    /// in the context itself.
    pub open spec fn spec_text(self) -> Seq<char> {
        match self {
            Message::Absent => ""@,
            Message::BadUleb => "Bad Uleb"@,
            Message::UlebGreaterThanMax => "Uleb greater than max requested"@,
            Message::BadBinaryHeader => "Bad binary header"@,
            Message::ErrorReadingTable => "Error reading table"@,
            Message::ErrorReadingTableContents => "Error reading table contents"@,
            Message::MetadataNotApplicable(_) => "metadata declarations not applicable in this bytecode version"@,
            Message::FriendDeclarationsNotApplicable => "Friend declarations not applicable in bytecode version 1"@,
            Message::BadTableInScript => "Bad table in Script"@,
            Message::BadIdentifierPoolSize => "Bad Identifier pool size"@,
            Message::InvalidIdentifier => "Invalid Identifier"@,
            Message::BadAddressIdentifierPoolSize => "Bad Address Identifier pool size"@,
            Message::InvalidAddressFormat => "Invalid Address format"@,
            Message::BadByteBlobSize => "Bad byte blob size"@,
            Message::IntegerTypeNotSupported(_) => "u16, u32, u256 integers not supported in this bytecode version"@,
            Message::StructInstWithArityZero => "Struct inst with arity 0"@,
            Message::UnexpectedEof => "Unexpected EOF"@,
            Message::MaximumRecursionDepthReached => "Maximum recursion depth reached"@,
            Message::InvalidFieldInfoInStruct => "Invalid field info in struct"@,
            Message::InvalidVisibilityByte => "Invalid visibility byte"@,
            Message::VectorOperationsNotAvailable => "Vector operations not available before bytecode version 4"@,
            Message::IntegerOperationNotSupported(_) => "Loading or casting u16, u32, u256 integers not supported in this bytecode version"@,
        }
    }

    /// The text of the context.
    pub fn text(self) -> (t: &'static str)
        ensures
            t@ == self.spec_text(),
    {
        match self {
            Message::Absent => "",
            Message::BadUleb => "Bad Uleb",
            Message::UlebGreaterThanMax => "Uleb greater than max requested",
            Message::BadBinaryHeader => "Bad binary header",
            Message::ErrorReadingTable => "Error reading table",
            Message::ErrorReadingTableContents => "Error reading table contents",
            Message::MetadataNotApplicable(_) => "metadata declarations not applicable in this bytecode version",
            Message::FriendDeclarationsNotApplicable => "Friend declarations not applicable in bytecode version 1",
            Message::BadTableInScript => "Bad table in Script",
            Message::BadIdentifierPoolSize => "Bad Identifier pool size",
            Message::InvalidIdentifier => "Invalid Identifier",
            Message::BadAddressIdentifierPoolSize => "Bad Address Identifier pool size",
            Message::InvalidAddressFormat => "Invalid Address format",
            Message::BadByteBlobSize => "Bad byte blob size",
            Message::IntegerTypeNotSupported(_) => "u16, u32, u256 integers not supported in this bytecode version",
            Message::StructInstWithArityZero => "Struct inst with arity 0",
            Message::UnexpectedEof => "Unexpected EOF",
            Message::MaximumRecursionDepthReached => "Maximum recursion depth reached",
            Message::InvalidFieldInfoInStruct => "Invalid field info in struct",
            Message::InvalidVisibilityByte => "Invalid visibility byte",
            Message::VectorOperationsNotAvailable => "Vector operations not available before bytecode version 4",
            Message::IntegerOperationNotSupported(_) => "Loading or casting u16, u32, u256 integers not supported in this bytecode version",
        }
    }
}

impl PartialVMError {
    /// An error of the given kind without context.
    pub open spec fn spec_new(major_status: StatusCode) -> PartialVMError {
        PartialVMError { major_status, message: Message::Absent }
    }

    /// The same error with the given context.
    pub open spec fn spec_with_message(self, message: Message) -> PartialVMError {
        PartialVMError { major_status: self.major_status, message }
    }

    /// Whether the error is one that decoding gives. The one status that
    /// it never gives stands for a fault of the host.
    pub open spec fn is_decoder_error(self) -> bool {
        self.major_status != StatusCode::VerifierInvariantViolation
    }

    /// An error of the given kind without context.
    #[verifier::when_used_as_spec(spec_new)]
    pub fn new(major_status: StatusCode) -> (e: PartialVMError)
        ensures
            e == Self::spec_new(major_status),
    {
        PartialVMError { major_status, message: Message::Absent }
    }

    /// The same error with the given context.
    #[verifier::when_used_as_spec(spec_with_message)]
    pub fn with_message(self, message: Message) -> (e: PartialVMError)
        ensures
            e == self.spec_with_message(message),
    {
        PartialVMError { major_status: self.major_status, message }
    }

    /// The kind of the error.
    pub fn major_status(&self) -> (s: StatusCode)
        ensures
            s == self.major_status,
    {
        self.major_status
    }

    /// The context of the error.
    pub fn message(&self) -> (m: Message)
        ensures
            m == self.message,
    {
        self.message
    }
}

/// A `Malformed` error with the given context.
pub open spec fn malformed(message: Message) -> PartialVMError {
    PartialVMError { major_status: StatusCode::Malformed, message }
}

} // verus!
