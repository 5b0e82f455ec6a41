//! A forward-only reader over a byte slice tagged with a format version, and
//! the mathematical model of what it reads.

use vstd::prelude::*;
use vstd::slice::slice_subrange;
use vstd::slice::slice_to_vec;
use crate::errors::{malformed, Message, PartialVMError, StatusCode};
use crate::constants::{VERSION_MAX, MAGIC_SIZE};

verus! {

/// The state of a reader: the bytes it reads, the format version they are
/// read under, and how many of them have been consumed.
pub struct CursorView {
    pub bytes: Seq<u8>,
    pub version: u32,
    pub position: int,
}

impl CursorView {
    /// The reader after `n` more bytes.
    pub open spec fn skip(self, n: nat) -> CursorView {
        CursorView { bytes: self.bytes, version: self.version, position: self.position + n }
    }

    /// A reader at the start of `bytes`.
    pub open spec fn start(bytes: Seq<u8>, version: u32) -> CursorView {
        CursorView { bytes, version, position: 0 }
    }

    /// A reader at the start of the window `[start, end)` of `bytes`.
    pub open spec fn window(bytes: Seq<u8>, version: u32, start: int, end: int) -> CursorView {
        CursorView { bytes: bytes.subrange(start, end), version, position: 0 }
    }

    /// The number of bytes not yet consumed.
    pub open spec fn remaining(self) -> int {
        self.bytes.len() - self.position
    }

    /// The number of bytes not yet consumed, 0 behind the end.
    pub open spec fn left(self) -> nat {
        if self.position < self.bytes.len() {
            (self.bytes.len() - self.position) as nat
        } else {
            0
        }
    }

    /// Whether every byte has been consumed.
    pub open spec fn at_end(self) -> bool {
        self.position >= self.bytes.len()
    }
}

/// The outcome of decoding one item at a reader: the item and the number of
/// bytes it occupies, or the error.
pub type Decoded<T> = Result<(T, nat), PartialVMError>;

/// `128^i`.
pub open spec fn pow128(i: nat) -> nat
    decreases i,
{
    if i == 0 {
        1
    } else {
        128 * pow128((i - 1) as nat)
    }
}

/// The next byte, if there is one.
pub open spec fn spec_read_u8(c: CursorView) -> Option<u8> {
    if 0 <= c.position < c.bytes.len() {
        Some(c.bytes[c.position])
    } else {
        None
    }
}

/// The next `n` bytes, if there are that many.
pub open spec fn spec_read_exact(c: CursorView, n: nat) -> Option<Seq<u8>> {
    if 0 <= c.position && c.position + n <= c.bytes.len() {
        Some(c.bytes.subrange(c.position, c.position + n))
    } else {
        None
    }
}

/// The ULEB128 integer whose first `i` bytes have been read and have the
/// value `acc`: each byte carries seven bits, least significant group first,
/// and its top bit says whether another byte follows. At most ten bytes are
/// read, the value must fit 64 bits, and an encoding of more than one byte
/// must not end in a zero byte. The result is the value and the number of
/// bytes of the whole encoding.
pub open spec fn spec_uleb128_from(c: CursorView, i: nat, acc: nat) -> Option<(u64, nat)>
    decreases 10 - i,
{
    if i >= 10 {
        None
    } else {
        match spec_read_u8(c.skip(i)) {
            None => None,
            Some(byte) => {
                let low = (byte % 128) as nat;
                let value = acc + low * pow128(i);
                if value > u64::MAX {
                    None
                } else if byte < 128 {
                    if i > 0 && low == 0 {
                        None
                    } else {
                        Some((value as u64, i + 1))
                    }
                } else {
                    spec_uleb128_from(c, i + 1, value)
                }
            },
        }
    }
}

/// The ULEB128 integer at the reader.
pub open spec fn spec_read_uleb128(c: CursorView) -> Option<(u64, nat)> {
    spec_uleb128_from(c, 0, 0)
}

/// An encoding occupies between one and ten bytes, all of them present.
pub proof fn lemma_uleb128_length(c: CursorView, i: nat, acc: nat)
    requires
        0 <= c.position,
    ensures
        spec_uleb128_from(c, i, acc) matches Some((_, n)) ==> i < n <= 10 && c.position + n
            <= c.bytes.len(),
    decreases 10 - i,
{
    if i < 10 {
        match spec_read_u8(c.skip(i)) {
            None => {},
            Some(byte) => {
                let value = acc + ((byte % 128) as nat) * pow128(i);
                if value <= u64::MAX && byte >= 128 {
                    lemma_uleb128_length(c, i + 1, value);
                }
            },
        }
    }
}

/// The first ten powers of 128.
pub proof fn lemma_pow128_values()
    ensures
        pow128(0) == 1,
        pow128(1) == 0x80,
        pow128(2) == 0x4000,
        pow128(3) == 0x20_0000,
        pow128(4) == 0x1000_0000,
        pow128(5) == 0x8_0000_0000,
        pow128(6) == 0x400_0000_0000,
        pow128(7) == 0x2_0000_0000_0000,
        pow128(8) == 0x100_0000_0000_0000,
        pow128(9) == 0x8000_0000_0000_0000,
{
    reveal_with_fuel(pow128, 11);
}

/// The two-byte little-endian integer at index `k` of `s`.
pub open spec fn le2(s: Seq<u8>, k: int) -> nat {
    s[k] as nat + 0x100 * (s[k + 1] as nat)
}

/// The four-byte little-endian integer at index `k` of `s`.
pub open spec fn le4(s: Seq<u8>, k: int) -> nat {
    le2(s, k) + 0x1_0000 * le2(s, k + 2)
}

/// The eight-byte little-endian integer at index `k` of `s`.
pub open spec fn le8(s: Seq<u8>, k: int) -> nat {
    le4(s, k) + 0x1_0000_0000 * le4(s, k + 4)
}

/// The sixteen-byte little-endian integer at index `k` of `s`.
pub open spec fn le16(s: Seq<u8>, k: int) -> nat {
    le8(s, k) + 0x1_0000_0000_0000_0000 * le8(s, k + 8)
}

/// The format header at the start of `bytes`: the magic, then the version as
/// a ULEB128 integer, which must be at least 1 and at most the smaller of
/// `max_version` and the highest version of the format. The result is the
/// version and the length of the header.
pub open spec fn spec_header(bytes: Seq<u8>, max_version: u32) -> Decoded<u32> {
    if !has_magic(bytes) {
        Err(PartialVMError::spec_new(StatusCode::BadMagic))
    } else {
        match spec_read_uleb128(CursorView::start(bytes, 0).skip(MAGIC_SIZE as nat)) {
            None => Err(malformed(Message::BadBinaryHeader)),
            Some((version, n)) => {
                if version == 0 || version > max_version || version > VERSION_MAX {
                    Err(PartialVMError::spec_new(StatusCode::UnknownVersion))
                } else {
                    Ok((version as u32, MAGIC_SIZE as nat + n))
                }
            },
        }
    }
}

/// Whether `bytes` starts with the magic of the format.
pub open spec fn has_magic(bytes: Seq<u8>) -> bool {
    &&& bytes.len() >= 4
    &&& bytes[0] == 0xA1
    &&& bytes[1] == 0x1C
    &&& bytes[2] == 0xEB
    &&& bytes[3] == 0x0B
}

/// A byte sequence tagged with the format version it is read under.
pub struct VersionedBinary<'a> {
    version: u32,
    binary: &'a [u8],
}

/// A forward-only reader over a byte slice tagged with a format version.
pub struct VersionedCursor<'a> {
    version: u32,
    binary: &'a [u8],
    position: usize,
}

impl<'a> VersionedCursor<'a> {
    #[verifier::type_invariant]
    spec fn in_bounds(self) -> bool {
        self.position <= self.binary@.len()
    }
}

impl<'a> View for VersionedCursor<'a> {
    type V = CursorView;

    closed spec fn view(&self) -> CursorView {
        CursorView { bytes: self.binary@, version: self.version, position: self.position as int }
    }
}

impl<'a> View for VersionedBinary<'a> {
    type V = CursorView;

    closed spec fn view(&self) -> CursorView {
        CursorView { bytes: self.binary@, version: self.version, position: 0 }
    }
}

/// How the state `after` of a reader and the result `r` of a decoding
/// function follow from the state `before` and the outcome `expected` that
/// the format prescribes there: on success the reader has advanced by the
/// length of the item and `r` holds a value whose model is the item; on
/// failure `r` is the prescribed error. The bytes and the version never
/// change.
pub open spec fn decodes<T: DeepView>(
    before: CursorView,
    after: CursorView,
    r: Result<T, PartialVMError>,
    expected: Decoded<T::V>,
) -> bool {
    &&& after.bytes == before.bytes
    &&& after.version == before.version
    &&& 0 <= before.position <= after.position <= after.bytes.len()
    &&& match expected {
        Ok((v, n)) => r is Ok && r->Ok_0.deep_view() == v && after.position == before.position
            + n,
        Err(e) => r == Err::<T, PartialVMError>(e) && e.is_decoder_error(),
    }
}

impl<'a> VersionedCursor<'a> {
    /// Checks the header of `binary` and returns a reader placed behind it.
    pub fn new(binary: &'a [u8], max_version: u32) -> (r: Result<VersionedCursor<'a>, PartialVMError>)
        ensures
            match spec_header(binary@, max_version) {
                Ok((version, n)) => r is Ok && r->Ok_0@ == CursorView::start(binary@, version).skip(
                    n,
                ) && n <= binary@.len(),
                Err(e) => r == Err::<VersionedCursor<'a>, PartialVMError>(e) && e.is_decoder_error(),
            },
    {
        if binary.len() < 4 || binary[0] != 0xA1 || binary[1] != 0x1C || binary[2] != 0xEB
            || binary[3] != 0x0B {
            return Err(PartialVMError::new(StatusCode::BadMagic));
        }
        let mut cursor = VersionedCursor { version: 0, binary, position: MAGIC_SIZE };
        match cursor.read_uleb128_as_u64() {
            None => Err(malformed_error(Message::BadBinaryHeader)),
            Some(version) => {
                if version == 0 || version > max_version as u64 || version > VERSION_MAX as u64 {
                    Err(PartialVMError::new(StatusCode::UnknownVersion))
                } else {
                    cursor.version = version as u32;
                    Ok(cursor)
                }
            },
        }
    }

    /// A reader at the start of `binary`, for a binary of the given version
    /// that has no header.
    pub fn new_for_test(version: u32, binary: &'a [u8]) -> (cursor: VersionedCursor<'a>)
        ensures
            cursor@ == CursorView::start(binary@, version),
    {
        VersionedCursor { version, binary, position: 0 }
    }

    /// The format version that the bytes are read under.
    pub fn version(&self) -> (v: u32)
        ensures
            v == self@.version,
    {
        self.version
    }

    /// The number of bytes consumed so far.
    pub fn position(&self) -> (p: usize)
        ensures
            p == self@.position,
            p <= self@.bytes.len(),
    {
        proof {
            use_type_invariant(self);
        }
        self.position
    }

    /// Whether every byte has been consumed.
    pub fn at_end(&self) -> (b: bool)
        ensures
            b == self@.at_end(),
            0 <= self@.position <= self@.bytes.len(),
    {
        proof {
            use_type_invariant(self);
        }
        self.position >= self.binary.len()
    }

    /// Consumes one byte.
    pub fn read_u8(&mut self) -> (r: Option<u8>)
        ensures
            r == spec_read_u8(old(self)@),
            final(self)@ == old(self)@.skip(if r is Some { 1 } else { 0 }),
            0 <= old(self)@.position,
            final(self)@.position <= final(self)@.bytes.len(),
    {
        proof {
            use_type_invariant(&*self);
        }
        if self.position < self.binary.len() {
            let byte = self.binary[self.position];
            self.position = self.position + 1;
            Some(byte)
        } else {
            None
        }
    }

    /// Consumes `n` bytes, or none where fewer are left.
    pub fn read_exact(&mut self, n: usize) -> (r: Option<Vec<u8>>)
        ensures
            match spec_read_exact(old(self)@, n as nat) {
                Some(s) => r is Some && r->Some_0@ == s && final(self)@ == old(self)@.skip(n as nat),
                None => r is None && final(self)@ == old(self)@,
            },
            0 <= old(self)@.position,
            final(self)@.position <= final(self)@.bytes.len(),
    {
        proof {
            use_type_invariant(&*self);
        }
        if self.position <= self.binary.len() && n <= self.binary.len() - self.position {
            let bytes = slice_to_vec(slice_subrange(self.binary, self.position, self.position + n));
            self.position = self.position + n;
            Some(bytes)
        } else {
            None
        }
    }

    /// Consumes one ULEB128 integer. On failure the reader may have advanced.
    pub fn read_uleb128_as_u64(&mut self) -> (r: Option<u64>)
        ensures
            final(self)@.bytes == old(self)@.bytes,
            final(self)@.version == old(self)@.version,
            0 <= old(self)@.position <= final(self)@.position <= final(self)@.bytes.len(),
            match spec_read_uleb128(old(self)@) {
                Some((v, n)) => r == Some(v) && final(self)@ == old(self)@.skip(n),
                None => r is None,
            },
    {
        let ghost start = self@;
        proof {
            use_type_invariant(&*self);
        }
        let mut value: u64 = 0;
        let mut factor: u64 = 1;
        let mut i: usize = 0;
        while i < 10
            invariant
                i <= 10,
                start == old(self)@,
                self@ == start.skip(i as nat),
                0 <= start.position,
                self@.position <= self@.bytes.len(),
                i < 10 ==> factor == pow128(i as nat),
                i < 10 ==> value < pow128(i as nat),
                spec_read_uleb128(start) == spec_uleb128_from(start, i as nat, value as nat),
            decreases 10 - i,
        {
            let byte = match self.read_u8() {
                Some(byte) => byte,
                None => {
                    return None;
                },
            };
            let low: u64 = (byte % 128) as u64;
            proof {
                lemma_pow128_values();
            }
            if i == 9 && low > 1 {
                assert(low * pow128(9) >= 2 * pow128(9)) by (nonlinear_arith)
                    requires
                        low >= 2,
                ;
                return None;
            }
            assert(low * factor <= 127 * factor && low * factor >= 0) by (nonlinear_arith)
                requires
                    0 <= low <= 127,
                    factor >= 0,
            ;
            assert(i == 9 ==> low * factor <= factor) by (nonlinear_arith)
                requires
                    0 <= low <= 1 || i != 9,
                    factor >= 0,
            ;
            value = value + low * factor;
            if byte < 128 {
                if i > 0 && low == 0 {
                    return None;
                }
                return Some(value);
            }
            i = i + 1;
            if i < 10 {
                factor = factor * 128;
            }
        }
        None
    }

    /// Consumes `n` bytes and returns them as a binary of their own, of the
    /// version of this reader.
    pub fn read_new_binary(&mut self, n: usize) -> (r: Option<VersionedBinary<'a>>)
        ensures
            match spec_read_exact(old(self)@, n as nat) {
                Some(s) => r is Some && r->Some_0@ == CursorView::start(s, old(self)@.version)
                    && final(self)@ == old(self)@.skip(n as nat),
                None => r is None && final(self)@ == old(self)@,
            },
            0 <= old(self)@.position,
            final(self)@.position <= final(self)@.bytes.len(),
    {
        proof {
            use_type_invariant(&*self);
        }
        if self.position <= self.binary.len() && n <= self.binary.len() - self.position {
            let binary = slice_subrange(self.binary, self.position, self.position + n);
            self.position = self.position + n;
            Some(VersionedBinary { version: self.version, binary })
        } else {
            None
        }
    }
}

impl<'a> VersionedBinary<'a> {
    /// The format version that the bytes are read under.
    pub fn version(&self) -> (v: u32)
        ensures
            v == self@.version,
    {
        self.version
    }

    /// The number of bytes.
    pub fn len(&self) -> (n: usize)
        ensures
            n == self@.bytes.len(),
            self@.position == 0,
    {
        self.binary.len()
    }

    /// A reader over the bytes `[start, end)`.
    pub fn new_cursor(&self, start: usize, end: usize) -> (cursor: VersionedCursor<'a>)
        requires
            start <= end <= self@.bytes.len(),
        ensures
            cursor@ == CursorView::window(self@.bytes, self@.version, start as int, end as int),
    {
        VersionedCursor {
            version: self.version,
            binary: slice_subrange(self.binary, start, end),
            position: 0,
        }
    }

    /// The bytes `[start, end)`.
    pub fn slice(&self, start: usize, end: usize) -> (s: &'a [u8])
        requires
            start <= end <= self@.bytes.len(),
        ensures
            s@ == self@.bytes.subrange(start as int, end as int),
    {
        slice_subrange(self.binary, start, end)
    }
}

/// A `Malformed` error with the given context.
pub fn malformed_error(message: Message) -> (e: PartialVMError)
    ensures
        e == malformed(message),
{
    PartialVMError::new(StatusCode::Malformed).with_message(message)
}

} // verus!
