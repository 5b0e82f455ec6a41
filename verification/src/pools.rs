//! The decoders of the pools: signatures, identifiers, address identifiers,
//! constants and metadata.

use vstd::prelude::*;
use crate::constants::{IDENTIFIER_SIZE_MAX, METADATA_KEY_SIZE_MAX, SIGNATURE_SIZE_MAX};
use crate::cursor::{
    decodes, malformed_error, spec_read_exact, CursorView, Decoded, VersionedBinary,
    VersionedCursor,
};
use crate::errors::{malformed, Message, PartialVMError};
use crate::file_format::{
    lemma_empty_deep_view, lemma_push_deep_view, AccountAddress, Constant, ConstantView,
    Identifier, Metadata, MetadataView, Signature, SignatureToken, SignatureTokenView,
    ADDRESS_LENGTH,
};
use crate::file_format_common::{spec_table_window, Table};
use crate::indices::{
    load_constant_size, load_identifier_size, load_metadata_key_size, load_metadata_value_size,
    load_signature_size, spec_load_constant_size, spec_load_identifier_size,
    spec_load_metadata_key_size, spec_load_metadata_value_size, spec_load_signature_size,
};
use crate::primitives::{
    cons_result, spec_extends, lemma_prepend_empty, lemma_prepend_step, lemma_read_uleb, prepend,
};
use crate::signatures::{
    lemma_signature_token_advances, load_signature_token, shift, spec_load_signature_token,
};

verus! {

/// `count` signature tokens, one after the other.
pub open spec fn spec_signature_token_list(c: CursorView, count: nat) -> Decoded<Seq<SignatureTokenView>>
    decreases count,
{
    if count == 0 {
        Ok((Seq::empty(), 0))
    } else {
        match spec_load_signature_token(c) {
            Err(e) => Err(e),
            Ok((x, n)) => cons_result(x, n, spec_signature_token_list(c.skip(n), (count - 1) as nat)),
        }
    }
}

/// A count and that many signature tokens.
pub open spec fn spec_load_signature_tokens(c: CursorView) -> Decoded<Seq<SignatureTokenView>> {
    match spec_load_signature_size(c) {
        Err(e) => Err(e),
        Ok((len, n)) => shift(n, spec_signature_token_list(c.skip(n), len as nat)),
    }
}

/// Reads what [`spec_load_signature_tokens`] describes and leaves the reader behind it.
pub fn load_signature_tokens(cursor: &mut VersionedCursor) -> (r: Result<Vec<SignatureToken>, PartialVMError>)
    ensures
        decodes(old(cursor)@, final(cursor)@, r, spec_load_signature_tokens(old(cursor)@)),
        r is Ok ==> old(cursor)@.position < final(cursor)@.position,
{
    let len = load_signature_size(cursor)?;
    let ghost first = cursor@;
    let ghost n0 = (first.position - old(cursor)@.position) as nat;
    let mut tokens: Vec<SignatureToken> = Vec::new();
    let mut i: u64 = 0;
    proof {
        lemma_empty_deep_view(tokens);
        lemma_prepend_empty(tokens.deep_view(), 0, spec_signature_token_list(first, len as nat));
    }
    while i < len
        invariant
            i <= len,
            first == old(cursor)@.skip(n0),
            spec_load_signature_size(old(cursor)@) == Ok::<(u64, nat), PartialVMError>((len, n0)),
            cursor@.bytes == first.bytes,
            cursor@.version == first.version,
            0 <= first.position <= cursor@.position <= cursor@.bytes.len(),
            spec_signature_token_list(first, len as nat) == prepend(
                tokens.deep_view(),
                (cursor@.position - first.position) as nat,
                spec_signature_token_list(cursor@, (len - i) as nat),
            ),
        decreases len - i,
    {
        let ghost here = cursor@;
        let ghost before = tokens;
        let x = load_signature_token(cursor)?;
        tokens.push(x);
        i = i + 1;
        proof {
            lemma_push_deep_view(before, tokens, tokens@.last());
            lemma_prepend_step(
                before.deep_view(),
                (here.position - first.position) as nat,
                tokens@.last().deep_view(),
                (cursor@.position - here.position) as nat,
                spec_signature_token_list(cursor@, (len - i) as nat),
            );
        }
    }
    proof {
        lemma_prepend_empty(
            tokens.deep_view(),
            (cursor@.position - first.position) as nat,
            spec_signature_token_list(cursor@, 0),
        );
    }
    Ok(tokens)
}

/// The signature at the reader.
pub open spec fn spec_load_signature(c: CursorView) -> Decoded<Seq<SignatureTokenView>> {
    spec_load_signature_tokens(c)
}

/// Reads what [`spec_load_signature`] describes and leaves the reader behind it.
pub fn load_signature(cursor: &mut VersionedCursor) -> (r: Result<Signature, PartialVMError>)
    ensures
        decodes(old(cursor)@, final(cursor)@, r, spec_load_signature(old(cursor)@)),
        r is Ok ==> old(cursor)@.position < final(cursor)@.position,
{
    Ok(Signature(load_signature_tokens(cursor)?))
}

/// A record occupies at least one byte.
pub proof fn lemma_load_signature_advances(c: CursorView)
    ensures
        spec_load_signature(c) matches Ok((_, n)) ==> n >= 1,
{
    lemma_read_uleb(c, SIGNATURE_SIZE_MAX);
}

/// The signatures from the reader to the end of its bytes.
pub open spec fn spec_load_signature_sequence(c: CursorView) -> Decoded<Seq<Seq<SignatureTokenView>>>
    decreases c.left(),
    via spec_load_signature_sequence_decreases
{
    if c.at_end() {
        Ok((Seq::empty(), 0))
    } else {
        match spec_load_signature(c) {
            Err(e) => Err(e),
            Ok((x, n)) => cons_result(x, n, spec_load_signature_sequence(c.skip(n))),
        }
    }
}

#[via_fn]
proof fn spec_load_signature_sequence_decreases(c: CursorView) {
    lemma_load_signature_advances(c);
}

/// The signatures that the table `table` of `binary` holds: its bytes are
/// records from the first to the last.
pub open spec fn spec_load_signatures(binary: CursorView, table: Table) -> Result<
    Seq<Seq<SignatureTokenView>>,
    PartialVMError,
> {
    match spec_load_signature_sequence(spec_table_window(binary, table)) {
        Err(e) => Err(e),
        Ok((items, _)) => Ok(items),
    }
}

/// Decodes the table and appends its signatures to `signatures`. On failure
/// `signatures` holds what it held and the records decoded before the failure.
pub fn load_signatures(binary: &VersionedBinary, table: &Table, signatures: &mut Vec<Signature>) -> (r: Result<
    (),
    PartialVMError,
>)
    requires
        table.offset + table.count <= binary@.bytes.len(),
    ensures
        match spec_load_signatures(binary@, *table) {
            Ok(items) => r is Ok && final(signatures).deep_view() == old(signatures).deep_view() + items,
            Err(e) => r == Err::<(), PartialVMError>(e) && e.is_decoder_error(),
        },
        spec_extends(old(signatures)@, final(signatures)@),
{
    let total = binary.len();
    let start = table.offset as usize;
    let end = start + table.count as usize;
    let mut cursor = binary.new_cursor(start, end);
    let ghost first = cursor@;
    proof {
        assert(first == spec_table_window(binary@, *table));
        lemma_prepend_empty(signatures.deep_view(), 0, spec_load_signature_sequence(first));
        assert(signatures.deep_view() + Seq::<Seq<SignatureTokenView>>::empty() =~= signatures.deep_view());
    }
    while !cursor.at_end()
        invariant
            first == spec_table_window(binary@, *table),
            spec_extends(old(signatures)@, signatures@),
            cursor@.bytes == first.bytes,
            cursor@.version == first.version,
            0 <= cursor@.position <= cursor@.bytes.len(),
            prepend(old(signatures).deep_view(), 0, spec_load_signature_sequence(first)) == prepend(
                signatures.deep_view(),
                cursor@.position as nat,
                spec_load_signature_sequence(cursor@),
            ),
        decreases cursor@.left(),
    {
        let ghost here = cursor@;
        let ghost before = *signatures;
        let x = load_signature(&mut cursor)?;
        signatures.push(x);
        proof {
            lemma_push_deep_view(before, *signatures, signatures@.last());
            lemma_prepend_step(
                before.deep_view(),
                here.position as nat,
                signatures@.last().deep_view(),
                (cursor@.position - here.position) as nat,
                spec_load_signature_sequence(cursor@),
            );
        }
    }
    proof {
        lemma_prepend_empty(
            signatures.deep_view(),
            cursor@.position as nat,
            spec_load_signature_sequence(cursor@),
        );
    }
    Ok(())
}

/// Whether `b` can stand in an identifier: a letter, a digit or an
/// underscore of ASCII.
pub open spec fn spec_is_identifier_char(b: u8) -> bool {
    b == 0x5F || (0x61 <= b <= 0x7A) || (0x41 <= b <= 0x5A) || (0x30 <= b <= 0x39)
}

/// Whether `bytes` is an identifier: a letter, or an underscore and one
/// character more, followed by characters that can stand in an identifier;
/// or the one name `<SELF>`.
pub open spec fn spec_is_valid_identifier(bytes: Seq<u8>) -> bool {
    ||| bytes =~= seq![0x3Cu8, 0x53u8, 0x45u8, 0x4Cu8, 0x46u8, 0x3Eu8]
    ||| {
        &&& bytes.len() >= 1
        &&& ((0x61 <= bytes[0] <= 0x7A) || (0x41 <= bytes[0] <= 0x5A) || (bytes[0] == 0x5F
            && bytes.len() > 1))
        &&& forall|i: int| 1 <= i < bytes.len() ==> spec_is_identifier_char(#[trigger] bytes[i])
    }
}

/// The text that bytes of ASCII stand for.
pub open spec fn spec_ascii_text(bytes: Seq<u8>) -> Seq<char> {
    Seq::new(bytes.len(), |i: int| bytes[i] as char)
}

/// `Identifier::from_utf8` of `move_core_types`, followed by `into_string`.
/// It accepts the bytes exactly where they are valid UTF-8 and their text
/// meets the grammar of identifiers, which only text of ASCII meets, and the
/// identifier then holds that text.
#[verifier::external_body]
fn identifier_from_utf8(bytes: Vec<u8>) -> (r: Option<String>)
    ensures
        r is Some == spec_is_valid_identifier(bytes@),
        r matches Some(s) ==> s@ == spec_ascii_text(bytes@),
{
    match move_core_types::identifier::Identifier::from_utf8(bytes) {
        Ok(identifier) => Some(identifier.into_string()),
        Err(_) => None,
    }
}

/// The identifier at the reader: its length in bytes and its bytes.
pub open spec fn spec_load_identifier(c: CursorView) -> Decoded<Seq<char>> {
    match spec_load_identifier_size(c) {
        Err(e) => Err(e),
        Ok((size, n)) => match spec_read_exact(c.skip(n), size as nat) {
            None => Err(malformed(Message::BadIdentifierPoolSize)),
            Some(bytes) => {
                if spec_is_valid_identifier(bytes) {
                    Ok((spec_ascii_text(bytes), n + size as nat))
                } else {
                    Err(malformed(Message::InvalidIdentifier))
                }
            },
        },
    }
}

/// Reads what [`spec_load_identifier`] describes and leaves the reader behind it.
pub fn load_identifier(cursor: &mut VersionedCursor) -> (r: Result<Identifier, PartialVMError>)
    ensures
        decodes(old(cursor)@, final(cursor)@, r, spec_load_identifier(old(cursor)@)),
        r is Ok ==> old(cursor)@.position < final(cursor)@.position,
{
    let size = load_identifier_size(cursor)?;
    let buffer = match cursor.read_exact(size) {
        Some(buffer) => buffer,
        None => {
            return Err(malformed_error(Message::BadIdentifierPoolSize));
        },
    };
    match identifier_from_utf8(buffer) {
        Some(s) => Ok(Identifier(s)),
        None => Err(malformed_error(Message::InvalidIdentifier)),
    }
}

/// A record occupies at least one byte.
pub proof fn lemma_load_identifier_advances(c: CursorView)
    ensures
        spec_load_identifier(c) matches Ok((_, n)) ==> n >= 1,
{
    lemma_read_uleb(c, IDENTIFIER_SIZE_MAX);
}

/// The identifiers from the reader to the end of its bytes.
pub open spec fn spec_load_identifier_sequence(c: CursorView) -> Decoded<Seq<Seq<char>>>
    decreases c.left(),
    via spec_load_identifier_sequence_decreases
{
    if c.at_end() {
        Ok((Seq::empty(), 0))
    } else {
        match spec_load_identifier(c) {
            Err(e) => Err(e),
            Ok((x, n)) => cons_result(x, n, spec_load_identifier_sequence(c.skip(n))),
        }
    }
}

#[via_fn]
proof fn spec_load_identifier_sequence_decreases(c: CursorView) {
    lemma_load_identifier_advances(c);
}

/// The identifiers that the table `table` of `binary` holds: its bytes are
/// records from the first to the last.
pub open spec fn spec_load_identifiers(binary: CursorView, table: Table) -> Result<
    Seq<Seq<char>>,
    PartialVMError,
> {
    match spec_load_identifier_sequence(spec_table_window(binary, table)) {
        Err(e) => Err(e),
        Ok((items, _)) => Ok(items),
    }
}

/// Decodes the table and appends its identifiers to `identifiers`. On failure
/// `identifiers` holds what it held and the records decoded before the failure.
pub fn load_identifiers(binary: &VersionedBinary, table: &Table, identifiers: &mut Vec<Identifier>) -> (r: Result<
    (),
    PartialVMError,
>)
    requires
        table.offset + table.count <= binary@.bytes.len(),
    ensures
        match spec_load_identifiers(binary@, *table) {
            Ok(items) => r is Ok && final(identifiers).deep_view() == old(identifiers).deep_view() + items,
            Err(e) => r == Err::<(), PartialVMError>(e) && e.is_decoder_error(),
        },
        spec_extends(old(identifiers)@, final(identifiers)@),
{
    let total = binary.len();
    let start = table.offset as usize;
    let end = start + table.count as usize;
    let mut cursor = binary.new_cursor(start, end);
    let ghost first = cursor@;
    proof {
        assert(first == spec_table_window(binary@, *table));
        lemma_prepend_empty(identifiers.deep_view(), 0, spec_load_identifier_sequence(first));
        assert(identifiers.deep_view() + Seq::<Seq<char>>::empty() =~= identifiers.deep_view());
    }
    while !cursor.at_end()
        invariant
            first == spec_table_window(binary@, *table),
            spec_extends(old(identifiers)@, identifiers@),
            cursor@.bytes == first.bytes,
            cursor@.version == first.version,
            0 <= cursor@.position <= cursor@.bytes.len(),
            prepend(old(identifiers).deep_view(), 0, spec_load_identifier_sequence(first)) == prepend(
                identifiers.deep_view(),
                cursor@.position as nat,
                spec_load_identifier_sequence(cursor@),
            ),
        decreases cursor@.left(),
    {
        let ghost here = cursor@;
        let ghost before = *identifiers;
        let x = load_identifier(&mut cursor)?;
        identifiers.push(x);
        proof {
            lemma_push_deep_view(before, *identifiers, identifiers@.last());
            lemma_prepend_step(
                before.deep_view(),
                here.position as nat,
                identifiers@.last().deep_view(),
                (cursor@.position - here.position) as nat,
                spec_load_identifier_sequence(cursor@),
            );
        }
    }
    proof {
        lemma_prepend_empty(
            identifiers.deep_view(),
            cursor@.position as nat,
            spec_load_identifier_sequence(cursor@),
        );
    }
    Ok(())
}

/// `AccountAddress::try_from` of `move_core_types` on a byte slice, followed
/// by `into_bytes`. It accepts exactly the slices of the length of an
/// address, and the address then holds the bytes of the slice.
#[verifier::external_body]
fn account_address_from_slice(bytes: &[u8]) -> (r: Option<[u8; 16]>)
    ensures
        r is Some == (bytes@.len() == ADDRESS_LENGTH),
        r matches Some(a) ==> a@ == bytes@,
{
    match move_core_types::account_address::AccountAddress::try_from(bytes) {
        Ok(address) => Some(address.into_bytes()),
        Err(_) => None,
    }
}

/// The addresses that the table `table` of `binary` holds: its bytes, cut
/// into pieces of the length of an address. A table of another length is an
/// error.
pub open spec fn spec_load_address_identifiers(binary: CursorView, table: Table) -> Result<
    Seq<Seq<u8>>,
    PartialVMError,
> {
    if table.count as int % ADDRESS_LENGTH as int != 0 {
        Err(malformed(Message::BadAddressIdentifierPoolSize))
    } else {
        Ok(
            Seq::new(
                (table.count as int / ADDRESS_LENGTH as int) as nat,
                |i: int|
                    binary.bytes.subrange(
                        table.offset + ADDRESS_LENGTH * i,
                        table.offset + ADDRESS_LENGTH * i + ADDRESS_LENGTH,
                    ),
            ),
        )
    }
}

/// Decodes the table and appends its addresses to `addresses`. On failure
/// `addresses` is left as it was.
pub fn load_address_identifiers(
    binary: &VersionedBinary,
    table: &Table,
    addresses: &mut Vec<AccountAddress>,
) -> (r: Result<(), PartialVMError>)
    requires
        table.offset + table.count <= binary@.bytes.len(),
    ensures
        match spec_load_address_identifiers(binary@, *table) {
            Ok(items) => r is Ok && final(addresses).deep_view() == old(addresses).deep_view()
                + items,
            Err(e) => r == Err::<(), PartialVMError>(e) && e.is_decoder_error()
                && final(addresses)@ == old(addresses)@,
        },
        spec_extends(old(addresses)@, final(addresses)@),
{
    let total = binary.len();
    let mut start = table.offset as usize;
    if table.count as usize % ADDRESS_LENGTH != 0 {
        return Err(malformed_error(Message::BadAddressIdentifierPoolSize));
    }
    let count = table.count as usize / ADDRESS_LENGTH;
    let ghost items = spec_load_address_identifiers(binary@, *table)->Ok_0;
    let mut i: usize = 0;
    proof {
        assert(addresses.deep_view() =~= old(addresses).deep_view() + items.subrange(0, 0));
    }
    while i < count
        invariant
            i <= count,
            spec_extends(old(addresses)@, addresses@),
            count == table.count as usize / ADDRESS_LENGTH,
            table.count as int % ADDRESS_LENGTH as int == 0,
            table.offset + table.count <= binary@.bytes.len(),
            binary@.bytes.len() == total,
            start == table.offset + ADDRESS_LENGTH * i,
            spec_load_address_identifiers(binary@, *table) == Ok::<Seq<Seq<u8>>, PartialVMError>(
                items,
            ),
            addresses.deep_view() == old(addresses).deep_view() + items.subrange(0, i as int),
        decreases count - i,
    {
        let end_addr = start + ADDRESS_LENGTH;
        let address = match account_address_from_slice(binary.slice(start, end_addr)) {
            Some(address) => address,
            None => {
                return Err(malformed_error(Message::InvalidAddressFormat));
            },
        };
        start = end_addr;
        let ghost before = *addresses;
        addresses.push(AccountAddress(address));
        proof {
            lemma_push_deep_view(before, *addresses, addresses@.last());
            assert(items.subrange(0, i as int).push(items[i as int]) =~= items.subrange(
                0,
                i + 1,
            ));
            assert(addresses.deep_view() =~= old(addresses).deep_view() + items.subrange(
                0,
                i + 1,
            ));
        }
        i = i + 1;
    }
    proof {
        assert(items.subrange(0, i as int) =~= items);
    }
    Ok(())
}

/// `size` bytes at the reader.
pub open spec fn spec_load_byte_blob(c: CursorView, size: nat) -> Decoded<Seq<u8>> {
    match spec_read_exact(c, size) {
        None => Err(malformed(Message::BadByteBlobSize)),
        Some(bytes) => Ok((bytes, size)),
    }
}

/// Reads `size` bytes.
pub fn load_byte_blob(cursor: &mut VersionedCursor, size: usize) -> (r: Result<
    Vec<u8>,
    PartialVMError,
>)
    ensures
        final(cursor)@.bytes == old(cursor)@.bytes,
        final(cursor)@.version == old(cursor)@.version,
        0 <= old(cursor)@.position <= final(cursor)@.position <= final(cursor)@.bytes.len(),
        match spec_load_byte_blob(old(cursor)@, size as nat) {
            Ok((bytes, n)) => r is Ok && r->Ok_0@ == bytes && final(cursor)@.position == old(
                cursor,
            )@.position + n,
            Err(e) => r == Err::<Vec<u8>, PartialVMError>(e) && e.is_decoder_error(),
        },
{
    match cursor.read_exact(size) {
        Some(data) => Ok(data),
        None => Err(malformed_error(Message::BadByteBlobSize)),
    }
}

/// The constant at the reader: its type, the length of its value in bytes,
/// and its value.
pub open spec fn spec_load_constant(c: CursorView) -> Decoded<ConstantView> {
    match spec_load_signature_token(c) {
        Err(e) => Err(e),
        Ok((type_, n)) => match spec_load_constant_size(c.skip(n)) {
            Err(e) => Err(e),
            Ok((size, m)) => match spec_load_byte_blob(c.skip(n + m), size as nat) {
                Err(e) => Err(e),
                Ok((data, k)) => Ok((ConstantView { type_, data }, n + m + k)),
            },
        },
    }
}

/// Reads what [`spec_load_constant`] describes and leaves the reader behind it.
pub fn load_constant(cursor: &mut VersionedCursor) -> (r: Result<Constant, PartialVMError>)
    ensures
        decodes(old(cursor)@, final(cursor)@, r, spec_load_constant(old(cursor)@)),
        r is Ok ==> old(cursor)@.position < final(cursor)@.position,
{
    let type_ = load_signature_token(cursor)?;
    let size = load_constant_size(cursor)?;
    let data = load_byte_blob(cursor, size)?;
    Ok(Constant { type_, data })
}

/// A record occupies at least one byte.
pub proof fn lemma_load_constant_advances(c: CursorView)
    ensures
        spec_load_constant(c) matches Ok((_, n)) ==> n >= 1,
{
    lemma_signature_token_advances(c, 1);
}

/// The constants from the reader to the end of its bytes.
pub open spec fn spec_load_constant_sequence(c: CursorView) -> Decoded<Seq<ConstantView>>
    decreases c.left(),
    via spec_load_constant_sequence_decreases
{
    if c.at_end() {
        Ok((Seq::empty(), 0))
    } else {
        match spec_load_constant(c) {
            Err(e) => Err(e),
            Ok((x, n)) => cons_result(x, n, spec_load_constant_sequence(c.skip(n))),
        }
    }
}

#[via_fn]
proof fn spec_load_constant_sequence_decreases(c: CursorView) {
    lemma_load_constant_advances(c);
}

/// The constants that the table `table` of `binary` holds: its bytes are
/// records from the first to the last.
pub open spec fn spec_load_constant_pool(binary: CursorView, table: Table) -> Result<
    Seq<ConstantView>,
    PartialVMError,
> {
    match spec_load_constant_sequence(spec_table_window(binary, table)) {
        Err(e) => Err(e),
        Ok((items, _)) => Ok(items),
    }
}

/// Decodes the table and appends its constants to `constants`. On failure
/// `constants` holds what it held and the records decoded before the failure.
pub fn load_constant_pool(binary: &VersionedBinary, table: &Table, constants: &mut Vec<Constant>) -> (r: Result<
    (),
    PartialVMError,
>)
    requires
        table.offset + table.count <= binary@.bytes.len(),
    ensures
        match spec_load_constant_pool(binary@, *table) {
            Ok(items) => r is Ok && final(constants).deep_view() == old(constants).deep_view() + items,
            Err(e) => r == Err::<(), PartialVMError>(e) && e.is_decoder_error(),
        },
        spec_extends(old(constants)@, final(constants)@),
{
    let total = binary.len();
    let start = table.offset as usize;
    let end = start + table.count as usize;
    let mut cursor = binary.new_cursor(start, end);
    let ghost first = cursor@;
    proof {
        assert(first == spec_table_window(binary@, *table));
        lemma_prepend_empty(constants.deep_view(), 0, spec_load_constant_sequence(first));
        assert(constants.deep_view() + Seq::<ConstantView>::empty() =~= constants.deep_view());
    }
    while !cursor.at_end()
        invariant
            first == spec_table_window(binary@, *table),
            spec_extends(old(constants)@, constants@),
            cursor@.bytes == first.bytes,
            cursor@.version == first.version,
            0 <= cursor@.position <= cursor@.bytes.len(),
            prepend(old(constants).deep_view(), 0, spec_load_constant_sequence(first)) == prepend(
                constants.deep_view(),
                cursor@.position as nat,
                spec_load_constant_sequence(cursor@),
            ),
        decreases cursor@.left(),
    {
        let ghost here = cursor@;
        let ghost before = *constants;
        let x = load_constant(&mut cursor)?;
        constants.push(x);
        proof {
            lemma_push_deep_view(before, *constants, constants@.last());
            lemma_prepend_step(
                before.deep_view(),
                here.position as nat,
                constants@.last().deep_view(),
                (cursor@.position - here.position) as nat,
                spec_load_constant_sequence(cursor@),
            );
        }
    }
    proof {
        lemma_prepend_empty(
            constants.deep_view(),
            cursor@.position as nat,
            spec_load_constant_sequence(cursor@),
        );
    }
    Ok(())
}

/// The metadata entry at the reader: the length of its key and its key, the
/// length of its value and its value.
pub open spec fn spec_load_metadata_entry(c: CursorView) -> Decoded<MetadataView> {
    match spec_load_metadata_key_size(c) {
        Err(e) => Err(e),
        Ok((key_size, n)) => match spec_load_byte_blob(c.skip(n), key_size as nat) {
            Err(e) => Err(e),
            Ok((key, m)) => match spec_load_metadata_value_size(c.skip(n + m)) {
                Err(e) => Err(e),
                Ok((value_size, k)) => match spec_load_byte_blob(
                    c.skip(n + m + k),
                    value_size as nat,
                ) {
                    Err(e) => Err(e),
                    Ok((value, j)) => Ok((MetadataView { key, value }, n + m + k + j)),
                },
            },
        },
    }
}

/// Reads what [`spec_load_metadata_entry`] describes and leaves the reader behind it.
pub fn load_metadata_entry(cursor: &mut VersionedCursor) -> (r: Result<Metadata, PartialVMError>)
    ensures
        decodes(old(cursor)@, final(cursor)@, r, spec_load_metadata_entry(old(cursor)@)),
        r is Ok ==> old(cursor)@.position < final(cursor)@.position,
{
    let key_size = load_metadata_key_size(cursor)?;
    let key = load_byte_blob(cursor, key_size)?;
    let value_size = load_metadata_value_size(cursor)?;
    let value = load_byte_blob(cursor, value_size)?;
    Ok(Metadata { key, value })
}

/// A record occupies at least one byte.
pub proof fn lemma_load_metadata_entry_advances(c: CursorView)
    ensures
        spec_load_metadata_entry(c) matches Ok((_, n)) ==> n >= 1,
{
    lemma_read_uleb(c, METADATA_KEY_SIZE_MAX);
}

/// The metadata entries from the reader to the end of its bytes.
pub open spec fn spec_load_metadata_entry_sequence(c: CursorView) -> Decoded<Seq<MetadataView>>
    decreases c.left(),
    via spec_load_metadata_entry_sequence_decreases
{
    if c.at_end() {
        Ok((Seq::empty(), 0))
    } else {
        match spec_load_metadata_entry(c) {
            Err(e) => Err(e),
            Ok((x, n)) => cons_result(x, n, spec_load_metadata_entry_sequence(c.skip(n))),
        }
    }
}

#[via_fn]
proof fn spec_load_metadata_entry_sequence_decreases(c: CursorView) {
    lemma_load_metadata_entry_advances(c);
}

/// The metadata entries that the table `table` of `binary` holds: its bytes are
/// records from the first to the last.
pub open spec fn spec_load_metadata(binary: CursorView, table: Table) -> Result<
    Seq<MetadataView>,
    PartialVMError,
> {
    match spec_load_metadata_entry_sequence(spec_table_window(binary, table)) {
        Err(e) => Err(e),
        Ok((items, _)) => Ok(items),
    }
}

/// Decodes the table and appends its metadata entries to `metadata`. On failure
/// `metadata` holds what it held and the records decoded before the failure.
pub fn load_metadata(binary: &VersionedBinary, table: &Table, metadata: &mut Vec<Metadata>) -> (r: Result<
    (),
    PartialVMError,
>)
    requires
        table.offset + table.count <= binary@.bytes.len(),
    ensures
        match spec_load_metadata(binary@, *table) {
            Ok(items) => r is Ok && final(metadata).deep_view() == old(metadata).deep_view() + items,
            Err(e) => r == Err::<(), PartialVMError>(e) && e.is_decoder_error(),
        },
        spec_extends(old(metadata)@, final(metadata)@),
{
    let total = binary.len();
    let start = table.offset as usize;
    let end = start + table.count as usize;
    let mut cursor = binary.new_cursor(start, end);
    let ghost first = cursor@;
    proof {
        assert(first == spec_table_window(binary@, *table));
        lemma_prepend_empty(metadata.deep_view(), 0, spec_load_metadata_entry_sequence(first));
        assert(metadata.deep_view() + Seq::<MetadataView>::empty() =~= metadata.deep_view());
    }
    while !cursor.at_end()
        invariant
            first == spec_table_window(binary@, *table),
            spec_extends(old(metadata)@, metadata@),
            cursor@.bytes == first.bytes,
            cursor@.version == first.version,
            0 <= cursor@.position <= cursor@.bytes.len(),
            prepend(old(metadata).deep_view(), 0, spec_load_metadata_entry_sequence(first)) == prepend(
                metadata.deep_view(),
                cursor@.position as nat,
                spec_load_metadata_entry_sequence(cursor@),
            ),
        decreases cursor@.left(),
    {
        let ghost here = cursor@;
        let ghost before = *metadata;
        let x = load_metadata_entry(&mut cursor)?;
        metadata.push(x);
        proof {
            lemma_push_deep_view(before, *metadata, metadata@.last());
            lemma_prepend_step(
                before.deep_view(),
                here.position as nat,
                metadata@.last().deep_view(),
                (cursor@.position - here.position) as nat,
                spec_load_metadata_entry_sequence(cursor@),
            );
        }
    }
    proof {
        lemma_prepend_empty(
            metadata.deep_view(),
            cursor@.position as nat,
            spec_load_metadata_entry_sequence(cursor@),
        );
    }
    Ok(())
}

} // verus!
