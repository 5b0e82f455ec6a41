//! The bytes that stand for the pools of a binary of each version of the
//! format, and the law that decoding them gives the records back.

use vstd::prelude::*;
use crate::constants::{
    CONSTANT_SIZE_MAX, IDENTIFIER_SIZE_MAX, METADATA_KEY_SIZE_MAX, METADATA_VALUE_SIZE_MAX,
    SIGNATURE_SIZE_MAX, SIGNATURE_TOKEN_DEPTH_MAX,
};
use crate::cursor::CursorView;
use crate::encoding::{
    lemma_bounded_uleb128_round_trip, lemma_holds_exact, lemma_holds_split, lemma_token_round_trip,
    spec_encodable_token, spec_holds, spec_token_bytes, spec_token_in_version, spec_uleb128_bytes,
};
use crate::errors::PartialVMError;
use crate::file_format::{ConstantView, MetadataView, SignatureTokenView, ADDRESS_LENGTH};
use crate::file_format_common::Table;
use crate::pools::{
    lemma_load_constant_advances, lemma_load_identifier_advances,
    lemma_load_metadata_entry_advances, lemma_load_signature_advances, spec_ascii_text,
    spec_is_valid_identifier, spec_load_address_identifiers, spec_load_byte_blob,
    spec_load_constant, spec_load_constant_sequence, spec_load_identifier,
    spec_load_identifier_sequence, spec_load_metadata_entry, spec_load_metadata_entry_sequence,
    spec_load_signature, spec_load_signature_sequence, spec_load_signature_tokens,
    spec_signature_token_list,
};

verus! {

/// Whether the token can be written at the root of a tree in a binary of
/// the version: its nesting depth is at most the maximum, each generic
/// struct in it has type arguments, no more than the maximum, and the
/// version has its types.
pub open spec fn spec_encodable_root_token(version: u32, token: SignatureTokenView) -> bool {
    &&& spec_encodable_token(token)
    &&& token.depth() <= SIGNATURE_TOKEN_DEPTH_MAX
    &&& spec_token_in_version(token, version)
}

/// The bytes of a token at the root of a tree.
pub open spec fn spec_root_token_bytes(token: SignatureTokenView) -> Seq<u8> {
    spec_token_bytes(token)
}

/// Decoding the bytes of a token at the root of a tree gives the token.
pub proof fn lemma_root_token_round_trip(c: CursorView, token: SignatureTokenView)
    requires
        spec_holds(c, spec_root_token_bytes(token)),
        spec_encodable_root_token(c.version, token),
    ensures
        crate::signatures::spec_load_signature_token(c) == Ok::<
            (SignatureTokenView, nat),
            PartialVMError,
        >((token, spec_root_token_bytes(token).len())),
{
    lemma_token_round_trip(c, token, 1);
}

/// The bytes of a blob.
pub open spec fn spec_blob_bytes(data: Seq<u8>) -> Seq<u8> {
    data
}

/// Decoding the bytes of a blob gives the blob.
pub proof fn lemma_blob_round_trip(c: CursorView, data: Seq<u8>)
    requires
        spec_holds(c, data),
    ensures
        spec_load_byte_blob(c, data.len()) == Ok::<(Seq<u8>, nat), PartialVMError>(
            (data, data.len()),
        ),
{
    lemma_holds_exact(c, data);
}

/// The bytes of signature tokens that stand one behind the other.
pub open spec fn spec_signature_list_bytes(items: Seq<SignatureTokenView>) -> Seq<u8>
    decreases items.len(),
{
    if items.len() == 0 {
        Seq::empty()
    } else {
        spec_root_token_bytes(items[0]) + spec_signature_list_bytes(items.subrange(1, items.len() as int))
    }
}

/// The bytes of a list of signature tokens: their number and then each of them.
pub open spec fn spec_signature_bytes(items: Seq<SignatureTokenView>) -> Seq<u8> {
    spec_uleb128_bytes(items.len()) + spec_signature_list_bytes(items)
}

proof fn lemma_signature_list_round_trip(c: CursorView, items: Seq<SignatureTokenView>)
    requires
        spec_holds(c, spec_signature_list_bytes(items)),
        forall|i: int| 0 <= i < items.len() ==> spec_encodable_root_token(c.version, (#[trigger] items[i])),
    ensures
        spec_signature_token_list(c, items.len()) == Ok::<(Seq<SignatureTokenView>, nat), PartialVMError>(
            (items, spec_signature_list_bytes(items).len()),
        ),
    decreases items.len(),
{
    if items.len() == 0 {
        assert(items =~= Seq::<SignatureTokenView>::empty());
    } else {
        let first = spec_root_token_bytes(items[0]);
        let tail = items.subrange(1, items.len() as int);
        lemma_holds_split(c, first, spec_signature_list_bytes(tail));
        lemma_root_token_round_trip(c, items[0]);
        assert forall|i: int| 0 <= i < tail.len() implies spec_encodable_root_token(c.version, (#[trigger] tail[i])) by {
            assert(tail[i] == items[i + 1]);
        }
        lemma_signature_list_round_trip(c.skip(first.len()), tail);
        assert(seq![items[0]] + tail =~= items);
    }
}

/// Decoding the bytes of a list of signature tokens gives the list.
pub proof fn lemma_signature_round_trip(c: CursorView, items: Seq<SignatureTokenView>)
    requires
        spec_holds(c, spec_signature_bytes(items)),
        items.len() <= SIGNATURE_SIZE_MAX,
        forall|i: int| 0 <= i < items.len() ==> spec_encodable_root_token(c.version, (#[trigger] items[i])),
    ensures
        spec_load_signature_tokens(c) == Ok::<(Seq<SignatureTokenView>, nat), PartialVMError>(
            (items, spec_signature_bytes(items).len()),
        ),
{
    let count = spec_uleb128_bytes(items.len());
    lemma_holds_split(c, count, spec_signature_list_bytes(items));
    lemma_bounded_uleb128_round_trip(c, items.len() as u64, SIGNATURE_SIZE_MAX);
    lemma_signature_list_round_trip(c.skip(count.len()), items);
}

/// Whether the signature can be written.
pub open spec fn spec_encodable_signature(version: u32, signature: Seq<SignatureTokenView>) -> bool {
    &&& signature.len() <= SIGNATURE_SIZE_MAX
    &&& forall|i: int|
        0 <= i < signature.len() ==> spec_encodable_root_token(version, #[trigger] signature[i])
}

/// The bytes of an entry of the signature pool.
pub open spec fn spec_pooled_signature_bytes(signature: Seq<SignatureTokenView>) -> Seq<u8> {
    spec_signature_bytes(signature)
}

/// Decoding the bytes of an entry of the signature pool gives the
/// signature.
pub proof fn lemma_pooled_signature_round_trip(c: CursorView, signature: Seq<SignatureTokenView>)
    requires
        spec_holds(c, spec_pooled_signature_bytes(signature)),
        spec_encodable_signature(c.version, signature),
    ensures
        spec_load_signature(c) == Ok::<(Seq<SignatureTokenView>, nat), PartialVMError>(
            (signature, spec_pooled_signature_bytes(signature).len()),
        ),
{
    lemma_signature_round_trip(c, signature);
}

/// The bytes of a table of signatures: the records, one behind the other.
pub open spec fn spec_signature_table_bytes(items: Seq<Seq<SignatureTokenView>>) -> Seq<u8>
    decreases items.len(),
{
    if items.len() == 0 {
        Seq::empty()
    } else {
        spec_pooled_signature_bytes(items[0]) + spec_signature_table_bytes(items.subrange(1, items.len() as int))
    }
}

/// Decoding the bytes of a table of signatures up to the end of the table gives
/// the records.
pub proof fn lemma_signature_table_round_trip(c: CursorView, items: Seq<Seq<SignatureTokenView>>)
    requires
        spec_holds(c, spec_signature_table_bytes(items)),
        c.position + spec_signature_table_bytes(items).len() == c.bytes.len(),
        forall|i: int| 0 <= i < items.len() ==> spec_encodable_signature(c.version, (#[trigger] items[i])),
    ensures
        spec_load_signature_sequence(c) == Ok::<(Seq<Seq<SignatureTokenView>>, nat), PartialVMError>(
            (items, spec_signature_table_bytes(items).len()),
        ),
    decreases items.len(),
{
    if items.len() == 0 {
        assert(items =~= Seq::<Seq<SignatureTokenView>>::empty());
    } else {
        let first = spec_pooled_signature_bytes(items[0]);
        let tail = items.subrange(1, items.len() as int);
        lemma_holds_split(c, first, spec_signature_table_bytes(tail));
        lemma_pooled_signature_round_trip(c, items[0]);
        lemma_load_signature_advances(c);
        assert forall|i: int| 0 <= i < tail.len() implies spec_encodable_signature(c.version, (#[trigger] tail[i])) by {
            assert(tail[i] == items[i + 1]);
        }
        lemma_signature_table_round_trip(c.skip(first.len()), tail);
        assert(seq![items[0]] + tail =~= items);
    }
}

/// The bytes of a constant: its type, the length of its value and its value.
pub open spec fn spec_constant_bytes(constant: ConstantView) -> Seq<u8> {
    spec_root_token_bytes(constant.type_) + (spec_uleb128_bytes(constant.data.len() as nat) + (spec_blob_bytes(constant.data)))
}

/// Decoding the bytes of a constant gives the constant.
pub proof fn lemma_constant_round_trip(c: CursorView, constant: ConstantView)
    requires
        spec_holds(c, spec_constant_bytes(constant)),
        spec_encodable_root_token(c.version, constant.type_),
        constant.data.len() <= CONSTANT_SIZE_MAX,
    ensures
        spec_load_constant(c) == Ok::<(ConstantView, nat), PartialVMError>(
            (constant, spec_constant_bytes(constant).len()),
        ),
{
    let c0 = c;
    let b0 = spec_root_token_bytes(constant.type_);
    let b1 = spec_uleb128_bytes(constant.data.len() as nat);
    let b2 = spec_blob_bytes(constant.data);
    lemma_holds_split(c0, b0, b1 + (b2));
    lemma_root_token_round_trip(c0, constant.type_);
    let c1 = c.skip(b0.len());
    assert(c0.skip(b0.len()) == c1);
    lemma_holds_split(c1, b1, b2);
    lemma_bounded_uleb128_round_trip(c1, constant.data.len() as u64, CONSTANT_SIZE_MAX);
    let c2 = c.skip(b0.len() + b1.len());
    assert(c1.skip(b1.len()) == c2);
    lemma_blob_round_trip(c2, constant.data);
}

/// The bytes of a table of constants: the records, one behind the other.
pub open spec fn spec_constant_table_bytes(items: Seq<ConstantView>) -> Seq<u8>
    decreases items.len(),
{
    if items.len() == 0 {
        Seq::empty()
    } else {
        spec_constant_bytes(items[0]) + spec_constant_table_bytes(items.subrange(1, items.len() as int))
    }
}

/// Decoding the bytes of a table of constants up to the end of the table gives
/// the records.
pub proof fn lemma_constant_table_round_trip(c: CursorView, items: Seq<ConstantView>)
    requires
        spec_holds(c, spec_constant_table_bytes(items)),
        c.position + spec_constant_table_bytes(items).len() == c.bytes.len(),
        forall|i: int| 0 <= i < items.len() ==> spec_encodable_root_token(c.version, (#[trigger] items[i]).type_) && items[i].data.len() <= CONSTANT_SIZE_MAX,
    ensures
        spec_load_constant_sequence(c) == Ok::<(Seq<ConstantView>, nat), PartialVMError>(
            (items, spec_constant_table_bytes(items).len()),
        ),
    decreases items.len(),
{
    if items.len() == 0 {
        assert(items =~= Seq::<ConstantView>::empty());
    } else {
        let first = spec_constant_bytes(items[0]);
        let tail = items.subrange(1, items.len() as int);
        lemma_holds_split(c, first, spec_constant_table_bytes(tail));
        lemma_constant_round_trip(c, items[0]);
        lemma_load_constant_advances(c);
        assert forall|i: int| 0 <= i < tail.len() implies spec_encodable_root_token(c.version, (#[trigger] tail[i]).type_) && tail[i].data.len() <= CONSTANT_SIZE_MAX by {
            assert(tail[i] == items[i + 1]);
        }
        lemma_constant_table_round_trip(c.skip(first.len()), tail);
        assert(seq![items[0]] + tail =~= items);
    }
}

/// The bytes of a metadata entry: the length of its key and its key, the
/// length of its value and its value.
pub open spec fn spec_metadata_entry_bytes(entry: MetadataView) -> Seq<u8> {
    spec_uleb128_bytes(entry.key.len() as nat) + (spec_blob_bytes(entry.key) + (spec_uleb128_bytes(entry.value.len() as nat) + (spec_blob_bytes(entry.value))))
}

/// Decoding the bytes of a metadata entry gives the entry.
pub proof fn lemma_metadata_entry_round_trip(c: CursorView, entry: MetadataView)
    requires
        spec_holds(c, spec_metadata_entry_bytes(entry)),
        entry.key.len() <= METADATA_KEY_SIZE_MAX,
        entry.value.len() <= METADATA_VALUE_SIZE_MAX,
    ensures
        spec_load_metadata_entry(c) == Ok::<(MetadataView, nat), PartialVMError>(
            (entry, spec_metadata_entry_bytes(entry).len()),
        ),
{
    let c0 = c;
    let b0 = spec_uleb128_bytes(entry.key.len() as nat);
    let b1 = spec_blob_bytes(entry.key);
    let b2 = spec_uleb128_bytes(entry.value.len() as nat);
    let b3 = spec_blob_bytes(entry.value);
    lemma_holds_split(c0, b0, b1 + (b2 + (b3)));
    lemma_bounded_uleb128_round_trip(c0, entry.key.len() as u64, METADATA_KEY_SIZE_MAX);
    let c1 = c.skip(b0.len());
    assert(c0.skip(b0.len()) == c1);
    lemma_holds_split(c1, b1, b2 + (b3));
    lemma_blob_round_trip(c1, entry.key);
    let c2 = c.skip(b0.len() + b1.len());
    assert(c1.skip(b1.len()) == c2);
    lemma_holds_split(c2, b2, b3);
    lemma_bounded_uleb128_round_trip(c2, entry.value.len() as u64, METADATA_VALUE_SIZE_MAX);
    let c3 = c.skip(b0.len() + b1.len() + b2.len());
    assert(c2.skip(b2.len()) == c3);
    lemma_blob_round_trip(c3, entry.value);
}

/// The bytes of a table of metadata entries: the records, one behind the other.
pub open spec fn spec_metadata_entry_table_bytes(items: Seq<MetadataView>) -> Seq<u8>
    decreases items.len(),
{
    if items.len() == 0 {
        Seq::empty()
    } else {
        spec_metadata_entry_bytes(items[0]) + spec_metadata_entry_table_bytes(items.subrange(1, items.len() as int))
    }
}

/// Decoding the bytes of a table of metadata entries up to the end of the table gives
/// the records.
pub proof fn lemma_metadata_entry_table_round_trip(c: CursorView, items: Seq<MetadataView>)
    requires
        spec_holds(c, spec_metadata_entry_table_bytes(items)),
        c.position + spec_metadata_entry_table_bytes(items).len() == c.bytes.len(),
        forall|i: int| 0 <= i < items.len() ==> (#[trigger] items[i]).key.len() <= METADATA_KEY_SIZE_MAX && items[i].value.len() <= METADATA_VALUE_SIZE_MAX,
    ensures
        spec_load_metadata_entry_sequence(c) == Ok::<(Seq<MetadataView>, nat), PartialVMError>(
            (items, spec_metadata_entry_table_bytes(items).len()),
        ),
    decreases items.len(),
{
    if items.len() == 0 {
        assert(items =~= Seq::<MetadataView>::empty());
    } else {
        let first = spec_metadata_entry_bytes(items[0]);
        let tail = items.subrange(1, items.len() as int);
        lemma_holds_split(c, first, spec_metadata_entry_table_bytes(tail));
        lemma_metadata_entry_round_trip(c, items[0]);
        lemma_load_metadata_entry_advances(c);
        assert forall|i: int| 0 <= i < tail.len() implies (#[trigger] tail[i]).key.len() <= METADATA_KEY_SIZE_MAX && tail[i].value.len() <= METADATA_VALUE_SIZE_MAX by {
            assert(tail[i] == items[i + 1]);
        }
        lemma_metadata_entry_table_round_trip(c.skip(first.len()), tail);
        assert(seq![items[0]] + tail =~= items);
    }
}

/// The bytes of the characters of a text of ASCII.
pub open spec fn spec_text_bytes(text: Seq<char>) -> Seq<u8> {
    Seq::new(text.len(), |i: int| text[i] as u8)
}

/// Whether the text is that of an identifier that can be written.
pub open spec fn spec_encodable_identifier(text: Seq<char>) -> bool {
    &&& text.len() <= IDENTIFIER_SIZE_MAX
    &&& spec_is_valid_identifier(spec_text_bytes(text))
    &&& spec_ascii_text(spec_text_bytes(text)) == text
}

/// The bytes of an identifier: its length and its characters.
pub open spec fn spec_identifier_bytes(text: Seq<char>) -> Seq<u8> {
    spec_uleb128_bytes(text.len()) + spec_text_bytes(text)
}

/// Decoding the bytes of an identifier gives the identifier.
pub proof fn lemma_identifier_round_trip(c: CursorView, text: Seq<char>)
    requires
        spec_holds(c, spec_identifier_bytes(text)),
        spec_encodable_identifier(text),
    ensures
        spec_load_identifier(c) == Ok::<(Seq<char>, nat), PartialVMError>(
            (text, spec_identifier_bytes(text).len()),
        ),
{
    let size = spec_uleb128_bytes(text.len());
    lemma_holds_split(c, size, spec_text_bytes(text));
    lemma_bounded_uleb128_round_trip(c, text.len() as u64, IDENTIFIER_SIZE_MAX);
    lemma_holds_exact(c.skip(size.len()), spec_text_bytes(text));
}

/// The bytes of a table of identifiers: the records, one behind the other.
pub open spec fn spec_identifier_table_bytes(items: Seq<Seq<char>>) -> Seq<u8>
    decreases items.len(),
{
    if items.len() == 0 {
        Seq::empty()
    } else {
        spec_identifier_bytes(items[0]) + spec_identifier_table_bytes(items.subrange(1, items.len() as int))
    }
}

/// Decoding the bytes of a table of identifiers up to the end of the table gives
/// the records.
pub proof fn lemma_identifier_table_round_trip(c: CursorView, items: Seq<Seq<char>>)
    requires
        spec_holds(c, spec_identifier_table_bytes(items)),
        c.position + spec_identifier_table_bytes(items).len() == c.bytes.len(),
        forall|i: int| 0 <= i < items.len() ==> spec_encodable_identifier((#[trigger] items[i])),
    ensures
        spec_load_identifier_sequence(c) == Ok::<(Seq<Seq<char>>, nat), PartialVMError>(
            (items, spec_identifier_table_bytes(items).len()),
        ),
    decreases items.len(),
{
    if items.len() == 0 {
        assert(items =~= Seq::<Seq<char>>::empty());
    } else {
        let first = spec_identifier_bytes(items[0]);
        let tail = items.subrange(1, items.len() as int);
        lemma_holds_split(c, first, spec_identifier_table_bytes(tail));
        lemma_identifier_round_trip(c, items[0]);
        lemma_load_identifier_advances(c);
        assert forall|i: int| 0 <= i < tail.len() implies spec_encodable_identifier((#[trigger] tail[i])) by {
            assert(tail[i] == items[i + 1]);
        }
        lemma_identifier_table_round_trip(c.skip(first.len()), tail);
        assert(seq![items[0]] + tail =~= items);
    }
}

/// The bytes of a table of addresses: the addresses, one behind the other.
pub open spec fn spec_address_table_bytes(addresses: Seq<Seq<u8>>) -> Seq<u8>
    decreases addresses.len(),
{
    if addresses.len() == 0 {
        Seq::empty()
    } else {
        spec_address_table_bytes(addresses.drop_last()) + addresses.last()
    }
}

proof fn lemma_address_table_bytes(addresses: Seq<Seq<u8>>)
    requires
        forall|i: int| 0 <= i < addresses.len() ==> (#[trigger] addresses[i]).len() == ADDRESS_LENGTH,
    ensures
        spec_address_table_bytes(addresses).len() == ADDRESS_LENGTH * addresses.len(),
        forall|i: int|
            0 <= i < addresses.len() ==> spec_address_table_bytes(addresses).subrange(
                ADDRESS_LENGTH * i,
                ADDRESS_LENGTH * i + ADDRESS_LENGTH,
            ) == #[trigger] addresses[i],
    decreases addresses.len(),
{
    if addresses.len() > 0 {
        let front = addresses.drop_last();
        assert forall|i: int| 0 <= i < front.len() implies (#[trigger] front[i]).len()
            == ADDRESS_LENGTH by {
            assert(front[i] == addresses[i]);
        }
        lemma_address_table_bytes(front);
        let bytes = spec_address_table_bytes(addresses);
        let before = spec_address_table_bytes(front);
        assert forall|i: int| 0 <= i < addresses.len() implies bytes.subrange(
            ADDRESS_LENGTH * i,
            ADDRESS_LENGTH * i + ADDRESS_LENGTH,
        ) == #[trigger] addresses[i] by {
            if i < front.len() {
                assert(front[i] == addresses[i]);
                assert(bytes.subrange(ADDRESS_LENGTH * i, ADDRESS_LENGTH * i + ADDRESS_LENGTH)
                    =~= before.subrange(ADDRESS_LENGTH * i, ADDRESS_LENGTH * i + ADDRESS_LENGTH));
            } else {
                assert(bytes.subrange(ADDRESS_LENGTH * i, ADDRESS_LENGTH * i + ADDRESS_LENGTH)
                    =~= addresses.last());
            }
        }
    }
}

/// Decoding a table that holds the bytes of addresses gives the addresses.
pub proof fn lemma_address_table_round_trip(
    binary: CursorView,
    table: Table,
    addresses: Seq<Seq<u8>>,
)
    requires
        forall|i: int| 0 <= i < addresses.len() ==> (#[trigger] addresses[i]).len() == ADDRESS_LENGTH,
        table.count == spec_address_table_bytes(addresses).len(),
        table.offset + table.count <= binary.bytes.len(),
        binary.bytes.subrange(table.offset as int, table.offset + table.count)
            == spec_address_table_bytes(addresses),
    ensures
        spec_load_address_identifiers(binary, table) == Ok::<Seq<Seq<u8>>, PartialVMError>(
            addresses,
        ),
{
    lemma_address_table_bytes(addresses);
    let bytes = spec_address_table_bytes(addresses);
    let items = spec_load_address_identifiers(binary, table)->Ok_0;
    assert(table.count as int / ADDRESS_LENGTH as int == addresses.len());
    assert forall|i: int| 0 <= i < addresses.len() implies #[trigger] items[i] == addresses[i] by {
        assert(0 <= ADDRESS_LENGTH * i && ADDRESS_LENGTH * i + ADDRESS_LENGTH <= bytes.len())
            by (nonlinear_arith)
            requires
                0 <= i < addresses.len(),
                bytes.len() == ADDRESS_LENGTH * addresses.len(),
                ADDRESS_LENGTH == 16,
        ;
        assert(binary.bytes.subrange(
            table.offset + ADDRESS_LENGTH * i,
            table.offset + ADDRESS_LENGTH * i + ADDRESS_LENGTH,
        ) =~= bytes.subrange(ADDRESS_LENGTH * i, ADDRESS_LENGTH * i + ADDRESS_LENGTH));
    }
    assert(items =~= addresses);
}

} // verus!
