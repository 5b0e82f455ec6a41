//! The table directory of a binary: reading its entries and checking that
//! the tables they describe lie one behind the other.

use vstd::prelude::*;
use crate::cursor::{decodes, malformed_error, spec_read_u8, CursorView, Decoded, VersionedCursor};
use crate::errors::{malformed, Message, PartialVMError, StatusCode};
use crate::file_format_common::{Table, TableType};
use crate::indices::{
    load_table_offset, load_table_size, spec_load_table_offset, spec_load_table_size,
};
use crate::laws::{lemma_check_tables_decides_layout, spec_layout_is_valid};
use crate::primitives::{
    spec_extends, cons_result, lemma_prepend_empty, lemma_prepend_step, prepend,
};

verus! {

impl DeepView for Table {
    type V = Table;

    open spec fn deep_view(&self) -> Table {
        *self
    }
}

/// The directory entry at the reader: one byte for the kind of the table,
/// then the offset and the size of its content. An unknown kind is found
/// after the offset and the size have been read.
pub open spec fn spec_read_table(c: CursorView) -> Decoded<Table> {
    match spec_read_u8(c) {
        None => Err(malformed(Message::ErrorReadingTable)),
        Some(kind) => match spec_load_table_offset(c.skip(1)) {
            Err(e) => Err(e),
            Ok((offset, n)) => match spec_load_table_size(c.skip(1 + n)) {
                Err(e) => Err(e),
                Ok((count, m)) => match TableType::spec_from_u8(kind) {
                    Err(e) => Err(e),
                    Ok(kind) => Ok((Table { kind, offset, count }, 1 + n + m)),
                },
            },
        },
    }
}

/// Reads one entry of the table directory.
pub fn read_table(cursor: &mut VersionedCursor) -> (r: Result<Table, PartialVMError>)
    ensures
        decodes(old(cursor)@, final(cursor)@, r, spec_read_table(old(cursor)@)),
        r is Ok ==> old(cursor)@.position < final(cursor)@.position,
{
    let kind = match cursor.read_u8() {
        Some(kind) => kind,
        None => {
            return Err(malformed_error(Message::ErrorReadingTable));
        },
    };
    let table_offset = load_table_offset(cursor)?;
    let count = load_table_size(cursor)?;
    Ok(Table::new(TableType::from_u8(kind)?, table_offset, count))
}

/// `count` directory entries, one after the other.
pub open spec fn spec_read_tables(c: CursorView, count: nat) -> Decoded<Seq<Table>>
    decreases count,
{
    if count == 0 {
        Ok((Seq::empty(), 0))
    } else {
        match spec_read_table(c) {
            Err(e) => Err(e),
            Ok((x, n)) => cons_result(x, n, spec_read_tables(c.skip(n), (count - 1) as nat)),
        }
    }
}

/// Reads `table_count` directory entries and appends them to `tables`. On
/// failure `tables` holds what it held and the entries read before the
/// failure.
pub fn read_tables(cursor: &mut VersionedCursor, table_count: u8, tables: &mut Vec<Table>) -> (r:
    Result<(), PartialVMError>)
    ensures
        final(cursor)@.bytes == old(cursor)@.bytes,
        final(cursor)@.version == old(cursor)@.version,
        0 <= old(cursor)@.position <= final(cursor)@.position <= final(cursor)@.bytes.len(),
        match spec_read_tables(old(cursor)@, table_count as nat) {
            Ok((items, n)) => r is Ok && final(tables)@ == old(tables)@ + items
                && final(cursor)@.position == old(cursor)@.position + n,
            Err(e) => r == Err::<(), PartialVMError>(e) && e.is_decoder_error(),
        },
        spec_extends(old(tables)@, final(tables)@),
{
    let ghost first = cursor@;
    let ghost mut read: Seq<Table> = Seq::empty();
    let mut i: u8 = 0;
    let _ = cursor.position();
    proof {
        lemma_prepend_empty(read, 0, spec_read_tables(first, table_count as nat));
        assert(tables@ =~= old(tables)@ + read);
    }
    while i < table_count
        invariant
            i <= table_count,
            first == old(cursor)@,
            cursor@.bytes == first.bytes,
            cursor@.version == first.version,
            0 <= first.position <= cursor@.position <= cursor@.bytes.len(),
            tables@ == old(tables)@ + read,
            spec_read_tables(first, table_count as nat) == prepend(
                read,
                (cursor@.position - first.position) as nat,
                spec_read_tables(cursor@, (table_count - i) as nat),
            ),
        decreases table_count - i,
    {
        let ghost here = cursor@;
        let table = read_table(cursor)?;
        tables.push(table);
        i = i + 1;
        proof {
            lemma_prepend_step(
                read,
                (here.position - first.position) as nat,
                table,
                (cursor@.position - here.position) as nat,
                spec_read_tables(cursor@, (table_count - i) as nat),
            );
            read = read.push(table);
            assert(tables@ =~= old(tables)@ + read);
        }
    }
    proof {
        lemma_prepend_empty(
            read,
            (cursor@.position - first.position) as nat,
            spec_read_tables(cursor@, 0),
        );
    }
    Ok(())
}

/// `sorted` with `table` put behind the last entry whose offset is not
/// greater than its own.
pub open spec fn spec_insert_by_offset(sorted: Seq<Table>, table: Table) -> Seq<Table>
    decreases sorted.len(),
{
    if sorted.len() == 0 {
        seq![table]
    } else if sorted.last().offset <= table.offset {
        sorted.push(table)
    } else {
        spec_insert_by_offset(sorted.drop_last(), table).push(sorted.last())
    }
}

/// The entries in the order of their offsets; entries of one offset keep
/// the order in which they stand in `tables`.
pub open spec fn spec_sort_by_offset(tables: Seq<Table>) -> Seq<Table>
    decreases tables.len(),
{
    if tables.len() == 0 {
        Seq::empty()
    } else {
        spec_insert_by_offset(spec_sort_by_offset(tables.drop_last()), tables.last())
    }
}

/// Whether an entry before the one at index `i` has its kind.
pub open spec fn spec_kind_repeated(tables: Seq<Table>, i: int) -> bool {
    exists|j: int| 0 <= j < i && (#[trigger] tables[j]).kind == tables[i].kind
}

/// The check of the entries from index `i` on, where the entries before lie
/// one behind the other from offset 0 to `current_offset`. Each entry must
/// start where the one before it ends, must not be empty, must end within
/// 32 bits, must be the first of its kind, and must end within
/// `binary_len`. The result is the offset at which the last entry ends.
pub open spec fn spec_check_tables_from(
    tables: Seq<Table>,
    i: int,
    current_offset: u32,
    binary_len: int,
) -> Result<u32, PartialVMError>
    decreases tables.len() - i,
{
    if i < 0 || i >= tables.len() {
        Ok(current_offset)
    } else {
        let table = tables[i];
        if table.offset != current_offset {
            Err(PartialVMError::spec_new(StatusCode::BadHeaderTable))
        } else if table.count == 0 {
            Err(PartialVMError::spec_new(StatusCode::BadHeaderTable))
        } else if current_offset + table.count > u32::MAX {
            Err(PartialVMError::spec_new(StatusCode::BadHeaderTable))
        } else if spec_kind_repeated(tables, i) {
            Err(PartialVMError::spec_new(StatusCode::DuplicateTable))
        } else if current_offset + table.count > binary_len {
            Err(PartialVMError::spec_new(StatusCode::BadHeaderTable))
        } else {
            spec_check_tables_from(
                tables,
                i + 1,
                (current_offset + table.count) as u32,
                binary_len,
            )
        }
    }
}

/// The check of a table directory: its entries, in the order of their
/// offsets, must lie one behind the other from offset 0, none empty, none
/// of a kind that came before, and all within `binary_len` bytes. The
/// result is the length of the table contents.
pub open spec fn spec_check_tables(tables: Seq<Table>, binary_len: int) -> Result<
    u32,
    PartialVMError,
> {
    spec_check_tables_from(spec_sort_by_offset(tables), 0, 0, binary_len)
}

/// Where an entry goes in a sorted directory.
proof fn lemma_insert_position(sorted: Seq<Table>, table: Table, pos: int)
    requires
        0 <= pos <= sorted.len(),
        pos > 0 ==> sorted[pos - 1].offset <= table.offset,
        forall|k: int| pos <= k < sorted.len() ==> (#[trigger] sorted[k]).offset > table.offset,
    ensures
        spec_insert_by_offset(sorted, table) == sorted.insert(pos, table),
    decreases sorted.len() - pos,
{
    if sorted.len() == 0 {
        assert(seq![table] =~= sorted.insert(pos, table));
    } else if pos == sorted.len() {
        assert(sorted.push(table) =~= sorted.insert(pos, table));
    } else {
        lemma_insert_position(sorted.drop_last(), table, pos);
        assert(sorted.drop_last().insert(pos, table).push(sorted.last()) =~= sorted.insert(
            pos,
            table,
        ));
    }
}

/// The kinds of tables seen so far. They are kept, as the bytes that stand
/// for them, in a `HashSet` of `hashbrown`.
#[verifier::external_body]
pub struct TableKinds {
    set: hashbrown::HashSet<u8>,
}

/// The bytes that a set of table kinds holds.
pub uninterp spec fn spec_table_kinds(kinds: TableKinds) -> Set<u8>;

/// `HashSet::new` of `hashbrown`: a set that holds nothing.
#[verifier::external_body]
fn table_kinds_new() -> (kinds: TableKinds)
    ensures
        spec_table_kinds(kinds) == Set::<u8>::empty(),
{
    TableKinds { set: hashbrown::HashSet::new() }
}

/// `HashSet::insert` of `hashbrown`: the set then holds `kind` besides what
/// it held, and the result says whether it did not hold `kind` before.
#[verifier::external_body]
fn table_kinds_insert(kinds: &mut TableKinds, kind: u8) -> (fresh: bool)
    ensures
        spec_table_kinds(*final(kinds)) == spec_table_kinds(*old(kinds)).insert(kind),
        fresh == !spec_table_kinds(*old(kinds)).contains(kind),
{
    kinds.set.insert(kind)
}

/// Sorts the directory by offset, keeping the order of entries of one
/// offset.
fn sort_tables(tables: &mut Vec<Table>)
    ensures
        final(tables)@ == spec_sort_by_offset(old(tables)@),
{
    let mut sorted: Vec<Table> = Vec::new();
    let mut i: usize = 0;
    while i < tables.len()
        invariant
            i <= tables.len(),
            tables@ == old(tables)@,
            sorted@ == spec_sort_by_offset(tables@.subrange(0, i as int)),
        decreases tables.len() - i,
    {
        let table = tables[i];
        let mut pos = sorted.len();
        while pos > 0 && sorted[pos - 1].offset > table.offset
            invariant
                pos <= sorted.len(),
                forall|k: int| pos <= k < sorted.len() ==> (#[trigger] sorted[k]).offset > table.offset,
            decreases pos,
        {
            pos = pos - 1;
        }
        proof {
            lemma_insert_position(sorted@, table, pos as int);
            assert(tables@.subrange(0, i + 1).drop_last() =~= tables@.subrange(0, i as int));
        }
        sorted.insert(pos, table);
        i = i + 1;
    }
    proof {
        assert(tables@.subrange(0, i as int) =~= tables@);
    }
    *tables = sorted;
}

/// Sorts the directory by offset and checks that its tables lie one behind
/// the other. Returns the length of the table contents.
#[verifier::rlimit(40)]
pub fn check_tables(tables: &mut Vec<Table>, binary_len: usize) -> (r: Result<u32, PartialVMError>)
    ensures
        final(tables)@ == spec_sort_by_offset(old(tables)@),
        r == spec_check_tables(old(tables)@, binary_len as int),
        r is Ok <==> spec_layout_is_valid(final(tables)@, binary_len as int),
        r matches Err(e) ==> e.major_status == StatusCode::BadHeaderTable || e.major_status
            == StatusCode::DuplicateTable,
{
    proof {
        lemma_check_tables_decides_layout(tables@, binary_len as int);
    }
    sort_tables(tables);
    let mut current_offset: u32 = 0;
    let mut table_types = table_kinds_new();
    let mut i: usize = 0;
    while i < tables.len()
        invariant
            i <= tables.len(),
            tables@ == spec_sort_by_offset(old(tables)@),
            spec_check_tables(old(tables)@, binary_len as int) is Ok <==> spec_layout_is_valid(
                tables@,
                binary_len as int,
            ),
            spec_check_tables(old(tables)@, binary_len as int) matches Err(e) ==> e.major_status
                == StatusCode::BadHeaderTable || e.major_status == StatusCode::DuplicateTable,
            forall|b: u8|
                spec_table_kinds(table_types).contains(b) <==> exists|j: int|
                    0 <= j < i && (#[trigger] tables@[j]).kind.spec_to_u8() == b,
            spec_check_tables(old(tables)@, binary_len as int) == spec_check_tables_from(
                tables@,
                i as int,
                current_offset,
                binary_len as int,
            ),
        decreases tables.len() - i,
    {
        let table = tables[i];
        if table.offset != current_offset {
            return Err(PartialVMError::new(StatusCode::BadHeaderTable));
        }
        if table.count == 0 {
            return Err(PartialVMError::new(StatusCode::BadHeaderTable));
        }
        let checked_offset = match current_offset.checked_add(table.count) {
            Some(checked_offset) => checked_offset,
            None => {
                return Err(PartialVMError::new(StatusCode::BadHeaderTable));
            },
        };
        let ghost seen = spec_table_kinds(table_types);
        let fresh = table_kinds_insert(&mut table_types, table.kind.to_u8());
        proof {
            if spec_kind_repeated(tables@, i as int) {
                let j = choose|j: int| 0 <= j < i && (#[trigger] tables@[j]).kind == tables@[i as int].kind;
                assert(tables@[j].kind.spec_to_u8() == table.kind.spec_to_u8());
            }
            if seen.contains(table.kind.spec_to_u8()) {
                let j = choose|j: int|
                    0 <= j < i && (#[trigger] tables@[j]).kind.spec_to_u8()
                        == table.kind.spec_to_u8();
                lemma_kind_byte(tables@[j].kind, table.kind);
            }
        }
        if !fresh {
            return Err(PartialVMError::new(StatusCode::DuplicateTable));
        }
        if checked_offset as usize > binary_len {
            return Err(PartialVMError::new(StatusCode::BadHeaderTable));
        }
        current_offset = checked_offset;
        proof {
            assert forall|b: u8|
                spec_table_kinds(table_types).contains(b) <==> exists|j: int|
                    0 <= j < i + 1 && (#[trigger] tables@[j]).kind.spec_to_u8() == b by {
                if seen.insert(table.kind.spec_to_u8()).contains(b) {
                    if seen.contains(b) {
                        let j = choose|j: int|
                            0 <= j < i && (#[trigger] tables@[j]).kind.spec_to_u8() == b;
                        assert(0 <= j < i + 1 && tables@[j].kind.spec_to_u8() == b);
                    } else {
                        assert(tables@[i as int].kind.spec_to_u8() == b);
                    }
                }
                if exists|j: int| 0 <= j < i + 1 && (#[trigger] tables@[j]).kind.spec_to_u8() == b {
                    let j = choose|j: int|
                        0 <= j < i + 1 && (#[trigger] tables@[j]).kind.spec_to_u8() == b;
                    if j < i {
                        assert(seen.contains(b));
                    }
                }
            }
        }
        i = i + 1;
    }
    Ok(current_offset)
}

/// Two kinds that one byte stands for are one kind.
proof fn lemma_kind_byte(a: TableType, b: TableType)
    requires
        a.spec_to_u8() == b.spec_to_u8(),
    ensures
        a == b,
{
}

} // verus!
