use move_binary_format::errors::{PartialVMError, StatusCode};
use move_binary_format::file_format::CompiledModule;
use move_binary_format::file_format_common::{Table, TableType};
use move_binary_format::tables::check_tables;

const MAGIC: [u8; 4] = [0xA1, 0x1C, 0xEB, 0x0B];

fn with_directory(entries: &[(u8, u8, u8)], rest: &[u8]) -> Vec<u8> {
    let mut bytes = MAGIC.to_vec();
    bytes.push(6);
    bytes.push(entries.len() as u8);
    for (kind, offset, size) in entries {
        bytes.extend([*kind, *offset, *size]);
    }
    bytes.extend(rest);
    bytes
}

fn status(bytes: &[u8]) -> StatusCode {
    CompiledModule::deserialize(bytes).unwrap_err().major_status
}

fn table(kind: TableType, offset: u32, count: u32) -> Table {
    Table::new(kind, offset, count)
}

#[test]
fn duplicate_table_kind_is_rejected() {
    let bytes = with_directory(&[(0x07, 0, 2), (0x07, 2, 2)], &[1, b'a', 1, b'b', 0]);
    assert_eq!(status(&bytes), StatusCode::DuplicateTable);
}

#[test]
fn gap_between_tables_is_rejected() {
    let bytes = with_directory(&[(0x01, 0, 3), (0x07, 5, 4)], &[0; 16]);
    assert_eq!(status(&bytes), StatusCode::BadHeaderTable);
    let mut tables = vec![
        table(TableType::MODULE_HANDLES, 0, 3),
        table(TableType::IDENTIFIERS, 5, 4),
    ];
    assert_eq!(
        check_tables(&mut tables, 100),
        Err(PartialVMError::new(StatusCode::BadHeaderTable))
    );
}

#[test]
fn overlapping_tables_are_rejected() {
    let bytes = with_directory(&[(0x01, 0, 4), (0x07, 2, 4)], &[0; 16]);
    assert_eq!(status(&bytes), StatusCode::BadHeaderTable);
}

#[test]
fn first_table_must_start_at_zero() {
    let bytes = with_directory(&[(0x01, 1, 2)], &[0; 16]);
    assert_eq!(status(&bytes), StatusCode::BadHeaderTable);
}

#[test]
fn empty_table_is_rejected() {
    let bytes = with_directory(&[(0x01, 0, 0)], &[0; 16]);
    assert_eq!(status(&bytes), StatusCode::BadHeaderTable);
    let bytes = with_directory(&[(0x01, 0, 2), (0x07, 2, 0)], &[0; 16]);
    assert_eq!(status(&bytes), StatusCode::BadHeaderTable);
}

#[test]
fn tables_longer_than_the_binary_are_rejected() {
    // The binary has 4 + 1 + 1 + 3 + 2 = 11 bytes; a table of 12 cannot fit.
    let bytes = with_directory(&[(0x01, 0, 12)], &[0, 0]);
    assert_eq!(bytes.len(), 11);
    assert_eq!(status(&bytes), StatusCode::BadHeaderTable);
}

#[test]
fn check_returns_the_length_of_the_contents() {
    let mut tables = vec![
        table(TableType::IDENTIFIERS, 3, 4),
        table(TableType::MODULE_HANDLES, 0, 3),
        table(TableType::SIGNATURES, 7, 1),
    ];
    assert_eq!(check_tables(&mut tables, 8), Ok(8));
    assert_eq!(
        tables,
        vec![
            table(TableType::MODULE_HANDLES, 0, 3),
            table(TableType::IDENTIFIERS, 3, 4),
            table(TableType::SIGNATURES, 7, 1),
        ]
    );
    let mut none: Vec<Table> = vec![];
    assert_eq!(check_tables(&mut none, 0), Ok(0));
}

#[test]
fn check_compares_with_the_length_of_the_binary() {
    let mut tables = vec![table(TableType::MODULE_HANDLES, 0, 3)];
    assert_eq!(check_tables(&mut tables, 3), Ok(3));
    assert_eq!(
        check_tables(&mut tables, 2),
        Err(PartialVMError::new(StatusCode::BadHeaderTable))
    );
}

#[test]
fn check_rejects_an_end_beyond_32_bits() {
    let mut tables = vec![
        table(TableType::MODULE_HANDLES, 0, u32::MAX),
        table(TableType::IDENTIFIERS, u32::MAX, 1),
    ];
    assert_eq!(
        check_tables(&mut tables, usize::MAX),
        Err(PartialVMError::new(StatusCode::BadHeaderTable))
    );
}

#[test]
fn sort_keeps_the_order_of_equal_offsets() {
    // Of two tables at offset 3 the first in the directory is looked at
    // first: here it repeats a kind.
    let mut tables = vec![
        table(TableType::SIGNATURES, 0, 3),
        table(TableType::SIGNATURES, 3, 2),
        table(TableType::IDENTIFIERS, 3, 0),
    ];
    assert_eq!(
        check_tables(&mut tables, 100),
        Err(PartialVMError::new(StatusCode::DuplicateTable))
    );
    assert_eq!(tables[1], table(TableType::SIGNATURES, 3, 2));
    // Here it is empty.
    let mut tables = vec![
        table(TableType::SIGNATURES, 0, 3),
        table(TableType::IDENTIFIERS, 3, 0),
        table(TableType::SIGNATURES, 3, 2),
    ];
    assert_eq!(
        check_tables(&mut tables, 100),
        Err(PartialVMError::new(StatusCode::BadHeaderTable))
    );
    assert_eq!(tables[1], table(TableType::IDENTIFIERS, 3, 0));
}

#[test]
fn table_count_is_bounded_by_255() {
    let mut bytes = MAGIC.to_vec();
    bytes.extend([6, 0x80, 0x02]);
    assert_eq!(status(&bytes), StatusCode::Malformed);
}
