use nru_pager::error::NruError;
use nru_pager::table::{PageFlags, Table, TableIterator};

#[test]
fn test_init() {
    let table = Table::init(1024).unwrap();
    assert_eq!(table.size(), 1024)
}

#[test]
fn test_page_gt_size() {
    let table = Table::init(1024).unwrap();
    assert_eq!(table.get_page(1024), Err(NruError::OutOfRange));
}

#[test]
fn test_page_eq_size() {
    let table = Table::init(1024).unwrap();
    assert!(table.get_page(1023).is_ok());
}

#[test]
fn test_page_lt_size() {
    let table = Table::init(1024).unwrap();
    assert!(table.get_page(1022).is_ok());
}

#[test]
fn test_set_flags_page_too_big() {
    let mut table = Table::init(1024).unwrap();
    assert_eq!(table.set_flags(1024, 0, 0), Err(NruError::OutOfRange));
}

#[test]
fn test_set_flag_r() {
    let mut table = Table::init(1024).unwrap();
    table.set_flags(0, 2, 0).unwrap();
    assert_eq!(2, table.get_page(0).unwrap().code());
}

#[test]
fn test_set_flag_m() {
    let mut table = Table::init(1024).unwrap();
    table.set_flags(0, 0, 1).unwrap();
    assert_eq!(1, table.get_page(0).unwrap().code());
}

#[test]
fn test_set_flag_rm() {
    let mut table = Table::init(1024).unwrap();
    table.set_flags(0, 2, 1).unwrap();
    assert_eq!(3, table.get_page(0).unwrap().code());
}

#[test]
fn init_rejects_non_positive_count() {
    assert!(matches!(Table::init(0), Err(NruError::InvalidSize)));
    assert!(matches!(Table::init(-5), Err(NruError::InvalidSize)));
}

#[test]
fn every_page_in_bounds_is_readable() {
    let table = Table::init(8).unwrap();
    for p in 0..8 {
        assert_eq!(table.get_page(p), Ok(PageFlags::NotRefNotMod));
    }
    assert_eq!(table.get_page(8), Err(NruError::OutOfRange));
    assert_eq!(table.get_page(-1), Err(NruError::OutOfRange));
}

#[test]
fn mark_read_keeps_modified_bit() {
    let mut table = Table::init(2).unwrap();
    table.set_read(0).unwrap();
    assert_eq!(table.get_page(0), Ok(PageFlags::RefNotMod));
    table.set_flags(1, 0, 1).unwrap();
    table.set_read(1).unwrap();
    assert_eq!(table.get_page(1), Ok(PageFlags::RefMod));
    table.set_read(1).unwrap();
    assert_eq!(table.get_page(1), Ok(PageFlags::RefMod));
}

#[test]
fn mark_write_keeps_referenced_bit() {
    let mut table = Table::init(2).unwrap();
    table.set_write(0).unwrap();
    assert_eq!(table.get_page(0), Ok(PageFlags::NotRefMod));
    table.set_read(1).unwrap();
    table.set_write(1).unwrap();
    assert_eq!(table.get_page(1), Ok(PageFlags::RefMod));
    table.set_write(1).unwrap();
    assert_eq!(table.get_page(1), Ok(PageFlags::RefMod));
}

#[test]
fn marks_reject_out_of_range_pages() {
    let mut table = Table::init(2).unwrap();
    assert_eq!(table.set_read(2), Err(NruError::OutOfRange));
    assert_eq!(table.set_write(-1), Err(NruError::OutOfRange));
    assert_eq!(table.get_page(0), Ok(PageFlags::NotRefNotMod));
    assert_eq!(table.get_page(1), Ok(PageFlags::NotRefNotMod));
}

#[test]
fn repeated_ticks_keep_modified_and_clear_referenced() {
    let mut table = Table::init(4).unwrap();
    table.set_flags(0, 2, 1).unwrap();
    table.set_flags(1, 2, 0).unwrap();
    table.set_flags(2, 0, 1).unwrap();
    for _ in 0..3 {
        table.reset();
        assert_eq!(table.get_page(0), Ok(PageFlags::NotRefMod));
        assert_eq!(table.get_page(1), Ok(PageFlags::NotRefNotMod));
        assert_eq!(table.get_page(2), Ok(PageFlags::NotRefMod));
        assert_eq!(table.get_page(3), Ok(PageFlags::NotRefNotMod));
    }
    assert_eq!(table.size(), 4);
}

#[test]
fn codes_follow_bit_encoding() {
    assert_eq!(PageFlags::NotRefNotMod.code(), 0);
    assert_eq!(PageFlags::NotRefMod.code(), 1);
    assert_eq!(PageFlags::RefNotMod.code(), 2);
    assert_eq!(PageFlags::RefMod.code(), 3);
}

#[test]
fn iterator_walks_pages_in_order() {
    let mut table = Table::init(3).unwrap();
    table.set_write(1).unwrap();
    table.set_read(2).unwrap();
    let mut it = TableIterator::get_for(&table);
    assert_eq!(it.next(), Some(PageFlags::NotRefNotMod));
    assert_eq!(it.next(), Some(PageFlags::NotRefMod));
    assert_eq!(it.next(), Some(PageFlags::RefNotMod));
    assert_eq!(it.next(), None);
    assert_eq!(it.next(), None);
}
