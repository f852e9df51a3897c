use pelite::image::{DataDirectoryEntry, Image, SectionHeader};
use pelite::load_config::{
    LoadConfig, IMAGE_DIRECTORY_ENTRY_LOAD_CONFIG, LOAD_CONFIG_DIRECTORY_SIZE,
};
use pelite::Error;

const BASE: u64 = 0x1_4000_0000;
const SECTION_RVA: u32 = 0x1000;
const SECTION_FILE: usize = 0x400;
const SECTION_RAW: u32 = 0x200;
const COOKIE_RVA: u32 = 0x1100;
const TABLE_RVA: u32 = 0x1180;

fn put_u16(b: &mut [u8], off: usize, v: u16) {
    b[off..off + 2].copy_from_slice(&v.to_le_bytes());
}

fn put_u32(b: &mut [u8], off: usize, v: u32) {
    b[off..off + 4].copy_from_slice(&v.to_le_bytes());
}

fn put_u64(b: &mut [u8], off: usize, v: u64) {
    b[off..off + 8].copy_from_slice(&v.to_le_bytes());
}

fn file_of(rva: u32) -> usize {
    SECTION_FILE + (rva - SECTION_RVA) as usize
}

/// An image with one section and a Load Configuration record at its start.
fn build(cookie_va: u64, table_va: u64, count: u64) -> Image {
    let mut bytes = vec![0u8; SECTION_FILE + SECTION_RAW as usize];
    let lc = file_of(SECTION_RVA);
    put_u32(&mut bytes, lc, LOAD_CONFIG_DIRECTORY_SIZE as u32);
    put_u32(&mut bytes, lc + 0x04, 0x5F00_1234);
    put_u16(&mut bytes, lc + 0x08, 6);
    put_u16(&mut bytes, lc + 0x0A, 2);
    put_u64(&mut bytes, lc + 0x58, cookie_va);
    put_u64(&mut bytes, lc + 0x60, table_va);
    put_u64(&mut bytes, lc + 0x68, count);
    bytes[file_of(COOKIE_RVA)..file_of(COOKIE_RVA) + 4].copy_from_slice(&[0x78, 0x56, 0x34, 0x12]);
    let t = file_of(TABLE_RVA);
    put_u64(&mut bytes, t, BASE + 0x2000);
    put_u64(&mut bytes, t + 8, BASE + 0x2010);
    put_u64(&mut bytes, t + 16, BASE + 0x2020);
    let sections = vec![SectionHeader {
        virtual_address: SECTION_RVA,
        size_of_raw_data: SECTION_RAW,
        pointer_to_raw_data: SECTION_FILE as u32,
    }];
    let mut directories = vec![DataDirectoryEntry { virtual_address: 0, size: 0 }; 16];
    directories[IMAGE_DIRECTORY_ENTRY_LOAD_CONFIG] = DataDirectoryEntry {
        virtual_address: SECTION_RVA,
        size: LOAD_CONFIG_DIRECTORY_SIZE as u32,
    };
    Image::new(bytes, BASE, sections, directories)
}

fn sample() -> Image {
    build(BASE + COOKIE_RVA as u64, BASE + TABLE_RVA as u64, 3)
}

#[test]
fn derva_inside_section() {
    let img = sample();
    let v = img.derva(COOKIE_RVA, 4).unwrap();
    assert_eq!(v, &[0x78, 0x56, 0x34, 0x12]);
}

#[test]
fn derva_up_to_section_end() {
    let img = sample();
    assert_eq!(img.derva(SECTION_RVA + SECTION_RAW - 4, 4).unwrap().len(), 4);
    assert_eq!(img.derva(SECTION_RVA + SECTION_RAW - 4, 5), Err(Error::OutOfBounds));
}

#[test]
fn derva_unmapped_address() {
    let img = sample();
    assert_eq!(img.derva(0x0FFF, 1), Err(Error::OutOfBounds));
    assert_eq!(img.derva(SECTION_RVA + SECTION_RAW, 0), Err(Error::OutOfBounds));
    assert_eq!(img.derva(u32::MAX, 1), Err(Error::OutOfBounds));
}

#[test]
fn derva_range_past_buffer() {
    let sections = vec![SectionHeader {
        virtual_address: 0x1000,
        size_of_raw_data: 0x100,
        pointer_to_raw_data: 0x80,
    }];
    let img = Image::new(vec![7u8; 0x100], BASE, sections, vec![]);
    assert_eq!(img.derva(0x1000, 0x80).unwrap().len(), 0x80);
    assert_eq!(img.derva(0x1000, 0x81), Err(Error::OutOfBounds));
    assert_eq!(img.derva(0x10FF, 1), Err(Error::OutOfBounds));
}

#[test]
fn derva_first_section_wins() {
    let sections = vec![
        SectionHeader { virtual_address: 0x1000, size_of_raw_data: 0x10, pointer_to_raw_data: 0 },
        SectionHeader { virtual_address: 0x1000, size_of_raw_data: 0x10, pointer_to_raw_data: 0x10 },
    ];
    let bytes: Vec<u8> = (0u8..0x20).collect();
    let img = Image::new(bytes, BASE, sections, vec![]);
    assert_eq!(img.derva(0x1002, 2).unwrap(), &[2, 3]);
}

#[test]
fn deref_u32_unaligned() {
    let img = sample();
    assert_eq!(img.deref_u32(COOKIE_RVA).unwrap(), 0x1234_5678);
    assert_eq!(img.deref_u32(COOKIE_RVA + 1).unwrap(), 0x0012_3456);
    assert_eq!(img.deref_u32(SECTION_RVA + SECTION_RAW - 3), Err(Error::OutOfBounds));
}

#[test]
fn deref_slice_zero_count_always_succeeds() {
    let img = sample();
    assert_eq!(img.deref_slice(SECTION_RVA + SECTION_RAW, 0, 8).unwrap().len(), 0);
    assert_eq!(img.deref_slice(u32::MAX, 0, 8).unwrap().len(), 0);
    assert_eq!(img.deref_slice(SECTION_RVA, 0, 8).unwrap().len(), 0);
}

#[test]
fn deref_slice_overflow_is_refused() {
    let img = sample();
    assert_eq!(img.deref_slice(SECTION_RVA, usize::MAX, 8), Err(Error::OutOfBounds));
    assert_eq!(img.deref_slice(SECTION_RVA, usize::MAX / 8 + 1, 8), Err(Error::OutOfBounds));
}

#[test]
fn deref_slice_reads_records() {
    let img = sample();
    let v = img.deref_slice(TABLE_RVA, 3, 8).unwrap();
    assert_eq!(v.len(), 24);
    assert_eq!(&v[8..16], &(BASE + 0x2010).to_le_bytes());
    assert_eq!(img.deref_slice(SECTION_RVA + SECTION_RAW - 16, 3, 8), Err(Error::OutOfBounds));
}

#[test]
fn va_to_rva_bounds() {
    let img = sample();
    assert_eq!(img.va_to_rva(BASE + 0x1234), Ok(0x1234));
    assert_eq!(img.va_to_rva(BASE), Ok(0));
    assert_eq!(img.va_to_rva(BASE - 1), Err(Error::OutOfBounds));
    assert_eq!(img.va_to_rva(BASE + u32::MAX as u64), Ok(u32::MAX));
    assert_eq!(img.va_to_rva(BASE + u32::MAX as u64 + 1), Err(Error::OutOfBounds));
}

#[test]
fn data_directory_entries() {
    let img = sample();
    assert_eq!(img.data_directory().len(), 16);
    assert_eq!(
        img.data_directory_entry(IMAGE_DIRECTORY_ENTRY_LOAD_CONFIG),
        Some(DataDirectoryEntry { virtual_address: SECTION_RVA, size: LOAD_CONFIG_DIRECTORY_SIZE as u32 })
    );
    assert_eq!(img.data_directory_entry(0), None);
    assert_eq!(img.data_directory_entry(16), None);
}

#[test]
fn load_config_reads_record() {
    let img = sample();
    let lc = LoadConfig::new(&img).unwrap();
    let dir = lc.image();
    assert_eq!(dir.size, LOAD_CONFIG_DIRECTORY_SIZE as u32);
    assert_eq!(dir.time_date_stamp, 0x5F00_1234);
    assert_eq!(dir.major_version, 6);
    assert_eq!(dir.minor_version, 2);
    assert_eq!(dir.security_cookie, BASE + COOKIE_RVA as u64);
    assert_eq!(dir.se_handler_table, BASE + TABLE_RVA as u64);
    assert_eq!(dir.se_handler_count, 3);
    assert!(std::ptr::eq(lc.pe(), &img));
}

#[test]
fn load_config_zero_entry_fails() {
    let mut img = sample();
    img.directories[IMAGE_DIRECTORY_ENTRY_LOAD_CONFIG] = DataDirectoryEntry { virtual_address: 0, size: 0 };
    assert_eq!(LoadConfig::new(&img).err(), Some(Error::OutOfBounds));
}

#[test]
fn load_config_short_table_fails() {
    let mut img = sample();
    img.directories.truncate(IMAGE_DIRECTORY_ENTRY_LOAD_CONFIG);
    assert_eq!(LoadConfig::new(&img).err(), Some(Error::OutOfBounds));
}

#[test]
fn load_config_truncated_record_fails() {
    let mut img = sample();
    img.directories[IMAGE_DIRECTORY_ENTRY_LOAD_CONFIG].virtual_address = SECTION_RVA + SECTION_RAW - 0x40;
    assert_eq!(LoadConfig::new(&img).err(), Some(Error::OutOfBounds));
}

#[test]
fn security_cookie_little_endian() {
    let img = sample();
    let lc = LoadConfig::new(&img).unwrap();
    assert_eq!(lc.security_cookie(), Ok(0x1234_5678));
}

#[test]
fn security_cookie_zero_is_a_value() {
    let img = build(BASE + 0x1110, BASE + TABLE_RVA as u64, 3);
    let lc = LoadConfig::new(&img).unwrap();
    assert_eq!(lc.security_cookie(), Ok(0));
}

#[test]
fn security_cookie_bad_address() {
    let img = build(BASE - 8, BASE + TABLE_RVA as u64, 3);
    assert_eq!(LoadConfig::new(&img).unwrap().security_cookie(), Err(Error::OutOfBounds));
    let img = build(BASE + 0x5000, BASE + TABLE_RVA as u64, 3);
    assert_eq!(LoadConfig::new(&img).unwrap().security_cookie(), Err(Error::OutOfBounds));
}

#[test]
fn se_handler_table_three_entries_in_order() {
    let img = sample();
    let lc = LoadConfig::new(&img).unwrap();
    assert_eq!(lc.se_handler_table(), Ok(vec![BASE + 0x2000, BASE + 0x2010, BASE + 0x2020]));
}

#[test]
fn se_handler_table_zero_count_ignores_address() {
    let img = build(BASE + COOKIE_RVA as u64, 0, 0);
    let lc = LoadConfig::new(&img).unwrap();
    assert_eq!(lc.se_handler_table(), Ok(vec![]));
    let img = build(BASE + COOKIE_RVA as u64, BASE + 0xFFFF_0000, 0);
    assert_eq!(LoadConfig::new(&img).unwrap().se_handler_table(), Ok(vec![]));
}

#[test]
fn se_handler_table_errors() {
    let img = build(BASE + COOKIE_RVA as u64, 0, 3);
    assert_eq!(LoadConfig::new(&img).unwrap().se_handler_table(), Err(Error::OutOfBounds));
    let img = build(BASE + COOKIE_RVA as u64, BASE + TABLE_RVA as u64, 0x100);
    assert_eq!(LoadConfig::new(&img).unwrap().se_handler_table(), Err(Error::OutOfBounds));
    let img = build(BASE + COOKIE_RVA as u64, BASE + TABLE_RVA as u64, u64::MAX);
    assert_eq!(LoadConfig::new(&img).unwrap().se_handler_table(), Err(Error::OutOfBounds));
}

#[test]
fn repeated_calls_observe_same_bytes() {
    let img = sample();
    let lc = LoadConfig::new(&img).unwrap();
    let copy = lc;
    assert_eq!(lc.security_cookie(), lc.security_cookie());
    assert_eq!(lc.se_handler_table(), lc.se_handler_table());
    assert_eq!(lc.image(), copy.image());
    assert_eq!(copy.security_cookie(), Ok(0x1234_5678));
}

#[test]
fn summary_reports_cookie_and_length() {
    let img = sample();
    let s = LoadConfig::new(&img).unwrap().summary();
    assert_eq!(s.security_cookie, Ok(0x1234_5678));
    assert_eq!(s.se_handler_table_len, Ok(3));
    let img = build(BASE - 8, 0, 5);
    let s = LoadConfig::new(&img).unwrap().summary();
    assert_eq!(s.security_cookie, Err(Error::OutOfBounds));
    assert_eq!(s.se_handler_table_len, Err(Error::OutOfBounds));
}
