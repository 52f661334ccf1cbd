//! Tests of the binary container codec.

use cnmo_parse::lparse::{EntryData, Error, LParse};
use cnmo_parse::Rect;

#[test]
fn container_round_trip_i32_and_f32() {
    // A container with one i32 entry [1,2,3] and one f32 entry [0.5] reads
    // back with identical vectors, found by name in either order.
    let mut lp = LParse::new(1).unwrap();
    lp.insert_entry("INTS".to_string(), EntryData::I32(vec![1, 2, 3]));
    lp.insert_entry(
        "FLOATS".to_string(),
        EntryData::F32(vec![0.5f32.to_bits()]),
    );
    let bytes = lp.save_to_bytes().unwrap();
    let back = LParse::from_memory(&bytes).unwrap();
    match back.try_get_entry("FLOATS").unwrap() {
        EntryData::F32(v) => assert_eq!(v, &vec![0.5f32.to_bits()]),
        other => panic!("wrong entry type: {:?}", other),
    }
    match back.try_get_entry("INTS").unwrap() {
        EntryData::I32(v) => assert_eq!(v, &vec![1, 2, 3]),
        other => panic!("wrong entry type: {:?}", other),
    }
}

#[test]
fn container_round_trip_every_type_tag() {
    let mut lp = LParse::new(1).unwrap();
    lp.insert_entry("A".to_string(), EntryData::I32(vec![-5, i32::MAX, i32::MIN]));
    lp.insert_entry("B".to_string(), EntryData::U32(vec![0, 7, u32::MAX]));
    lp.insert_entry("C".to_string(), EntryData::U8(vec![1, 2, 255]));
    lp.insert_entry("D".to_string(), EntryData::U16(vec![9, u16::MAX]));
    lp.insert_entry("E".to_string(), EntryData::F32(vec![1.25f32.to_bits()]));
    lp.insert_entry(
        "F".to_string(),
        EntryData::Rect(vec![Rect::new(1, -2, 3, 4)]),
    );
    lp.insert_entry("G".to_string(), EntryData::Dummy);
    let bytes = lp.save_to_bytes().unwrap();
    let back = LParse::from_memory(&bytes).unwrap();
    assert_eq!(
        back.try_get_entry("A").unwrap(),
        &EntryData::I32(vec![-5, i32::MAX, i32::MIN])
    );
    assert_eq!(back.try_get_entry("B").unwrap(), &EntryData::U32(vec![0, 7, u32::MAX]));
    assert_eq!(back.try_get_entry("C").unwrap(), &EntryData::U8(vec![1, 2, 255]));
    assert_eq!(back.try_get_entry("D").unwrap(), &EntryData::U16(vec![9, u16::MAX]));
    assert_eq!(back.try_get_entry("E").unwrap(), &EntryData::F32(vec![1.25f32.to_bits()]));
    assert_eq!(
        back.try_get_entry("F").unwrap(),
        &EntryData::Rect(vec![Rect::new(1, -2, 3, 4)])
    );
    // A dummy entry decodes as a null (unused) entry, as the engine does.
    assert_eq!(back.try_get_entry("G").unwrap(), &EntryData::Null);
}

#[test]
fn container_rejects_bad_magic_and_version() {
    assert!(matches!(LParse::from_memory(b"CNMX\x01\x00\x00\x00"), Err(Error::NotLParseFile)));
    assert!(matches!(LParse::from_memory(b"CN"), Err(Error::NotLParseFile)));
    assert!(matches!(
        LParse::from_memory(b"CNML\x02\x00\x00\x00"),
        Err(Error::UnknownVersion(2))
    ));
    // Version ok but header table truncated.
    assert!(matches!(
        LParse::from_memory(b"CNML\x01\x00\x00\x00"),
        Err(Error::EntryCorrupted(_, 0))
    ));
}

#[test]
fn container_wrong_type_lookup_fails_safely() {
    let mut lp = LParse::new(1).unwrap();
    lp.insert_entry("X".to_string(), EntryData::I32(vec![1]));
    let entry = lp.try_get_entry("X").unwrap();
    assert!(matches!(entry.try_get_u8(), Err(Error::UnexpectedEntryType(4, 2))));
    assert!(entry.try_get_i32().is_ok());
    assert!(matches!(lp.try_get_entry("Y"), Err(Error::CannotFindEntry(_))));
}

#[test]
fn container_insert_replaces_by_name() {
    let mut lp = LParse::new(1).unwrap();
    lp.insert_entry("X".to_string(), EntryData::I32(vec![1]));
    lp.insert_entry("X".to_string(), EntryData::U16(vec![2]));
    assert_eq!(lp.try_get_entry("X").unwrap(), &EntryData::U16(vec![2]));
    assert_eq!(lp.entries().len(), 1);
}

#[test]
fn container_overflow_fails_before_writing() {
    let mut lp = LParse::new(1).unwrap();
    for i in 0..129 {
        lp.insert_entry(format!("E{}", i), EntryData::I32(vec![i]));
    }
    assert!(matches!(
        lp.save_to_bytes(),
        Err(Error::EntryOverflow(1, 128, 129))
    ));
}

#[test]
fn container_file_layout_is_exact() {
    // An empty container is the magic, the version, and 128 null headers.
    let lp = LParse::new(1).unwrap();
    let bytes = lp.save_to_bytes().unwrap();
    assert_eq!(bytes.len(), 8 + 128 * 28);
    assert_eq!(&bytes[0..4], b"CNML");
    assert_eq!(&bytes[4..8], &[1, 0, 0, 0]);
    // Every null header points at the end of the header region.
    let off = (8 + 128 * 28u32).to_le_bytes();
    assert_eq!(&bytes[8 + 24..8 + 28], &off);
}
