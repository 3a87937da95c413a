use gta5_script_decompiler::cli::{parse_key_val, ParseKeyValError};
use gta5_script_decompiler::resources::cross_map::{parse_hash, CrossMap};

#[test]
fn finds_the_original_hash() {
    let mut map = CrossMap::new(vec![vec![0, 0x10, 0x20], vec![0x30, 0x40]]);
    assert_eq!(map.get_original_hash(0x20), 0x10);
    assert_eq!(map.get_original_hash(0x40), 0x30);
    assert_eq!(map.get_original_hash(0x99), 0x99);
    assert_eq!(map.get_original_hash(0x20), 0x10);
}

#[test]
fn a_history_of_zeros_gives_the_hash_itself() {
    let mut map = CrossMap::new(vec![vec![0, 0, 7]]);
    assert_eq!(map.get_original_hash(7), 7);
}

#[test]
fn reads_hashes() {
    assert_eq!(parse_hash("0x1F"), Some(0x1F));
    assert_eq!(parse_hash("ff"), Some(0xFF));
    assert_eq!(parse_hash("0x0x10"), Some(0x10));
    assert_eq!(parse_hash("+a"), Some(0xA));
    assert_eq!(parse_hash("0x"), None);
    assert_eq!(parse_hash("0xg"), None);
    assert_eq!(parse_hash("FFFFFFFFFFFFFFFF"), Some(u64::MAX));
    assert_eq!(parse_hash("10000000000000000"), None);
}

#[test]
fn reads_key_value_pairs() {
    assert_eq!(parse_key_val("freemode:123"), Ok(("freemode".to_string(), 123)));
    assert_eq!(parse_key_val("a:b:1"), Err(ParseKeyValError::InvalidValue));
    assert_eq!(parse_key_val("abigail"), Err(ParseKeyValError::NoSeparator));
    assert_eq!(parse_key_val(":+7"), Ok((String::new(), 7)));
    assert_eq!(parse_key_val("x:"), Err(ParseKeyValError::InvalidValue));
}
