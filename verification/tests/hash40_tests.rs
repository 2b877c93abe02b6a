use arcropolis_api::{hash40, Hash40};

#[test]
fn hash40_of_empty_string_is_zero() {
    assert_eq!(hash40(""), Hash40(0));
}

#[test]
fn hash40_known_values() {
    assert_eq!(hash40("fighter"), Hash40(0x7_7a08_c3fc));
    assert_eq!(
        hash40("fighter/mario/model/body/c00/model.numdlb"),
        Hash40(0x29_1190_785f)
    );
    assert_eq!(
        hash40("stream:/sound/bgm/bgm_crs2_01_sekiei.nus3audio"),
        Hash40(0x2e_4b9a_c726)
    );
    assert_eq!(hash40("hello world").as_u64(), 0xb_0d4a_1185);
}

#[test]
fn hash40_counts_utf8_bytes() {
    // "é" is one char but two UTF-8 bytes.
    let h = hash40("\u{e9}");
    assert_eq!(h, Hash40(0x2_0e04_8d3e));
    assert_eq!(h.len(), 2);
}

#[test]
fn hash40_fields_read_back() {
    let h = hash40("fighter");
    assert_eq!(h.len(), 7);
    assert_eq!(h.crc32(), 0x7a08_c3fc);
    let a = hash40("a");
    assert_eq!(a.len(), 1);
    assert_eq!(a.crc32(), 0xe8b7_be43);
}

#[test]
fn hash40_len_truncates_to_a_byte() {
    let long = "x".repeat(300);
    let h = hash40(&long);
    assert_eq!(h.as_u64(), 0x12c_1b43_2d13);
    assert_eq!(h.len(), 44);
    assert_eq!(h.crc32(), 0x1b43_2d13);
}

#[test]
fn getters_on_raw_value() {
    let h = Hash40(0xdead_beef_0123_4567);
    assert_eq!(h.as_u64(), 0xdead_beef_0123_4567);
    assert_eq!(h.len(), 0xef);
    assert_eq!(h.crc32(), 0x0123_4567);
}

#[test]
fn from_u64_round_trip() {
    let x: u64 = 0x12_3456_789a;
    assert_eq!(Hash40::from(x).as_u64(), x);
    let h = Hash40(77);
    assert_eq!(Hash40::from(h.as_u64()), h);
}

#[test]
fn from_str_agrees_with_hash40() {
    assert_eq!(Hash40::from("fighter"), hash40("fighter"));
    let into: Hash40 = "a".into();
    assert_eq!(into, hash40("a"));
}

#[test]
fn from_reference_copies() {
    let h = Hash40(5);
    assert_eq!(Hash40::from(&h), h);
}

#[test]
fn same_length_and_crc_give_same_hash() {
    let a = hash40("fighter");
    let b = hash40(&String::from("fighter"));
    assert_eq!(a, b);
    assert_ne!(hash40("fighter"), hash40("fightes"));
}

#[test]
fn hashes_order_by_raw_value() {
    assert!(Hash40(1) < Hash40(2));
    assert!(hash40("a") > hash40(""));
}

#[test]
fn crc32_check_value() {
    // The catalogue check value of CRC-32 (IEEE) is 0xCBF43926.
    let h = hash40("123456789");
    assert_eq!(h.crc32(), 0xcbf4_3926);
    assert_eq!(h, Hash40(0x9_cbf4_3926));
}

#[test]
fn crc32_is_affine_over_xor() {
    // "ab" ^ "AB" ^ "  " == "ab" bytewise with 0x20 flips: a^A = 0x20, ^0x20 = 0.
    let a = hash40("ab").crc32();
    let b = hash40("AB").crc32();
    let c = hash40("  ").crc32();
    let x = hash40("\0\0").crc32();
    assert_eq!(a ^ b ^ c, x);
}
