//! The argv convention of spawned children, the decimal descriptor
//! codec, relocatable code pointers, and the spawn sanity gate.

use procfab::reloc::{decode_code_addr, encode_code_addr};
use procfab::spawn::{
    format_u64_dec, parse_spawn_argv, parse_u64_dec, spawn_allowed, SPAWN_TOKEN,
    SPAWN_TOKEN_LEGACY,
};

#[test]
fn decimal_format() {
    assert_eq!(format_u64_dec(0), "0");
    assert_eq!(format_u64_dec(7), "7");
    assert_eq!(format_u64_dec(12345), "12345");
    assert_eq!(format_u64_dec(u64::MAX), "18446744073709551615");
}

#[test]
fn decimal_parse() {
    assert_eq!(parse_u64_dec("0"), Some(0));
    assert_eq!(parse_u64_dec("42"), Some(42));
    assert_eq!(parse_u64_dec("00042"), Some(42));
    assert_eq!(parse_u64_dec("18446744073709551615"), Some(u64::MAX));
    assert_eq!(parse_u64_dec("18446744073709551616"), None);
    assert_eq!(parse_u64_dec("99999999999999999999999"), None);
    assert_eq!(parse_u64_dec(""), None);
    assert_eq!(parse_u64_dec("12a"), None);
    assert_eq!(parse_u64_dec("-3"), None);
    assert_eq!(parse_u64_dec(" 3"), None);
}

#[test]
fn decimal_round_trip() {
    for n in [0u64, 1, 9, 10, 99, 100, 4096, u64::MAX] {
        assert_eq!(parse_u64_dec(&format_u64_dec(n)), Some(n));
    }
}

#[test]
fn argv_routing() {
    let token = String::from(SPAWN_TOKEN);
    let legacy = String::from(SPAWN_TOKEN_LEGACY);
    let fd = String::from("5");
    assert_eq!(parse_spawn_argv(&token, &fd), Some(5));
    assert_eq!(parse_spawn_argv(&legacy, &fd), Some(5));
    assert_eq!(parse_spawn_argv(&String::from("./a.out"), &fd), None);
    assert_eq!(parse_spawn_argv(&String::from("_crossmist"), &fd), None);
    assert_eq!(parse_spawn_argv(&token, &String::from("x")), None);
}

#[test]
fn relocation_identity_same_anchor() {
    // Serializing and deserializing a code address in one process: the
    // same anchor on both sides gives the address back exactly.
    for (addr, anchor) in [
        (0usize, 0usize),
        (5, usize::MAX),
        (usize::MAX, 5),
        (0x5555_0000, 0x1000),
        (0x1000, 0x5555_0000),
    ] {
        let off = encode_code_addr(addr, anchor);
        assert_eq!(decode_code_addr(off, anchor), addr);
    }
}

#[test]
fn relocation_survives_rebase() {
    // The same image loaded at two bases: the offset computed in one
    // process resolves, against the other process's anchor, to the same
    // displacement from its base.
    let base_a = 0x5555_0000_0000usize;
    let base_b = 0x7fff_1234_0000usize;
    let func_disp = 0x1d2c8usize;
    let anchor_disp = 0x9a10usize;
    let off = encode_code_addr(base_a + func_disp, base_a + anchor_disp);
    let resolved = decode_code_addr(off, base_b + anchor_disp);
    assert_eq!(resolved, base_b + func_disp);
}

#[test]
fn sanity_gate() {
    assert!(spawn_allowed(true, false));
    assert!(!spawn_allowed(false, false));
    assert!(!spawn_allowed(true, true));
    assert!(!spawn_allowed(false, true));
}
