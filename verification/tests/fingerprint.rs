use authelia_controller::fingerprint::{
    decimal, fingerprint, FNV_OFFSET_BASIS, FNV_PRIME, FNV_PRIME_INVERSE,
};

#[test]
fn the_fingerprint_of_nothing_is_the_offset_basis() {
    assert_eq!(fingerprint(""), 0xcbf2_9ce4_8422_2325);
    assert_eq!(fingerprint(""), FNV_OFFSET_BASIS);
}

#[test]
fn the_fingerprint_is_fnv_1a() {
    assert_eq!(fingerprint("a"), 0xaf63_dc4c_8601_ec8c);
    assert_eq!(fingerprint("foobar"), 0x8594_4171_f739_67e8);
}

#[test]
fn the_fingerprint_reads_utf8_bytes() {
    let mut expected: u64 = 0xcbf2_9ce4_8422_2325;
    for byte in [0xc3u8, 0xa9u8] {
        expected = (expected ^ byte as u64).wrapping_mul(0x0000_0100_0000_01b3);
    }
    assert_eq!(fingerprint("\u{e9}"), expected);
}

#[test]
fn the_same_text_has_the_same_fingerprint() {
    let text = "access_control:\n  rules: []\n";
    assert_eq!(fingerprint(text), 10737761904028433844);
    assert_eq!(fingerprint(text), fingerprint(&text.to_string()));
}

#[test]
fn one_changed_byte_changes_the_fingerprint() {
    let text = "access_control:\n  rules: []\n";
    for at in 0..text.len() {
        let mut bytes = text.as_bytes().to_vec();
        bytes[at] = if bytes[at] == b'x' { b'y' } else { b'x' };
        let changed = String::from_utf8(bytes).unwrap();
        assert_ne!(fingerprint(&changed), fingerprint(text));
    }
}

#[test]
fn the_prime_and_its_inverse_undo_each_other() {
    assert_eq!(FNV_PRIME.wrapping_mul(FNV_PRIME_INVERSE), 1);
    assert_eq!(
        0x1234_5678_9abc_def0u64
            .wrapping_mul(FNV_PRIME)
            .wrapping_mul(FNV_PRIME_INVERSE),
        0x1234_5678_9abc_def0u64
    );
}

#[test]
fn decimal_writes_numbers_without_leading_zeros() {
    assert_eq!(decimal(0), "0");
    assert_eq!(decimal(7), "7");
    assert_eq!(decimal(10), "10");
    assert_eq!(decimal(1234567890), "1234567890");
    assert_eq!(decimal(u64::MAX), "18446744073709551615");
}
