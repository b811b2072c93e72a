use secloc::name::{same_bytes, trim_null_bytes};

#[test]
fn padded_name_is_cut_at_first_nul() {
    assert_eq!(trim_null_bytes(b".text\0\0\0"), b".text");
}

#[test]
fn full_width_name_is_kept_whole() {
    assert_eq!(trim_null_bytes(b"abcdefgh"), b"abcdefgh");
}

#[test]
fn empty_field_gives_empty_name() {
    assert_eq!(trim_null_bytes(b""), b"");
}

#[test]
fn all_nul_field_gives_empty_name() {
    assert_eq!(trim_null_bytes(&[0u8; 8]), b"");
}

#[test]
fn leading_nul_hides_the_rest() {
    assert_eq!(trim_null_bytes(b"\0text\0\0\0"), b"");
}

#[test]
fn bytes_behind_an_inner_nul_are_dropped() {
    assert_eq!(trim_null_bytes(b"ab\0cd\0\0\0"), b"ab");
}

#[test]
fn single_trailing_nul_is_dropped() {
    assert_eq!(trim_null_bytes(b"1234567\0"), b"1234567");
}

#[test]
fn bytes_that_are_no_text_are_kept_as_they_are() {
    let raw: [u8; 8] = [0xff, 0xfe, 0x80, 0xc0, 0x01, 0x00, 0x41, 0x42];
    assert_eq!(trim_null_bytes(&raw), &[0xff, 0xfe, 0x80, 0xc0, 0x01]);
}

#[test]
fn trimming_is_idempotent() {
    let once = trim_null_bytes(b".rdata\0\0");
    assert_eq!(trim_null_bytes(once), once);
}

#[test]
fn trimmed_name_is_a_nul_free_prefix() {
    let fields: [&[u8]; 5] = [b".text\0\0\0", b"abcdefgh", b"\0\0\0\0\0\0\0\0", b"a\0b\0c\0d\0", b""];
    for field in fields {
        let name = trim_null_bytes(field);
        assert!(name.len() <= field.len());
        assert_eq!(name, &field[..name.len()]);
        assert!(name.iter().all(|byte| *byte != 0));
        assert!(name.len() == field.len() || field[name.len()] == 0);
    }
}

#[test]
fn same_bytes_compares_byte_for_byte() {
    assert!(same_bytes(b".text", b".text"));
    assert!(same_bytes(b"", b""));
    assert!(!same_bytes(b".text", b".tex"));
    assert!(!same_bytes(b".tex", b".text"));
    assert!(!same_bytes(b".text", b".texT"));
    assert!(!same_bytes(b".text", b".data"));
    assert!(!same_bytes(b"", b"\0"));
}
