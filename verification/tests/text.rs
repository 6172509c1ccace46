use agent_flock::text::{push_decimal, push_hex, push_signed_decimal, word_bytes};

#[test]
fn decimal_notation() {
    for (n, expected) in [(0, "0"), (7, "7"), (10, "10"), (1000, "1000"), (u64::MAX, "18446744073709551615")] {
        let mut text = String::new();
        push_decimal(&mut text, n);
        assert_eq!(text, expected);
    }
    let mut text = String::from("uid=");
    push_decimal(&mut text, 501);
    assert_eq!(text, "uid=501");
}

#[test]
fn signed_decimal_notation() {
    let mut text = String::new();
    push_signed_decimal(&mut text, -42);
    assert_eq!(text, "-42");
    let mut text = String::new();
    push_signed_decimal(&mut text, i64::MIN);
    assert_eq!(text, "-9223372036854775808");
    let mut text = String::new();
    push_signed_decimal(&mut text, 0);
    assert_eq!(text, "0");
}

#[test]
fn hex_notation() {
    let mut text = String::from(">");
    push_hex(&mut text, &[0xde, 0xad, 0x01]);
    assert_eq!(text, ">dead01");
}

#[test]
fn ascii_word_bytes() {
    assert_eq!(word_bytes("--lock"), b"--lock".to_vec());
    assert_eq!(word_bytes(""), Vec::<u8>::new());
}
