use burn_relay::hex::{decode, encode};

#[test]
fn encode_writes_two_lower_case_digits_per_byte() {
    assert_eq!(encode(&[]), "");
    assert_eq!(encode(&[0x00]), "00");
    assert_eq!(encode(&[0x0f, 0xf0]), "0ff0");
    assert_eq!(encode(&[0xde, 0xad, 0xbe, 0xef]), "deadbeef");
    assert_eq!(encode(&[0x01, 0x23, 0x45, 0x67, 0x89, 0xab, 0xcd, 0xef]), "0123456789abcdef");
    assert_eq!(encode(b"hello"), "68656c6c6f");
}

#[test]
fn decode_reads_what_encode_writes() {
    assert_eq!(decode(""), Some(vec![]));
    assert_eq!(decode("00"), Some(vec![0x00]));
    assert_eq!(decode("ff"), Some(vec![0xff]));
    assert_eq!(decode("deadbeef"), Some(vec![0xde, 0xad, 0xbe, 0xef]));
    assert_eq!(
        decode("0123456789abcdef"),
        Some(vec![0x01, 0x23, 0x45, 0x67, 0x89, 0xab, 0xcd, 0xef])
    );
}

#[test]
fn decode_refuses_upper_case() {
    assert_eq!(decode("DEADBEEF"), None);
    assert_eq!(decode("DeAdBeEf"), None);
    assert_eq!(decode("0A"), None);
    assert_eq!(decode("F0"), None);
    assert_eq!(decode("aB"), None);
}

#[test]
fn no_two_texts_stand_for_the_same_bytes() {
    let digits: Vec<char> = "0123456789abcdef".chars().collect();
    let mut seen: Vec<Vec<u8>> = Vec::new();
    for high in &digits {
        for low in &digits {
            let text: String = [*high, *low].iter().collect();
            let bytes = decode(&text).unwrap();
            assert_eq!(encode(&bytes), text);
            assert!(!seen.contains(&bytes));
            seen.push(bytes);
        }
    }
    assert_eq!(seen.len(), 256);
}

#[test]
fn decode_refuses_odd_length() {
    assert_eq!(decode("0"), None);
    assert_eq!(decode("abc"), None);
    assert_eq!(decode("deadbeef0"), None);
}

#[test]
fn decode_refuses_characters_that_are_no_digits() {
    assert_eq!(decode("0g"), None);
    assert_eq!(decode("g0"), None);
    assert_eq!(decode("0x"), None);
    assert_eq!(decode(" 0"), None);
    assert_eq!(decode("0 "), None);
    assert_eq!(decode("-1"), None);
    assert_eq!(decode("/0"), None);
    assert_eq!(decode(":0"), None);
    assert_eq!(decode("@a"), None);
    assert_eq!(decode("G0"), None);
    assert_eq!(decode("g0"), None);
    assert_eq!(decode("`a"), None);
    assert_eq!(decode("00\n\n"), None);
}

#[test]
fn decode_refuses_text_beyond_ascii() {
    assert_eq!(decode("é"), None);
    assert_eq!(decode("00é0"), None);
    assert_eq!(decode("ａｂ"), None);
    assert_eq!(decode("١٢"), None);
}

#[test]
fn decode_undoes_encode_for_every_byte() {
    let mut all: Vec<u8> = Vec::new();
    for b in 0..=255u8 {
        all.push(b);
        assert_eq!(decode(&encode(&[b])), Some(vec![b]));
    }
    let text = encode(&all);
    assert_eq!(text.len(), 512);
    assert_eq!(decode(&text), Some(all));
}

#[test]
fn encode_never_writes_upper_case() {
    let mut all: Vec<u8> = Vec::new();
    for b in 0..=255u8 {
        all.push(b);
    }
    let text = encode(&all);
    assert!(text.chars().all(|c| c.is_ascii_digit() || ('a'..='f').contains(&c)));
}
