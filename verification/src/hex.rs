//! Hexadecimal text for byte strings: two lower-case digits per byte, high
//! half first. Every byte string has exactly one text, and decoding accepts
//! no other: text that was altered in any way is either no text of a byte
//! string at all or the text of other bytes.

use vstd::prelude::*;
use vstd::string::*;

verus! {

/// The digit that stands for the half-byte `n`.
pub open spec fn digit_of(n: int) -> char {
    if n < 10 {
        ('0' as int + n) as char
    } else {
        ('a' as int + n - 10) as char
    }
}

/// The half-byte that the digit `c` stands for, if `c` is a digit at all.
pub open spec fn value_of(c: char) -> Option<int> {
    if '0' <= c && c <= '9' {
        Some(c as int - '0' as int)
    } else if 'a' <= c && c <= 'f' {
        Some(c as int - 'a' as int + 10)
    } else {
        None
    }
}

/// The text of a byte string: digit `2 * i` is the high half of byte `i`,
/// digit `2 * i + 1` its low half.
pub open spec fn encode_spec(bytes: Seq<u8>) -> Seq<char> {
    Seq::new(
        2 * bytes.len(),
        |k: int|
            if k % 2 == 0 {
                digit_of(bytes[k / 2] as int / 16)
            } else {
                digit_of(bytes[k / 2] as int % 16)
            },
    )
}

/// Whether `text` is the text of some byte string: an even number of
/// characters, each of them a digit.
pub open spec fn well_formed(text: Seq<char>) -> bool {
    &&& text.len() % 2 == 0
    &&& forall|k: int| 0 <= k < text.len() ==> (#[trigger] value_of(text[k])) is Some
}

/// The byte string that `text` stands for; `None` where it stands for none.
pub open spec fn decode_spec(text: Seq<char>) -> Option<Seq<u8>> {
    if well_formed(text) {
        Some(
            Seq::new(
                text.len() / 2,
                |i: int|
                    (value_of(text[2 * i]).unwrap() * 16 + value_of(
                        text[2 * i + 1],
                    ).unwrap()) as u8,
            ),
        )
    } else {
        None
    }
}

/// Encoded text is well formed, and twice as long as the bytes are many.
pub proof fn lemma_encode_well_formed(bytes: Seq<u8>)
    ensures
        well_formed(encode_spec(bytes)),
        encode_spec(bytes).len() == 2 * bytes.len(),
{
    let text = encode_spec(bytes);
    assert forall|k: int| 0 <= k < text.len() implies (#[trigger] value_of(text[k])) is Some by {
        let b = bytes[k / 2];
        assert(0 <= b as int / 16 < 16 && 0 <= b as int % 16 < 16);
    }
}

/// Decoding undoes encoding, for every byte string.
pub proof fn lemma_decode_encode(bytes: Seq<u8>)
    ensures
        decode_spec(encode_spec(bytes)) == Some(bytes),
{
    lemma_encode_well_formed(bytes);
    let text = encode_spec(bytes);
    let back = decode_spec(text).unwrap();
    assert forall|i: int| 0 <= i < bytes.len() implies back[i] == bytes[i] by {
        let b = bytes[i];
        assert((2 * i) / 2 == i && (2 * i + 1) / 2 == i);
        assert((2 * i) % 2 == 0 && (2 * i + 1) % 2 == 1);
        assert(value_of(text[2 * i]) == Some(b as int / 16));
        assert(value_of(text[2 * i + 1]) == Some(b as int % 16));
    }
    assert(back =~= bytes);
}

/// Encoding undoes decoding: text that stands for bytes is the one text of
/// those bytes.
pub proof fn lemma_encode_decode(text: Seq<char>)
    requires
        well_formed(text),
    ensures
        decode_spec(text) is Some,
        encode_spec(decode_spec(text).unwrap()) == text,
{
    let bytes = decode_spec(text).unwrap();
    let back = encode_spec(bytes);
    assert forall|k: int| 0 <= k < text.len() implies back[k] == text[k] by {
        let i = k / 2;
        let high = value_of(text[2 * i]);
        let low = value_of(text[2 * i + 1]);
        assert(high is Some && low is Some);
        let h = high.unwrap();
        let l = low.unwrap();
        assert(0 <= h < 16 && 0 <= l < 16);
        assert(bytes[i] as int == h * 16 + l);
        assert((h * 16 + l) / 16 == h && (h * 16 + l) % 16 == l);
        assert(digit_of(h) == text[2 * i]);
        assert(digit_of(l) == text[2 * i + 1]);
    }
    assert(back =~= text);
}

/// Two different texts never stand for the same bytes.
pub proof fn lemma_decode_injective(first: Seq<char>, second: Seq<char>)
    requires
        well_formed(first),
        well_formed(second),
        decode_spec(first) == decode_spec(second),
    ensures
        first == second,
{
    lemma_encode_decode(first);
    lemma_encode_decode(second);
}

/// The one-character text of the digit for the half-byte `n`.
pub(crate) fn digit_text(n: u8) -> (text: &'static str)
    requires
        n < 16,
    ensures
        text@ == seq![digit_of(n as int)],
{
    proof {
        reveal_strlit("0");
        reveal_strlit("1");
        reveal_strlit("2");
        reveal_strlit("3");
        reveal_strlit("4");
        reveal_strlit("5");
        reveal_strlit("6");
        reveal_strlit("7");
        reveal_strlit("8");
        reveal_strlit("9");
        reveal_strlit("a");
        reveal_strlit("b");
        reveal_strlit("c");
        reveal_strlit("d");
        reveal_strlit("e");
        reveal_strlit("f");
    }
    let text = match n {
        0 => "0",
        1 => "1",
        2 => "2",
        3 => "3",
        4 => "4",
        5 => "5",
        6 => "6",
        7 => "7",
        8 => "8",
        9 => "9",
        10 => "a",
        11 => "b",
        12 => "c",
        13 => "d",
        14 => "e",
        _ => "f",
    };
    assert(text@ =~= seq![digit_of(n as int)]);
    text
}

/// Writes `bytes` as hexadecimal text.
pub fn encode(bytes: &[u8]) -> (text: String)
    ensures
        text@ == encode_spec(bytes@),
{
    let mut text = String::new();
    let mut i: usize = 0;
    while i < bytes.len()
        invariant
            i <= bytes.len(),
            text@.len() == 2 * i,
            forall|k: int| 0 <= k < 2 * i ==> text@[k] == encode_spec(bytes@)[k],
        decreases bytes.len() - i,
    {
        let b: u8 = bytes[i];
        text.append(digit_text(b / 16));
        text.append(digit_text(b % 16));
        i = i + 1;
    }
    assert(text@ =~= encode_spec(bytes@));
    text
}

/// The half-byte that the ASCII code `code` stands for as a digit.
fn half_byte(code: u8) -> (value: Option<u8>)
    requires
        code < 128,
    ensures
        match value {
            Some(v) => value_of(code as char) == Some(v as int),
            None => value_of(code as char) is None,
        },
{
    if 48 <= code && code <= 57 {
        Some(code - 48)
    } else if 97 <= code && code <= 102 {
        Some(code - 87)
    } else {
        None
    }
}

/// Reads hexadecimal text back into bytes. Text of odd length, or with a
/// character that is no lower-case digit, stands for nothing.
pub fn decode(text: &str) -> (bytes: Option<Vec<u8>>)
    ensures
        match bytes {
            Some(v) => decode_spec(text@) == Some(v@),
            None => decode_spec(text@) is None,
        },
{
    if !text.is_ascii() {
        proof {
            let k = choose|k: int| 0 <= k < text@.len() && !('\0' <= #[trigger] text@[k] <= '\u{7f}');
            assert(value_of(text@[k]) is None);
        }
        return None;
    }
    let codes: &[u8] = text.as_bytes();
    let n: usize = codes.len();
    proof {
        vstd::string::is_ascii_spec_bytes(text);
    }
    if n % 2 != 0 {
        return None;
    }
    let mut bytes: Vec<u8> = Vec::new();
    let mut i: usize = 0;
    while i < n / 2
        invariant
            n == text@.len(),
            n % 2 == 0,
            codes@.len() == n,
            forall|k: int|
                0 <= k < n ==> (#[trigger] codes@[k]) < 128 && codes@[k] as char == text@[k],
            i <= n / 2,
            bytes@.len() == i,
            forall|k: int| 0 <= k < 2 * i ==> (#[trigger] value_of(text@[k])) is Some,
            forall|j: int|
                0 <= j < i ==> bytes@[j] == (value_of(text@[2 * j]).unwrap() * 16 + value_of(
                    text@[2 * j + 1],
                ).unwrap()) as u8,
        decreases n / 2 - i,
    {
        let high_code: u8 = codes[2 * i];
        let low_code: u8 = codes[2 * i + 1];
        let high = match half_byte(high_code) {
            Some(v) => v,
            None => {
                return None;
            },
        };
        let low = match half_byte(low_code) {
            Some(v) => v,
            None => {
                return None;
            },
        };
        bytes.push(high * 16 + low);
        i = i + 1;
    }
    assert(well_formed(text@));
    assert(bytes@ =~= decode_spec(text@).unwrap());
    Some(bytes)
}

} // verus!
