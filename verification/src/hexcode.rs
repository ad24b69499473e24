//! Hexadecimal encoding and decoding of byte strings.
//!
//! Content keys travel over the API as hex text; decoding validates a path
//! parameter, encoding renders keys and transaction hashes in responses.

use vstd::prelude::*;

verus! {

/// Numeric value of one hexadecimal digit character; both cases are accepted.
pub open spec fn hex_digit_value(c: char) -> Option<u8> {
    if c == '0' {
        Some(0u8)
    } else if c == '1' {
        Some(1u8)
    } else if c == '2' {
        Some(2u8)
    } else if c == '3' {
        Some(3u8)
    } else if c == '4' {
        Some(4u8)
    } else if c == '5' {
        Some(5u8)
    } else if c == '6' {
        Some(6u8)
    } else if c == '7' {
        Some(7u8)
    } else if c == '8' {
        Some(8u8)
    } else if c == '9' {
        Some(9u8)
    } else if c == 'a' || c == 'A' {
        Some(10u8)
    } else if c == 'b' || c == 'B' {
        Some(11u8)
    } else if c == 'c' || c == 'C' {
        Some(12u8)
    } else if c == 'd' || c == 'D' {
        Some(13u8)
    } else if c == 'e' || c == 'E' {
        Some(14u8)
    } else if c == 'f' || c == 'F' {
        Some(15u8)
    } else {
        None
    }
}

/// A character sequence is hexadecimal when every character is a hex digit.
pub open spec fn is_hex_str(s: Seq<char>) -> bool {
    forall|i: int| 0 <= i < s.len() ==> hex_digit_value(s[i]) is Some
}

/// Byte encoded by a pair of hex digits, high digit first.
pub open spec fn hex_pair_value(hi: char, lo: char) -> u8 {
    (hex_digit_value(hi).unwrap() * 16 + hex_digit_value(lo).unwrap()) as u8
}

/// Bytes denoted by an even-length hexadecimal character sequence.
pub open spec fn hex_decoded(s: Seq<char>) -> Seq<u8>
    decreases s.len(),
{
    if s.len() < 2 {
        Seq::empty()
    } else {
        hex_decoded(s.take(s.len() - 2)) + seq![hex_pair_value(s[s.len() - 2], s[s.len() - 1])]
    }
}

/// Lower-case hex digit character for a value below sixteen.
pub open spec fn hex_char_of(v: u8) -> char {
    if v == 0 {
        '0'
    } else if v == 1 {
        '1'
    } else if v == 2 {
        '2'
    } else if v == 3 {
        '3'
    } else if v == 4 {
        '4'
    } else if v == 5 {
        '5'
    } else if v == 6 {
        '6'
    } else if v == 7 {
        '7'
    } else if v == 8 {
        '8'
    } else if v == 9 {
        '9'
    } else if v == 10 {
        'a'
    } else if v == 11 {
        'b'
    } else if v == 12 {
        'c'
    } else if v == 13 {
        'd'
    } else if v == 14 {
        'e'
    } else {
        'f'
    }
}

/// Lower-case hexadecimal rendering of a byte sequence, two digits per byte.
pub open spec fn hex_of(b: Seq<u8>) -> Seq<char>
    decreases b.len(),
{
    if b.len() == 0 {
        Seq::empty()
    } else {
        hex_of(b.drop_last()) + seq![
            hex_char_of(b.last() / 16),
            hex_char_of(b.last() % 16),
        ]
    }
}

/// Value of one hexadecimal digit character, or `None` for any other character.
pub fn digit_val(c: char) -> (r: Option<u8>)
    ensures
        r == hex_digit_value(c),
        r matches Some(v) ==> v < 16,
{
    match c {
        '0' => Some(0),
        '1' => Some(1),
        '2' => Some(2),
        '3' => Some(3),
        '4' => Some(4),
        '5' => Some(5),
        '6' => Some(6),
        '7' => Some(7),
        '8' => Some(8),
        '9' => Some(9),
        'a' | 'A' => Some(10),
        'b' | 'B' => Some(11),
        'c' | 'C' => Some(12),
        'd' | 'D' => Some(13),
        'e' | 'E' => Some(14),
        'f' | 'F' => Some(15),
        _ => None,
    }
}

/// One-character string holding the lower-case hex digit for `v`. Values
/// below ten give the decimal digit characters.
pub(crate) fn hex_char_str(v: u8) -> (r: &'static str)
    requires
        v < 16,
    ensures
        r@ =~= seq![hex_char_of(v)],
{
    proof {
        reveal_strlit("0");
        reveal_strlit("1");
        reveal_strlit("2");
        reveal_strlit("3");
        reveal_strlit("4");
        reveal_strlit("5");
        reveal_strlit("6");
        reveal_strlit("7");
        reveal_strlit("8");
        reveal_strlit("9");
        reveal_strlit("a");
        reveal_strlit("b");
        reveal_strlit("c");
        reveal_strlit("d");
        reveal_strlit("e");
        reveal_strlit("f");
    }
    match v {
        0 => "0",
        1 => "1",
        2 => "2",
        3 => "3",
        4 => "4",
        5 => "5",
        6 => "6",
        7 => "7",
        8 => "8",
        9 => "9",
        10 => "a",
        11 => "b",
        12 => "c",
        13 => "d",
        14 => "e",
        _ => "f",
    }
}

/// Decodes a hexadecimal string into bytes; rejects odd length and
/// non-hex characters, exactly.
pub fn decode_hex(s: &str) -> (r: Option<Vec<u8>>)
    ensures
        (r is Some) <==> (s@.len() % 2 == 0 && is_hex_str(s@)),
        r matches Some(b) ==> b@ == hex_decoded(s@) && b@.len() * 2 == s@.len(),
{
    let n = s.unicode_len();
    if n % 2 != 0 {
        return None;
    }
    let mut out: Vec<u8> = Vec::new();
    let mut i: usize = 0;
    while i < n
        invariant
            n == s@.len(),
            n % 2 == 0,
            i % 2 == 0,
            i <= n,
            forall|j: int| 0 <= j < i ==> hex_digit_value(s@[j]) is Some,
            out@ == hex_decoded(s@.take(i as int)),
            out@.len() * 2 == i,
        decreases n - i,
    {
        let hi = match digit_val(s.get_char(i)) {
            Some(v) => v,
            None => {
                return None;
            },
        };
        let lo = match digit_val(s.get_char(i + 1)) {
            Some(v) => v,
            None => {
                return None;
            },
        };
        out.push(hi * 16 + lo);
        proof {
            let t = s@.take(i + 2);
            assert(t.take(t.len() - 2) =~= s@.take(i as int));
            assert(out@ =~= hex_decoded(s@.take(i + 2)));
        }
        i += 2;
    }
    proof {
        assert(s@.take(n as int) =~= s@);
    }
    Some(out)
}

/// Encodes bytes as a lower-case hexadecimal string.
pub fn encode_hex(b: &Vec<u8>) -> (r: String)
    ensures
        r@ == hex_of(b@),
{
    let mut out = String::new();
    let mut i: usize = 0;
    while i < b.len()
        invariant
            i <= b@.len(),
            out@ == hex_of(b@.take(i as int)),
        decreases b@.len() - i,
    {
        let v = b[i];
        out.append(hex_char_str(v / 16));
        out.append(hex_char_str(v % 16));
        proof {
            let t = b@.take(i + 1);
            assert(t.drop_last() =~= b@.take(i as int));
            assert(t.last() == b@[i as int]);
            assert(out@ =~= hex_of(b@.take(i + 1)));
        }
        i += 1;
    }
    proof {
        assert(b@.take(b@.len() as int) =~= b@);
    }
    out
}

/// Encoding then decoding gives the bytes back: the hex rendering of any byte
/// sequence is a valid even-length hex string and denotes exactly that
/// sequence.
pub proof fn lemma_hex_round_trip(b: Seq<u8>)
    ensures
        hex_of(b).len() == 2 * b.len(),
        is_hex_str(hex_of(b)),
        hex_decoded(hex_of(b)) == b,
    decreases b.len(),
{
    if b.len() == 0 {
        assert(hex_decoded(hex_of(b)) =~= b);
    } else {
        lemma_hex_round_trip(b.drop_last());
        let s = hex_of(b);
        let hi = hex_char_of(b.last() / 16);
        let lo = hex_char_of(b.last() % 16);
        assert(s.take(s.len() - 2) =~= hex_of(b.drop_last()));
        assert(s[s.len() - 2] == hi && s[s.len() - 1] == lo);
        assert(hex_digit_value(hi) == Some((b.last() / 16) as u8));
        assert(hex_digit_value(lo) == Some((b.last() % 16) as u8));
        assert(hex_pair_value(hi, lo) == b.last());
        assert forall|i: int| 0 <= i < s.len() implies hex_digit_value(s[i]) is Some by {
            if i < s.len() - 2 {
                assert(s[i] == hex_of(b.drop_last())[i]);
            }
        }
        assert(hex_decoded(s) =~= b);
    }
}

} // verus!
