//! Upper-case hex text for byte payloads, with an exact inverse.
//!
//! Obfuscated identifiers and packed entry payloads travel inside generated
//! source text as hex strings: two digits per byte, high nibble first, upper
//! case.  Decoding accepts either letter case and rejects everything else.

use vstd::prelude::*;
use vstd::string::StrSliceExecFns;
use crate::errors::EncodingError;

verus! {

/// The hex digit character of a nibble, upper case.
pub open spec fn hex_digit(n: u8) -> char
    recommends
        n < 16,
{
    if n == 0 {
        '0'
    } else if n == 1 {
        '1'
    } else if n == 2 {
        '2'
    } else if n == 3 {
        '3'
    } else if n == 4 {
        '4'
    } else if n == 5 {
        '5'
    } else if n == 6 {
        '6'
    } else if n == 7 {
        '7'
    } else if n == 8 {
        '8'
    } else if n == 9 {
        '9'
    } else if n == 10 {
        'A'
    } else if n == 11 {
        'B'
    } else if n == 12 {
        'C'
    } else if n == 13 {
        'D'
    } else if n == 14 {
        'E'
    } else {
        'F'
    }
}

/// The value of one hex digit character, either case, or nothing.
pub open spec fn hex_val(c: char) -> Option<u8> {
    let v = c as int;
    if 48 <= v && v <= 57 {
        Some((v - 48) as u8)
    } else if 65 <= v && v <= 70 {
        Some((v - 55) as u8)
    } else if 97 <= v && v <= 102 {
        Some((v - 87) as u8)
    } else {
        None
    }
}

/// The upper-case hex text of a byte sequence.
pub open spec fn hex_of(b: Seq<u8>) -> Seq<char> {
    Seq::new(
        2 * b.len(),
        |i: int|
            if i % 2 == 0 {
                hex_digit((b[i / 2] / 16) as u8)
            } else {
                hex_digit((b[i / 2] % 16) as u8)
            },
    )
}

/// The bytes a hex text stands for, or nothing when a character is no hex
/// digit or the length is odd.
pub open spec fn hex_parse(s: Seq<char>) -> Option<Seq<u8>>
    decreases s.len(),
{
    if s.len() % 2 != 0 {
        None
    } else if s.len() == 0 {
        Some(Seq::empty())
    } else {
        match (hex_val(s[0]), hex_val(s[1]), hex_parse(s.skip(2))) {
            (Some(h), Some(l), Some(rest)) => Some(seq![(h * 16 + l) as u8] + rest),
            _ => None,
        }
    }
}

/// The hex digit of a nibble, as a one-character string slice.
pub(crate) fn hex_digit_str(n: u8) -> (d: &'static str)
    requires
        n < 16,
    ensures
        d@ == seq![hex_digit(n)],
{
    proof {
        reveal_strlit("0");
        reveal_strlit("1");
        reveal_strlit("2");
        reveal_strlit("3");
        reveal_strlit("4");
        reveal_strlit("5");
        reveal_strlit("6");
        reveal_strlit("7");
        reveal_strlit("8");
        reveal_strlit("9");
        reveal_strlit("A");
        reveal_strlit("B");
        reveal_strlit("C");
        reveal_strlit("D");
        reveal_strlit("E");
        reveal_strlit("F");
    }
    if n == 0 {
        "0"
    } else if n == 1 {
        "1"
    } else if n == 2 {
        "2"
    } else if n == 3 {
        "3"
    } else if n == 4 {
        "4"
    } else if n == 5 {
        "5"
    } else if n == 6 {
        "6"
    } else if n == 7 {
        "7"
    } else if n == 8 {
        "8"
    } else if n == 9 {
        "9"
    } else if n == 10 {
        "A"
    } else if n == 11 {
        "B"
    } else if n == 12 {
        "C"
    } else if n == 13 {
        "D"
    } else if n == 14 {
        "E"
    } else {
        "F"
    }
}

/// Render a byte sequence as upper-case hex text.
pub fn hex_encode_upper(data: &Vec<u8>) -> (out: String)
    ensures
        out@ == hex_of(data@),
{
    let mut out = String::new();
    let mut i: usize = 0;
    while i < data.len()
        invariant
            i <= data@.len(),
            out@ == hex_of(data@.take(i as int)),
        decreases data@.len() - i,
    {
        let b = data[i];
        out.append(hex_digit_str(b / 16));
        out.append(hex_digit_str(b % 16));
        i = i + 1;
        proof {
            assert(out@ =~= hex_of(data@.take(i as int)));
        }
    }
    proof {
        assert(data@.take(data@.len() as int) =~= data@);
    }
    out
}

/// Parsing an even-length hex prefix and a remainder separately agrees with
/// parsing their concatenation.
proof fn lemma_hex_parse_append(a: Seq<char>, b: Seq<char>)
    requires
        a.len() % 2 == 0,
    ensures
        hex_parse(a + b) == match (hex_parse(a), hex_parse(b)) {
            (Some(x), Some(y)) => Some::<Seq<u8>>(x + y),
            _ => None::<Seq<u8>>,
        },
    decreases a.len(),
{
    assert((a + b).len() % 2 == b.len() % 2) by {
        assert(a.len() % 2 == 0);
    }
    if a.len() == 0 {
        assert(a + b =~= b);
        if hex_parse(b) is Some {
            assert(hex_parse(a) == Some(Seq::<u8>::empty()));
            assert(Seq::<u8>::empty() + hex_parse(b).unwrap() =~= hex_parse(b).unwrap());
        }
    } else {
        let rest = a.skip(2);
        assert((a + b).skip(2) =~= rest + b);
        lemma_hex_parse_append(rest, b);
        if b.len() % 2 != 0 {
            assert(hex_parse(a + b) is None);
            assert(hex_parse(b) is None);
        } else {
            assert((a + b)[0] == a[0] && (a + b)[1] == a[1]);
            match (hex_val(a[0]), hex_val(a[1]), hex_parse(rest), hex_parse(b)) {
                (Some(h), Some(l), Some(x), Some(y)) => {
                    assert(hex_parse(a) == Some(seq![(h * 16 + l) as u8] + x));
                    assert(hex_parse(a + b) == Some(seq![(h * 16 + l) as u8] + (x + y)));
                    assert(seq![(h * 16 + l) as u8] + (x + y) =~= (seq![(h * 16 + l) as u8] + x)
                        + y);
                },
                _ => {},
            }
        }
    }
}

/// Turn hex text back into bytes; accepts both letter cases.
pub fn hex_decode(s: &str) -> (r: Result<Vec<u8>, EncodingError>)
    ensures
        hex_parse(s@) matches Some(b) ==> (r matches Ok(v) && v@ == b),
        hex_parse(s@) is None ==> (r matches Err(e) && e == EncodingError::BadHex),
{
    let n = s.unicode_len();
    if n % 2 != 0 {
        return Err(EncodingError::BadHex);
    }
    let mut out: Vec<u8> = Vec::new();
    let mut i: usize = 0;
    while i < n
        invariant
            n == s@.len(),
            n % 2 == 0,
            i % 2 == 0,
            i <= n,
            hex_parse(s@.take(i as int)) == Some(out@),
        decreases n - i,
    {
        let c0 = s.get_char(i);
        let c1 = s.get_char(i + 1);
        let v0 = hex_val_exec(c0);
        let v1 = hex_val_exec(c1);
        match (v0, v1) {
            (Some(h), Some(l)) => {
                out.push(h * 16 + l);
                i = i + 2;
                proof {
                    let pre = s@.take(i - 2);
                    let pair = seq![s@[i - 2], s@[i - 1]];
                    assert(pair.len() == 2 && pair[0] == c0 && pair[1] == c1);
                    assert(pair.skip(2) =~= Seq::<char>::empty());
                    assert(hex_parse(pair.skip(2)) == Some(Seq::<u8>::empty()));
                    assert(seq![(h * 16 + l) as u8] + Seq::<u8>::empty() =~= seq![
                        (h * 16 + l) as u8,
                    ]);
                    assert(hex_parse(pair) == Some(seq![(h * 16 + l) as u8]));
                    lemma_hex_parse_append(pre, pair);
                    assert(pre + pair =~= s@.take(i as int));
                    assert(out@ =~= hex_parse(pre).unwrap() + seq![(h * 16 + l) as u8]);
                    assert(hex_parse(s@.take(i as int)) == Some(out@));
                }
            },
            _ => {
                proof {
                    lemma_hex_parse_append(s@.take(i as int), s@.skip(i as int));
                    assert(s@.take(i as int) + s@.skip(i as int) =~= s@);
                    assert(hex_parse(s@.skip(i as int)) is None);
                }
                return Err(EncodingError::BadHex);
            },
        }
    }
    proof {
        assert(s@.take(n as int) =~= s@);
    }
    Ok(out)
}

/// The value of one hex digit character, either case.
fn hex_val_exec(c: char) -> (r: Option<u8>)
    ensures
        r == hex_val(c),
{
    let v = c as u32;
    if 48 <= v && v <= 57 {
        Some((v - 48) as u8)
    } else if 65 <= v && v <= 70 {
        Some((v - 55) as u8)
    } else if 97 <= v && v <= 102 {
        Some((v - 87) as u8)
    } else {
        None
    }
}

/// Hex round trip: parsing the rendered hex text of any byte sequence gives
/// that sequence back.
pub proof fn lemma_hex_round_trip(b: Seq<u8>)
    ensures
        hex_parse(hex_of(b)) == Some(b),
    decreases b.len(),
{
    let s = hex_of(b);
    if b.len() == 0 {
        assert(s.len() == 0);
    } else {
        let h = (b[0] / 16) as u8;
        let l = (b[0] % 16) as u8;
        assert(s[0] == hex_digit(h) && s[1] == hex_digit(l));
        assert(hex_val(hex_digit(h)) == Some(h));
        assert(hex_val(hex_digit(l)) == Some(l));
        assert(s.skip(2) =~= hex_of(b.skip(1)));
        lemma_hex_round_trip(b.skip(1));
        assert(h * 16 + l == b[0]);
        assert(seq![b[0]] + b.skip(1) =~= b);
    }
}

} // verus!
