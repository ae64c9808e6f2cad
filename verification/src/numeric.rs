//! Decimal rendering and parsing of 64-bit integers, with the guarantee that
//! rendering an integer and parsing the result gives the integer back.

use vstd::prelude::*;
use vstd::arithmetic::div_mod::lemma_fundamental_div_mod;
use vstd::string::{StringExecFns, StringSliceAdditionalSpecFns};

verus! {

/// The decimal digit character for `d`.
pub open spec fn digit_char(d: int) -> char {
    if d == 0 {
        '0'
    } else if d == 1 {
        '1'
    } else if d == 2 {
        '2'
    } else if d == 3 {
        '3'
    } else if d == 4 {
        '4'
    } else if d == 5 {
        '5'
    } else if d == 6 {
        '6'
    } else if d == 7 {
        '7'
    } else if d == 8 {
        '8'
    } else {
        '9'
    }
}

pub open spec fn is_digit_char(c: char) -> bool {
    '0' <= c && c <= '9'
}

/// The numeric value of a decimal digit character.
pub open spec fn digit_val(c: char) -> int {
    c as int - 48
}

pub open spec fn all_digits(s: Seq<char>) -> bool {
    forall|i: int| 0 <= i < s.len() ==> is_digit_char(#[trigger] s[i])
}

/// The decimal digit string of a natural number, most significant digit
/// first, with no leading zeros (except for the number 0 itself).
pub open spec fn dec_digits(n: nat) -> Seq<char>
    decreases n,
{
    if n < 10 {
        seq![digit_char(n as int)]
    } else {
        dec_digits(n / 10) + seq![digit_char((n % 10) as int)]
    }
}

/// The decimal rendering of an integer: the digit string, with a leading
/// minus sign when the integer is negative.
pub open spec fn render_int(v: int) -> Seq<char> {
    if v >= 0 {
        dec_digits(v as nat)
    } else {
        seq!['-'] + dec_digits((-v) as nat)
    }
}

/// The numeric value of a digit string, most significant digit first.
pub open spec fn digits_val(s: Seq<char>) -> int
    decreases s.len(),
{
    if s.len() == 0 {
        0
    } else {
        digits_val(s.drop_last()) * 10 + digit_val(s.last())
    }
}

/// What parsing a string as a 64-bit integer yields: an optional `+` or `-`
/// sign followed by at least one decimal digit, with the value within the
/// `i64` range; anything else is rejected.
pub open spec fn parse_int_spec(s: Seq<char>) -> Option<i64> {
    let signed = s.len() > 0 && (s[0] == '-' || s[0] == '+');
    let neg = s.len() > 0 && s[0] == '-';
    let rest = if signed {
        s.drop_first()
    } else {
        s
    };
    if rest.len() == 0 || !all_digits(rest) {
        None
    } else {
        let v = if neg {
            -digits_val(rest)
        } else {
            digits_val(rest)
        };
        if i64::MIN <= v <= i64::MAX {
            Some(v as i64)
        } else {
            None
        }
    }
}

fn digit_str(d: u64) -> (r: &'static str)
    requires
        d < 10,
    ensures
        r@ == seq![digit_char(d as int)],
{
    if d == 0 {
        proof {
            reveal_strlit("0");
            assert("0"@ =~= seq![digit_char(0int)]);
        }
        "0"
    } else if d == 1 {
        proof {
            reveal_strlit("1");
            assert("1"@ =~= seq![digit_char(1int)]);
        }
        "1"
    } else if d == 2 {
        proof {
            reveal_strlit("2");
            assert("2"@ =~= seq![digit_char(2int)]);
        }
        "2"
    } else if d == 3 {
        proof {
            reveal_strlit("3");
            assert("3"@ =~= seq![digit_char(3int)]);
        }
        "3"
    } else if d == 4 {
        proof {
            reveal_strlit("4");
            assert("4"@ =~= seq![digit_char(4int)]);
        }
        "4"
    } else if d == 5 {
        proof {
            reveal_strlit("5");
            assert("5"@ =~= seq![digit_char(5int)]);
        }
        "5"
    } else if d == 6 {
        proof {
            reveal_strlit("6");
            assert("6"@ =~= seq![digit_char(6int)]);
        }
        "6"
    } else if d == 7 {
        proof {
            reveal_strlit("7");
            assert("7"@ =~= seq![digit_char(7int)]);
        }
        "7"
    } else if d == 8 {
        proof {
            reveal_strlit("8");
            assert("8"@ =~= seq![digit_char(8int)]);
        }
        "8"
    } else {
        proof {
            reveal_strlit("9");
            assert("9"@ =~= seq![digit_char(9int)]);
        }
        "9"
    }
}

/// Renders a natural number in decimal.
pub fn u64_to_string(n: u64) -> (r: String)
    ensures
        r@ == dec_digits(n as nat),
    decreases n,
{
    if n < 10 {
        digit_str(n).to_owned()
    } else {
        let mut prefix = u64_to_string(n / 10);
        prefix.append(digit_str(n % 10));
        prefix
    }
}

/// Renders a 64-bit integer in decimal.
pub fn render_i64(v: i64) -> (r: String)
    ensures
        r@ == render_int(v as int),
{
    if v >= 0 {
        u64_to_string(v as u64)
    } else {
        let mag: u64 = (-(v as i128)) as u64;
        let mut out = "-".to_owned();
        let digits = u64_to_string(mag);
        out.append(digits.as_str());
        proof {
            reveal_strlit("-");
            assert("-"@ =~= seq!['-']);
        }
        out
    }
}


/// The digit string of a natural number consists of decimal digits.
proof fn lemma_dec_digits_are_digits(n: nat)
    ensures
        dec_digits(n).len() >= 1,
        all_digits(dec_digits(n)),
    decreases n,
{
    if n >= 10 {
        lemma_dec_digits_are_digits(n / 10);
    }
}

/// Reading the digit string of a natural number back gives the number.
proof fn lemma_digits_val_dec_digits(n: nat)
    ensures
        digits_val(dec_digits(n)) == n,
    decreases n,
{
    if n < 10 {
        assert(dec_digits(n) =~= seq![digit_char(n as int)]);
        assert(dec_digits(n).drop_last() =~= Seq::<char>::empty());
        assert(digits_val(Seq::<char>::empty()) == 0);
    } else {
        lemma_digits_val_dec_digits(n / 10);
        let s = dec_digits(n);
        assert(s.drop_last() =~= dec_digits(n / 10));
        assert(s.last() == digit_char((n % 10) as int));
        lemma_fundamental_div_mod(n as int, 10);
    }
}

/// Rendering any 64-bit integer and parsing the result reproduces the exact
/// integer: the decimal text round trip is lossless.
pub proof fn lemma_int_text_round_trip(v: i64)
    ensures
        parse_int_spec(render_int(v as int)) == Some(v),
{
    if v >= 0 {
        let s = dec_digits(v as nat);
        lemma_dec_digits_are_digits(v as nat);
        lemma_digits_val_dec_digits(v as nat);
        assert(is_digit_char(s[0]));
        assert(s[0] != '-' && s[0] != '+');
        assert(parse_int_spec(s) == Some(v));
    } else {
        let mag = (-(v as int)) as nat;
        let s = seq!['-'] + dec_digits(mag);
        lemma_dec_digits_are_digits(mag);
        lemma_digits_val_dec_digits(mag);
        assert(s[0] == '-');
        assert(s.drop_first() =~= dec_digits(mag));
        assert(parse_int_spec(s) == Some(v));
    }
}

/// The parse, restated over the ASCII bytes of the text.
pub open spec fn is_digit_byte(b: u8) -> bool {
    48 <= b <= 57
}

pub open spec fn all_digit_bytes(s: Seq<u8>) -> bool {
    forall|i: int| 0 <= i < s.len() ==> is_digit_byte(#[trigger] s[i])
}

pub open spec fn bdigits_val(s: Seq<u8>) -> int
    decreases s.len(),
{
    if s.len() == 0 {
        0
    } else {
        bdigits_val(s.drop_last()) * 10 + (s.last() - 48)
    }
}

pub open spec fn parse_bytes_spec(s: Seq<u8>) -> Option<i64> {
    let signed = s.len() > 0 && (s[0] == 45 || s[0] == 43);
    let neg = s.len() > 0 && s[0] == 45;
    let rest = if signed {
        s.drop_first()
    } else {
        s
    };
    if rest.len() == 0 || !all_digit_bytes(rest) {
        None
    } else {
        let v = if neg {
            -bdigits_val(rest)
        } else {
            bdigits_val(rest)
        };
        if i64::MIN <= v <= i64::MAX {
            Some(v as i64)
        } else {
            None
        }
    }
}

/// The bytes of an ASCII character sequence, one byte per character.
pub open spec fn byte_seq(cs: Seq<char>) -> Seq<u8> {
    Seq::new(cs.len(), |i: int| cs[i] as u8)
}

/// A digit-byte string never has a negative value.
proof fn lemma_bdigits_val_nonneg(s: Seq<u8>)
    requires
        all_digit_bytes(s),
    ensures
        bdigits_val(s) >= 0,
    decreases s.len(),
{
    if s.len() > 0 {
        assert(all_digit_bytes(s.drop_last())) by {
            assert(forall|i: int| 0 <= i < s.len() - 1 ==> s.drop_last()[i] == #[trigger] s[i]);
        }
        lemma_bdigits_val_nonneg(s.drop_last());
    }
}

/// Extending a digit-byte string can only grow its value.
proof fn lemma_bdigits_val_monotone(s: Seq<u8>, k: int)
    requires
        all_digit_bytes(s),
        0 <= k <= s.len(),
    ensures
        bdigits_val(s) >= bdigits_val(s.take(k)),
    decreases s.len() - k,
{
    if k < s.len() {
        assert(all_digit_bytes(s.take(k))) by {
            assert(forall|i: int| 0 <= i < k ==> s.take(k)[i] == #[trigger] s[i]);
        }
        lemma_bdigits_val_nonneg(s.take(k));
        assert(s.take(k + 1).drop_last() =~= s.take(k));
        assert(s.take(k + 1).last() == s[k]);
        assert(bdigits_val(s.take(k + 1)) == bdigits_val(s.take(k)) * 10 + (s[k] - 48));
        lemma_bdigits_val_monotone(s, k + 1);
    } else {
        assert(s.take(k) =~= s);
    }
}

/// On ASCII text, digit tests and digit values agree between the character
/// sequence and its byte sequence.
proof fn lemma_digits_bytes_agree(cs: Seq<char>)
    requires
        vstd::utf8::is_ascii_chars(cs),
    ensures
        all_digits(cs) == all_digit_bytes(byte_seq(cs)),
        all_digits(cs) ==> digits_val(cs) == bdigits_val(byte_seq(cs)),
    decreases cs.len(),
{
    let bs = byte_seq(cs);
    assert(forall|i: int|
        0 <= i < cs.len() ==> is_digit_char(#[trigger] cs[i]) == is_digit_byte(bs[i]));
    if all_digits(cs) && cs.len() > 0 {
        let head = cs.drop_last();
        assert(vstd::utf8::is_ascii_chars(head) && all_digits(head)) by {
            assert(forall|i: int| 0 <= i < cs.len() - 1 ==> head[i] == #[trigger] cs[i]);
        }
        lemma_digits_bytes_agree(head);
        assert(byte_seq(head) =~= bs.drop_last());
        assert(bs.last() == cs.last() as u8);
        assert(digit_val(cs.last()) == bs.last() - 48);
    }
}

/// On ASCII text, the byte-level parse agrees with the character-level parse.
proof fn lemma_parse_ascii_bytes(cs: Seq<char>)
    requires
        vstd::utf8::is_ascii_chars(cs),
    ensures
        parse_bytes_spec(byte_seq(cs)) == parse_int_spec(cs),
{
    let bs = byte_seq(cs);
    if cs.len() == 0 {
    } else {
        assert(bs[0] == cs[0] as u8);
        assert((cs[0] == '-') == (bs[0] == 45));
        assert((cs[0] == '+') == (bs[0] == 43));
        let signed = cs[0] == '-' || cs[0] == '+';
        let rest_c = if signed {
            cs.drop_first()
        } else {
            cs
        };
        assert(vstd::utf8::is_ascii_chars(rest_c)) by {
            if signed {
                assert(forall|i: int|
                    0 <= i < rest_c.len() ==> rest_c[i] == #[trigger] cs[i + 1]);
            }
        }
        lemma_digits_bytes_agree(rest_c);
        if signed {
            assert(byte_seq(rest_c) =~= bs.drop_first());
        }
    }
}

/// Text that is not pure ASCII never parses as an integer.
proof fn lemma_parse_non_ascii(s: Seq<char>)
    requires
        !vstd::utf8::is_ascii_chars(s),
    ensures
        parse_int_spec(s) is None,
{
    let i = choose|i: int| 0 <= i < s.len() && !('\0' <= #[trigger] s[i] <= '\u{7f}');
    assert(!is_digit_char(s[i]) && s[i] != '-' && s[i] != '+') by {
        if '\0' > s[i] {
            assert('0' > s[i]);
        } else {
            assert(s[i] > '9');
        }
    }
    let signed = s.len() > 0 && (s[0] == '-' || s[0] == '+');
    if signed {
        let rest = s.drop_first();
        assert(i >= 1);
        assert(rest[i - 1] == s[i]);
        assert(!all_digits(rest));
    } else {
        assert(!all_digits(s));
    }
}

/// Byte-level parse loop: an optional sign, then decimal digits accumulated
/// with an exact overflow bound.
fn parse_i64_bytes(b: &[u8]) -> (r: Option<i64>)
    ensures
        r == parse_bytes_spec(b@),
{
    let n = b.len();
    if n == 0 {
        return None;
    }
    let first = b[0];
    let (neg, start): (bool, usize) = if first == 45 {
        (true, 1)
    } else if first == 43 {
        (false, 1)
    } else {
        (false, 0)
    };
    let ghost rest = if start == 1 {
        b@.drop_first()
    } else {
        b@
    };
    if n == start {
        return None;
    }
    let limit_last: u64 = if neg {
        8
    } else {
        7
    };
    let mut acc: u64 = 0;
    let mut i: usize = start;
    proof {
        assert(rest.take(0) =~= Seq::<u8>::empty());
        assert(bdigits_val(Seq::<u8>::empty()) == 0);
    }
    while i < n
        invariant
            start <= i <= n,
            n == b@.len(),
            n > start,
            start == 0 || start == 1,
            start == 1 ==> (b@[0] == 45 || b@[0] == 43),
            start == 0 ==> !(b@[0] == 45 || b@[0] == 43),
            neg == (start == 1 && b@[0] == 45),
            rest == if start == 1 {
                b@.drop_first()
            } else {
                b@
            },
            forall|j: int| 0 <= j < i - start ==> is_digit_byte(#[trigger] rest[j]),
            acc as int == bdigits_val(rest.take(i - start)),
            acc <= 9223372036854775807u64 + if neg {
                1u64
            } else {
                0u64
            },
            limit_last == if neg {
                8u64
            } else {
                7u64
            },
        decreases n - i,
    {
        let d8 = b[i];
        let ghost k = i - start;
        proof {
            assert(rest[k] == b@[i as int]);
        }
        if d8 < 48 || d8 > 57 {
            proof {
                assert(!is_digit_byte(rest[k]));
                assert(!all_digit_bytes(rest));
            }
            return None;
        }
        let d = (d8 - 48) as u64;
        proof {
            assert(all_digit_bytes(rest.take(k))) by {
                assert(forall|j: int| 0 <= j < k ==> rest.take(k)[j] == #[trigger] rest[j]);
            }
            lemma_bdigits_val_nonneg(rest.take(k));
            assert(rest.take(k + 1).drop_last() =~= rest.take(k));
            assert(rest.take(k + 1).last() == rest[k]);
            assert(bdigits_val(rest.take(k + 1)) == acc as int * 10 + (d8 - 48));
        }
        if acc > 922337203685477580u64 || (acc == 922337203685477580u64 && d > limit_last) {
            proof {
                let limit: int = 9223372036854775807int + if neg {
                    1int
                } else {
                    0int
                };
                assert(bdigits_val(rest.take(k + 1)) > limit);
                if all_digit_bytes(rest) {
                    lemma_bdigits_val_monotone(rest, k + 1);
                    assert(bdigits_val(rest) > limit);
                }
            }
            return None;
        }
        acc = acc * 10 + d;
        i += 1;
    }
    proof {
        assert(rest.take(i - start) =~= rest);
        assert(all_digit_bytes(rest));
        lemma_bdigits_val_nonneg(rest);
    }
    if neg {
        let v: i64 = (-(acc as i128)) as i64;
        Some(v)
    } else {
        Some(acc as i64)
    }
}

/// Parses a 64-bit integer from decimal text: an optional sign followed by
/// at least one digit, rejecting malformed text and out-of-range values.
pub fn parse_i64(s: &str) -> (r: Option<i64>)
    ensures
        r == parse_int_spec(s@),
{
    if !s.is_ascii() {
        proof {
            lemma_parse_non_ascii(s@);
        }
        return None;
    }
    proof {
        vstd::string::is_ascii_spec_bytes(s);
        lemma_parse_ascii_bytes(s@);
        assert(s.spec_bytes() =~= byte_seq(s@));
    }
    let b = s.as_bytes();
    parse_i64_bytes(b)
}

} // verus!
