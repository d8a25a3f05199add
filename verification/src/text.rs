//! Character-level string utilities with exact specifications.

use vstd::prelude::*;
use vstd::string::*;

verus! {

/// The view of a list of string pairs: each side as a character
/// sequence, order preserved.
pub open spec fn pair_views(s: Seq<(String, String)>) -> Seq<(Seq<char>, Seq<char>)> {
    Seq::new(s.len(), |i: int| (s[i].0@, s[i].1@))
}

/// A decimal digit character.
pub open spec fn is_digit_char(c: char) -> bool {
    '0' <= c && c <= '9'
}

/// Numeric value of a decimal digit character.
pub open spec fn digit_val(c: char) -> int {
    c as int - '0' as int
}

/// Every character of the sequence is a decimal digit.
pub open spec fn all_digits(s: Seq<char>) -> bool {
    forall|i: int| 0 <= i < s.len() ==> is_digit_char(#[trigger] s[i])
}

/// The number denoted by a sequence of decimal digit characters,
/// most significant digit first.
pub open spec fn dec_value(s: Seq<char>) -> int
    decreases s.len(),
{
    if s.len() == 0 {
        0
    } else {
        dec_value(s.drop_last()) * 10 + digit_val(s.last())
    }
}

proof fn lemma_dec_value_nonneg(s: Seq<char>)
    requires
        all_digits(s),
    ensures
        dec_value(s) >= 0,
    decreases s.len(),
{
    if s.len() > 0 {
        assert(all_digits(s.drop_last()));
        lemma_dec_value_nonneg(s.drop_last());
    }
}

proof fn lemma_dec_value_take_le(s: Seq<char>, i: int)
    requires
        all_digits(s),
        0 <= i <= s.len(),
    ensures
        dec_value(s.take(i)) <= dec_value(s),
    decreases s.len() - i,
{
    if i == s.len() {
        assert(s.take(i) =~= s);
    } else {
        lemma_dec_value_take_le(s, i + 1);
        let t = s.take(i + 1);
        assert(t.drop_last() =~= s.take(i));
        assert(all_digits(s.take(i)));
        lemma_dec_value_nonneg(s.take(i));
        assert(dec_value(t) == dec_value(s.take(i)) * 10 + digit_val(s[i]));
        assert(dec_value(s.take(i)) * 10 >= dec_value(s.take(i)));
    }
}

/// The decimal digits of `n`, most significant first, as ASCII bytes.
pub open spec fn dec_bytes(n: int) -> Seq<u8>
    recommends
        n >= 0,
    decreases n,
{
    if n < 10 {
        seq![(48 + n) as u8]
    } else {
        dec_bytes(n / 10).push((48 + n % 10) as u8)
    }
}

/// A byte sequence read as the characters with the same code points.
pub open spec fn byte_chars(bs: Seq<u8>) -> Seq<char> {
    Seq::new(bs.len(), |i: int| bs[i] as char)
}

/// The decimal rendering of `n` as characters.
pub open spec fn dec_chars(n: int) -> Seq<char> {
    byte_chars(dec_bytes(n))
}

/// Relies on `String::from_utf8`: bytes below 128 are valid UTF-8 and
/// decode to the characters with the same code points.
#[verifier::external_body]
fn ascii_string(v: Vec<u8>) -> (r: Option<String>)
    ensures
        (forall|i: int| 0 <= i < v@.len() ==> v@[i] < 128) ==> (r is Some && r->Some_0@
            == byte_chars(v@)),
{
    String::from_utf8(v).ok()
}

fn dec_digits(n: u32) -> (r: Vec<u8>)
    ensures
        r@ == dec_bytes(n as int),
    decreases n,
{
    if n < 10 {
        let mut v: Vec<u8> = Vec::new();
        v.push(48 + n as u8);
        proof {
            assert(v@ =~= dec_bytes(n as int));
        }
        v
    } else {
        let mut v = dec_digits(n / 10);
        v.push(48 + (n % 10) as u8);
        v
    }
}

proof fn lemma_dec_bytes_digits(n: int)
    requires
        n >= 0,
    ensures
        dec_bytes(n).len() >= 1,
        forall|i: int| 0 <= i < dec_bytes(n).len() ==> 48 <= #[trigger] dec_bytes(n)[i] <= 57,
    decreases n,
{
    if n >= 10 {
        lemma_dec_bytes_digits(n / 10);
    }
}

proof fn lemma_dec_chars_value(n: int)
    requires
        n >= 0,
    ensures
        dec_chars(n).len() >= 1,
        all_digits(dec_chars(n)),
        dec_value(dec_chars(n)) == n,
    decreases n,
{
    lemma_dec_bytes_digits(n);
    if n < 10 {
        let c = ((48 + n) as u8) as char;
        assert(dec_chars(n) =~= seq![c]);
        assert(seq![c].drop_last() =~= Seq::<char>::empty());
        assert(dec_value(seq![c]) == dec_value(Seq::<char>::empty()) * 10 + digit_val(c));
        assert(dec_value(Seq::<char>::empty()) == 0);
        assert(c as int == 48 + n);
        assert(digit_val(c) == n);
        assert(dec_value(dec_chars(n)) == n);
    } else {
        lemma_dec_chars_value(n / 10);
        assert(dec_chars(n).drop_last() =~= dec_chars(n / 10));
        assert(dec_chars(n).last() == ((48 + n % 10) as u8) as char);
        assert(dec_value(dec_chars(n)) == dec_value(dec_chars(n / 10)) * 10 + digit_val(
            dec_chars(n).last(),
        ));
        assert((n / 10) * 10 + n % 10 == n) by (nonlinear_arith)
            requires
                n >= 10,
        ;
    }
}

/// Render `n` in decimal. The result is the canonical all-digit
/// string that [`parse_u32`] reads back as `n`.
pub fn u32_to_dec(n: u32) -> (r: String)
    ensures
        r@ == dec_chars(n as int),
        all_digits(r@),
        r@.len() >= 1,
        dec_value(r@) == n as int,
{
    let v = dec_digits(n);
    proof {
        lemma_dec_bytes_digits(n as int);
        lemma_dec_chars_value(n as int);
    }
    ascii_string(v).unwrap()
}

/// A character that percent-encoding leaves as it is: the unreserved
/// set of RFC 3986.
pub open spec fn is_unreserved(c: char) -> bool {
    ('a' <= c && c <= 'z') || ('A' <= c && c <= 'Z') || ('0' <= c && c <= '9') || c == '-' || c
        == '.' || c == '_' || c == '~'
}

/// The upper-case hexadecimal digit character for `d`.
pub open spec fn hex_char(d: int) -> char
    recommends
        0 <= d < 16,
{
    if d < 10 {
        ((48 + d) as u8) as char
    } else {
        ((55 + d) as u8) as char
    }
}

/// How one ASCII character travels in a percent-encoded component:
/// unreserved characters as themselves, everything else as a percent
/// escape of its code point.
pub open spec fn pct_char(c: char) -> Seq<char>
    recommends
        c <= '\u{7f}',
{
    if is_unreserved(c) {
        seq![c]
    } else {
        seq!['%', hex_char(c as int / 16), hex_char(c as int % 16)]
    }
}

/// The percent-encoding of an ASCII character sequence.
pub open spec fn pct_encode(s: Seq<char>) -> Seq<char>
    decreases s.len(),
{
    if s.len() == 0 {
        Seq::empty()
    } else {
        pct_encode(s.drop_last()) + pct_char(s.last())
    }
}

/// Percent-encode one ASCII query component.
pub fn pct_component(s: &str) -> (r: String)
    requires
        s.is_ascii(),
    ensures
        r@ == pct_encode(s@),
{
    let mut v: Vec<u8> = Vec::new();
    let n: usize = s.unicode_len();
    let mut i: usize = 0;
    while i < n
        invariant
            s.is_ascii(),
            n == s@.len(),
            0 <= i <= n,
            byte_chars(v@) =~= pct_encode(s@.take(i as int)),
            forall|j: int| 0 <= j < v@.len() ==> #[trigger] v@[j] < 128,
        decreases n - i,
    {
        let ghost prefix = s@.take(i as int);
        proof {
            assert(s@.take(i + 1).drop_last() =~= prefix);
            assert(s@.take(i + 1).last() == s@[i as int]);
        }
        let b: u8 = s.get_ascii(i);
        proof {
            assert(s@[i as int] <= '\u{7f}');
            assert(b < 128);
            assert(b as char == s@[i as int]);
        }
        let ghost v_before = v@;
        if (b >= 97 && b <= 122) || (b >= 65 && b <= 90) || (b >= 48 && b <= 57) || b == 45 || b
            == 46 || b == 95 || b == 126 {
            proof {
                assert(is_unreserved(s@[i as int]));
            }
            v.push(b);
            proof {
                assert(byte_chars(v@) =~= byte_chars(v_before).push(b as char));
                assert(pct_char(s@[i as int]) =~= seq![s@[i as int]]);
                assert(byte_chars(v@) =~= pct_encode(s@.take(i + 1)));
            }
        } else {
            proof {
                assert(!is_unreserved(s@[i as int]));
            }
            let hi: u8 = b / 16;
            let lo: u8 = b % 16;
            let hi_c: u8 = if hi < 10 {
                48 + hi
            } else {
                55 + hi
            };
            let lo_c: u8 = if lo < 10 {
                48 + lo
            } else {
                55 + lo
            };
            v.push(37);
            v.push(hi_c);
            v.push(lo_c);
            proof {
                assert(hi_c as char == hex_char(s@[i as int] as int / 16));
                assert(lo_c as char == hex_char(s@[i as int] as int % 16));
                assert(byte_chars(v@) =~= byte_chars(v_before) + seq![
                    '%',
                    hex_char(s@[i as int] as int / 16),
                    hex_char(s@[i as int] as int % 16),
                ]);
                assert(byte_chars(v@) =~= pct_encode(s@.take(i + 1)));
            }
        }
        i = i + 1;
    }
    proof {
        assert(s@.take(n as int) =~= s@);
    }
    ascii_string(v).unwrap()
}

/// Parse a non-negative decimal integer. Succeeds exactly on non-empty
/// all-digit strings whose value fits in a `u32`; a sign or any other
/// character is rejected.
pub fn parse_u32(s: &str) -> (r: Option<u32>)
    ensures
        r is Some <==> (s@.len() > 0 && all_digits(s@) && dec_value(s@) <= u32::MAX),
        r is Some ==> r->Some_0 == dec_value(s@),
{
    let n: usize = s.unicode_len();
    if n == 0 {
        return None;
    }
    let mut acc: u32 = 0;
    let mut i: usize = 0;
    while i < n
        invariant
            n == s@.len(),
            0 <= i <= n,
            all_digits(s@.take(i as int)),
            acc == dec_value(s@.take(i as int)),
        decreases n - i,
    {
        let c = s.get_char(i);
        if c < '0' || c > '9' {
            assert(!is_digit_char(s@[i as int]));
            return None;
        }
        let d: u32 = c as u32 - '0' as u32;
        proof {
            assert(s@.take(i + 1).drop_last() =~= s@.take(i as int));
            assert(s@.take(i + 1).last() == s@[i as int]);
            assert(all_digits(s@.take(i + 1)));
        }
        if acc > (u32::MAX - d) / 10 {
            proof {
                assert(dec_value(s@.take(i + 1)) == acc * 10 + d);
                assert(acc * 10 + d > u32::MAX) by (nonlinear_arith)
                    requires
                        acc > ((u32::MAX - d) / 10) as int,
                        0 <= d <= 9,
                ;
                if all_digits(s@) {
                    lemma_dec_value_take_le(s@, i + 1);
                }
            }
            return None;
        }
        assert(acc * 10 + d <= u32::MAX) by (nonlinear_arith)
            requires
                acc <= ((u32::MAX - d) / 10) as int,
                0 <= d <= 9,
        ;
        acc = acc * 10 + d;
        i = i + 1;
    }
    proof {
        assert(s@.take(n as int) =~= s@);
    }
    Some(acc)
}

/// True when the two string slices hold the same characters.
pub fn str_eq(a: &str, b: &str) -> (r: bool)
    ensures
        r == (a@ == b@),
{
    let alen: usize = a.unicode_len();
    let blen: usize = b.unicode_len();
    if alen != blen {
        return false;
    }
    let mut i: usize = 0;
    while i < alen
        invariant
            alen == a@.len(),
            alen == b@.len(),
            0 <= i <= alen,
            forall|j: int| 0 <= j < i ==> a@[j] == b@[j],
        decreases alen - i,
    {
        if a.get_char(i) != b.get_char(i) {
            return false;
        }
        i = i + 1;
    }
    proof {
        assert(a@ =~= b@);
    }
    true
}

} // verus!
