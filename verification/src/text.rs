//! Text utilities the machine needs: exact decimal rendering of integers,
//! exact decimal parsing, string equality, and the one lossy UTF-8 decode
//! that the class-file reader relies on.

use vstd::prelude::*;

verus! {

/// Each byte read as the character with the same code point.
pub open spec fn ascii_seq(bytes: Seq<u8>) -> Seq<char> {
    bytes.map_values(|b: u8| b as char)
}

/// What `String::from_utf8_lossy` yields for a byte sequence.
pub uninterp spec fn lossy_of(bytes: Seq<u8>) -> Seq<char>;

/// Relies on `String::from_utf8_lossy`: the decode depends on the bytes
/// alone, and bytes below 0x80 are valid UTF-8 that decodes to the
/// characters with the same code points.
#[verifier::external_body]
pub fn utf8_lossy(bytes: &[u8]) -> (r: String)
    ensures
        r@ == lossy_of(bytes@),
        (forall|i: int| 0 <= i < bytes@.len() ==> bytes@[i] < 0x80) ==> r@ == ascii_seq(bytes@),
{
    String::from_utf8_lossy(bytes).into_owned()
}

/// Relies on `char::to_string`: a string holding exactly the one
/// character.
#[verifier::external_body]
pub fn char_text(c: char) -> (r: String)
    ensures
        r@ == seq![c],
{
    c.to_string()
}

/// Whether two pieces of text hold the same characters.
pub fn str_eq(a: &str, b: &str) -> (r: bool)
    ensures
        r == (a@ == b@),
{
    let owned_a: String = a.to_owned();
    let owned_b: String = b.to_owned();
    owned_a == owned_b
}

/// The decimal digits of a non-negative number, most significant first,
/// as ASCII bytes.
pub open spec fn dec_bytes_of(n: int) -> Seq<u8>
    decreases n,
{
    if n < 0 {
        Seq::empty()
    } else if n < 10 {
        seq![(48 + n) as u8]
    } else {
        dec_bytes_of(n / 10).push((48 + n % 10) as u8)
    }
}

/// The decimal rendering of an integer, with a leading minus sign when
/// negative.
pub open spec fn dec_str_of(n: int) -> Seq<char> {
    if n < 0 {
        seq!['-'] + ascii_seq(dec_bytes_of(-n))
    } else {
        ascii_seq(dec_bytes_of(n))
    }
}

proof fn lemma_dec_bytes_ascii(n: int)
    ensures
        forall|i: int| 0 <= i < dec_bytes_of(n).len() ==> 48 <= #[trigger] dec_bytes_of(n)[i] <= 57,
    decreases n,
{
    if 0 <= n < 10 {
        assert(dec_bytes_of(n)[0] == (48 + n) as u8);
    } else if n >= 10 {
        lemma_dec_bytes_ascii(n / 10);
        assert forall|i: int| 0 <= i < dec_bytes_of(n).len() implies 48
            <= #[trigger] dec_bytes_of(n)[i] <= 57 by {
            if i < dec_bytes_of(n / 10).len() {
                assert(dec_bytes_of(n)[i] == dec_bytes_of(n / 10)[i]);
            } else {
                assert(dec_bytes_of(n)[i] == (48 + n % 10) as u8);
            }
        }
    }
}

fn push_dec_u64(n: u64, out: &mut Vec<u8>)
    ensures
        final(out)@ == old(out)@ + dec_bytes_of(n as int),
    decreases n,
{
    if n >= 10 {
        push_dec_u64(n / 10, out);
    }
    out.push(48 + (n % 10) as u8);
    proof {
        assert(final(out)@ =~= old(out)@ + dec_bytes_of(n as int));
    }
}

/// Render an integer in decimal, exactly as `dec_str_of` describes.
pub fn int_to_string(v: i64) -> (r: String)
    ensures
        r@ == dec_str_of(v as int),
{
    let mut bytes: Vec<u8> = Vec::new();
    if v < 0 {
        bytes.push(45);
        let wide: i128 = v as i128;
        let magnitude: u64 = (-wide) as u64;
        push_dec_u64(magnitude, &mut bytes);
        proof {
            lemma_dec_bytes_ascii(-(v as int));
            assert(bytes@ =~= seq![45u8] + dec_bytes_of(-(v as int)));
        }
    } else {
        push_dec_u64(v as u64, &mut bytes);
        proof {
            lemma_dec_bytes_ascii(v as int);
        }
    }
    let r = utf8_lossy(bytes.as_slice());
    proof {
        if v < 0 {
            assert(r@ =~= dec_str_of(v as int));
        }
    }
    r
}

/// The decimal rendering of a boolean: `true` or `false`.
pub open spec fn bool_str_of(b: bool) -> Seq<char> {
    if b {
        "true"@
    } else {
        "false"@
    }
}

/// Render a boolean as `true` or `false`.
pub fn bool_to_string(b: bool) -> (r: String)
    ensures
        r@ == bool_str_of(b),
{
    if b {
        String::from_str("true")
    } else {
        String::from_str("false")
    }
}

/// How the machine renders a UTF-16 code unit: truncated to a byte and
/// read as that character.
pub open spec fn char_str_of(c: u16) -> Seq<char> {
    seq![((c as u8) as char)]
}

/// Render a UTF-16 code unit, truncated to a byte.
pub fn char_unit_to_string(c: u16) -> (r: String)
    ensures
        r@ == char_str_of(c),
{
    char_text((c as u8) as char)
}

/// Whether a character is an ASCII decimal digit.
pub open spec fn spec_is_digit(c: char) -> bool {
    48 <= c as int <= 57
}

/// Whether every character in the sequence is an ASCII decimal digit.
pub open spec fn all_digits(s: Seq<char>) -> bool {
    forall|i: int| 0 <= i < s.len() ==> spec_is_digit(#[trigger] s[i])
}

/// The value of a sequence of decimal digits, most significant first.
pub open spec fn digits_val(s: Seq<char>) -> int
    decreases s.len(),
{
    if s.len() == 0 {
        0
    } else {
        digits_val(s.drop_last()) * 10 + (s.last() as int - 48)
    }
}

proof fn lemma_digits_val_nonneg(s: Seq<char>)
    requires
        all_digits(s),
    ensures
        digits_val(s) >= 0,
    decreases s.len(),
{
    if s.len() > 0 {
        assert forall|i: int| 0 <= i < s.drop_last().len() implies spec_is_digit(
            #[trigger] s.drop_last()[i],
        ) by {
            assert(s.drop_last()[i] == s[i]);
        }
        lemma_digits_val_nonneg(s.drop_last());
    }
}

proof fn lemma_digits_val_extend(s: Seq<char>, t: Seq<char>)
    requires
        all_digits(s + t),
    ensures
        digits_val(s + t) >= digits_val(s),
    decreases t.len(),
{
    if t.len() == 0 {
        assert(s + t =~= s);
    } else {
        assert(s + t.drop_last() =~= (s + t).drop_last());
        assert forall|i: int| 0 <= i < (s + t.drop_last()).len() implies spec_is_digit(
            #[trigger] (s + t.drop_last())[i],
        ) by {
            assert((s + t.drop_last())[i] == (s + t)[i]);
        }
        lemma_digits_val_extend(s, t.drop_last());
        assert forall|i: int| 0 <= i < s.len() implies spec_is_digit(#[trigger] s[i]) by {
            assert(s[i] == (s + t)[i]);
        }
        lemma_digits_val_nonneg(s);
        assert(digits_val(s + t) == digits_val(s + t.drop_last()) * 10 + ((s + t).last() as int
            - 48));
        assert((s + t).last() as int - 48 >= 0) by {
            assert(spec_is_digit((s + t)[s.len() + t.len() - 1]));
        }
    }
}

/// What `str::parse::<u32>` yields for a run of decimal digits: the value,
/// or nothing when it does not fit.
pub open spec fn spec_parse_u32(s: Seq<char>) -> Option<u32> {
    if s.len() == 0 || !all_digits(s) {
        None
    } else if digits_val(s) <= 0xFFFFFFFF {
        Some(digits_val(s) as u32)
    } else {
        None
    }
}

/// Parse a run of decimal digits as a u32, rejecting other characters and
/// values that do not fit.
pub fn parse_u32_digits(s: &str) -> (r: Option<u32>)
    ensures
        r == spec_parse_u32(s@),
{
    let n = s.unicode_len();
    if n == 0 {
        return None;
    }
    let mut acc: u64 = 0;
    let mut i: usize = 0;
    while i < n
        invariant
            0 <= i <= n,
            n == s@.len(),
            all_digits(s@.take(i as int)),
            acc == digits_val(s@.take(i as int)),
            acc <= 0xFFFFFFFFu64,
        decreases n - i,
    {
        let c = s.get_char(i);
        let cv = c as u32;
        if cv < 48 || cv > 57 {
            proof {
                assert(!spec_is_digit(s@[i as int]));
            }
            return None;
        }
        proof {
            assert(s@.take(i as int + 1).drop_last() =~= s@.take(i as int));
            assert forall|j: int| 0 <= j < i + 1 implies spec_is_digit(
                #[trigger] s@.take(i as int + 1)[j],
            ) by {
                if j < i {
                    assert(s@.take(i as int + 1)[j] == s@.take(i as int)[j]);
                } else {
                    assert(s@.take(i as int + 1)[j] == s@[i as int]);
                }
            }
        }
        acc = acc * 10 + (cv - 48) as u64;
        i = i + 1;
        if acc > 0xFFFFFFFFu64 {
            proof {
                assert(s@ =~= s@.take(i as int) + s@.skip(i as int));
                if all_digits(s@) {
                    lemma_digits_val_extend(s@.take(i as int), s@.skip(i as int));
                }
            }
            return None;
        }
    }
    proof {
        assert(s@.take(n as int) =~= s@);
    }
    Some(acc as u32)
}

/// What `str::parse::<i32>` yields: an optional sign, at least one digit,
/// and a value within the i32 range.
pub open spec fn spec_parse_i32(s: Seq<char>) -> Option<i32> {
    if s.len() > 0 && (s[0] == '+' || s[0] == '-') {
        spec_parse_i32_signed(s[0] == '-', s.skip(1))
    } else {
        spec_parse_i32_signed(false, s)
    }
}

/// The digits part of `spec_parse_i32`, with the sign already read.
pub open spec fn spec_parse_i32_signed(neg: bool, ds: Seq<char>) -> Option<i32> {
    if ds.len() == 0 || !all_digits(ds) {
        None
    } else if neg {
        if digits_val(ds) <= 0x80000000 {
            Some((-digits_val(ds)) as i32)
        } else {
            None
        }
    } else {
        if digits_val(ds) <= 0x7FFFFFFF {
            Some(digits_val(ds) as i32)
        } else {
            None
        }
    }
}

/// Parse decimal text as an i32, exactly as `spec_parse_i32` describes.
pub fn parse_int_text(s: &str) -> (r: Option<i32>)
    ensures
        r == spec_parse_i32(s@),
{
    let n = s.unicode_len();
    let mut start: usize = 0;
    let mut neg = false;
    if n > 0 {
        let c0 = s.get_char(0);
        if c0 == '+' || c0 == '-' {
            neg = c0 == '-';
            start = 1;
        }
    }
    let ghost ds = s@.skip(start as int);
    proof {
        if start == 0 {
            assert(ds =~= s@);
        }
        assert(spec_parse_i32(s@) == spec_parse_i32_signed(neg, ds));
    }
    if start >= n {
        return None;
    }
    let limit: u64 = if neg {
        0x80000000u64
    } else {
        0x7FFFFFFFu64
    };
    let mut acc: u64 = 0;
    let mut i: usize = start;
    while i < n
        invariant
            start <= i <= n,
            n == s@.len(),
            ds == s@.skip(start as int),
            start <= 1,
            spec_parse_i32(s@) == spec_parse_i32_signed(neg, ds),
            limit == if neg { 0x80000000u64 } else { 0x7FFFFFFFu64 },
            all_digits(ds.take(i - start)),
            acc == digits_val(ds.take(i - start)),
            acc <= limit,
        decreases n - i,
    {
        let c = s.get_char(i);
        let cv = c as u32;
        proof {
            assert(ds[i - start] == s@[i as int]);
        }
        if cv < 48 || cv > 57 {
            proof {
                assert(!all_digits(ds)) by {
                    assert(0 <= i - start < ds.len() && !spec_is_digit(ds[i - start]));
                }
            }
            return None;
        }
        proof {
            assert(ds.take(i - start + 1).drop_last() =~= ds.take(i - start));
            assert forall|j: int| 0 <= j < i - start + 1 implies spec_is_digit(
                #[trigger] ds.take(i - start + 1)[j],
            ) by {
                if j < i - start {
                    assert(ds.take(i - start + 1)[j] == ds.take(i - start)[j]);
                } else {
                    assert(ds.take(i - start + 1)[j] == ds[i - start]);
                }
            }
        }
        acc = acc * 10 + (cv - 48) as u64;
        i = i + 1;
        if acc > limit {
            proof {
                assert(ds =~= ds.take(i - start) + ds.skip(i - start));
                if all_digits(ds) {
                    lemma_digits_val_extend(ds.take(i - start), ds.skip(i - start));
                    assert(digits_val(ds) >= acc);
                }
                assert(spec_parse_i32(s@) is None);
            }
            return None;
        }
    }
    proof {
        assert(ds.take(n - start) =~= ds);
    }
    if neg {
        let wide: i64 = -(acc as i64);
        Some(wide as i32)
    } else {
        Some(acc as i32)
    }
}

/// Whether the text equals `true` up to ASCII case, as
/// `Boolean.parseBoolean` asks.
pub open spec fn spec_eq_true_ci(s: Seq<char>) -> bool {
    s.len() == 4 && (s[0] == 't' || s[0] == 'T') && (s[1] == 'r' || s[1] == 'R') && (s[2] == 'u'
        || s[2] == 'U') && (s[3] == 'e' || s[3] == 'E')
}

/// Whether the text equals `true` up to ASCII case.
pub fn eq_true_ignore_case(s: &str) -> (r: bool)
    ensures
        r == spec_eq_true_ci(s@),
{
    let n = s.unicode_len();
    if n != 4 {
        return false;
    }
    let c0 = s.get_char(0);
    let c1 = s.get_char(1);
    let c2 = s.get_char(2);
    let c3 = s.get_char(3);
    (c0 == 't' || c0 == 'T') && (c1 == 'r' || c1 == 'R') && (c2 == 'u' || c2 == 'U') && (c3 == 'e'
        || c3 == 'E')
}

} // verus!
