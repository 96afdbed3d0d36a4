//! Reading and writing tokens: text equality, decimal integers, booleans.
use vstd::prelude::*;
use vstd::string::StringExecFns;
use vstd::utf8::*;

verus! {

/// Whether two strings hold the same characters.
pub fn same_text(a: &str, b: &str) -> (same: bool)
    ensures
        same == (a@ == b@),
{
    let left = a.as_bytes();
    let right = b.as_bytes();
    proof {
        encode_utf8_decode_utf8(a@);
        encode_utf8_decode_utf8(b@);
    }
    if left.len() != right.len() {
        return false;
    }
    let mut i: usize = 0;
    while i < left.len()
        invariant
            i <= left.len(),
            left.len() == right.len(),
            left@ == encode_utf8(a@),
            right@ == encode_utf8(b@),
            forall|k: int| 0 <= k < i ==> left@[k] == right@[k],
        decreases left.len() - i,
    {
        if left[i] != right[i] {
            return false;
        }
        i += 1;
    }
    assert(left@ =~= right@);
    true
}

/// Whether `c` is one of the ten decimal digits.
pub open spec fn is_digit(c: char) -> bool {
    '0' <= c <= '9'
}

/// The number that the decimal digit `c` stands for.
pub open spec fn digit_value(c: char) -> int {
    c as int - '0' as int
}

/// Whether every character of `s` is a decimal digit.
pub open spec fn all_digits(s: Seq<char>) -> bool {
    forall|i: int| 0 <= i < s.len() ==> is_digit(#[trigger] s[i])
}

/// The number written by the digits `s`, most significant digit first.
pub open spec fn decimal_value(s: Seq<char>) -> int
    decreases s.len(),
{
    if s.len() == 0 {
        0
    } else {
        10 * decimal_value(s.drop_last()) + digit_value(s.last())
    }
}

/// Whether `s` starts with a plus or a minus sign.
pub open spec fn has_sign(s: Seq<char>) -> bool {
    s.len() > 0 && (s[0] == '+' || s[0] == '-')
}

/// What is left of `s` once a leading sign is taken away.
pub open spec fn unsigned_part(s: Seq<char>) -> Seq<char> {
    if has_sign(s) {
        s.drop_first()
    } else {
        s
    }
}

/// The mathematical integer that `s` writes: an optional sign, then digits.
pub open spec fn signed_value(s: Seq<char>) -> int {
    if s.len() > 0 && s[0] == '-' {
        -decimal_value(unsigned_part(s))
    } else {
        decimal_value(unsigned_part(s))
    }
}

/// Whether `s` is an optional sign followed by at least one decimal digit
/// and nothing else.
pub open spec fn is_integer_text(s: Seq<char>) -> bool {
    unsigned_part(s).len() > 0 && all_digits(unsigned_part(s))
}

/// The 64-bit signed integer that `s` reads as, if it reads as one: `s` must
/// be integer text, and the number it writes must fit.
pub open spec fn integer_reading(s: Seq<char>) -> Option<i64> {
    if is_integer_text(s) && i64::MIN <= signed_value(s) <= i64::MAX {
        Some(signed_value(s) as i64)
    } else {
        None
    }
}

/// A prefix of a run of digits writes a number that is no larger than the
/// number the whole run writes, and neither is negative.
pub proof fn lemma_decimal_value_grows(s: Seq<char>, k: int)
    requires
        all_digits(s),
        0 <= k <= s.len(),
    ensures
        0 <= decimal_value(s.subrange(0, k)) <= decimal_value(s),
    decreases s.len() - k,
{
    if k == s.len() {
        assert(s.subrange(0, k) =~= s);
        lemma_decimal_value_nonnegative(s);
    } else {
        lemma_decimal_value_grows(s, k + 1);
        let longer = s.subrange(0, k + 1);
        assert(longer.drop_last() =~= s.subrange(0, k));
        assert(is_digit(s[k]));
        assert(longer.last() == s[k]);
        lemma_decimal_value_nonnegative(s.subrange(0, k));
    }
}

/// A run of digits writes a number that is not negative.
pub proof fn lemma_decimal_value_nonnegative(s: Seq<char>)
    requires
        all_digits(s),
    ensures
        0 <= decimal_value(s),
    decreases s.len(),
{
    if s.len() > 0 {
        assert(is_digit(s.last()));
        lemma_decimal_value_nonnegative(s.drop_last());
    }
}

/// Reads a 64-bit signed integer written in decimal: an optional `+` or `-`,
/// then one or more digits. Anything else, and any number that does not
/// fit, gives `None`.
pub fn parse_integer(text: &str) -> (reading: Option<i64>)
    ensures
        reading == integer_reading(text@),
{
    let ghost s = text@;
    let ghost digits = unsigned_part(s);
    if !text.is_ascii() {
        proof {
            let k = choose|k: int| 0 <= k < s.len() && !('\0' <= #[trigger] s[k] <= '\u{7f}');
            if has_sign(s) {
                assert(k > 0);
                assert(digits[k - 1] == s[k]);
                assert(!is_digit(digits[k - 1]));
            } else {
                assert(!is_digit(digits[k]));
            }
        }
        return None;
    }
    let bytes = text.as_bytes();
    proof {
        is_ascii_chars_encode_utf8(s);
    }
    let n = bytes.len();
    if n == 0 {
        return None;
    }
    let first = bytes[0];
    assert(first == s[0] as u8);
    let negative = first == 45u8;
    let start: usize = if first == 45u8 || first == 43u8 {
        1
    } else {
        0
    };
    assert(negative == (s[0] == '-'));
    assert(has_sign(s) == (start == 1));
    if start == n {
        return None;
    }
    assert(digits.len() == n - start);
    let mut magnitude: u64 = 0;
    let mut i: usize = start;
    while i < n
        invariant
            start <= i <= n,
            n == bytes@.len(),
            n == s.len(),
            is_ascii_chars(s),
            forall|k: int| 0 <= k < n ==> s[k] as u8 == #[trigger] bytes@[k],
            digits.len() == n - start,
            forall|k: int| 0 <= k < digits.len() ==> digits[k] == s[k + start],
            all_digits(digits.subrange(0, i - start)),
            magnitude == decimal_value(digits.subrange(0, i - start)),
            magnitude <= 0x8000_0000_0000_0000,
            digits == unsigned_part(s),
            s == text@,
        decreases n - i,
    {
        let b = bytes[i];
        let ghost c = s[i as int];
        let ghost seen = digits.subrange(0, i - start);
        let ghost next = digits.subrange(0, i - start + 1);
        assert(next.drop_last() =~= seen);
        assert(next.last() == c);
        assert(b == c as u8);
        if b < 48u8 || b > 57u8 {
            assert(!is_digit(digits[i - start]));
            return None;
        }
        assert(is_digit(c));
        let d: u64 = (b - 48u8) as u64;
        assert(d == digit_value(c));
        if magnitude > (0x8000_0000_0000_0000u64 - d) / 10 {
            proof {
                assert(decimal_value(next) > 0x8000_0000_0000_0000);
                if all_digits(digits) {
                    lemma_decimal_value_grows(digits, i - start + 1);
                }
            }
            return None;
        }
        magnitude = magnitude * 10 + d;
        i += 1;
        proof {
            assert forall|k: int| 0 <= k < next.len() implies is_digit(#[trigger] next[k]) by {
                if k < seen.len() {
                    assert(seen[k] == next[k]);
                }
            }
        }
    }
    assert(digits.subrange(0, n - start) =~= digits);
    if negative {
        if magnitude == 0x8000_0000_0000_0000u64 {
            Some(i64::MIN)
        } else {
            Some(-(magnitude as i64))
        }
    } else {
        if magnitude > 0x7fff_ffff_ffff_ffffu64 {
            None
        } else {
            Some(magnitude as i64)
        }
    }
}

/// The character that writes the digit `d`.
pub open spec fn digit_char(d: int) -> char {
    ((d + 48) as u8) as char
}

/// The decimal digits of `n`, most significant first, without leading zeros.
pub open spec fn natural_text(n: nat) -> Seq<char>
    decreases n,
{
    if n < 10 {
        seq![digit_char(n as int)]
    } else {
        natural_text(n / 10).push(digit_char((n % 10) as int))
    }
}

/// The decimal text of `v`: a minus sign if it is negative, then its digits.
pub open spec fn integer_text(v: int) -> Seq<char> {
    if v < 0 {
        seq!['-'] + natural_text((-v) as nat)
    } else {
        natural_text(v as nat)
    }
}

/// The digits of a number are digits, and write the number.
pub proof fn lemma_natural_text_writes(n: nat)
    ensures
        natural_text(n).len() > 0,
        all_digits(natural_text(n)),
        decimal_value(natural_text(n)) == n,
    decreases n,
{
    let text = natural_text(n);
    if n < 10 {
        assert(text.drop_last() =~= Seq::<char>::empty());
        assert(decimal_value(text.drop_last()) == 0);
        assert(text.last() == digit_char(n as int));
    } else {
        let front = natural_text(n / 10);
        lemma_natural_text_writes(n / 10);
        assert(text.drop_last() =~= front);
        assert(text.last() == digit_char((n % 10) as int));
        assert forall|i: int| 0 <= i < text.len() implies is_digit(#[trigger] text[i]) by {
            if i < front.len() {
                assert(text[i] == front[i]);
            }
        }
    }
}

/// The decimal text of a 64-bit signed integer reads as that integer.
pub proof fn lemma_integer_text_reads_back(v: i64)
    ensures
        integer_reading(integer_text(v as int)) == Some(v),
{
    let text = integer_text(v as int);
    if v < 0 {
        let digits = natural_text((-v) as nat);
        lemma_natural_text_writes((-v) as nat);
        assert(text[0] == '-');
        assert(text.drop_first() =~= digits);
    } else {
        lemma_natural_text_writes(v as nat);
        assert(is_digit(text[0]));
    }
}

/// The one-character string that writes the digit `d`.
fn digit_str(d: u8) -> (text: &'static str)
    requires
        d < 10,
    ensures
        text@ == seq![digit_char(d as int)],
{
    proof {
        reveal_strlit("0");
        reveal_strlit("1");
        reveal_strlit("2");
        reveal_strlit("3");
        reveal_strlit("4");
        reveal_strlit("5");
        reveal_strlit("6");
        reveal_strlit("7");
        reveal_strlit("8");
        reveal_strlit("9");
    }
    let text = match d {
        0 => "0",
        1 => "1",
        2 => "2",
        3 => "3",
        4 => "4",
        5 => "5",
        6 => "6",
        7 => "7",
        8 => "8",
        _ => "9",
    };
    text
}

/// Writes `v` in decimal, as [`integer_text`] says.
pub fn render_integer(v: i64) -> (text: String)
    ensures
        text@ == integer_text(v as int),
{
    let negative = v < 0;
    let start: u64 = if v == i64::MIN {
        0x8000_0000_0000_0000u64
    } else if negative {
        (-v) as u64
    } else {
        v as u64
    };
    let mut rest: u64 = start / 10;
    let mut digits: Vec<u8> = Vec::new();
    digits.push((start % 10) as u8);
    let ghost mut tail: Seq<char> = seq![digit_char((start % 10) as int)];
    while rest > 0
        invariant
            digits.len() == tail.len(),
            digits.len() >= 1,
            forall|k: int| 0 <= k < digits.len() ==> digits[k] < 10,
            forall|k: int|
                0 <= k < digits.len() ==> #[trigger] tail[k] == digit_char(
                    digits[digits.len() - 1 - k] as int,
                ),
            natural_text(start as nat) == (if rest > 0 {
                natural_text(rest as nat)
            } else {
                Seq::<char>::empty()
            }) + tail,
        decreases rest,
    {
        let d: u8 = (rest % 10) as u8;
        let ghost before = tail;
        digits.push(d);
        proof {
            tail = seq![digit_char(d as int)] + before;
            if rest >= 10 {
                assert(natural_text(rest as nat) == natural_text((rest / 10) as nat).push(
                    digit_char(d as int),
                ));
                assert(natural_text((rest / 10) as nat).push(digit_char(d as int)) + before
                    =~= natural_text((rest / 10) as nat) + tail);
            } else {
                assert(natural_text(rest as nat) + before =~= Seq::<char>::empty() + tail);
            }
            assert forall|k: int| 0 <= k < digits.len() implies #[trigger] tail[k] == digit_char(
                digits[digits.len() - 1 - k] as int,
            ) by {
                if k > 0 {
                    assert(tail[k] == before[k - 1]);
                }
            }
        }
        rest = rest / 10;
    }
    assert(natural_text(start as nat) =~= tail);
    let mut text = String::new();
    if negative {
        proof {
            reveal_strlit("-");
        }
        text.append("-");
        assert(text@ =~= seq!['-']);
    }
    let ghost sign = text@;
    let mut i: usize = digits.len();
    while i > 0
        invariant
            i <= digits.len(),
            digits.len() == tail.len(),
            forall|k: int| 0 <= k < digits.len() ==> digits[k] < 10,
            forall|k: int|
                0 <= k < digits.len() ==> #[trigger] tail[k] == digit_char(
                    digits[digits.len() - 1 - k] as int,
                ),
            text@ == sign + tail.subrange(0, digits.len() - i),
        decreases i,
    {
        i -= 1;
        text.append(digit_str(digits[i]));
        proof {
            let k = digits.len() - 1 - i;
            assert(tail[k] == digit_char(digits[i as int] as int));
            assert(text@ =~= sign + tail.subrange(0, k + 1));
        }
    }
    assert(tail.subrange(0, digits.len() as int) =~= tail);
    text
}

/// The boolean that `s` reads as: exactly `true` or exactly `false`.
pub open spec fn bool_reading(s: Seq<char>) -> Option<bool> {
    if s == "true"@ {
        Some(true)
    } else if s == "false"@ {
        Some(false)
    } else {
        None
    }
}

/// Reads a boolean: `true` or `false`, in lower case, and nothing else.
pub fn parse_bool(text: &str) -> (reading: Option<bool>)
    ensures
        reading == bool_reading(text@),
{
    if same_text(text, "true") {
        Some(true)
    } else if same_text(text, "false") {
        Some(false)
    } else {
        None
    }
}

} // verus!
