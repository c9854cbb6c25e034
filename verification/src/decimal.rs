//! Decimal text of unsigned integers.
//!
//! A user identifier travels to the backend as its decimal digits and comes
//! back as text. This module writes that text and reads it back without loss:
//! a text is accepted only when it is exactly the text that some `u64` is
//! written as.
use vstd::prelude::*;
use vstd::string::*;
use vstd::utf8::{encode_utf8, is_ascii_chars, is_ascii_chars_encode_utf8};

verus! {

/// The character that stands for a digit below ten.
pub open spec fn digit_char(d: nat) -> char
    recommends
        d < 10,
{
    if d == 0 {
        '0'
    } else if d == 1 {
        '1'
    } else if d == 2 {
        '2'
    } else if d == 3 {
        '3'
    } else if d == 4 {
        '4'
    } else if d == 5 {
        '5'
    } else if d == 6 {
        '6'
    } else if d == 7 {
        '7'
    } else if d == 8 {
        '8'
    } else {
        '9'
    }
}

/// The decimal digits of `n`, most significant first, without leading zeros.
pub open spec fn decimal_digits(n: nat) -> Seq<char>
    decreases n,
{
    if n < 10 {
        seq![digit_char(n)]
    } else {
        decimal_digits(n / 10).push(digit_char(n % 10))
    }
}

/// Whether `c` is one of the ten decimal digits.
pub open spec fn is_digit(c: char) -> bool {
    '0' <= c <= '9'
}

/// The number that a digit stands for.
pub open spec fn digit_value(c: char) -> nat
    recommends
        is_digit(c),
{
    (c as u32 - '0' as u32) as nat
}

/// The number that a run of digits is read as, most significant first.
pub open spec fn digits_value(s: Seq<char>) -> nat
    decreases s.len(),
{
    if s.len() == 0 {
        0
    } else {
        digits_value(s.drop_last()) * 10 + digit_value(s.last())
    }
}

/// A text that some number is written as: digits only, at least one, and no
/// leading zero unless the text is the single digit zero.
pub open spec fn is_canonical(s: Seq<char>) -> bool {
    &&& s.len() > 0
    &&& forall|i: int| 0 <= i < s.len() ==> is_digit(#[trigger] s[i])
    &&& s.len() > 1 ==> s[0] != '0'
}

/// A run of digits that does not start with zero is read as a positive number.
proof fn lemma_leading_digit_counts(s: Seq<char>)
    requires
        s.len() > 0,
        forall|i: int| 0 <= i < s.len() ==> is_digit(#[trigger] s[i]),
        s[0] != '0',
    ensures
        digits_value(s) >= 1,
    decreases s.len(),
{
    if s.len() > 1 {
        lemma_leading_digit_counts(s.drop_last());
    }
}

/// Reading more digits never gives a smaller number.
proof fn lemma_prefix_value(s: Seq<char>, k: int)
    requires
        0 <= k <= s.len(),
        forall|i: int| 0 <= i < s.len() ==> is_digit(#[trigger] s[i]),
    ensures
        digits_value(s.take(k)) <= digits_value(s),
    decreases s.len(),
{
    if k == s.len() {
        assert(s.take(k) =~= s);
    } else {
        assert(s.drop_last().take(k) =~= s.take(k));
        lemma_prefix_value(s.drop_last(), k);
    }
}

/// The text of a number is canonical and is read back as that number.
pub proof fn lemma_digits_read_back(n: nat)
    ensures
        is_canonical(decimal_digits(n)),
        digits_value(decimal_digits(n)) == n,
    decreases n,
{
    if n < 10 {
        let s = decimal_digits(n);
        assert(s.drop_last() =~= Seq::<char>::empty());
        assert(digits_value(s.drop_last()) == 0);
    } else {
        let q = decimal_digits(n / 10);
        let s = decimal_digits(n);
        lemma_digits_read_back(n / 10);
        assert(s.drop_last() =~= q);
        assert(s.last() == digit_char(n % 10));
        assert(s[0] == q[0]);
        if q.len() == 1 {
            assert(q.drop_last() =~= Seq::<char>::empty());
            assert(digits_value(q.drop_last()) == 0);
            assert(digit_value(q[0]) == n / 10);
        }
        assert forall|i: int| 0 <= i < s.len() implies is_digit(#[trigger] s[i]) by {
            if i < q.len() {
                assert(s[i] == q[i]);
            }
        }
    }
}

/// A canonical text is the text of the number it is read as.
pub proof fn lemma_canonical_is_written(s: Seq<char>)
    requires
        is_canonical(s),
    ensures
        decimal_digits(digits_value(s)) == s,
    decreases s.len(),
{
    let p = s.drop_last();
    if s.len() == 1 {
        assert(p =~= Seq::<char>::empty());
        assert(digits_value(p) == 0);
        assert(decimal_digits(digits_value(s)) =~= s);
    } else {
        assert(p[0] == s[0]);
        lemma_leading_digit_counts(p);
        lemma_canonical_is_written(p);
        let v = digits_value(s);
        let d = digit_value(s.last());
        assert(v == digits_value(p) * 10 + d);
        assert(v / 10 == digits_value(p) && v % 10 == d);
        assert(digit_char(d) == s.last());
        assert(decimal_digits(v) =~= s);
    }
}

/// Two numbers that are written alike are the same number.
pub proof fn lemma_decimal_digits_injective(a: nat, b: nat)
    requires
        decimal_digits(a) == decimal_digits(b),
    ensures
        a == b,
{
    lemma_digits_read_back(a);
    lemma_digits_read_back(b);
}

/// Ten to the power of `k`.
pub open spec fn pow10(k: nat) -> nat
    decreases k,
{
    if k == 0 {
        1
    } else {
        10 * pow10((k - 1) as nat)
    }
}

/// A number below ten to the `k` is written with at most `k` digits.
pub proof fn lemma_digits_count(n: nat, k: nat)
    requires
        k >= 1,
        n < pow10(k),
    ensures
        decimal_digits(n).len() <= k,
    decreases k,
{
    if n >= 10 {
        assert(pow10(1) == 10) by {
            reveal_with_fuel(pow10, 2);
        }
        assert(n / 10 < pow10((k - 1) as nat));
        lemma_digits_count(n / 10, (k - 1) as nat);
    }
}

/// The text of a `u64` has at most twenty characters, all of them ASCII, so
/// it has at most twenty bytes.
pub proof fn lemma_decimal_text_is_short(n: u64)
    ensures
        decimal_digits(n as nat).len() <= 20,
        is_ascii_chars(decimal_digits(n as nat)),
        encode_utf8(decimal_digits(n as nat)).len() <= 20,
{
    assert(pow10(20) == 100000000000000000000) by {
        reveal_with_fuel(pow10, 21);
    }
    lemma_digits_count(n as nat, 20);
    lemma_digits_read_back(n as nat);
    let s = decimal_digits(n as nat);
    assert forall|i: int| 0 <= i < s.len() implies '\0' <= #[trigger] s[i] <= '\u{7f}' by {
        assert(is_digit(s[i]));
    }
    is_ascii_chars_encode_utf8(s);
}

/// The one-character text of a digit.
fn digit_text(d: u64) -> (text: &'static str)
    requires
        d < 10,
    ensures
        text@ == seq![digit_char(d as nat)],
{
    proof {
        reveal_strlit("0");
        reveal_strlit("1");
        reveal_strlit("2");
        reveal_strlit("3");
        reveal_strlit("4");
        reveal_strlit("5");
        reveal_strlit("6");
        reveal_strlit("7");
        reveal_strlit("8");
        reveal_strlit("9");
    }
    let text = if d == 0 {
        "0"
    } else if d == 1 {
        "1"
    } else if d == 2 {
        "2"
    } else if d == 3 {
        "3"
    } else if d == 4 {
        "4"
    } else if d == 5 {
        "5"
    } else if d == 6 {
        "6"
    } else if d == 7 {
        "7"
    } else if d == 8 {
        "8"
    } else {
        "9"
    };
    assert(text@ =~= seq![digit_char(d as nat)]);
    text
}

/// Writes `n` in decimal.
pub fn decimal_text(n: u64) -> (text: String)
    ensures
        text@ == decimal_digits(n as nat),
    decreases n,
{
    if n < 10 {
        String::from_str(digit_text(n))
    } else {
        let mut text = decimal_text(n / 10);
        text.append(digit_text(n % 10));
        assert(text@ =~= decimal_digits(n as nat));
        text
    }
}

/// Reads a decimal text back. The answer is `Some(n)` exactly when `text` is
/// what `n` is written as, so signs, spaces, leading zeros and numbers beyond
/// `u64` are all refused.
pub fn decimal_value(text: &str) -> (value: Option<u64>)
    ensures
        match value {
            Some(n) => text@ == decimal_digits(n as nat),
            None => forall|n: u64| text@ != #[trigger] decimal_digits(n as nat),
        },
{
    let ghost s = text@;
    if !text.is_ascii() {
        proof {
            assert forall|n: u64| s != #[trigger] decimal_digits(n as nat) by {
                lemma_digits_read_back(n as nat);
            }
        }
        return None;
    }
    let len = text.unicode_len();
    if len == 0 || (len > 1 && text.get_ascii(0) == 48) {
        proof {
            assert forall|n: u64| s != #[trigger] decimal_digits(n as nat) by {
                lemma_digits_read_back(n as nat);
            }
        }
        return None;
    }
    let mut acc: u64 = 0;
    let mut i: usize = 0;
    while i < len
        invariant
            s == text@,
            is_ascii(text),
            len == s.len(),
            i <= len,
            forall|j: int| 0 <= j < i ==> is_digit(#[trigger] s[j]),
            acc == digits_value(s.take(i as int)),
        decreases len - i,
    {
        let b = text.get_ascii(i);
        if b < 48 || b > 57 {
            proof {
                assert(!is_digit(s[i as int]));
                assert forall|n: u64| s != #[trigger] decimal_digits(n as nat) by {
                    lemma_digits_read_back(n as nat);
                }
            }
            return None;
        }
        let d: u64 = (b - 48) as u64;
        proof {
            assert(is_digit(s[i as int]));
            assert(digit_value(s[i as int]) == d);
            assert(s.take(i + 1).drop_last() =~= s.take(i as int));
            assert(s.take(i + 1).last() == s[i as int]);
        }
        if acc > (u64::MAX - d) / 10 {
            proof {
                assert(digits_value(s.take(i + 1)) > u64::MAX);
                assert forall|n: u64| s != #[trigger] decimal_digits(n as nat) by {
                    lemma_digits_read_back(n as nat);
                    if s == decimal_digits(n as nat) {
                        lemma_prefix_value(s, i + 1);
                    }
                }
            }
            return None;
        }
        acc = acc * 10 + d;
        i = i + 1;
    }
    proof {
        assert(s.take(len as int) =~= s);
        lemma_canonical_is_written(s);
    }
    Some(acc)
}

} // verus!
