//! Decimal integer literals: what a text denotes, and how a value is written.

use vstd::prelude::*;
use crate::text::{chars_of, push_char};

verus! {

/// Whether `c` is one of the ten ASCII decimal digits.
pub open spec fn is_digit(c: char) -> bool {
    '0' <= c <= '9'
}

/// The number that the digit `c` stands for.
pub open spec fn digit_value(c: char) -> nat {
    (c as int - '0' as int) as nat
}

/// The digit that stands for `d`, for `d` below ten.
pub open spec fn digit_char(d: nat) -> char {
    (d + '0' as nat) as u8 as char
}

/// Whether every character of `s` is a decimal digit.
pub open spec fn all_digits(s: Seq<char>) -> bool {
    forall|i: int| 0 <= i < s.len() ==> is_digit(#[trigger] s[i])
}

/// The value of a run of digits read as a decimal numeral, most significant
/// digit first. The empty run has the value zero.
pub open spec fn digits_value(s: Seq<char>) -> nat
    decreases s.len(),
{
    if s.len() == 0 {
        0
    } else {
        digits_value(s.drop_last()) * 10 + digit_value(s.last())
    }
}

/// The integer that a text denotes: an optional sign (`-` or `+`) followed by
/// one or more decimal digits. Any other text denotes nothing.
pub open spec fn decimal_value(s: Seq<char>) -> Option<int> {
    if s.len() > 0 && (s[0] == '-' || s[0] == '+') {
        let body = s.drop_first();
        if body.len() > 0 && all_digits(body) {
            if s[0] == '-' {
                Some(-(digits_value(body) as int))
            } else {
                Some(digits_value(body) as int)
            }
        } else {
            None
        }
    } else if s.len() > 0 && all_digits(s) {
        Some(digits_value(s) as int)
    } else {
        None
    }
}

/// The integer that `s` denotes, provided it lies between `low` and `high`.
pub open spec fn decimal_value_within(s: Seq<char>, low: int, high: int) -> Option<int> {
    match decimal_value(s) {
        Some(v) => if low <= v <= high {
            Some(v)
        } else {
            None
        },
        None => None,
    }
}

/// The decimal numeral of a natural number, without leading zeros.
pub open spec fn digits_text(n: nat) -> Seq<char>
    decreases n,
{
    if n < 10 {
        seq![digit_char(n)]
    } else {
        digits_text(n / 10).push(digit_char(n % 10))
    }
}

/// The canonical decimal text of an integer: a `-` for a negative value, then
/// the numeral of its magnitude.
pub open spec fn decimal_text(n: int) -> Seq<char> {
    if n < 0 {
        seq!['-'] + digits_text((-n) as nat)
    } else {
        digits_text(n as nat)
    }
}

/// The numeral of `n` consists of digits only, is not empty, has the value
/// `n`, and begins with `0` only when `n` is zero.
pub proof fn lemma_digits_text(n: nat)
    ensures
        digits_text(n).len() > 0,
        all_digits(digits_text(n)),
        digits_value(digits_text(n)) == n,
        n > 0 ==> digits_text(n)[0] != '0',
        n == 0 ==> digits_text(n) == seq!['0'],
    decreases n,
{
    if n < 10 {
        let t = digits_text(n);
        assert(t.len() == 1);
        assert(t[0] == digit_char(n));
        assert(t.drop_last().len() == 0);
        assert(digits_value(t.drop_last()) == 0);
        assert(digits_value(t) == digit_value(t.last()));
    } else {
        lemma_digits_text(n / 10);
        let head = digits_text(n / 10);
        let t = digits_text(n);
        assert(t == head.push(digit_char(n % 10)));
        assert(t.drop_last() == head);
        assert(t.last() == digit_char(n % 10));
        assert(t[0] == head[0]);
        assert forall|i: int| 0 <= i < t.len() implies is_digit(#[trigger] t[i]) by {
            if i < head.len() {
                assert(t[i] == head[i]);
            }
        }
    }
}

/// Writing an integer and reading the text back gives the integer.
pub proof fn lemma_decimal_round_trip(n: int)
    ensures
        decimal_value(decimal_text(n)) == Some(n),
{
    if n < 0 {
        let m = (-n) as nat;
        lemma_digits_text(m);
        let t = decimal_text(n);
        assert(t[0] == '-');
        assert(t.drop_first() == digits_text(m));
    } else {
        lemma_digits_text(n as nat);
        let t = decimal_text(n);
        assert(is_digit(t[0]));
    }
}

/// Reads a decimal integer literal that fits in 128 bits.
pub fn parse_i128(text: &str) -> (out: Option<i128>)
    ensures
        out == match decimal_value_within(text@, i128::MIN as int, i128::MAX as int) {
            Some(v) => Some(v as i128),
            None => None,
        },
{
    let chars = chars_of(text);
    let n = chars.len();
    if n == 0 {
        return None;
    }
    let negative = chars[0] == '-';
    let start: usize = if chars[0] == '-' || chars[0] == '+' {
        1
    } else {
        0
    };
    if start == n {
        return None;
    }
    let ghost body = chars@.subrange(start as int, n as int);
    proof {
        if start == 1 {
            assert(body == chars@.drop_first());
        } else {
            assert(body == chars@);
        }
    }
    let mut acc: i128 = 0;
    let mut fits = true;
    let mut i: usize = start;
    while i < n
        invariant
            start <= i <= n,
            n == chars.len(),
            chars@ == text@,
            negative == (chars@[0] == '-'),
            start == if chars@[0] == '-' || chars@[0] == '+' {
                1usize
            } else {
                0usize
            },
            body == chars@.subrange(start as int, n as int),
            all_digits(body.take(i - start)),
            fits ==> acc == if negative {
                -(digits_value(body.take(i - start)) as int)
            } else {
                digits_value(body.take(i - start)) as int
            },
            !fits ==> if negative {
                -(digits_value(body.take(i - start)) as int) < i128::MIN
            } else {
                digits_value(body.take(i - start)) as int > i128::MAX
            },
        decreases n - i,
    {
        let c = chars[i];
        let ghost before = body.take(i - start);
        let ghost after = body.take(i - start + 1);
        proof {
            assert(body[i - start] == c);
            assert(after.drop_last() == before);
            assert(after.last() == c);
        }
        if !(c >= '0' && c <= '9') {
            proof {
                assert(!is_digit(body[i - start]));
                assert(!all_digits(body));
                assert(chars@ == text@);
                if start == 1 {
                    assert(body == text@.drop_first());
                } else {
                    assert(body == text@);
                }
                assert(decimal_value(text@) is None);
            }
            return None;
        }
        let d: i128 = (c as u8 - 48u8) as i128;
        proof {
            assert(d == digit_value(c));
            assert(digits_value(after) == digits_value(before) * 10 + digit_value(c));
            assert forall|j: int| 0 <= j < after.len() implies is_digit(#[trigger] after[j]) by {
                if j < before.len() {
                    assert(after[j] == before[j]);
                }
            }
        }
        if fits {
            let scaled = acc.checked_mul(10);
            let next = match scaled {
                Some(m) => if negative {
                    m.checked_sub(d)
                } else {
                    m.checked_add(d)
                },
                None => None,
            };
            match next {
                Some(v) => {
                    acc = v;
                },
                None => {
                    fits = false;
                },
            }
        }
        i += 1;
    }
    proof {
        assert(body.take(n - start) == body);
    }
    if fits {
        Some(acc)
    } else {
        None
    }
}

/// Reads a decimal integer literal that fits in 64 bits.
pub fn parse_i64(text: &str) -> (out: Option<i64>)
    ensures
        out == match decimal_value_within(text@, i64::MIN as int, i64::MAX as int) {
            Some(v) => Some(v as i64),
            None => None,
        },
{
    match parse_i128(text) {
        Some(v) => if v >= -9223372036854775808i128 && v <= 9223372036854775807i128 {
            Some(v as i64)
        } else {
            None
        },
        None => None,
    }
}

/// Writes an integer as its canonical decimal text.
pub fn render_int(n: i128) -> (out: String)
    ensures
        out@ == decimal_text(n as int),
{
    let negative = n < 0;
    let start: u128 = if n < 0 {
        (-(n + 1)) as u128 + 1
    } else {
        n as u128
    };
    let mut rest: u128 = start;
    let mut low_first: Vec<char> = Vec::new();
    let ghost mut tail: Seq<char> = Seq::empty();
    while rest >= 10
        invariant
            tail.len() == low_first.len(),
            forall|i: int|
                0 <= i < tail.len() ==> #[trigger] tail[i] == low_first@[low_first.len() - 1 - i],
            digits_text(start as nat) == digits_text(rest as nat) + tail,
        decreases rest,
    {
        let d: u8 = (rest % 10) as u8;
        let c: char = (48u8 + d) as char;
        proof {
            assert(c == digit_char((rest % 10) as nat));
            assert(digits_text(rest as nat) == digits_text((rest / 10) as nat).push(c));
            assert(digits_text((rest / 10) as nat).push(c) + tail == digits_text(
                (rest / 10) as nat,
            ) + (seq![c] + tail));
            tail = seq![c] + tail;
        }
        low_first.push(c);
        rest = rest / 10;
    }
    let last: char = (48u8 + rest as u8) as char;
    proof {
        assert(last == digit_char(rest as nat));
        assert(digits_text(rest as nat) == seq![last]);
        tail = seq![last] + tail;
    }
    low_first.push(last);
    assert(tail == digits_text(start as nat));
    let mut out = String::new();
    if negative {
        push_char(&mut out, '-');
    }
    let ghost sign: Seq<char> = out@;
    let mut k: usize = low_first.len();
    while k > 0
        invariant
            k <= low_first.len(),
            tail.len() == low_first.len(),
            forall|i: int|
                0 <= i < tail.len() ==> #[trigger] tail[i] == low_first@[low_first.len() - 1 - i],
            out@ == sign + tail.take(low_first.len() - k),
        decreases k,
    {
        k -= 1;
        push_char(&mut out, low_first[k]);
        proof {
            let done = low_first.len() - k;
            assert(tail.take(done) == tail.take(done - 1).push(tail[done - 1]));
            assert(sign + tail.take(done) == (sign + tail.take(done - 1)).push(tail[done - 1]));
        }
    }
    proof {
        assert(tail.take(tail.len() as int) == tail);
        if negative {
            assert(sign == seq!['-']);
        } else {
            assert(sign + tail == tail);
        }
    }
    out
}

} // verus!
