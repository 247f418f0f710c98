//! Numbers as text: decimal and hexadecimal digits, written and read.

use crate::text::{chars_of, trim, trimmed};
use vstd::prelude::*;

verus! {

/// The decimal digit of `d`.
pub open spec fn digit_char(d: nat) -> char
    recommends
        d < 10,
{
    (48 + d) as char
}

/// The decimal digits of `n`, without leading zeros.
pub open spec fn decimal(n: nat) -> Seq<char>
    decreases n,
{
    if n < 10 {
        seq![digit_char(n)]
    } else {
        decimal(n / 10).push(digit_char(n % 10))
    }
}

/// Writes `n` in decimal.
pub fn decimal_string(n: u64) -> (out: String)
    ensures
        out@ == decimal(n as nat),
    decreases n,
{
    let digit: u8 = (n % 10) as u8;
    let c: char = (48 + digit) as char;
    if n < 10 {
        let mut out = String::new();
        out.push(c);
        proof {
            assert(out@ =~= seq![digit_char(n as nat)]);
        }
        out
    } else {
        let mut out = decimal_string(n / 10);
        out.push(c);
        out
    }
}

/// The value of the hexadecimal digit `d` as a character: upper case where
/// `upper`, else lower case.
pub open spec fn hex_char(d: nat, upper: bool) -> char
    recommends
        d < 16,
{
    if d < 10 {
        (48 + d) as char
    } else if upper {
        (55 + d) as char
    } else {
        (87 + d) as char
    }
}

/// The last `width` hexadecimal digits of `n`, with leading zeros.
pub open spec fn hex(n: nat, width: nat, upper: bool) -> Seq<char>
    decreases width,
{
    if width == 0 {
        Seq::empty()
    } else {
        hex(n / 16, (width - 1) as nat, upper).push(hex_char(n % 16, upper))
    }
}

/// Writes the last `width` hexadecimal digits of `n` in upper case.
pub fn upper_hex_string(n: u128, width: usize) -> (out: String)
    ensures
        out@ == hex(n as nat, width as nat, true),
    decreases width,
{
    if width == 0 {
        String::new()
    } else {
        let digit: u8 = (n % 16) as u8;
        let c: char = if digit < 10 {
            (48 + digit) as char
        } else {
            (55 + digit) as char
        };
        let mut out = upper_hex_string(n / 16, width - 1);
        out.push(c);
        out
    }
}

/// A character's code fits in `u32`.
proof fn lemma_char_code(c: char)
    ensures
        c as u32 == c as int,
{
}

/// Whether `c` is a decimal digit.
pub open spec fn is_digit(c: char) -> bool {
    '0' <= c <= '9'
}

/// Whether `s` holds decimal digits only.
pub open spec fn all_digits(s: Seq<char>) -> bool {
    forall|i: int| 0 <= i < s.len() ==> is_digit(#[trigger] s[i])
}

/// The number whose decimal digits are `s`.
pub open spec fn digits_value(s: Seq<char>) -> nat
    recommends
        all_digits(s),
    decreases s.len(),
{
    if s.len() == 0 {
        0
    } else {
        10 * digits_value(s.drop_last()) + (s.last() as int - 48) as nat
    }
}

/// `s` without one leading plus sign.
pub open spec fn without_plus(s: Seq<char>) -> Seq<char> {
    if s.len() > 0 && s.first() == '+' {
        s.drop_first()
    } else {
        s
    }
}

/// What `s` is read as: an optional plus sign and at least one decimal digit
/// stand for a number, where it is at most `limit`; nothing else does.
pub open spec fn read_decimal(s: Seq<char>, limit: nat) -> Option<nat> {
    let body = without_plus(s);
    if body.len() > 0 && all_digits(body) && digits_value(body) <= limit {
        Some(digits_value(body))
    } else {
        None
    }
}

/// The decimal digits of a number are digits, and stand for that number.
pub proof fn lemma_decimal_digits(n: nat)
    ensures
        decimal(n).len() > 0,
        all_digits(decimal(n)),
        digits_value(decimal(n)) == n,
    decreases n,
{
    let text = decimal(n);
    if n < 10 {
        assert(text.drop_last() =~= Seq::<char>::empty());
        assert(digits_value(text.drop_last()) == 0);
    } else {
        lemma_decimal_digits(n / 10);
        assert(text.drop_last() =~= decimal(n / 10));
    }
}

/// Reading a number gives back the number that was written in decimal, where
/// it is within the limit; a larger one is refused.
pub proof fn law_decimal_read_back(n: nat, limit: nat)
    ensures
        read_decimal(decimal(n), limit) == (if n <= limit {
            Some(n)
        } else {
            None
        }),
{
    lemma_decimal_digits(n);
    assert(is_digit(decimal(n)[0]));
}

/// Different numbers have different digits.
pub proof fn law_decimal_injective(m: nat, n: nat)
    requires
        decimal(m) == decimal(n),
    ensures
        m == n,
{
    lemma_decimal_digits(m);
    lemma_decimal_digits(n);
}

/// A prefix of a number's digits stands for no larger a number.
proof fn lemma_prefix_value(s: Seq<char>, i: int)
    requires
        all_digits(s),
        0 <= i <= s.len(),
    ensures
        digits_value(s.take(i)) <= digits_value(s),
    decreases s.len() - i,
{
    if i < s.len() {
        lemma_prefix_value(s, i + 1);
        assert(s.take(i + 1).drop_last() =~= s.take(i));
    } else {
        assert(s.take(i) =~= s);
    }
}

/// Reads a decimal number that fits in `usize`.
pub fn parse_decimal(s: &str) -> (out: Option<usize>)
    ensures
        match out {
            Some(n) => read_decimal(s@, usize::MAX as nat) == Some(n as nat),
            None => read_decimal(s@, usize::MAX as nat) is None,
        },
{
    let chars = chars_of(s);
    let start: usize = if chars.len() > 0 && chars[0] == '+' {
        1
    } else {
        0
    };
    let ghost body = without_plus(s@);
    proof {
        assert(body =~= chars@.skip(start as int));
    }
    if start == chars.len() {
        return None;
    }
    let mut i: usize = start;
    let mut value: usize = 0;
    proof {
        assert(body.take(0) =~= Seq::<char>::empty());
    }
    while i < chars.len()
        invariant
            start <= i <= chars@.len(),
            start < chars@.len(),
            chars@ == s@,
            body == without_plus(s@),
            body == chars@.skip(start as int),
            all_digits(body.take(i - start)),
            value == digits_value(body.take(i - start)),
        decreases chars@.len() - i,
    {
        let c: char = chars[i];
        let ghost k = i - start;
        assert(c == body[k]);
        if c < '0' || c > '9' {
            assert(!is_digit(body[k]));
            return None;
        }
        proof {
            lemma_char_code(c);
        }
        let d: usize = (c as u32 - 48) as usize;
        let ghost next = body.take(k + 1);
        proof {
            assert(next.drop_last() =~= body.take(k));
            assert(next =~= body.take(k).push(c));
            assert(digits_value(next) == 10 * digits_value(body.take(k)) + d);
        }
        let fits: bool = value <= usize::MAX / 10 && d <= usize::MAX - value * 10;
        if !fits {
            proof {
                if all_digits(body) {
                    lemma_prefix_value(body, k + 1);
                }
            }
            return None;
        }
        value = value * 10 + d;
        i = i + 1;
    }
    proof {
        assert(body.take(i - start) =~= body);
    }
    Some(value)
}

/// Reads the number on the line `input`, white space around it left aside.
pub fn parse_line(input: &str) -> (out: Option<usize>)
    ensures
        match out {
            Some(n) => read_decimal(trimmed(input@), usize::MAX as nat) == Some(n as nat),
            None => read_decimal(trimmed(input@), usize::MAX as nat) is None,
        },
{
    let line = trim(input);
    parse_decimal(line.as_str())
}

/// A number is written digit by digit: one digit alone stands for itself, and
/// a further digit is put behind the digits before it.
pub proof fn law_decimal_digit_by_digit(n: nat, d: nat)
    requires
        d < 10,
    ensures
        decimal(d) == seq!["0123456789"@[d as int]],
        n > 0 ==> decimal(10 * n + d) == decimal(n).push("0123456789"@[d as int]),
{
    reveal_strlit("0123456789");
    assert(d == 0 || d == 1 || d == 2 || d == 3 || d == 4 || d == 5 || d == 6 || d == 7 || d == 8
        || d == 9);
    assert((10 * n + d) / 10 == n);
    assert((10 * n + d) % 10 == d);
}

/// A number in decimal has digits only, and does not start with a zero unless
/// it is zero.
pub proof fn law_decimal_text(n: nat)
    ensures
        decimal(n).len() > 0,
        forall|i: int| 0 <= i < decimal(n).len() ==> '0' <= #[trigger] decimal(n)[i] <= '9',
        n > 0 ==> decimal(n)[0] != '0',
    decreases n,
{
    lemma_decimal_digits(n);
    assert forall|i: int| 0 <= i < decimal(n).len() implies '0' <= #[trigger] decimal(n)[i]
        <= '9' by {
        assert(is_digit(decimal(n)[i]));
    }
    if n >= 10 {
        law_decimal_text(n / 10);
        assert(decimal(n)[0] == decimal(n / 10)[0]);
    }
}

/// A text in which a character other than a digit stands, but for a plus sign
/// at its start, is not read as a number.
pub proof fn law_read_refuses_other_characters(s: Seq<char>, limit: nat, i: int)
    requires
        0 <= i < s.len(),
        !('0' <= s[i] <= '9'),
        i == 0 ==> s[0] != '+',
    ensures
        read_decimal(s, limit) is None,
{
    let body = without_plus(s);
    if s[0] == '+' {
        assert(body[i - 1] == s[i]);
    } else {
        assert(body[i] == s[i]);
    }
}

/// Text without a digit is not read as a number.
pub proof fn law_read_needs_a_digit(limit: nat)
    ensures
        read_decimal(Seq::empty(), limit) is None,
        read_decimal(seq!['+'], limit) is None,
{
}

/// One plus sign before a number makes no difference.
pub proof fn law_read_plus(s: Seq<char>, limit: nat)
    requires
        s.len() > 0 ==> s[0] != '+',
    ensures
        read_decimal(seq!['+'] + s, limit) == read_decimal(s, limit),
{
    assert((seq!['+'] + s).drop_first() =~= s);
}

/// A digit alone is read as its value, and a digit behind a number as the next
/// digit of the number; what goes beyond the limit is not read.
pub proof fn law_read_digit_by_digit(s: Seq<char>, c: char, limit: nat)
    requires
        '0' <= c <= '9',
    ensures
        read_decimal(seq![c], limit) == (if c as int - 48 <= limit {
            Some((c as int - 48) as nat)
        } else {
            None
        }),
        match read_decimal(s, limit) {
            Some(n) => read_decimal(s.push(c), limit) == (if 10 * n + (c as int - 48) <= limit {
                Some((10 * n + (c as int - 48)) as nat)
            } else {
                None
            }),
            None => true,
        },
{
    let one = seq![c];
    assert(one.drop_last() =~= Seq::<char>::empty());
    assert(digits_value(one.drop_last()) == 0);
    assert(without_plus(one) == one);
    if read_decimal(s, limit) is Some {
        let body = without_plus(s);
        let longer = without_plus(s.push(c));
        assert(longer =~= body.push(c));
        assert(longer.drop_last() =~= body);
        assert forall|i: int| 0 <= i < longer.len() implies is_digit(#[trigger] longer[i]) by {
            if i < body.len() {
                assert(is_digit(body[i]));
            }
        }
    }
}

/// The limit refuses the numbers above it and changes no other.
pub proof fn law_read_limit(s: Seq<char>, low: nat, high: nat)
    requires
        low <= high,
    ensures
        read_decimal(s, low) == match read_decimal(s, high) {
            Some(n) => if n <= low {
                Some(n)
            } else {
                None
            },
            None => None,
        },
{
}

} // verus!
