//! Decimal numbers as text: reading a `usize` the way `usize::from_str` does,
//! and writing an `isize` the way `isize::to_string` does.

use vstd::prelude::*;

verus! {

/// An ASCII decimal digit.
pub open spec fn is_digit(c: char) -> bool {
    '0' <= c && c <= '9'
}

/// The value of a digit character.
pub open spec fn digit_value(c: char) -> int {
    c as int - '0' as int
}

/// The digit character for a value below ten.
pub open spec fn digit_char(v: int) -> char {
    (v + '0' as int) as char
}

/// Every character of `s` is a digit.
pub open spec fn all_digits(s: Seq<char>) -> bool {
    forall|i: int| 0 <= i < s.len() ==> #[trigger] is_digit(s[i])
}

/// The number that the digits `s` spell, most significant first.
pub open spec fn digits_value(s: Seq<char>) -> int
    decreases s.len(),
{
    if s.len() == 0 {
        0
    } else {
        digits_value(s.drop_last()) * 10 + digit_value(s.last())
    }
}

/// What `usize::from_str` gives for `s`: an optional `+`, then at least one
/// digit and nothing else, with a value that fits in a `usize`.
pub open spec fn usize_from_text(s: Seq<char>) -> Option<usize> {
    let body = if s.len() > 0 && s[0] == '+' {
        s.drop_first()
    } else {
        s
    };
    if body.len() > 0 && all_digits(body) && digits_value(body) <= usize::MAX {
        Some(digits_value(body) as usize)
    } else {
        None
    }
}

/// The shortest decimal text of `n`.
pub open spec fn decimal(n: nat) -> Seq<char>
    decreases n,
{
    if n < 10 {
        seq![digit_char(n as int)]
    } else {
        decimal(n / 10).push(digit_char((n % 10) as int))
    }
}

/// The text of a signed number: a `-` before the digits of a negative one.
pub open spec fn signed_decimal(n: int) -> Seq<char> {
    if n < 0 {
        seq!['-'] + decimal((-n) as nat)
    } else {
        decimal(n as nat)
    }
}

proof fn lemma_digit_char(v: int)
    requires
        0 <= v < 10,
    ensures
        is_digit(digit_char(v)),
        digit_value(digit_char(v)) == v,
{
    assert(digit_char(v) as int == v + 48);
}

proof fn lemma_digits_value_nonneg(s: Seq<char>)
    requires
        all_digits(s),
    ensures
        digits_value(s) >= 0,
    decreases s.len(),
{
    if s.len() > 0 {
        assert(is_digit(s[s.len() - 1]));
        lemma_digits_value_nonneg(s.drop_last());
    }
}

/// Appending digits never makes the value smaller.
proof fn lemma_digits_value_grows(s: Seq<char>, k: int)
    requires
        all_digits(s),
        0 <= k <= s.len(),
    ensures
        digits_value(s.take(k)) <= digits_value(s),
    decreases s.len() - k,
{
    if k < s.len() {
        let t = s.take(k + 1);
        assert(t.drop_last() =~= s.take(k));
        assert(is_digit(s[k]));
        lemma_digits_value_nonneg(s.take(k));
        lemma_digits_value_grows(s, k + 1);
    } else {
        assert(s.take(k) =~= s);
    }
}

/// The decimal text of `n` is made of digits and spells `n`.
pub proof fn lemma_decimal_spells(n: nat)
    ensures
        decimal(n).len() > 0,
        all_digits(decimal(n)),
        digits_value(decimal(n)) == n,
    decreases n,
{
    lemma_digit_char((n % 10) as int);
    if n < 10 {
        lemma_digit_char(n as int);
        assert(digits_value(decimal(n)) == digits_value(decimal(n).drop_last()) * 10 + digit_value(decimal(n).last()));
        assert(decimal(n).drop_last().len() == 0);
    } else {
        lemma_decimal_spells(n / 10);
        let d = decimal(n);
        assert(n == (n / 10) * 10 + n % 10) by (nonlinear_arith);
        assert(d.drop_last() =~= decimal(n / 10));
        assert forall|i: int| 0 <= i < d.len() implies #[trigger] is_digit(d[i]) by {
            if i < d.len() - 1 {
                assert(d[i] == decimal(n / 10)[i]);
            }
        }
    }
}

/// Reading back the text of a non-negative number gives the number.
pub proof fn lemma_read_back_written(n: isize)
    requires
        n >= 0,
    ensures
        usize_from_text(signed_decimal(n as int)) == Some(n as usize),
{
    lemma_decimal_spells(n as nat);
    let s = signed_decimal(n as int);
    assert(is_digit(s[0]));
}

/// Reads a `usize` from its decimal text, as `usize::from_str` does.
pub fn parse_usize(s: &Vec<char>) -> (r: Option<usize>)
    ensures
        r == usize_from_text(s@),
{
    let start: usize = if s.len() > 0 && s[0] == '+' {
        1
    } else {
        0
    };
    let ghost body = if s@.len() > 0 && s@[0] == '+' {
        s@.drop_first()
    } else {
        s@
    };
    assert(body =~= s@.subrange(start as int, s@.len() as int));
    if start >= s.len() {
        return None;
    }
    let mut v: usize = 0;
    let mut i: usize = start;
    while i < s.len()
        invariant
            start <= i <= s.len(),
            body == s@.subrange(start as int, s@.len() as int),
            body == (if s@.len() > 0 && s@[0] == '+' {
                s@.drop_first()
            } else {
                s@
            }),
            all_digits(body.take(i - start)),
            v == digits_value(body.take(i - start)),
        decreases s.len() - i,
    {
        let c = s[i];
        assert(body[i - start] == c);
        if !('0' <= c && c <= '9') {
            assert(!is_digit(body[i - start]));
            assert(!all_digits(body));
            return None;
        }
        let d = (c as u32 - '0' as u32) as usize;
        assert(body.take(i - start + 1).drop_last() =~= body.take(i - start));
        assert(body.take(i - start + 1).last() == c);
        if v > (usize::MAX - d) / 10 {
            proof {
                assert(v * 10 + d > usize::MAX) by (nonlinear_arith)
                    requires
                        v > (usize::MAX - d) / 10,
                        d <= 9,
                ;
                assert(digit_value(c) == d);
                assert(digits_value(body.take(i - start + 1)) == v * 10 + d);
                if all_digits(body) {
                    lemma_digits_value_grows(body, i - start + 1);
                    assert(digits_value(body) > usize::MAX);
                }
            }
            return None;
        }
        assert(v * 10 + d <= usize::MAX) by (nonlinear_arith)
            requires
                v <= (usize::MAX - d) / 10,
                d <= 9,
        ;
        v = v * 10 + d;
        i += 1;
        assert forall|k: int| 0 <= k < i - start implies #[trigger] is_digit(
            body.take(i - start)[k],
        ) by {
            if k < i - start - 1 {
                assert(body.take(i - start)[k] == body.take(i - start - 1)[k]);
            }
        }
    }
    assert(body.take(i - start) =~= body);
    Some(v)
}

/// Writes `n` in decimal, as `isize::to_string` does.
pub fn format_isize(n: isize) -> (r: Vec<char>)
    ensures
        r@ == signed_decimal(n as int),
{
    let wide: i128 = n as i128;
    let mut m: u64 = if wide < 0 {
        (-wide) as u64
    } else {
        wide as u64
    };
    let ghost start: nat = m as nat;
    let mut v: Vec<char> = Vec::new();
    while m >= 10
        invariant
            decimal(start) == decimal(m as nat) + v@,
        decreases m,
    {
        let d = (m % 10) as u8;
        let c = ('0' as u8 + d) as char;
        assert(c == digit_char((m % 10) as int));
        v.insert(0, c);
        assert(decimal(m as nat) =~= decimal((m / 10) as nat).push(c));
        m = m / 10;
    }
    let c = ('0' as u8 + m as u8) as char;
    assert(decimal(m as nat) =~= seq![c]);
    v.insert(0, c);
    if n < 0 {
        v.insert(0, '-');
    }
    v
}

} // verus!
