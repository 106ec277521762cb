//! Helpers on text: comparing with a word, joining, and reading and writing
//! integers.

use vstd::prelude::*;

verus! {

/// Whether `s` spells exactly `word`.
pub fn text_is(s: &str, word: &str) -> (r: bool)
    ensures
        r == (s@ == word@),
{
    let a = s.to_owned();
    let b = word.to_owned();
    a == b
}

/// `a` followed by `b`.
pub fn join(a: &str, b: &str) -> (r: String)
    ensures
        r@ == a@ + b@,
{
    let mut out = a.to_owned();
    out.append(b);
    out
}

/// Whether every character is one of `0` to `9`, and there is at least one.
pub open spec fn all_digits(s: Seq<char>) -> bool {
    s.len() > 0 && forall|i: int| 0 <= i < s.len() ==> '0' <= #[trigger] s[i] <= '9'
}

/// The number that a run of digits denotes.
pub open spec fn digits_value(s: Seq<char>) -> int
    decreases s.len(),
{
    if s.len() == 0 {
        0
    } else {
        digits_value(s.drop_last()) * 10 + (s.last() as int - '0' as int)
    }
}

/// The integer that a text denotes: digits after an optional sign, within
/// the range of 64 bits.
pub open spec fn int_of_text(s: Seq<char>) -> Option<i64> {
    let signed = s.len() > 0 && (s[0] == '-' || s[0] == '+');
    let body = if signed {
        s.subrange(1, s.len() as int)
    } else {
        s
    };
    let value = if s.len() > 0 && s[0] == '-' {
        -digits_value(body)
    } else {
        digits_value(body)
    };
    if all_digits(body) && i64::MIN <= value <= i64::MAX {
        Some(value as i64)
    } else {
        None
    }
}

/// Whether a text is digits, a dot and digits.
pub open spec fn is_decimal(s: Seq<char>) -> bool {
    exists|dot: int|
        0 <= dot < s.len() && #[trigger] s[dot] == '.' && all_digits(s.subrange(0, dot))
            && all_digits(s.subrange(dot + 1, s.len() as int))
}

/// The character for a digit.
pub open spec fn digit_char(d: int) -> char {
    if d == 0 {
        '0'
    } else if d == 1 {
        '1'
    } else if d == 2 {
        '2'
    } else if d == 3 {
        '3'
    } else if d == 4 {
        '4'
    } else if d == 5 {
        '5'
    } else if d == 6 {
        '6'
    } else if d == 7 {
        '7'
    } else if d == 8 {
        '8'
    } else {
        '9'
    }
}

/// The digits of a natural number, without leading zeros.
pub open spec fn digits_of(n: nat) -> Seq<char>
    decreases n,
{
    if n < 10 {
        seq![digit_char(n as int)]
    } else {
        digits_of(n / 10).push(digit_char((n % 10) as int))
    }
}

/// An integer in decimal, with `-` before a negative one.
pub open spec fn decimal(n: int) -> Seq<char> {
    if n < 0 {
        seq!['-'] + digits_of((-n) as nat)
    } else {
        digits_of(n as nat)
    }
}

/// The text of one digit.
pub fn digit_text(d: u64) -> (r: &'static str)
    requires
        d < 10,
    ensures
        r@ == seq![digit_char(d as int)],
{
    proof {
        reveal_strlit("0");
        reveal_strlit("1");
        reveal_strlit("2");
        reveal_strlit("3");
        reveal_strlit("4");
        reveal_strlit("5");
        reveal_strlit("6");
        reveal_strlit("7");
        reveal_strlit("8");
        reveal_strlit("9");
    }
    let r = if d == 0 {
        "0"
    } else if d == 1 {
        "1"
    } else if d == 2 {
        "2"
    } else if d == 3 {
        "3"
    } else if d == 4 {
        "4"
    } else if d == 5 {
        "5"
    } else if d == 6 {
        "6"
    } else if d == 7 {
        "7"
    } else if d == 8 {
        "8"
    } else {
        "9"
    };
    assert(r@ =~= seq![digit_char(d as int)]);
    r
}

/// A natural number in decimal, without leading zeros.
pub fn display_natural(n: u64) -> (r: String)
    ensures
        r@ == digits_of(n as nat),
{
    let mut rest: u64 = n / 10;
    let mut out = digit_text(n % 10).to_owned();
    proof {
        if n >= 10 {
            assert(digits_of(n as nat) =~= digits_of(rest as nat) + out@);
        }
    }
    while rest > 0
        invariant
            digits_of(n as nat) == if rest > 0 {
                digits_of(rest as nat) + out@
            } else {
                out@
            },
        decreases rest,
    {
        let d = digit_text(rest % 10);
        let ghost before = out@;
        let ghost last = rest;
        out = join(d, out.as_str());
        rest = rest / 10;
        proof {
            if last >= 10 {
                assert(digits_of(last as nat) + before =~= digits_of(rest as nat) + out@);
            } else {
                assert(digits_of(last as nat) + before =~= out@);
            }
        }
    }
    out
}

/// An integer in decimal, with `-` before a negative one.
pub fn display_int(n: i64) -> (r: String)
    ensures
        r@ == decimal(n as int),
{
    if n < 0 {
        let size: u64 = if n == i64::MIN {
            9223372036854775808u64
        } else {
            (-n) as u64
        };
        proof {
            reveal_strlit("-");
            assert("-"@ =~= seq!['-']);
        }
        join("-", display_natural(size).as_str())
    } else {
        display_natural(n as u64)
    }
}

/// A count in decimal.
pub fn display_count(n: usize) -> (r: String)
    ensures
        r@ == decimal(n as int),
{
    display_natural(n as u64)
}

/// A run of digits that starts with a greater number denotes a greater
/// number: more digits never make it smaller.
pub proof fn lemma_digits_grow(s: Seq<char>, i: int)
    requires
        0 <= i <= s.len(),
        forall|k: int| 0 <= k < s.len() ==> '0' <= #[trigger] s[k] <= '9',
    ensures
        0 <= digits_value(s.take(i)) <= digits_value(s),
    decreases s.len() - i,
{
    lemma_digits_not_negative(s.take(i));
    if i == s.len() {
        assert(s.take(i) =~= s);
    } else {
        lemma_digits_grow(s, i + 1);
        assert(s.take(i + 1).drop_last() =~= s.take(i));
        lemma_digits_not_negative(s.take(i));
    }
}

/// A run of digits denotes no negative number.
pub proof fn lemma_digits_not_negative(s: Seq<char>)
    requires
        forall|k: int| 0 <= k < s.len() ==> '0' <= #[trigger] s[k] <= '9',
    ensures
        0 <= digits_value(s),
    decreases s.len(),
{
    if s.len() > 0 {
        lemma_digits_not_negative(s.drop_last());
    }
}

/// The number that a run of digits denotes, if it is a run of digits and
/// denotes no more than `limit`.
pub fn read_digits(s: &str, from: usize, limit: u64) -> (r: Option<u64>)
    requires
        from <= s@.len(),
        limit <= 9223372036854775808u64,
    ensures
        ({
            let body = s@.subrange(from as int, s@.len() as int);
            match r {
                Some(v) => all_digits(body) && digits_value(body) == v && v <= limit,
                None => !all_digits(body) || digits_value(body) > limit,
            }
        }),
{
    let n = s.unicode_len();
    let ghost body = s@.subrange(from as int, n as int);
    if from == n {
        return None;
    }
    let mut i: usize = from;
    let mut acc: u64 = 0;
    proof {
        assert(body.take(0) =~= Seq::<char>::empty());
    }
    while i < n
        invariant
            n == s@.len(),
            from <= i <= n,
            body == s@.subrange(from as int, n as int),
            forall|k: int| 0 <= k < i - from ==> '0' <= #[trigger] body[k] <= '9',
            acc == digits_value(body.take(i - from)),
            acc <= limit,
            limit <= 9223372036854775808u64,
        decreases n - i,
    {
        let c = s.get_char(i);
        if !is_digit(c) {
            proof {
                assert(body[i - from] == c);
            }
            return None;
        }
        let d: u64 = if c == '0' {
            0
        } else if c == '1' {
            1
        } else if c == '2' {
            2
        } else if c == '3' {
            3
        } else if c == '4' {
            4
        } else if c == '5' {
            5
        } else if c == '6' {
            6
        } else if c == '7' {
            7
        } else if c == '8' {
            8
        } else {
            9
        };
        proof {
            assert(body[i - from] == c);
            assert(d == c as int - '0' as int);
            assert(body.take(i - from + 1).drop_last() =~= body.take(i - from));
            assert(body.take(i - from + 1).last() == c);
        }
        let ghost longer = digits_value(body.take(i - from + 1));
        assert(longer == acc * 10 + d);
        if d > limit || acc > (limit - d) / 10 {
            proof {
                if d <= limit {
                    assert(longer > limit) by (nonlinear_arith)
                        requires
                            longer == acc * 10 + d,
                            acc > (limit - d) / 10,
                            0 <= d <= 9,
                            d <= limit,
                    ;
                }
                if all_digits(body) {
                    lemma_digits_grow(body, i - from + 1);
                }
            }
            return None;
        }
        proof {
            assert(acc * 10 + d <= limit) by (nonlinear_arith)
                requires
                    acc <= (limit - d) / 10,
                    0 <= d <= 9,
                    d <= limit,
            ;
        }
        acc = acc * 10 + d;
        i += 1;
    }
    proof {
        assert(body.take(n - from) =~= body);
    }
    Some(acc)
}

/// The integer that a text denotes, if it denotes one.
pub fn parse_int(s: &str) -> (r: Option<i64>)
    ensures
        r == int_of_text(s@),
{
    let n = s.unicode_len();
    if n == 0 {
        return None;
    }
    let first = s.get_char(0);
    if first == '-' {
        match read_digits(s, 1, 9223372036854775808u64) {
            Some(v) => {
                if v == 9223372036854775808u64 {
                    Some(i64::MIN)
                } else {
                    Some(-(v as i64))
                }
            },
            None => None,
        }
    } else if first == '+' {
        match read_digits(s, 1, 9223372036854775807u64) {
            Some(v) => Some(v as i64),
            None => None,
        }
    } else {
        proof {
            assert(s@.subrange(0, n as int) =~= s@);
        }
        match read_digits(s, 0, 9223372036854775807u64) {
            Some(v) => Some(v as i64),
            None => None,
        }
    }
}

/// Whether `c` is one of `0` to `9`.
pub fn is_digit(c: char) -> (r: bool)
    ensures
        r == ('0' <= c <= '9'),
{
    '0' <= c && c <= '9'
}

/// Whether `s` is digits, a dot and digits.
pub fn decimal_literal(s: &str) -> (r: bool)
    ensures
        r == is_decimal(s@),
{
    let n = s.unicode_len();
    let mut i: usize = 0;
    while i < n && is_digit(s.get_char(i))
        invariant
            n == s@.len(),
            i <= n,
            forall|k: int| 0 <= k < i ==> '0' <= #[trigger] s@[k] <= '9',
        decreases n - i,
    {
        i += 1;
    }
    if i == 0 || i >= n || s.get_char(i) != '.' {
        proof {
            assert forall|dot: int|
                0 <= dot < s@.len() && #[trigger] s@[dot] == '.' && all_digits(
                    s@.subrange(0, dot),
                ) implies false by {
                if dot < i {
                } else if dot > i {
                    assert(s@.subrange(0, dot)[i as int] == s@[i as int]);
                } else {
                }
            }
        }
        return false;
    }
    let mut j: usize = i + 1;
    while j < n && is_digit(s.get_char(j))
        invariant
            n == s@.len(),
            i < j <= n,
            forall|k: int| i < k < j ==> '0' <= #[trigger] s@[k] <= '9',
        decreases n - j,
    {
        j += 1;
    }
    proof {
        let before = s@.subrange(0, i as int);
        let after = s@.subrange(i + 1, n as int);
        assert(all_digits(before));
        if j == n && j > i + 1 {
            assert(all_digits(after));
        } else {
            assert forall|dot: int|
                0 <= dot < s@.len() && #[trigger] s@[dot] == '.' && all_digits(
                    s@.subrange(0, dot),
                ) && all_digits(s@.subrange(dot + 1, s@.len() as int)) implies false by {
                if dot < i {
                } else if dot > i {
                    assert(s@.subrange(0, dot)[i as int] == s@[i as int]);
                } else {
                    if j < n {
                        assert(after[j - i - 1] == s@[j as int]);
                    }
                }
            }
        }
    }
    j == n && j > i + 1
}

/// A text of one character, made with std's `String::from`, which gives
/// the `String` that holds its argument and nothing else. The contract
/// claims just that.
#[verifier::external_body]
pub(crate) fn char_text(c: char) -> (r: String)
    ensures
        r@ == seq![c],
{
    String::from(c)
}

} // verus!
