//! Decimal text: reading unsigned numbers and writing them back.

use vstd::prelude::*;
use vstd::string::*;

verus! {

/// True for the ASCII digits `0` to `9`.
pub open spec fn is_digit(c: char) -> bool {
    '0' <= c && c <= '9'
}

/// Value of one ASCII digit.
pub open spec fn digit_value(c: char) -> int {
    (c as int) - ('0' as int)
}

/// Digit character for a value below ten.
pub open spec fn digit_char(d: int) -> char {
    ((d + ('0' as int)) as u32) as char
}

/// Value of a run of decimal digits, most significant first.
pub open spec fn digits_value(s: Seq<char>) -> int
    decreases s.len(),
{
    if s.len() == 0 {
        0
    } else {
        10 * digits_value(s.drop_last()) + digit_value(s.last())
    }
}

pub open spec fn all_digits(s: Seq<char>) -> bool {
    forall|i: int| 0 <= i < s.len() ==> is_digit(#[trigger] s[i])
}

/// The digits of an unsigned number: the text without one leading `+`.
pub open spec fn unsigned_digits(s: Seq<char>) -> Seq<char> {
    if s.len() > 0 && s[0] == '+' {
        s.drop_first()
    } else {
        s
    }
}

/// An unsigned decimal number: an optional `+`, then one or more digits.
pub open spec fn is_unsigned_decimal(s: Seq<char>) -> bool {
    let d = unsigned_digits(s);
    d.len() > 0 && all_digits(d)
}

pub open spec fn decimal_value(s: Seq<char>) -> int {
    digits_value(unsigned_digits(s))
}

/// What reading `s` as an unsigned number no larger than `cap` gives.
pub open spec fn read_unsigned(s: Seq<char>, cap: int) -> Option<int> {
    if is_unsigned_decimal(s) && decimal_value(s) <= cap {
        Some(decimal_value(s))
    } else {
        None
    }
}

/// Decimal digits of `n`, without leading zeros (`0` for zero).
pub open spec fn decimal_chars(n: nat) -> Seq<char>
    decreases n,
{
    if n < 10 {
        seq![digit_char(n as int)]
    } else {
        decimal_chars(n / 10).push(digit_char((n % 10) as int))
    }
}

proof fn lemma_digits_value_nonneg(s: Seq<char>)
    requires
        all_digits(s),
    ensures
        digits_value(s) >= 0,
    decreases s.len(),
{
    if s.len() > 0 {
        assert(all_digits(s.drop_last()));
        lemma_digits_value_nonneg(s.drop_last());
        assert(is_digit(s[s.len() - 1]));
    }
}

/// Reads `s` as an unsigned decimal number no larger than `cap`.
fn read_bounded(s: &str, cap: u64) -> (r: Option<u64>)
    requires
        cap >= 9,
    ensures
        r matches Some(v) ==> read_unsigned(s@, cap as int) == Some(v as int),
        r is None ==> read_unsigned(s@, cap as int) is None,
{
    let n = s.unicode_len();
    let mut start: usize = 0;
    if n > 0 && s.get_char(0) == '+' {
        start = 1;
    }
    let ghost d = unsigned_digits(s@);
    assert(d == s@.subrange(start as int, n as int));
    if start >= n {
        return None;
    }
    let mut acc: u64 = 0;
    let mut over = false;
    let mut i = start;
    while i < n
        invariant
            start <= i <= n,
            n == s@.len(),
            cap >= 9,
            d == s@.subrange(start as int, n as int),
            d == unsigned_digits(s@),
            all_digits(s@.subrange(start as int, i as int)),
            !over ==> acc == digits_value(s@.subrange(start as int, i as int)) && acc <= cap,
            over ==> digits_value(s@.subrange(start as int, i as int)) > cap,
        decreases n - i,
    {
        let c = s.get_char(i);
        if !('0' <= c && c <= '9') {
            assert(d[i - start] == c);
            assert(!is_digit(d[i - start]));
            assert(!all_digits(d));
            return None;
        }
        let ghost pre = s@.subrange(start as int, i as int);
        let ghost next = s@.subrange(start as int, i + 1);
        assert(next.drop_last() == pre);
        assert(next.last() == c);
        assert(all_digits(next));
        proof {
            lemma_digits_value_nonneg(pre);
        }
        let dv = (c as u32 - '0' as u32) as u64;
        if !over {
            if acc > (cap - dv) / 10 {
                over = true;
                assert(digits_value(next) > cap) by (nonlinear_arith)
                    requires
                        digits_value(next) == 10 * acc + dv,
                        acc > (cap - dv) / 10,
                        dv <= 9,
                        dv <= cap || acc >= 0,
                ;
            } else {
                assert(10 * acc + dv <= cap) by (nonlinear_arith)
                    requires
                        acc <= (cap - dv) / 10,
                        dv <= cap,
                ;
                acc = acc * 10 + dv;
            }
        } else {
            assert(digits_value(next) > cap) by (nonlinear_arith)
                requires
                    digits_value(next) == 10 * digits_value(pre) + dv,
                    digits_value(pre) > cap,
                    dv >= 0,
            ;
        }
        i = i + 1;
    }
    if over {
        None
    } else {
        Some(acc)
    }
}

/// Reads an unsigned 32-bit number: an optional `+`, then decimal digits, as
/// `str::parse::<u32>` accepts them.
pub fn parse_u32(s: &str) -> (r: Option<u32>)
    ensures
        r matches Some(v) ==> read_unsigned(s@, u32::MAX as int) == Some(v as int),
        r is None ==> read_unsigned(s@, u32::MAX as int) is None,
{
    match read_bounded(s, u32::MAX as u64) {
        Some(v) => Some(v as u32),
        None => None,
    }
}

/// Reads an unsigned machine-sized number, as `str::parse::<usize>` accepts it.
pub fn parse_usize(s: &str) -> (r: Option<usize>)
    ensures
        r matches Some(v) ==> read_unsigned(s@, usize::MAX as int) == Some(v as int),
        r is None ==> read_unsigned(s@, usize::MAX as int) is None,
{
    match read_bounded(s, usize::MAX as u64) {
        Some(v) => Some(v as usize),
        None => None,
    }
}

/// Reads an unsigned 64-bit number, as `str::parse::<u64>` accepts it.
pub fn parse_u64(s: &str) -> (r: Option<u64>)
    ensures
        r matches Some(v) ==> read_unsigned(s@, u64::MAX as int) == Some(v as int),
        r is None ==> read_unsigned(s@, u64::MAX as int) is None,
{
    read_bounded(s, u64::MAX)
}

/// The decimal text of `n`.
pub fn decimal_text(n: u64) -> (r: String)
    ensures
        r@ == decimal_chars(n as nat),
    decreases n,
{
    let digits = "0123456789";
    proof {
        reveal_strlit("0123456789");
    }
    let last = (n % 10) as usize;
    let one = digits.substring_char(last, last + 1);
    assert(one@ == seq![digit_char(last as int)]);
    if n < 10 {
        one.to_string()
    } else {
        let mut head = decimal_text(n / 10);
        head.append(one);
        head
    }
}

/// Decimal text of a signed number: a `-` before the digits of a negative one.
pub open spec fn signed_decimal_chars(n: int) -> Seq<char> {
    if n < 0 {
        seq!['-'] + decimal_chars((-n) as nat)
    } else {
        decimal_chars(n as nat)
    }
}

/// The decimal text of a signed number.
pub fn signed_decimal_text(n: i64) -> (r: String)
    ensures
        r@ == signed_decimal_chars(n as int),
{
    if n < 0 {
        let magnitude = (-(n as i128)) as u64;
        let mut s = "-".to_string();
        proof {
            reveal_strlit("-");
        }
        let digits = decimal_text(magnitude);
        s.append(digits.as_str());
        s
    } else {
        decimal_text(n as u64)
    }
}

} // verus!
