//! Integers in base ten, as JSON writes them.

use crate::text::{chars_of, push_char};
use vstd::prelude::*;
use vstd::string::StringExecFns;

verus! {

/// Whether `c` is one of the digits `0` to `9`.
pub open spec fn is_digit(c: char) -> bool {
    '0' <= c && c <= '9'
}

/// The digit that stands for `d`, for `d` from 0 to 9.
pub open spec fn digit_of(d: int) -> char {
    ('0' as int + d) as char
}

/// The number that the digit `c` stands for.
pub open spec fn digit_value(c: char) -> int {
    c as int - '0' as int
}

/// The digits of `n` in base ten, without leading zeros.
pub open spec fn decimal(n: nat) -> Seq<char>
    decreases n,
{
    if n < 10 {
        seq![digit_of(n as int)]
    } else {
        decimal(n / 10).push(digit_of((n % 10) as int))
    }
}

/// The text of the integer `i`: its digits, after a minus sign where it is negative.
pub open spec fn integer_text(i: int) -> Seq<char> {
    if i < 0 {
        seq!['-'] + decimal((-i) as nat)
    } else {
        decimal(i as nat)
    }
}

/// The number that a string of digits stands for in base ten.
pub open spec fn decimal_value(s: Seq<char>) -> nat
    decreases s.len(),
{
    if s.len() == 0 {
        0
    } else {
        (10 * decimal_value(s.drop_last()) + digit_value(s.last())) as nat
    }
}

/// Whether `s` is written as `decimal` writes: digits only, at least one, and no zero in
/// front of another digit.
pub open spec fn is_decimal(s: Seq<char>) -> bool {
    &&& s.len() > 0
    &&& forall|i: int| 0 <= i < s.len() ==> is_digit(#[trigger] s[i])
    &&& s.len() > 1 ==> s[0] != '0'
}

/// What `decimal` writes is a decimal, and it stands for the number written.
pub proof fn lemma_decimal_is_decimal(n: nat)
    ensures
        is_decimal(decimal(n)),
        decimal_value(decimal(n)) == n,
        n > 0 ==> decimal(n)[0] != '0',
    decreases n,
{
    if n < 10 {
        let s = decimal(n);
        assert(s.drop_last() =~= Seq::<char>::empty());
        assert(decimal_value(s.drop_last()) == 0);
    } else {
        lemma_decimal_is_decimal(n / 10);
        let front = decimal(n / 10);
        let s = decimal(n);
        assert(s.drop_last() =~= front);
        assert(s.last() == digit_of((n % 10) as int));
        assert(s[0] == front[0]);
    }
}

/// A decimal is what `decimal` writes for the number it stands for.
pub proof fn lemma_decimal_of_value(s: Seq<char>)
    requires
        is_decimal(s),
    ensures
        decimal(decimal_value(s)) == s,
    decreases s.len(),
{
    let front = s.drop_last();
    let d = digit_value(s.last());
    assert(is_digit(s[s.len() - 1]));
    if s.len() == 1 {
        assert(front =~= Seq::<char>::empty());
        assert(decimal_value(front) == 0);
        assert(decimal(d as nat) =~= s);
    } else {
        assert(is_decimal(front)) by {
            assert forall|i: int| 0 <= i < front.len() implies is_digit(#[trigger] front[i]) by {
                assert(front[i] == s[i]);
            }
            assert(front[0] == s[0]);
        }
        lemma_decimal_of_value(front);
        lemma_leading_digit(front);
        let v = decimal_value(front);
        assert(v >= 1);
        assert((10 * v + d) / 10 == v);
        assert((10 * v + d) % 10 == d);
        assert(decimal(decimal_value(s)) =~= s);
    }
}

/// A decimal that does not begin with zero stands for a positive number.
proof fn lemma_leading_digit(s: Seq<char>)
    requires
        s.len() > 0,
        forall|i: int| 0 <= i < s.len() ==> is_digit(#[trigger] s[i]),
        s[0] != '0',
    ensures
        decimal_value(s) >= 1,
    decreases s.len(),
{
    let front = s.drop_last();
    assert(is_digit(s[s.len() - 1]));
    if s.len() == 1 {
        assert(front =~= Seq::<char>::empty());
        assert(decimal_value(front) == 0);
        assert(is_digit(s[0]));
    } else {
        assert forall|i: int| 0 <= i < front.len() implies is_digit(#[trigger] front[i]) by {
            assert(front[i] == s[i]);
        }
        assert(front[0] == s[0]);
        lemma_leading_digit(front);
    }
}

/// A string of digits stands for no less than any of its beginnings.
proof fn lemma_value_grows(s: Seq<char>, k: int)
    requires
        0 <= k <= s.len(),
        forall|i: int| 0 <= i < s.len() ==> is_digit(#[trigger] s[i]),
    ensures
        decimal_value(s.take(k)) <= decimal_value(s),
    decreases s.len(),
{
    if k == s.len() {
        assert(s.take(k) =~= s);
    } else {
        let front = s.drop_last();
        assert forall|i: int| 0 <= i < front.len() implies is_digit(#[trigger] front[i]) by {
            assert(front[i] == s[i]);
        }
        lemma_value_grows(front, k);
        assert(front.take(k) =~= s.take(k));
        assert(is_digit(s[s.len() - 1]));
    }
}

/// The digit that stands for `d`.
fn digit_char(d: u64) -> (c: char)
    requires
        d < 10,
    ensures
        c == digit_of(d as int),
{
    if d == 0 {
        '0'
    } else if d == 1 {
        '1'
    } else if d == 2 {
        '2'
    } else if d == 3 {
        '3'
    } else if d == 4 {
        '4'
    } else if d == 5 {
        '5'
    } else if d == 6 {
        '6'
    } else if d == 7 {
        '7'
    } else if d == 8 {
        '8'
    } else {
        '9'
    }
}

/// The number that the digit `c` stands for, if `c` is a digit.
fn digit_number(c: char) -> (r: Option<u64>)
    ensures
        match r {
            Some(d) => is_digit(c) && d == digit_value(c),
            None => !is_digit(c),
        },
{
    if c == '0' {
        Some(0)
    } else if c == '1' {
        Some(1)
    } else if c == '2' {
        Some(2)
    } else if c == '3' {
        Some(3)
    } else if c == '4' {
        Some(4)
    } else if c == '5' {
        Some(5)
    } else if c == '6' {
        Some(6)
    } else if c == '7' {
        Some(7)
    } else if c == '8' {
        Some(8)
    } else if c == '9' {
        Some(9)
    } else {
        None
    }
}

/// The digits of `n` in base ten.
pub fn format_natural(n: u64) -> (r: String)
    ensures
        r@ == decimal(n as nat),
    decreases n,
{
    if n < 10 {
        let mut r = String::new();
        push_char(&mut r, digit_char(n));
        assert(r@ =~= decimal(n as nat));
        r
    } else {
        let mut r = format_natural(n / 10);
        push_char(&mut r, digit_char(n % 10));
        r
    }
}

/// The text of the integer `i`.
pub fn format_integer(i: i64) -> (r: String)
    ensures
        r@ == integer_text(i as int),
{
    if i < 0 {
        let magnitude: u64 = (-(i + 1)) as u64 + 1;
        let mut r = String::new();
        push_char(&mut r, '-');
        let digits = format_natural(magnitude);
        r.append(digits.as_str());
        assert(r@ =~= integer_text(i as int));
        r
    } else {
        format_natural(i as u64)
    }
}

/// Whether `s` is the text of an integer from `i64::MIN` to `i64::MAX`.
pub open spec fn is_integer_text(s: Seq<char>) -> bool {
    if s.len() > 0 && s[0] == '-' {
        &&& is_decimal(s.skip(1))
        &&& 1 <= decimal_value(s.skip(1)) <= 0x8000_0000_0000_0000
    } else {
        &&& is_decimal(s)
        &&& decimal_value(s) <= 0x7fff_ffff_ffff_ffff
    }
}

/// The integer that the text `s` stands for.
pub open spec fn integer_value(s: Seq<char>) -> int {
    if s.len() > 0 && s[0] == '-' {
        -(decimal_value(s.skip(1)) as int)
    } else {
        decimal_value(s) as int
    }
}

/// What `parse_integer` returns for `s`.
pub open spec fn parsed_integer(s: Seq<char>) -> Option<i64> {
    if is_integer_text(s) {
        Some(integer_value(s) as i64)
    } else {
        None
    }
}

/// A string is the text of the integer `v` exactly if it is an integer text that stands
/// for `v`.
pub proof fn lemma_integer_text(s: Seq<char>, v: int)
    requires
        i64::MIN <= v <= i64::MAX,
    ensures
        s == integer_text(v) <==> is_integer_text(s) && integer_value(s) == v,
{
    if s == integer_text(v) {
        if v < 0 {
            let m = (-v) as nat;
            lemma_decimal_is_decimal(m);
            assert(s.skip(1) =~= decimal(m));
        } else {
            lemma_decimal_is_decimal(v as nat);
            assert(is_digit(s[0]));
        }
    }
    if is_integer_text(s) && integer_value(s) == v {
        if s.len() > 0 && s[0] == '-' {
            lemma_decimal_of_value(s.skip(1));
            assert(s =~= seq!['-'] + s.skip(1));
        } else {
            lemma_decimal_of_value(s);
        }
    }
}

/// The integer that `text` is the text of, if it is that of an integer that fits.
pub fn parse_integer(text: &str) -> (r: Option<i64>)
    ensures
        r == parsed_integer(text@),
{
    let chars = chars_of(text);
    let n = chars.len();
    if n == 0 {
        return None;
    }
    let negative = chars[0] == '-';
    let start: usize = if negative {
        1
    } else {
        0
    };
    let limit: u64 = if negative {
        0x8000_0000_0000_0000
    } else {
        0x7fff_ffff_ffff_ffff
    };
    let ghost body = text@.skip(start as int);
    assert(!negative ==> body =~= text@);
    if start == n {
        return None;
    }
    if n - start > 1 && chars[start] == '0' {
        assert(body[0] == '0');
        return None;
    }
    let mut acc: u64 = 0;
    let mut i: usize = start;
    assert(body.take(0) =~= Seq::<char>::empty());
    while i < n
        invariant
            start <= i <= n,
            n == text@.len(),
            chars@ == text@,
            body == text@.skip(start as int),
            acc == decimal_value(body.take(i - start)),
            acc <= limit,
            0x7fff_ffff_ffff_ffff <= limit <= 0x8000_0000_0000_0000,
            forall|j: int| 0 <= j < i - start ==> is_digit(#[trigger] body[j]),
            parsed_integer(text@) is Some ==> is_decimal(body) && decimal_value(body) <= limit,
        decreases n - i,
    {
        let c = chars[i];
        assert(c == body[i - start]);
        let d = match digit_number(c) {
            Some(d) => d,
            None => {
                return None;
            },
        };
        proof {
            assert(body.take(i - start + 1).drop_last() =~= body.take(i - start));
            assert(body.take(i - start + 1).last() == c);
        }
        if acc > (limit - d) / 10 {
            proof {
                if is_decimal(body) {
                    lemma_value_grows(body, i - start + 1);
                }
            }
            return None;
        }
        acc = acc * 10 + d;
        i += 1;
    }
    assert(body.take(n - start) =~= body);
    assert(is_decimal(body));
    if negative {
        if acc == 0 {
            return None;
        }
        if acc == 0x8000_0000_0000_0000 {
            Some(i64::MIN)
        } else {
            Some(-(acc as i64))
        }
    } else {
        Some(acc as i64)
    }
}

} // verus!
