//! Decimal numerals and substring search on character sequences.

use vstd::prelude::*;

verus! {

/// The character that writes the decimal digit `d`; '9' for a number
/// outside 0..=9.
pub open spec fn digit_char(d: int) -> char {
    if d == 0 {
        '0'
    } else if d == 1 {
        '1'
    } else if d == 2 {
        '2'
    } else if d == 3 {
        '3'
    } else if d == 4 {
        '4'
    } else if d == 5 {
        '5'
    } else if d == 6 {
        '6'
    } else if d == 7 {
        '7'
    } else if d == 8 {
        '8'
    } else {
        '9'
    }
}

/// Whether `c` is one of the ten ASCII decimal digits.
pub open spec fn is_digit(c: char) -> bool {
    c == '0' || c == '1' || c == '2' || c == '3' || c == '4' || c == '5' || c == '6' || c == '7'
        || c == '8' || c == '9'
}

/// The number that the digit `c` stands for; 0 for any other character.
pub open spec fn digit_value(c: char) -> int {
    if c == '1' {
        1
    } else if c == '2' {
        2
    } else if c == '3' {
        3
    } else if c == '4' {
        4
    } else if c == '5' {
        5
    } else if c == '6' {
        6
    } else if c == '7' {
        7
    } else if c == '8' {
        8
    } else if c == '9' {
        9
    } else {
        0
    }
}

/// Whether every character of `s` is a decimal digit.
pub open spec fn all_digits(s: Seq<char>) -> bool {
    forall|i: int| 0 <= i < s.len() ==> is_digit(#[trigger] s[i])
}

/// The decimal numeral of `n`, without leading zeros.
pub open spec fn decimal(n: nat) -> Seq<char>
    decreases n,
{
    if n < 10 {
        seq![digit_char(n as int)]
    } else {
        decimal(n / 10).push(digit_char((n % 10) as int))
    }
}

/// The number that a string of digits writes, leading zeros allowed.
pub open spec fn decimal_value(s: Seq<char>) -> nat
    decreases s.len(),
{
    if s.len() == 0 {
        0
    } else {
        (10 * decimal_value(s.drop_last()) + digit_value(s.last())) as nat
    }
}

/// The decimal text of a signed integer: a minus sign for negative numbers,
/// then the numeral of the magnitude.
pub open spec fn integer_text(v: int) -> Seq<char> {
    if v < 0 {
        seq!['-'] + decimal((-v) as nat)
    } else {
        decimal(v as nat)
    }
}

/// The digits of a numeral once an optional leading sign is taken off.
pub open spec fn unsigned_part(s: Seq<char>) -> Seq<char> {
    if s.len() > 0 && (s[0] == '-' || s[0] == '+') {
        s.subrange(1, s.len() as int)
    } else {
        s
    }
}

/// The integer that `s` writes: an optional `+` or `-`, then at least one
/// digit and nothing else. `None` when `s` has another shape.
pub open spec fn integer_of_text(s: Seq<char>) -> Option<int> {
    let digits = unsigned_part(s);
    if digits.len() == 0 || !all_digits(digits) {
        None
    } else if s[0] == '-' {
        Some(-(decimal_value(digits) as int))
    } else {
        Some(decimal_value(digits) as int)
    }
}

/// The `i32` that `s` writes, if it writes an integer that fits in one.
pub open spec fn parse_i32_spec(s: Seq<char>) -> Option<i32> {
    match integer_of_text(s) {
        Some(v) => if i32::MIN <= v <= i32::MAX {
            Some(v as i32)
        } else {
            None
        },
        None => None,
    }
}

/// Whether `needle` stands in `haystack` starting at position `i`.
pub open spec fn occurs_at(haystack: Seq<char>, needle: Seq<char>, i: int) -> bool {
    0 <= i && i + needle.len() <= haystack.len() && haystack.subrange(i, i + needle.len())
        == needle
}

/// Whether `needle` is a contiguous part of `haystack`. The comparison is
/// character by character, so it distinguishes upper and lower case.
pub open spec fn contains(haystack: Seq<char>, needle: Seq<char>) -> bool {
    exists|i: int| occurs_at(haystack, needle, i)
}

/// A numeral keeps its value and stays a numeral when a digit is appended.
pub proof fn lemma_decimal_digits(n: nat)
    ensures
        decimal(n).len() >= 1,
        all_digits(decimal(n)),
        decimal_value(decimal(n)) == n,
        n >= 10 ==> decimal(n).len() >= 2,
        n >= 1 ==> decimal(n)[0] != '0',
    decreases n,
{
    if n >= 10 {
        lemma_decimal_digits(n / 10);
        let shorter = decimal(n / 10);
        let full = shorter.push(digit_char((n % 10) as int));
        assert(full.drop_last() == shorter);
        assert(full.last() == digit_char((n % 10) as int));
        assert(full[0] == shorter[0]);
        assert forall|i: int| 0 <= i < full.len() implies is_digit(#[trigger] full[i]) by {
            if i < shorter.len() {
                assert(full[i] == shorter[i]);
            }
        }
    } else {
        let one = seq![digit_char(n as int)];
        assert(one.drop_last().len() == 0);
        assert(decimal_value(one.drop_last()) == 0);
    }
}

/// The value of a string of digits is at least the value of any of its
/// prefixes.
pub proof fn lemma_value_grows(s: Seq<char>, k: int)
    requires
        0 <= k <= s.len(),
    ensures
        decimal_value(s.take(k)) <= decimal_value(s),
    decreases s.len() - k,
{
    if k < s.len() {
        lemma_value_grows(s, k + 1);
        assert(s.take(k + 1).drop_last() == s.take(k));
    } else {
        assert(s.take(k) == s);
    }
}

/// Printing an integer and reading the text back gives the integer.
pub proof fn law_integer_text_round_trip(v: int)
    ensures
        integer_of_text(integer_text(v)) == Some(v),
        i32::MIN <= v <= i32::MAX ==> parse_i32_spec(integer_text(v)) == Some(v as i32),
{
    if v < 0 {
        let digits = decimal((-v) as nat);
        lemma_decimal_digits((-v) as nat);
        let s = seq!['-'] + digits;
        assert(s[0] == '-');
        assert(s.subrange(1, s.len() as int) == digits);
    } else {
        let digits = decimal(v as nat);
        lemma_decimal_digits(v as nat);
        assert(is_digit(digits[0]));
    }
}

/// The number that the digit `c` stands for, if `c` is a digit.
pub fn digit_of(c: char) -> (d: Option<u8>)
    ensures
        d is Some <==> is_digit(c),
        d is Some ==> d.unwrap() as int == digit_value(c) && d.unwrap() < 10,
{
    match c {
        '0' => Some(0),
        '1' => Some(1),
        '2' => Some(2),
        '3' => Some(3),
        '4' => Some(4),
        '5' => Some(5),
        '6' => Some(6),
        '7' => Some(7),
        '8' => Some(8),
        '9' => Some(9),
        _ => None,
    }
}

/// The one-character text of the digit `d`; "9" for a number above 9.
pub fn digit_text(d: u8) -> (t: &'static str)
    ensures
        t@ == seq![digit_char(d as int)],
{
    proof {
        reveal_strlit("0");
        reveal_strlit("1");
        reveal_strlit("2");
        reveal_strlit("3");
        reveal_strlit("4");
        reveal_strlit("5");
        reveal_strlit("6");
        reveal_strlit("7");
        reveal_strlit("8");
        reveal_strlit("9");
    }
    let t: &'static str = match d {
        0 => "0",
        1 => "1",
        2 => "2",
        3 => "3",
        4 => "4",
        5 => "5",
        6 => "6",
        7 => "7",
        8 => "8",
        _ => "9",
    };
    assert(t@ =~= seq![digit_char(d as int)]);
    t
}

/// The characters of `s`, in order.
pub fn chars_of(s: &str) -> (v: Vec<char>)
    ensures
        v@ == s@,
{
    let mut v: Vec<char> = Vec::new();
    for c in it: s.chars()
        invariant
            v@ == it.seq().take(it.index() as int),
            it.seq() == s@,
    {
        v.push(c);
    }
    v
}

/// Appends the decimal numeral of `n` to `out`.
pub fn push_decimal(out: &mut String, n: u64)
    ensures
        final(out)@ == old(out)@ + decimal(n as nat),
    decreases n,
{
    if n >= 10 {
        push_decimal(out, n / 10);
    }
    let d: u8 = (n % 10) as u8;
    out.append(digit_text(d));
    proof {
        let tail = seq![digit_char(d as int)];
        if n >= 10 {
            assert(old(out)@ + decimal((n / 10) as nat) + tail =~= old(out)@ + decimal(
                (n / 10) as nat,
            ).push(digit_char(d as int)));
        }
    }
}

/// The decimal text of `v`, as `v.to_string()` writes it.
pub fn i32_to_string(v: i32) -> (s: String)
    ensures
        s@ == integer_text(v as int),
{
    let mut s: String = String::new();
    if v < 0 {
        proof {
            reveal_strlit("-");
        }
        s.append("-");
        let magnitude: i64 = -(v as i64);
        push_decimal(&mut s, magnitude as u64);
        assert(s@ =~= seq!['-'] + decimal((-v) as nat));
    } else {
        push_decimal(&mut s, v as u64);
        assert(s@ =~= decimal(v as nat));
    }
    s
}

/// Reads `s` as an `i32` the way `str::parse::<i32>` does: an optional sign,
/// then one or more decimal digits; a value outside the type is rejected.
pub fn parse_i32(s: &str) -> (r: Option<i32>)
    ensures
        r == parse_i32_spec(s@),
{
    let chars: Vec<char> = chars_of(s);
    let n: usize = chars.len();
    let mut start: usize = 0;
    let mut negative: bool = false;
    if n > 0 && chars[0] == '-' {
        negative = true;
        start = 1;
    } else if n > 0 && chars[0] == '+' {
        start = 1;
    }
    let ghost digits: Seq<char> = unsigned_part(s@);
    assert(digits == s@.subrange(start as int, n as int));
    if start == n {
        return None;
    }
    let mut acc: i64 = 0;
    let mut i: usize = start;
    while i < n
        invariant
            start <= i <= n,
            n == chars.len(),
            chars@ == s@,
            digits == s@.subrange(start as int, n as int),
            digits == unsigned_part(s@),
            digits.len() > 0,
            all_digits(digits.take(i - start)),
            acc == decimal_value(digits.take(i - start)),
            0 <= acc <= 2147483648,
        decreases n - i,
    {
        let c: char = chars[i];
        assert(c == digits[i - start]);
        match digit_of(c) {
            None => {
                assert(!is_digit(digits[i - start]));
                return None;
            },
            Some(d) => {
                let next: i64 = acc * 10 + d as i64;
                proof {
                    let longer = digits.take(i - start + 1);
                    assert(longer.drop_last() == digits.take(i - start));
                    assert(longer.last() == c);
                    assert(next == decimal_value(longer));
                    assert forall|j: int| 0 <= j < longer.len() implies is_digit(
                        #[trigger] longer[j],
                    ) by {
                        if j < i - start {
                            assert(longer[j] == digits.take(i - start)[j]);
                        }
                    }
                }
                if next > 2147483648 {
                    proof {
                        lemma_value_grows(digits, i - start + 1);
                        if all_digits(digits) {
                            assert(decimal_value(digits) > 2147483648);
                        }
                    }
                    return None;
                }
                acc = next;
                i = i + 1;
            },
        }
    }
    assert(digits.take(n - start) == digits);
    if negative {
        let v: i64 = -acc;
        Some(v as i32)
    } else if acc > 2147483647 {
        None
    } else {
        Some(acc as i32)
    }
}

/// Whether `needle` stands in `haystack` at position `at`.
fn matches_at(haystack: &Vec<char>, needle: &Vec<char>, at: usize) -> (r: bool)
    requires
        at + needle.len() <= haystack.len(),
    ensures
        r == occurs_at(haystack@, needle@, at as int),
{
    let m: usize = needle.len();
    let mut j: usize = 0;
    while j < m
        invariant
            0 <= j <= m,
            m == needle.len(),
            at + m <= haystack.len(),
            forall|k: int| 0 <= k < j ==> haystack@[at + k] == needle@[k],
        decreases m - j,
    {
        if haystack[at + j] != needle[j] {
            proof {
                let part = haystack@.subrange(at as int, at + m);
                assert(part[j as int] == haystack@[at + j]);
            }
            return false;
        }
        j = j + 1;
    }
    assert(haystack@.subrange(at as int, at + m) =~= needle@);
    true
}

/// Whether `needle` is a contiguous part of `haystack`.
pub fn contains_chars(haystack: &Vec<char>, needle: &Vec<char>) -> (r: bool)
    ensures
        r == contains(haystack@, needle@),
{
    let n: usize = haystack.len();
    let m: usize = needle.len();
    if m > n {
        assert forall|i: int| !occurs_at(haystack@, needle@, i) by {}
        return false;
    }
    let last: usize = n - m;
    let mut i: usize = 0;
    while i < last
        invariant
            0 <= i <= last,
            last == n - m,
            n == haystack.len(),
            m == needle.len(),
            forall|k: int| 0 <= k < i ==> !occurs_at(haystack@, needle@, k),
        decreases last - i,
    {
        if matches_at(haystack, needle, i) {
            return true;
        }
        i = i + 1;
    }
    matches_at(haystack, needle, last)
}

/// Whether the text `needle` is a contiguous part of the text `haystack`.
pub fn text_contains(haystack: &str, needle: &str) -> (r: bool)
    ensures
        r == contains(haystack@, needle@),
{
    let h: Vec<char> = chars_of(haystack);
    let n: Vec<char> = chars_of(needle);
    contains_chars(&h, &n)
}

} // verus!
