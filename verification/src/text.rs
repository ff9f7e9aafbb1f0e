//! Small verified helpers on strings seen as sequences of characters:
//! comparison, decimal digits in both directions, and lists of texts.

use vstd::prelude::*;
use vstd::string::*;

verus! {

/// Whether two string slices hold the same characters.
pub fn same_text(a: &str, b: &str) -> (r: bool)
    ensures
        r == (a@ == b@),
{
    let n: usize = a.unicode_len();
    if b.unicode_len() != n {
        return false;
    }
    let mut i: usize = 0;
    while i < n
        invariant
            i <= n,
            n == a@.len(),
            n == b@.len(),
            forall|j: int| 0 <= j < i ==> a@[j] == b@[j],
        decreases n - i,
    {
        if a.get_char(i) != b.get_char(i) {
            return false;
        }
        i += 1;
    }
    assert(a@ =~= b@);
    true
}

/// Whether `c` is one of the ten decimal digits.
pub open spec fn is_digit(c: char) -> bool {
    '0' <= c <= '9'
}

/// The number a decimal digit stands for.
pub open spec fn digit_value(c: char) -> int {
    c as int - '0' as int
}

/// The decimal digit that stands for `d`, for `d` from 0 to 9.
pub open spec fn digit_char(d: int) -> char {
    if d == 0 {
        '0'
    } else if d == 1 {
        '1'
    } else if d == 2 {
        '2'
    } else if d == 3 {
        '3'
    } else if d == 4 {
        '4'
    } else if d == 5 {
        '5'
    } else if d == 6 {
        '6'
    } else if d == 7 {
        '7'
    } else if d == 8 {
        '8'
    } else {
        '9'
    }
}

/// Executable form of [`is_digit`].
pub fn check_digit(c: char) -> (r: bool)
    ensures
        r == is_digit(c),
{
    '0' <= c && c <= '9'
}

/// Executable form of [`digit_value`].
pub(crate) fn read_digit(c: char) -> (r: u8)
    requires
        is_digit(c),
    ensures
        r as int == digit_value(c),
        r <= 9,
{
    (c as u32 - '0' as u32) as u8
}

/// The one-character text of the digit `d`.
pub(crate) fn digit_text(d: u8) -> (r: &'static str)
    requires
        d <= 9,
    ensures
        r@ == seq![digit_char(d as int)],
{
    proof {
        reveal_strlit("0");
        reveal_strlit("1");
        reveal_strlit("2");
        reveal_strlit("3");
        reveal_strlit("4");
        reveal_strlit("5");
        reveal_strlit("6");
        reveal_strlit("7");
        reveal_strlit("8");
        reveal_strlit("9");
    }
    let r = if d == 0 {
        "0"
    } else if d == 1 {
        "1"
    } else if d == 2 {
        "2"
    } else if d == 3 {
        "3"
    } else if d == 4 {
        "4"
    } else if d == 5 {
        "5"
    } else if d == 6 {
        "6"
    } else if d == 7 {
        "7"
    } else if d == 8 {
        "8"
    } else {
        "9"
    };
    assert(r@ =~= seq![digit_char(d as int)]);
    r
}

/// The two decimal digits of `n`, for `n` below 100, with a leading zero.
pub open spec fn pad2(n: int) -> Seq<char> {
    seq![digit_char(n / 10), digit_char(n % 10)]
}

/// The four decimal digits of `n`, for `n` below 10000, with leading zeros.
pub open spec fn pad4(n: int) -> Seq<char> {
    pad2(n / 100) + pad2(n % 100)
}

/// The number that the two characters of `s` from `at` on spell in decimal.
pub open spec fn value2(s: Seq<char>, at: int) -> int {
    digit_value(s[at]) * 10 + digit_value(s[at + 1])
}

/// The number that the four characters of `s` from `at` on spell in decimal.
pub open spec fn value4(s: Seq<char>, at: int) -> int {
    value2(s, at) * 100 + value2(s, at + 2)
}

/// Whether the `count` characters of `s` from `at` on are all digits.
pub open spec fn digits_at(s: Seq<char>, at: int, count: int) -> bool {
    &&& 0 <= at
    &&& at + count <= s.len()
    &&& forall|i: int| at <= i < at + count ==> is_digit(#[trigger] s[i])
}

/// Two digits spell the number whose two digits they are.
pub proof fn lemma_pad2_of_value2(s: Seq<char>, at: int)
    requires
        digits_at(s, at, 2),
    ensures
        pad2(value2(s, at)) == s.subrange(at, at + 2),
        0 <= value2(s, at) < 100,
{
    let a = digit_value(s[at]);
    let b = digit_value(s[at + 1]);
    assert(is_digit(s[at]) && is_digit(s[at + 1]));
    assert(0 <= a <= 9 && 0 <= b <= 9);
    let n = a * 10 + b;
    assert(n / 10 == a && n % 10 == b);
    assert(digit_char(a) == s[at] && digit_char(b) == s[at + 1]);
    assert(pad2(n) =~= s.subrange(at, at + 2));
}

/// Four digits spell the number whose four digits they are.
pub proof fn lemma_pad4_of_value4(s: Seq<char>, at: int)
    requires
        digits_at(s, at, 4),
    ensures
        pad4(value4(s, at)) == s.subrange(at, at + 4),
        0 <= value4(s, at) < 10000,
{
    assert(digits_at(s, at, 2)) by {
        assert forall|i: int| at <= i < at + 2 implies is_digit(#[trigger] s[i]) by {}
    }
    assert(digits_at(s, at + 2, 2)) by {
        assert forall|i: int| at + 2 <= i < at + 4 implies is_digit(#[trigger] s[i]) by {}
    }
    lemma_pad2_of_value2(s, at);
    lemma_pad2_of_value2(s, at + 2);
    let x = value2(s, at);
    let y = value2(s, at + 2);
    let n = x * 100 + y;
    assert(n / 100 == x && n % 100 == y);
    assert(s.subrange(at, at + 2) + s.subrange(at + 2, at + 4) =~= s.subrange(at, at + 4));
}

/// The two digits written for a number below 100 spell that number,
/// wherever they stand in a text.
pub proof fn lemma_value2_of_pad2(s: Seq<char>, at: int, n: int)
    requires
        0 <= n < 100,
        0 <= at,
        at + 2 <= s.len(),
        s.subrange(at, at + 2) == pad2(n),
    ensures
        digits_at(s, at, 2),
        value2(s, at) == n,
{
    let p = s.subrange(at, at + 2);
    assert(s[at] == p[0] && s[at + 1] == p[1]);
    let a = n / 10;
    let b = n % 10;
    assert(0 <= a <= 9 && 0 <= b <= 9 && a * 10 + b == n);
    assert(digit_value(digit_char(a)) == a && digit_value(digit_char(b)) == b);
    assert(is_digit(digit_char(a)) && is_digit(digit_char(b)));
    assert forall|i: int| at <= i < at + 2 implies is_digit(#[trigger] s[i]) by {
        if i == at {
        } else {
            assert(i == at + 1);
        }
    }
}

/// The four digits written for a number below 10000 spell that number,
/// wherever they stand in a text.
pub proof fn lemma_value4_of_pad4(s: Seq<char>, at: int, n: int)
    requires
        0 <= n < 10000,
        0 <= at,
        at + 4 <= s.len(),
        s.subrange(at, at + 4) == pad4(n),
    ensures
        digits_at(s, at, 4),
        value4(s, at) == n,
{
    let x = n / 100;
    let y = n % 100;
    assert(0 <= x < 100 && 0 <= y < 100 && x * 100 + y == n);
    assert(s.subrange(at, at + 2) =~= s.subrange(at, at + 4).subrange(0, 2));
    assert(s.subrange(at + 2, at + 4) =~= s.subrange(at, at + 4).subrange(2, 4));
    assert(pad4(n).subrange(0, 2) =~= pad2(x));
    assert(pad4(n).subrange(2, 4) =~= pad2(y));
    lemma_value2_of_pad2(s, at, x);
    lemma_value2_of_pad2(s, at + 2, y);
    assert forall|i: int| at <= i < at + 4 implies is_digit(#[trigger] s[i]) by {
        if i < at + 2 {
            assert(digits_at(s, at, 2));
        } else {
            assert(digits_at(s, at + 2, 2));
        }
    }
}

/// The decimal digits of a natural number, without leading zeros.
pub open spec fn decimal(n: nat) -> Seq<char>
    decreases n,
{
    if n < 10 {
        seq![digit_char(n as int)]
    } else {
        decimal(n / 10).push(digit_char((n % 10) as int))
    }
}

/// The decimal text of an integer, with a minus sign before a negative one.
pub open spec fn int_text(i: int) -> Seq<char> {
    if i < 0 {
        seq!['-'] + decimal((-i) as nat)
    } else {
        decimal(i as nat)
    }
}

/// Appends the two digits of `n` to `out`.
pub(crate) fn push_pad2(out: &mut String, n: u8)
    requires
        n < 100,
    ensures
        final(out)@ == old(out)@ + pad2(n as int),
{
    out.append(digit_text(n / 10));
    out.append(digit_text(n % 10));
    assert(out@ =~= old(out)@ + pad2(n as int));
}

/// Appends the four digits of `n` to `out`.
pub(crate) fn push_pad4(out: &mut String, n: u16)
    requires
        n < 10000,
    ensures
        final(out)@ == old(out)@ + pad4(n as int),
{
    push_pad2(out, (n / 100) as u8);
    push_pad2(out, (n % 100) as u8);
    assert(out@ =~= old(out)@ + pad4(n as int));
}

/// The decimal text of a natural number.
pub fn render_nat(n: u64) -> (r: String)
    ensures
        r@ == decimal(n as nat),
    decreases n,
{
    if n < 10 {
        let r = String::from_str(digit_text(n as u8));
        r
    } else {
        let mut r = render_nat(n / 10);
        r.append(digit_text((n % 10) as u8));
        assert(r@ =~= decimal((n / 10) as nat).push(digit_char((n % 10) as int)));
        r
    }
}

/// The decimal text of a signed number.
pub fn render_int(i: i64) -> (r: String)
    ensures
        r@ == int_text(i as int),
{
    if i < 0 {
        let magnitude: u64 = if i == i64::MIN {
            9223372036854775808u64
        } else {
            (-i) as u64
        };
        let digits = render_nat(magnitude);
        let mut r = String::from_str("-");
        proof {
            reveal_strlit("-");
        }
        r.append(digits.as_str());
        assert(r@ =~= seq!['-'] + decimal((-(i as int)) as nat));
        r
    } else {
        render_nat(i as u64)
    }
}

/// Reads the two-digit number at `at`.
pub(crate) fn read2(s: &str, at: usize) -> (r: u8)
    requires
        digits_at(s@, at as int, 2),
        at + 2 <= usize::MAX,
    ensures
        r as int == value2(s@, at as int),
        r < 100,
{
    let hi: u8 = read_digit(s.get_char(at));
    let lo: u8 = read_digit(s.get_char(at + 1));
    hi * 10 + lo
}

/// Reads the four-digit number at `at`.
pub(crate) fn read4(s: &str, at: usize) -> (r: u16)
    requires
        digits_at(s@, at as int, 4),
        at + 4 <= usize::MAX,
    ensures
        r as int == value4(s@, at as int),
        r < 10000,
{
    assert(digits_at(s@, at as int, 2)) by {
        assert forall|i: int| at <= i < at + 2 implies is_digit(#[trigger] s@[i]) by {}
    }
    assert(digits_at(s@, at + 2, 2)) by {
        assert forall|i: int| at + 2 <= i < at + 4 implies is_digit(#[trigger] s@[i]) by {}
    }
    let hi: u16 = read2(s, at) as u16;
    let lo: u16 = read2(s, at + 2) as u16;
    hi * 100 + lo
}

/// Whether the `count` characters from `at` on are all digits.
pub(crate) fn check_digits(s: &str, at: usize, count: usize) -> (r: bool)
    requires
        at + count <= s@.len(),
        at + count <= usize::MAX,
    ensures
        r == digits_at(s@, at as int, count as int),
{
    let mut i: usize = at;
    while i < at + count
        invariant
            at <= i <= at + count,
            at + count <= s@.len(),
            at + count <= usize::MAX,
            forall|j: int| at <= j < i ==> is_digit(#[trigger] s@[j]),
        decreases at + count - i,
    {
        if !check_digit(s.get_char(i)) {
            return false;
        }
        i += 1;
    }
    true
}

/// The texts of a list of strings.
pub open spec fn texts(list: Seq<String>) -> Seq<Seq<char>> {
    list.map_values(|s: String| s@)
}

/// Appends a copy of `s` to the list.
pub fn push_text(list: &mut Vec<String>, s: &str)
    ensures
        texts(final(list)@) == texts(old(list)@).push(s@),
{
    list.push(String::from_str(s));
    assert(texts(list@) =~= texts(old(list)@).push(s@));
}

} // verus!
