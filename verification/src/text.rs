//! The text that goes over the wire: trimming, cutting at spaces, decimal
//! numbers and lists of them.

use vstd::prelude::*;
use vstd::string::StringExecFns;

verus! {

/// The characters that trimming removes: those with the Unicode property
/// `White_Space`.
pub open spec fn is_whitespace(c: char) -> bool {
    let u = c as u32;
    ||| 0x09 <= u <= 0x0D
    ||| u == 0x20
    ||| u == 0x85
    ||| u == 0xA0
    ||| u == 0x1680
    ||| 0x2000 <= u <= 0x200A
    ||| u == 0x2028
    ||| u == 0x2029
    ||| u == 0x202F
    ||| u == 0x205F
    ||| u == 0x3000
}

/// `s` without its leading whitespace.
pub open spec fn trimmed_start(s: Seq<char>) -> Seq<char>
    decreases s.len(),
{
    if s.len() > 0 && is_whitespace(s[0]) {
        trimmed_start(s.drop_first())
    } else {
        s
    }
}

/// `s` without its trailing whitespace.
pub open spec fn trimmed_end(s: Seq<char>) -> Seq<char>
    decreases s.len(),
{
    if s.len() > 0 && is_whitespace(s.last()) {
        trimmed_end(s.drop_last())
    } else {
        s
    }
}

/// `s` without leading and trailing whitespace.
pub open spec fn trimmed(s: Seq<char>) -> Seq<char> {
    trimmed_end(trimmed_start(s))
}

/// The position of the first space in `s`, or its length if it holds none.
pub open spec fn space_at(s: Seq<char>) -> int
    decreases s.len(),
{
    if s.len() == 0 || s[0] == ' ' {
        0
    } else {
        1 + space_at(s.drop_first())
    }
}

/// What stands before the first space of `s`: all of `s` if it holds none.
pub open spec fn head(s: Seq<char>) -> Seq<char> {
    s.take(space_at(s))
}

/// What stands behind the first space of `s`, if it holds one.
pub open spec fn tail(s: Seq<char>) -> Option<Seq<char>> {
    if space_at(s) < s.len() {
        Some(s.skip(space_at(s) + 1))
    } else {
        None
    }
}

pub open spec fn is_digit(c: char) -> bool {
    '0' <= c <= '9'
}

pub open spec fn all_digits(s: Seq<char>) -> bool {
    forall|i: int| 0 <= i < s.len() ==> is_digit(#[trigger] s[i])
}

/// The digit character of `d`.
pub open spec fn digit(d: nat) -> char
    recommends
        d < 10,
{
    ((d + 48) as u8) as char
}

/// The number that the digit character `c` stands for.
pub open spec fn digit_value(c: char) -> nat
    recommends
        is_digit(c),
{
    (c as u32 - 48) as nat
}

/// The number that a sequence of decimal digits stands for.
pub open spec fn digits_value(s: Seq<char>) -> nat
    decreases s.len(),
{
    if s.len() == 0 {
        0
    } else {
        10 * digits_value(s.drop_last()) + digit_value(s.last())
    }
}

/// A non-negative integer as it is read from the wire: decimal digits, at
/// least one, after an optional `+`; nothing else, and no number that does
/// not fit the machine word.
pub open spec fn parsed(s: Seq<char>) -> Option<usize> {
    let d = if s.len() > 0 && s[0] == '+' {
        s.drop_first()
    } else {
        s
    };
    if d.len() > 0 && all_digits(d) && digits_value(d) <= usize::MAX {
        Some(digits_value(d) as usize)
    } else {
        None
    }
}

/// A number as it is written on the wire: decimal, no sign, no leading zero.
pub open spec fn decimal(n: nat) -> Seq<char>
    decreases n,
{
    if n < 10 {
        seq![digit(n)]
    } else {
        decimal(n / 10).push(digit(n % 10))
    }
}

/// The numbers of `ids` in decimal, with a comma and a space between them.
pub open spec fn joined(ids: Seq<usize>) -> Seq<char>
    decreases ids.len(),
{
    if ids.len() == 0 {
        Seq::empty()
    } else if ids.len() == 1 {
        decimal(ids[0] as nat)
    } else {
        joined(ids.drop_last()) + ", "@ + decimal(ids.last() as nat)
    }
}

/// A list of numbers as it is written on the wire: `[1, 2, 3]`.
pub open spec fn list_text(ids: Seq<usize>) -> Seq<char> {
    "["@ + joined(ids) + "]"@
}

/// The characters of `s`, one by one.
pub fn chars_of(s: &str) -> (v: Vec<char>)
    ensures
        v@ == s@,
{
    broadcast use vstd::string::group_string_axioms;

    let mut v: Vec<char> = Vec::new();
    for c in it: s.chars()
        invariant
            v@.len() == it.index(),
            forall|i: int| 0 <= i < v@.len() ==> v@[i] == s@[i],
            it.seq() == s@,
    {
        v.push(c);
    }
    v
}

/// The first character of `s`, if it has one.
pub fn first_char(s: &str) -> (r: Option<char>)
    ensures
        r == if s@.len() > 0 {
            Some(s@[0])
        } else {
            None
        },
{
    broadcast use vstd::string::group_string_axioms;

    let mut it = s.chars();
    it.next()
}

/// Whether two texts hold the same characters.
pub fn same_text(a: &str, b: &str) -> (r: bool)
    ensures
        r == (a@ == b@),
{
    let x = chars_of(a);
    let y = chars_of(b);
    if x.len() != y.len() {
        return false;
    }
    let mut i: usize = 0;
    while i < x.len()
        invariant
            i <= x.len(),
            x.len() == y.len(),
            x@ == a@,
            y@ == b@,
            forall|k: int| 0 <= k < i ==> x@[k] == y@[k],
        decreases x.len() - i,
    {
        if x[i] != y[i] {
            return false;
        }
        i += 1;
    }
    assert(x@ =~= y@);
    true
}

/// Whether trimming removes `c`.
pub fn is_space(c: char) -> (r: bool)
    ensures
        r == is_whitespace(c),
{
    let u: u32 = c as u32;
    (0x09 <= u && u <= 0x0D) || u == 0x20 || u == 0x85 || u == 0xA0 || u == 0x1680 || (0x2000 <= u
        && u <= 0x200A) || u == 0x2028 || u == 0x2029 || u == 0x202F || u == 0x205F || u == 0x3000
}

/// Cutting leading whitespace off commutes with skipping it.
proof fn lemma_trimmed_start_skip(s: Seq<char>, a: int)
    requires
        0 <= a <= s.len(),
        forall|k: int| 0 <= k < a ==> is_whitespace(#[trigger] s[k]),
    ensures
        trimmed_start(s) == trimmed_start(s.skip(a)),
    decreases a,
{
    if a > 0 {
        assert(s.drop_first().skip(a - 1) =~= s.skip(a));
        lemma_trimmed_start_skip(s.drop_first(), a - 1);
    } else {
        assert(s.skip(0) =~= s);
    }
}

/// Cutting trailing whitespace off commutes with dropping it.
proof fn lemma_trimmed_end_take(s: Seq<char>, b: int)
    requires
        0 <= b <= s.len(),
        forall|k: int| b <= k < s.len() ==> is_whitespace(#[trigger] s[k]),
    ensures
        trimmed_end(s) == trimmed_end(s.take(b)),
    decreases s.len() - b,
{
    if b < s.len() {
        assert(s.drop_last().take(b) =~= s.take(b));
        lemma_trimmed_end_take(s.drop_last(), b);
    } else {
        assert(s.take(b) =~= s);
    }
}

/// `s` without leading and trailing whitespace.
pub fn trim(s: &str) -> (r: &str)
    ensures
        r@ == trimmed(s@),
{
    let chars = chars_of(s);
    let n = chars.len();
    let mut a: usize = 0;
    while a < n && is_space(chars[a])
        invariant
            a <= n,
            n == chars.len(),
            forall|k: int| 0 <= k < a ==> is_whitespace(#[trigger] chars@[k]),
        decreases n - a,
    {
        a += 1;
    }
    let mut b: usize = n;
    while b > a && is_space(chars[b - 1])
        invariant
            a <= b <= n,
            n == chars.len(),
            forall|k: int| b <= k < n ==> is_whitespace(#[trigger] chars@[k]),
        decreases b,
    {
        b -= 1;
    }
    proof {
        let rest = s@.skip(a as int);
        lemma_trimmed_start_skip(s@, a as int);
        assert(trimmed_start(rest) == rest);
        lemma_trimmed_end_take(rest, b - a);
        let kept = rest.take(b - a);
        assert(trimmed_end(kept) == kept);
    }
    s.substring_char(a, b)
}

/// The first space of `s` is where no space stands before.
proof fn lemma_space_at(s: Seq<char>, i: int)
    requires
        0 <= i <= s.len(),
        forall|k: int| 0 <= k < i ==> #[trigger] s[k] != ' ',
        i < s.len() ==> s[i] == ' ',
    ensures
        space_at(s) == i,
    decreases i,
{
    if i > 0 {
        lemma_space_at(s.drop_first(), i - 1);
    }
}

/// Cuts `s` at its first space: what stands before it, and what stands
/// behind it if there is a space at all.
pub fn split_once(s: &str) -> (r: (&str, Option<&str>))
    ensures
        r.0@ == head(s@),
        r.1 is Some <==> tail(s@) is Some,
        r.1 matches Some(t) ==> tail(s@) == Some(t@),
{
    let chars = chars_of(s);
    let n = chars.len();
    let mut i: usize = 0;
    while i < n && chars[i] != ' '
        invariant
            i <= n,
            n == chars.len(),
            forall|k: int| 0 <= k < i ==> #[trigger] chars@[k] != ' ',
        decreases n - i,
    {
        i += 1;
    }
    proof {
        lemma_space_at(s@, i as int);
    }
    let first = s.substring_char(0, i);
    if i < n {
        (first, Some(s.substring_char(i + 1, n)))
    } else {
        (first, None)
    }
}

/// The digit of `c`, if it is one.
fn digit_of(c: char) -> (r: Option<u8>)
    ensures
        r is Some <==> is_digit(c),
        r matches Some(d) ==> d == digit_value(c) && d < 10,
{
    if c >= '0' && c <= '9' {
        let u: u32 = c as u32;
        Some((u - 48) as u8)
    } else {
        None
    }
}

/// More digits never make a smaller number.
proof fn lemma_digits_value_grows(s: Seq<char>, k: int)
    requires
        0 <= k <= s.len(),
    ensures
        digits_value(s.take(k)) <= digits_value(s),
    decreases s.len() - k,
{
    if k < s.len() {
        assert(s.drop_last().take(k) =~= s.take(k));
        lemma_digits_value_grows(s.drop_last(), k);
    } else {
        assert(s.take(k) =~= s);
    }
}

/// Reads a non-negative integer: decimal digits after an optional `+`.
pub fn parse_usize(s: &str) -> (r: Option<usize>)
    ensures
        r == parsed(s@),
{
    let chars = chars_of(s);
    let n = chars.len();
    let start: usize = if n > 0 && chars[0] == '+' {
        1
    } else {
        0
    };
    let ghost d = s@.skip(start as int);
    assert(d =~= if start == 1 {
        s@.drop_first()
    } else {
        s@
    });
    if start == n {
        return None;
    }
    let mut acc: usize = 0;
    let mut i: usize = start;
    while i < n
        invariant
            start <= i <= n,
            n == chars.len(),
            chars@ == s@,
            d == s@.skip(start as int),
            parsed(s@) == if all_digits(d) && digits_value(d) <= usize::MAX {
                Some(digits_value(d) as usize)
            } else {
                None
            },
            all_digits(d.take(i - start)),
            acc == digits_value(d.take(i - start)),
        decreases n - i,
    {
        let ghost seen = d.take(i - start);
        let ghost more = d.take(i + 1 - start);
        proof {
            assert(more.drop_last() =~= seen);
        }
        match digit_of(chars[i]) {
            None => {
                assert(!is_digit(d[i - start]));
                return None;
            },
            Some(v) => {
                let wide: u128 = (acc as u128) * 10 + (v as u128);
                if wide > usize::MAX as u128 {
                    proof {
                        lemma_digits_value_grows(d, i + 1 - start);
                    }
                    return None;
                }
                acc = wide as usize;
                assert(all_digits(more));
            },
        }
        i += 1;
    }
    assert(d.take(n - start) =~= d);
    Some(acc)
}

/// The text of one digit.
fn digit_str(d: u8) -> (s: &'static str)
    requires
        d < 10,
    ensures
        s@ == seq![digit(d as nat)],
{
    proof {
        reveal_strlit("0");
        reveal_strlit("1");
        reveal_strlit("2");
        reveal_strlit("3");
        reveal_strlit("4");
        reveal_strlit("5");
        reveal_strlit("6");
        reveal_strlit("7");
        reveal_strlit("8");
        reveal_strlit("9");
    }
    if d == 0 {
        "0"
    } else if d == 1 {
        "1"
    } else if d == 2 {
        "2"
    } else if d == 3 {
        "3"
    } else if d == 4 {
        "4"
    } else if d == 5 {
        "5"
    } else if d == 6 {
        "6"
    } else if d == 7 {
        "7"
    } else if d == 8 {
        "8"
    } else {
        "9"
    }
}

/// Writes `n` in decimal at the end of `out`.
pub fn push_decimal(out: &mut String, n: usize)
    ensures
        final(out)@ == old(out)@ + decimal(n as nat),
    decreases n,
{
    if n >= 10 {
        push_decimal(out, n / 10);
    }
    out.append(digit_str((n % 10) as u8));
    assert(out@ =~= old(out)@ + decimal(n as nat));
}

/// `n` in decimal.
pub fn to_decimal(n: usize) -> (r: String)
    ensures
        r@ == decimal(n as nat),
{
    let mut r = String::new();
    push_decimal(&mut r, n);
    r
}

/// Writes the list `ids` at the end of `out`, as `[1, 2, 3]`.
pub fn push_list(out: &mut String, ids: &Vec<usize>)
    ensures
        final(out)@ == old(out)@ + list_text(ids@),
{
    out.append("[");
    let mut i: usize = 0;
    while i < ids.len()
        invariant
            i <= ids.len(),
            out@ == old(out)@ + "["@ + joined(ids@.take(i as int)),
        decreases ids.len() - i,
    {
        let ghost seen = ids@.take(i as int);
        let ghost more = ids@.take(i + 1);
        proof {
            assert(more.drop_last() =~= seen);
        }
        if i > 0 {
            out.append(", ");
        }
        push_decimal(out, ids[i]);
        assert(out@ =~= old(out)@ + "["@ + joined(more));
        i += 1;
    }
    out.append("]");
    assert(ids@.take(ids.len() as int) =~= ids@);
}

/// The digits of a number in decimal are digits, the first of them is no
/// sign, and they stand for the number.
pub proof fn lemma_decimal_digits(n: nat)
    ensures
        decimal(n).len() > 0,
        all_digits(decimal(n)),
        digits_value(decimal(n)) == n,
    decreases n,
{
    if n < 10 {
        assert(digits_value(decimal(n).drop_last()) == 0);
    } else {
        lemma_decimal_digits(n / 10);
        assert(decimal(n).drop_last() =~= decimal(n / 10));
    }
}

/// A number that was written is read back as itself.
pub proof fn lemma_decimal_parses_back(n: usize)
    ensures
        parsed(decimal(n as nat)) == Some(n),
{
    lemma_decimal_digits(n as nat);
}

} // verus!
