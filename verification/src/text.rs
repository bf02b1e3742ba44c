//! Character-level building blocks shared by the grammars: literal matching,
//! maximal runs of a character class, and decimal numbers.

use vstd::prelude::*;
use vstd::string::*;

verus! {

/// `lit` occurs in `s` at character position `at`.
pub open spec fn starts_at(s: Seq<char>, at: int, lit: Seq<char>) -> bool {
    0 <= at && at + lit.len() <= s.len() && s.subrange(at, at + lit.len()) == lit
}

/// Tests whether the literal `lit` occurs in `s` at character position `at`.
pub fn matches_at(s: &str, n: usize, at: usize, lit: &str) -> (b: bool)
    requires
        n == s@.len(),
        at <= n,
    ensures
        b == starts_at(s@, at as int, lit@),
{
    let m: usize = lit.unicode_len();
    if m > n - at {
        return false;
    }
    let mut i: usize = 0;
    while i < m
        invariant
            i <= m,
            m == lit@.len(),
            n == s@.len(),
            at + m <= n,
            forall|j: int| 0 <= j < i ==> s@[at + j] == lit@[j],
        decreases m - i,
    {
        if s.get_char(at + i) != lit.get_char(i) {
            proof {
                assert(s@.subrange(at as int, at + m)[i as int] == s@[at + i]);
            }
            return false;
        }
        i += 1;
    }
    proof {
        assert(s@.subrange(at as int, at + m) =~= lit@);
    }
    true
}

/// The character classes whose maximal runs the grammars take.
#[derive(Debug, Clone, Copy, PartialEq, Eq, Structural)]
pub enum CharClass {
    /// Anything but `/` and `:`.
    HostName,
    /// Anything but `?` and `:`.
    Path,
    /// Anything but `/`.
    Segment,
    /// An ASCII decimal digit.
    Digit,
}

/// `c` is an ASCII decimal digit.
pub open spec fn is_digit(c: char) -> bool {
    c == '0' || c == '1' || c == '2' || c == '3' || c == '4' || c == '5' || c == '6' || c == '7'
        || c == '8' || c == '9'
}

/// The value of a decimal digit; 0 for any other character.
pub open spec fn digit_value(c: char) -> nat {
    if c == '1' {
        1
    } else if c == '2' {
        2
    } else if c == '3' {
        3
    } else if c == '4' {
        4
    } else if c == '5' {
        5
    } else if c == '6' {
        6
    } else if c == '7' {
        7
    } else if c == '8' {
        8
    } else if c == '9' {
        9
    } else {
        0
    }
}

/// The digit character of a value below ten.
pub open spec fn digit_char(d: nat) -> char {
    if d == 1 {
        '1'
    } else if d == 2 {
        '2'
    } else if d == 3 {
        '3'
    } else if d == 4 {
        '4'
    } else if d == 5 {
        '5'
    } else if d == 6 {
        '6'
    } else if d == 7 {
        '7'
    } else if d == 8 {
        '8'
    } else if d == 9 {
        '9'
    } else {
        '0'
    }
}

/// Membership of a character in a class.
pub open spec fn in_class(c: char, class: CharClass) -> bool {
    match class {
        CharClass::HostName => c != '/' && c != ':',
        CharClass::Path => c != '?' && c != ':',
        CharClass::Segment => c != '/',
        CharClass::Digit => is_digit(c),
    }
}

/// Executable form of [`is_digit`].
pub fn char_is_digit(c: char) -> (b: bool)
    ensures
        b == is_digit(c),
{
    c == '0' || c == '1' || c == '2' || c == '3' || c == '4' || c == '5' || c == '6' || c == '7'
        || c == '8' || c == '9'
}

/// Executable form of [`digit_value`].
pub fn char_digit_value(c: char) -> (d: u8)
    ensures
        d == digit_value(c),
        d <= 9,
{
    if c == '1' {
        1
    } else if c == '2' {
        2
    } else if c == '3' {
        3
    } else if c == '4' {
        4
    } else if c == '5' {
        5
    } else if c == '6' {
        6
    } else if c == '7' {
        7
    } else if c == '8' {
        8
    } else if c == '9' {
        9
    } else {
        0
    }
}

/// Executable form of [`in_class`].
pub fn char_in_class(c: char, class: CharClass) -> (b: bool)
    ensures
        b == in_class(c, class),
{
    match class {
        CharClass::HostName => c != '/' && c != ':',
        CharClass::Path => c != '?' && c != ':',
        CharClass::Segment => c != '/',
        CharClass::Digit => char_is_digit(c),
    }
}

/// The end of the longest run of characters of `class` that starts at `from`.
pub open spec fn span_end(s: Seq<char>, from: int, class: CharClass) -> int
    decreases s.len() - from,
{
    if 0 <= from < s.len() && in_class(s[from], class) {
        span_end(s, from + 1, class)
    } else {
        from
    }
}

/// A run never leaves the text, holds only characters of its class, and ends
/// at the first character outside the class.
pub proof fn lemma_span_end(s: Seq<char>, from: int, class: CharClass)
    requires
        0 <= from <= s.len(),
    ensures
        from <= span_end(s, from, class) <= s.len(),
        forall|j: int| from <= j < span_end(s, from, class) ==> in_class(#[trigger] s[j], class),
        span_end(s, from, class) < s.len() ==> !in_class(s[span_end(s, from, class)], class),
    decreases s.len() - from,
{
    if from < s.len() && in_class(s[from], class) {
        lemma_span_end(s, from + 1, class);
    }
}

/// Every character of `t` belongs to `class`.
pub open spec fn all_in_class(t: Seq<char>, class: CharClass) -> bool {
    forall|i: int| 0 <= i < t.len() ==> in_class(#[trigger] t[i], class)
}

/// A stretch of characters of a class that ends at the end of the text, or
/// before a character outside the class, is the run that starts there.
pub proof fn lemma_span_over(s: Seq<char>, from: int, end: int, class: CharClass)
    requires
        0 <= from <= end <= s.len(),
        forall|j: int| from <= j < end ==> in_class(#[trigger] s[j], class),
        end == s.len() || !in_class(s[end], class),
    ensures
        span_end(s, from, class) == end,
    decreases end - from,
{
    if from < end {
        lemma_span_over(s, from + 1, end, class);
    }
}

/// A run in a text that stands behind another text is the run in the text
/// alone, moved by the length of what stands before it.
pub proof fn lemma_span_shift(pre: Seq<char>, x: Seq<char>, from: int, class: CharClass)
    requires
        0 <= from <= x.len(),
    ensures
        span_end(pre + x, pre.len() + from, class) == pre.len() + span_end(x, from, class),
    decreases x.len() - from,
{
    if from < x.len() {
        assert((pre + x)[pre.len() + from] == x[from]);
        if in_class(x[from], class) {
            lemma_span_shift(pre, x, from + 1, class);
        }
    }
}

/// Finds the end of the longest run of characters of `class` from `from` on.
pub fn scan(s: &str, n: usize, from: usize, class: CharClass) -> (end: usize)
    requires
        n == s@.len(),
        from <= n,
    ensures
        end == span_end(s@, from as int, class),
        from <= end <= n,
{
    let mut i: usize = from;
    while i < n
        invariant
            from <= i <= n,
            n == s@.len(),
            span_end(s@, from as int, class) == span_end(s@, i as int, class),
        decreases n - i,
    {
        if !char_in_class(s.get_char(i), class) {
            return i;
        }
        i += 1;
    }
    i
}

/// Tests whether the characters of `s` from `from` up to `to` hold a dot.
pub fn has_dot(s: &str, from: usize, to: usize) -> (b: bool)
    requires
        from <= to <= s@.len(),
    ensures
        b == s@.subrange(from as int, to as int).contains('.'),
{
    let mut i: usize = from;
    while i < to
        invariant
            from <= i <= to,
            to <= s@.len(),
            forall|j: int| from <= j < i ==> s@[j] != '.',
        decreases to - i,
    {
        if s.get_char(i) == '.' {
            proof {
                assert(s@.subrange(from as int, to as int)[i - from] == '.');
            }
            return true;
        }
        i += 1;
    }
    proof {
        let part = s@.subrange(from as int, to as int);
        assert forall|k: int| 0 <= k < part.len() implies part[k] != '.' by {
            assert(part[k] == s@[from + k]);
        }
    }
    false
}

/// The number that a run of decimal digits writes.
pub open spec fn decimal_value(s: Seq<char>) -> nat
    decreases s.len(),
{
    if s.len() == 0 {
        0
    } else {
        decimal_value(s.drop_last()) * 10 + digit_value(s.last())
    }
}

/// A prefix of a run of digits writes no larger a number than the whole run.
pub proof fn lemma_decimal_prefix(s: Seq<char>, k: int)
    requires
        0 <= k <= s.len(),
    ensures
        decimal_value(s.subrange(0, k)) <= decimal_value(s),
    decreases s.len() - k,
{
    if k == s.len() {
        assert(s.subrange(0, k) =~= s);
    } else {
        lemma_decimal_prefix(s.drop_last(), k);
        assert(s.drop_last().subrange(0, k) =~= s.subrange(0, k));
    }
}

/// Reads the digits of `s` as a number, if it fits sixteen bits.
pub fn read_u16(s: &str) -> (r: Option<u16>)
    ensures
        r == if decimal_value(s@) <= 65535 {
            Some(decimal_value(s@) as u16)
        } else {
            None
        },
{
    let n: usize = s.unicode_len();
    let mut acc: u32 = 0;
    let mut i: usize = 0;
    proof {
        assert(s@.subrange(0, 0) =~= Seq::<char>::empty());
    }
    while i < n
        invariant
            i <= n,
            n == s@.len(),
            acc <= 65535,
            acc == decimal_value(s@.subrange(0, i as int)),
        decreases n - i,
    {
        let d: u8 = char_digit_value(s.get_char(i));
        let next: u32 = acc * 10 + d as u32;
        proof {
            let head = s@.subrange(0, i + 1);
            assert(head.drop_last() =~= s@.subrange(0, i as int));
            assert(head.last() == s@[i as int]);
            assert(decimal_value(head) == next);
            lemma_decimal_prefix(s@, i + 1);
        }
        if next > 65535 {
            return None;
        }
        acc = next;
        i += 1;
    }
    proof {
        assert(s@.subrange(0, n as int) =~= s@);
    }
    Some(acc as u16)
}

/// The decimal digits of a number, without leading zeros.
pub open spec fn decimal_text(n: nat) -> Seq<char>
    decreases n,
{
    if n < 10 {
        seq![digit_char(n)]
    } else {
        decimal_text(n / 10).push(digit_char(n % 10))
    }
}

/// The decimal digits of a number are digits, at least one, and write the
/// number.
pub proof fn lemma_decimal_text(n: nat)
    ensures
        decimal_text(n).len() >= 1,
        all_in_class(decimal_text(n), CharClass::Digit),
        decimal_value(decimal_text(n)) == n,
    decreases n,
{
    let t = decimal_text(n);
    if n < 10 {
        assert(t.drop_last() =~= Seq::<char>::empty());
        assert(t.last() == digit_char(n));
        assert(decimal_value(t.drop_last()) == 0);
    } else {
        lemma_decimal_text(n / 10);
        assert(t.drop_last() =~= decimal_text(n / 10));
        assert(t.last() == digit_char(n % 10));
        assert forall|i: int| 0 <= i < t.len() implies in_class(#[trigger] t[i], CharClass::Digit) by {
            if i < t.len() - 1 {
                assert(t[i] == decimal_text(n / 10)[i]);
            }
        }
    }
}

/// One decimal digit as text.
pub fn digit_str(d: u8) -> (s: &'static str)
    requires
        d <= 9,
    ensures
        s@ == seq![digit_char(d as nat)],
{
    proof {
        reveal_strlit("0");
        reveal_strlit("1");
        reveal_strlit("2");
        reveal_strlit("3");
        reveal_strlit("4");
        reveal_strlit("5");
        reveal_strlit("6");
        reveal_strlit("7");
        reveal_strlit("8");
        reveal_strlit("9");
    }
    let s: &'static str = if d == 1 {
        "1"
    } else if d == 2 {
        "2"
    } else if d == 3 {
        "3"
    } else if d == 4 {
        "4"
    } else if d == 5 {
        "5"
    } else if d == 6 {
        "6"
    } else if d == 7 {
        "7"
    } else if d == 8 {
        "8"
    } else if d == 9 {
        "9"
    } else {
        "0"
    };
    proof {
        assert(s@ =~= seq![digit_char(d as nat)]);
    }
    s
}

/// Appends the decimal digits of `n` to `out`.
pub fn push_decimal(out: &mut String, n: u64)
    ensures
        final(out)@ == old(out)@ + decimal_text(n as nat),
    decreases n,
{
    if n >= 10 {
        push_decimal(out, n / 10);
    }
    out.append(digit_str((n % 10) as u8));
    proof {
        if n >= 10 {
            assert(final(out)@ =~= old(out)@ + decimal_text(n as nat));
        }
    }
}

} // verus!
