//! Plain text: searching, trimming, decimal numbers and time readouts.

use vstd::prelude::*;

verus! {

/// `String::push` appends the character to the end of the string.
pub assume_specification[ String::push ](s: &mut String, c: char)
    ensures
        final(s)@ == old(s)@.push(c),
;

/// The Unicode characters that count as white space.
pub open spec fn whitespace(c: char) -> bool {
    let n = c as int;
    ||| 0x9 <= n <= 0xd
    ||| n == 0x20
    ||| n == 0x85
    ||| n == 0xa0
    ||| n == 0x1680
    ||| 0x2000 <= n <= 0x200a
    ||| n == 0x2028
    ||| n == 0x2029
    ||| n == 0x202f
    ||| n == 0x205f
    ||| n == 0x3000
}

/// The text without white space at its end.
pub open spec fn trimmed_end(s: Seq<char>) -> Seq<char>
    decreases s.len(),
{
    if s.len() > 0 && whitespace(s.last()) {
        trimmed_end(s.drop_last())
    } else {
        s
    }
}

/// The text without white space at either end.
pub open spec fn trimmed(s: Seq<char>) -> Seq<char>
    decreases s.len(),
{
    if s.len() > 0 && whitespace(s.first()) {
        trimmed(s.drop_first())
    } else {
        trimmed_end(s)
    }
}

/// The place of the first `c`, or the length where there is none.
pub open spec fn first(s: Seq<char>, c: char) -> nat
    decreases s.len(),
{
    if s.len() == 0 || s.first() == c {
        0
    } else {
        1 + first(s.drop_first(), c)
    }
}

/// The character of a decimal digit.
pub open spec fn digit(d: nat) -> char {
    (48 + d) as char
}

/// A number in decimal digits, without leading zeros.
pub open spec fn decimal(n: nat) -> Seq<char>
    decreases n,
{
    if n < 10 {
        seq![digit(n)]
    } else {
        decimal(n / 10).push(digit(n % 10))
    }
}

/// A number in decimal digits, at least two of them.
pub open spec fn two_digits(n: nat) -> Seq<char> {
    if n < 10 {
        seq!['0', digit(n)]
    } else {
        decimal(n)
    }
}

/// Whether the character is a decimal digit.
pub open spec fn is_digit(c: char) -> bool {
    48 <= c as int <= 57
}

/// The number that a run of decimal digits stands for.
pub open spec fn digits_value(s: Seq<char>) -> int
    decreases s.len(),
{
    if s.len() == 0 {
        0
    } else {
        digits_value(s.drop_last()) * 10 + (s.last() as int - 48)
    }
}

/// Whether every character is a decimal digit.
pub open spec fn all_digits(s: Seq<char>) -> bool {
    forall|i: int| 0 <= i < s.len() ==> is_digit(#[trigger] s[i])
}

/// The text after an optional plus sign.
pub open spec fn after_plus(s: Seq<char>) -> Seq<char> {
    if s.len() > 0 && s.first() == '+' {
        s.drop_first()
    } else {
        s
    }
}

/// The number that a text stands for: decimal digits, at least one, after an
/// optional plus sign, and at most `max`.
pub open spec fn number(s: Seq<char>, max: int) -> Option<int> {
    let digits = after_plus(s);
    if digits.len() > 0 && all_digits(digits) && digits_value(digits) <= max {
        Some(digits_value(digits))
    } else {
        None
    }
}

/// A duration of whole seconds as `mm:ss`, from an hour on as `hh:mm:ss`.
pub open spec fn time_text(s: nat) -> Seq<char> {
    if s >= 3600 {
        two_digits(s / 3600).push(':') + two_digits((s % 3600) / 60).push(':') + two_digits(s % 60)
    } else {
        two_digits(s / 60).push(':') + two_digits(s % 60)
    }
}

/// The code point of a character.
fn code(c: char) -> (r: u32)
    ensures
        r as int == c as int,
{
    c as u32
}

/// Whether the character is white space.
pub fn is_whitespace(c: char) -> (r: bool)
    ensures
        r == whitespace(c),
{
    let n: u32 = code(c);
    (0x9 <= n && n <= 0xd) || n == 0x20 || n == 0x85 || n == 0xa0 || n == 0x1680 || (0x2000 <= n
        && n <= 0x200a) || n == 0x2028 || n == 0x2029 || n == 0x202f || n == 0x205f || n == 0x3000
}

/// The characters of a text.
pub fn to_chars(s: &str) -> (r: Vec<char>)
    ensures
        r@ == s@,
{
    let mut v: Vec<char> = Vec::new();
    for c in it: s.chars()
        invariant
            it.seq() == s@,
            v@ == s@.take(it.index() as int),
    {
        v.push(c);
    }
    assert(s@.take(s@.len() as int) =~= s@);
    v
}

/// The text of the characters from `a` up to `b`.
pub fn to_text(v: &Vec<char>, a: usize, b: usize) -> (r: String)
    requires
        a <= b <= v@.len(),
    ensures
        r@ == v@.subrange(a as int, b as int),
{
    let mut out = String::new();
    let mut i: usize = a;
    while i < b
        invariant
            a <= i <= b <= v@.len(),
            out@ == v@.subrange(a as int, i as int),
        decreases b - i,
    {
        out.push(v[i]);
        i = i + 1;
        assert(v@.subrange(a as int, i as int) =~= v@.subrange(a as int, i - 1).push(v@[i - 1]));
    }
    out
}

/// The part of `v` from `a` up to `b` without white space at either end.
pub fn trim(v: &Vec<char>, a: usize, b: usize) -> (r: (usize, usize))
    requires
        a <= b <= v@.len(),
    ensures
        a <= r.0 <= r.1 <= b,
        v@.subrange(r.0 as int, r.1 as int) == trimmed(v@.subrange(a as int, b as int)),
{
    let mut lo: usize = a;
    while lo < b && is_whitespace(v[lo])
        invariant
            a <= lo <= b <= v@.len(),
            trimmed(v@.subrange(lo as int, b as int)) == trimmed(v@.subrange(a as int, b as int)),
        decreases b - lo,
    {
        assert(v@.subrange(lo as int, b as int).drop_first() =~= v@.subrange(lo + 1, b as int));
        lo = lo + 1;
    }
    assert(trimmed(v@.subrange(lo as int, b as int)) == trimmed_end(v@.subrange(lo as int, b as int)));
    let mut hi: usize = b;
    while hi > lo && is_whitespace(v[hi - 1])
        invariant
            a <= lo <= hi <= b <= v@.len(),
            trimmed_end(v@.subrange(lo as int, hi as int)) == trimmed(
                v@.subrange(a as int, b as int),
            ),
        decreases hi - lo,
    {
        assert(v@.subrange(lo as int, hi as int).drop_last() =~= v@.subrange(lo as int, hi - 1));
        hi = hi - 1;
    }
    (lo, hi)
}

/// The place of the first `c` from `a` on, or `b` where there is none before it.
pub fn find(v: &Vec<char>, a: usize, b: usize, c: char) -> (r: usize)
    requires
        a <= b <= v@.len(),
    ensures
        a <= r <= b,
        r - a == first(v@.subrange(a as int, b as int), c),
{
    let mut i: usize = a;
    while i < b && v[i] != c
        invariant
            a <= i <= b <= v@.len(),
            first(v@.subrange(a as int, b as int), c) == (i - a) + first(
                v@.subrange(i as int, b as int),
                c,
            ),
        decreases b - i,
    {
        assert(v@.subrange(i as int, b as int).drop_first() =~= v@.subrange(i + 1, b as int));
        i = i + 1;
    }
    i
}

/// Appends a number in decimal digits.
pub fn push_decimal(out: &mut String, n: u64)
    ensures
        final(out)@ == old(out)@ + decimal(n as nat),
    decreases n,
{
    if n >= 10 {
        push_decimal(out, n / 10);
    }
    let d: u8 = (n % 10) as u8;
    out.push((48 + d) as char);
    proof {
        if n >= 10 {
            assert(out@ =~= old(out)@ + decimal((n / 10) as nat).push(digit((n % 10) as nat)));
        } else {
            assert(out@ =~= old(out)@ + decimal(n as nat));
        }
    }
}

/// Appends a number in decimal digits, at least two of them.
fn push_two_digits(out: &mut String, n: u64)
    ensures
        final(out)@ == old(out)@ + two_digits(n as nat),
{
    if n < 10 {
        out.push('0');
    }
    push_decimal(out, n);
    proof {
        assert(out@ =~= old(out)@ + two_digits(n as nat));
    }
}

/// The readout of a duration in whole seconds.
pub fn fmt_time(s: u32) -> (r: String)
    ensures
        r@ == time_text(s as nat),
{
    let s: u64 = s as u64;
    let mut out = String::new();
    if s >= 3600 {
        push_two_digits(&mut out, s / 3600);
        out.push(':');
        push_two_digits(&mut out, (s % 3600) / 60);
        out.push(':');
        push_two_digits(&mut out, s % 60);
    } else {
        push_two_digits(&mut out, s / 60);
        out.push(':');
        push_two_digits(&mut out, s % 60);
    }
    proof {
        assert(out@ =~= time_text(s as nat));
    }
    out
}

proof fn lemma_digits_value_grows(s: Seq<char>, i: int)
    requires
        0 <= i <= s.len(),
        all_digits(s),
    ensures
        0 <= digits_value(s.take(i)) <= digits_value(s),
    decreases s.len(),
{
    if i == s.len() {
        assert(s.take(i) =~= s);
        if s.len() > 0 {
            assert(is_digit(s[s.len() - 1]));
            lemma_digits_value_grows(s.drop_last(), s.len() - 1);
            assert(s.drop_last().take(s.len() - 1) =~= s.drop_last());
        }
    } else {
        assert(is_digit(s[s.len() - 1]));
        lemma_digits_value_grows(s.drop_last(), i);
        assert(s.drop_last().take(i) =~= s.take(i));
    }
}

/// Reads a decimal number of at most `max`.
pub fn parse_number(s: &str, max: u32) -> (r: Option<u32>)
    ensures
        match r {
            Some(n) => number(s@, max as int) == Some(n as int),
            None => number(s@, max as int) is None,
        },
{
    let v = to_chars(s);
    let start: usize = if v.len() > 0 && v[0] == '+' {
        1
    } else {
        0
    };
    let ghost digits = after_plus(s@);
    assert(digits =~= v@.skip(start as int));
    if start == v.len() {
        return None;
    }
    let mut acc: u64 = 0;
    let mut i: usize = start;
    while i < v.len()
        invariant
            start <= i <= v@.len(),
            v@ == s@,
            digits == v@.skip(start as int),
            digits == after_plus(s@),
            start < v@.len(),
            forall|k: int| 0 <= k < i - start ==> is_digit(#[trigger] digits[k]),
            acc == digits_value(digits.take(i - start)),
            acc <= max,
        decreases v@.len() - i,
    {
        let c: char = v[i];
        let n: u32 = code(c);
        if n < 48 || n > 57 {
            assert(!is_digit(digits[i - start]));
            return None;
        }
        acc = acc * 10 + (n - 48) as u64;
        proof {
            let taken = digits.take(i - start + 1);
            assert(taken.drop_last() =~= digits.take(i - start));
            assert(digits[i - start] == c);
            assert(acc == digits_value(taken));
        }
        if acc > max as u64 {
            proof {
                if all_digits(digits) {
                    lemma_digits_value_grows(digits, i - start + 1);
                }
            }
            return None;
        }
        i = i + 1;
    }
    assert(digits.take(v@.len() - start) =~= digits);
    Some(acc as u32)
}

/// The decimal digits of a number read back as the number.
pub proof fn law_decimal_reads_back(n: nat, max: int)
    requires
        n <= max,
    ensures
        number(decimal(n), max) == Some(n as int),
        decimal(n).len() > 0,
        all_digits(decimal(n)),
    decreases n,
{
    if n >= 10 {
        law_decimal_reads_back(n / 10, max);
        assert(decimal(n).drop_last() =~= decimal(n / 10));
        assert(is_digit(decimal(n / 10)[0]));
        assert(decimal(n)[0] == decimal(n / 10)[0]);
        assert(decimal(n / 10).first() != '+');
    } else {
        assert(decimal(n).drop_last() =~= Seq::<char>::empty());
        assert(digits_value(Seq::<char>::empty()) == 0);
    }
    assert(decimal(n).first() != '+');
}

/// Trimming is done once and for all: what is left has no white space at its
/// ends.
pub proof fn law_trimmed_text_is_clean(s: Seq<char>)
    ensures
        trimmed(trimmed(s)) == trimmed(s),
        trimmed(s).len() > 0 ==> !whitespace(trimmed(s).first()) && !whitespace(trimmed(s).last()),
    decreases s.len(),
{
    if s.len() > 0 && whitespace(s.first()) {
        law_trimmed_text_is_clean(s.drop_first());
    } else {
        lemma_trimmed_end_is_clean(s);
    }
}

proof fn lemma_trimmed_end_is_clean(s: Seq<char>)
    requires
        s.len() > 0 ==> !whitespace(s.first()),
    ensures
        trimmed(trimmed_end(s)) == trimmed_end(s),
        trimmed_end(s).len() > 0 ==> !whitespace(trimmed_end(s).first()) && !whitespace(
            trimmed_end(s).last(),
        ),
    decreases s.len(),
{
    if s.len() > 0 && whitespace(s.last()) {
        if s.len() == 1 {
            assert(s.first() == s.last());
        }
        assert(s.drop_last().len() > 0 ==> s.drop_last().first() == s.first());
        lemma_trimmed_end_is_clean(s.drop_last());
    }
}

/// What trimming takes off is white space: the trimmed text is a stretch of the text, with
/// nothing but white space before it and behind it.
pub proof fn law_trimming_takes_white_space_only(s: Seq<char>) -> (r: (int, int))
    ensures
        0 <= r.0 <= r.1 <= s.len(),
        trimmed(s) == s.subrange(r.0, r.1),
        forall|i: int| 0 <= i < r.0 ==> whitespace(#[trigger] s[i]),
        forall|i: int| r.1 <= i < s.len() ==> whitespace(#[trigger] s[i]),
    decreases s.len(),
{
    if s.len() > 0 && whitespace(s.first()) {
        let rest = s.drop_first();
        let (a, b) = law_trimming_takes_white_space_only(rest);
        assert(rest.subrange(a, b) =~= s.subrange(a + 1, b + 1));
        assert forall|i: int| 0 <= i < a + 1 implies whitespace(#[trigger] s[i]) by {
            if i > 0 {
                assert(whitespace(rest[i - 1]));
            }
        }
        assert forall|i: int| b + 1 <= i < s.len() implies whitespace(#[trigger] s[i]) by {
            assert(whitespace(rest[i - 1]));
        }
        (a + 1, b + 1)
    } else {
        let b = lemma_trimmed_end_takes_white_space(s);
        assert(s.take(b) =~= s.subrange(0, b));
        (0, b)
    }
}

proof fn lemma_trimmed_end_takes_white_space(s: Seq<char>) -> (b: int)
    ensures
        0 <= b <= s.len(),
        trimmed_end(s) == s.take(b),
        forall|i: int| b <= i < s.len() ==> whitespace(#[trigger] s[i]),
    decreases s.len(),
{
    if s.len() > 0 && whitespace(s.last()) {
        let rest = s.drop_last();
        let b = lemma_trimmed_end_takes_white_space(rest);
        assert(rest.take(b) =~= s.take(b));
        assert forall|i: int| b <= i < s.len() implies whitespace(#[trigger] s[i]) by {
            if i < rest.len() {
                assert(whitespace(rest[i]));
            }
        }
        b
    } else {
        assert(s.take(s.len() as int) =~= s);
        s.len() as int
    }
}

/// The first place of a character holds it and no place before it does; where the character
/// does not occur it is the length.
pub proof fn law_first_place(s: Seq<char>, c: char, i: int)
    ensures
        first(s, c) <= s.len(),
        first(s, c) < s.len() ==> s[first(s, c) as int] == c,
        0 <= i < first(s, c) ==> s[i] != c,
        first(s, c) == s.len() <==> !s.contains(c),
    decreases s.len(),
{
    if s.len() > 0 && s.first() != c {
        let rest = s.drop_first();
        law_first_place(rest, c, i - 1);
        if 0 < i < first(s, c) {
            assert(rest[i - 1] == s[i]);
        }
        if rest.contains(c) {
            let k = choose|k: int| 0 <= k < rest.len() && rest[k] == c;
            assert(s[k + 1] == c);
        }
        if s.contains(c) {
            let k = choose|k: int| 0 <= k < s.len() && s[k] == c;
            assert(rest[k - 1] == c);
        }
    } else if s.len() > 0 {
        assert(s[0] == c);
    }
}

/// A number is read from digits alone, with an optional plus sign before them: a text with
/// any other character, with no digit, or above the limit gives none. Zeros before it and
/// the plus sign change nothing.
pub proof fn law_only_digits_are_numbers(s: Seq<char>, max: int, i: int)
    ensures
        s.len() == 0 ==> number(s, max) is None,
        0 < i < s.len() && !(48 <= s[i] as int <= 57) ==> number(s, max) is None,
        s.len() > 0 && s[0] != '+' && !(48 <= s[0] as int <= 57) ==> number(s, max) is None,
        s.len() == 1 && s[0] == '+' ==> number(s, max) is None,
        number(s, max) matches Some(n) ==> 0 <= n <= max,
        s.len() > 0 && s[0] != '+' ==> number(seq!['+'] + s, max) == number(s, max),
        s.len() > 0 && s[0] != '+' ==> number(seq!['0'] + s, max) == number(s, max),
        s.len() == 1 && 48 <= s[0] as int <= 57 && max >= 9 ==> number(s, max) == Some(
            s[0] as int - 48,
        ),
{
    let d = after_plus(s);
    if all_digits(d) {
        lemma_digits_value_grows(d, 0);
    }
    if 0 < i < s.len() && !is_digit(s[i]) {
        if s[0] == '+' {
            assert(d[i - 1] == s[i]);
        } else {
            assert(d[i] == s[i]);
        }
    }
    if s.len() > 0 && s[0] != '+' {
        if !is_digit(s[0]) {
            assert(!is_digit(d[0]));
        }
        assert((seq!['+'] + s).drop_first() =~= s);
        let z = seq!['0'] + s;
        assert(after_plus(z) == z);
        if all_digits(s) {
            assert forall|k: int| 0 <= k < z.len() implies is_digit(#[trigger] z[k]) by {
                if k > 0 {
                    assert(is_digit(s[k - 1]));
                }
            }
        }
        if all_digits(z) {
            assert forall|k: int| 0 <= k < s.len() implies is_digit(#[trigger] s[k]) by {
                assert(is_digit(z[k + 1]));
            }
        }
        lemma_leading_zero(s);
        if s.len() == 1 && is_digit(s[0]) {
            assert(s.drop_last() =~= Seq::<char>::empty());
            assert(digits_value(Seq::<char>::empty()) == 0);
            assert(all_digits(s));
        }
    }
}

proof fn lemma_leading_zero(s: Seq<char>)
    ensures
        digits_value(seq!['0'] + s) == digits_value(s),
    decreases s.len(),
{
    let z = seq!['0'] + s;
    if s.len() == 0 {
        assert(z.drop_last() =~= Seq::<char>::empty());
        assert(digits_value(Seq::<char>::empty()) == 0);
        assert(digits_value(s) == 0);
    } else {
        assert(z.drop_last() =~= seq!['0'] + s.drop_last());
        lemma_leading_zero(s.drop_last());
    }
}

/// Longer runs of digits count in tens.
pub proof fn law_digits_count_in_tens(s: Seq<char>, c: char)
    ensures
        digits_value(s.push(c)) == 10 * digits_value(s) + (c as int - 48),
{
    assert(s.push(c).drop_last() =~= s);
}

/// The decimal digits of a number above zero do not begin with a zero.
pub proof fn law_no_leading_zeros(n: nat)
    ensures
        n > 0 ==> decimal(n)[0] != '0',
        n == 0 ==> decimal(n) =~= seq!['0'],
    decreases n,
{
    if n >= 10 {
        law_no_leading_zeros(n / 10);
        law_decimal_reads_back(n / 10, n as int);
        assert(decimal(n)[0] == decimal(n / 10)[0]);
    }
}

/// The parts of a time have at least two digits and read back as numbers.
pub proof fn law_two_digits_read_back(n: nat)
    ensures
        two_digits(n).len() >= 2,
        n < 100 ==> two_digits(n).len() == 2,
        number(two_digits(n), n as int) == Some(n as int),
        all_digits(two_digits(n)),
{
    law_decimal_reads_back(n, n as int);
    if n < 10 {
        law_only_digits_are_numbers(decimal(n), n as int, 0);
        assert(two_digits(n) =~= seq!['0'] + decimal(n));
        assert(is_digit('0'));
        assert(all_digits(two_digits(n)));
    } else {
        assert(decimal(n).len() >= 2) by {
            law_decimal_reads_back(n / 10, n as int);
        }
        if n < 100 {
            assert(decimal(n / 10).len() == 1);
        }
    }
}

/// A time ends in its seconds, below 60, in two digits after a colon; before that stand its
/// minutes, from an hour on below 60 too, in two digits after the hours and a colon. The
/// parts add up to the duration.
pub proof fn law_time_adds_up(s: nat)
    ensures
        ({
            let t = time_text(s);
            let n = t.len() as int;
            let seconds = number(t.skip(n - 2), 59);
            &&& n >= 5
            &&& t[n - 3] == ':'
            &&& seconds is Some
            &&& s < 3600 ==> {
                let minutes = number(t.take(n - 3), 59);
                &&& n == 5
                &&& minutes is Some
                &&& 60 * minutes->0 + seconds->0 == s
            }
            &&& s >= 3600 ==> {
                let minutes = number(t.subrange(n - 5, n - 3), 59);
                let hours = number(t.take(n - 6), s as int);
                &&& n >= 8
                &&& t[n - 6] == ':'
                &&& minutes is Some
                &&& hours is Some
                &&& 3600 * hours->0 + 60 * minutes->0 + seconds->0 == s
            }
        }),
{
    let t = time_text(s);
    let n = t.len() as int;
    law_two_digits_read_back(s % 60);
    assert(t.skip(n - 2) =~= two_digits(s % 60));
    if s < 3600 {
        law_two_digits_read_back(s / 60);
        assert(t.take(n - 3) =~= two_digits(s / 60));
    } else {
        law_two_digits_read_back((s % 3600) / 60);
        law_two_digits_read_back(s / 3600);
        assert(t.subrange(n - 5, n - 3) =~= two_digits((s % 3600) / 60));
        assert(t.take(n - 6) =~= two_digits(s / 3600));
    }
}

/// White space is the tabulator and the line and page breaks after it up to 0x0d, the
/// blank, the next-line mark, and the separators of Unicode: one at 0xa0 and one at 0x1680,
/// eleven from 0x2000 on, two from 0x2028 on, and those at 0x202f, 0x205f and 0x3000. No
/// letter, digit or sign of ASCII is.
pub proof fn law_white_space(c: char)
    ensures
        ({
            let rest = seq![9int, 10, 11, 12, 13, 32, 133, 160, 5760, 8232, 8233, 8239, 8287, 12288];
            whitespace(c) <==> rest.contains(c as int) || 0 <= (c as int) - 8192 < 11
        }),
        32 < c as int && (c as int) < 127 ==> !whitespace(c),
{
    let rest = seq![9int, 10, 11, 12, 13, 32, 133, 160, 5760, 8232, 8233, 8239, 8287, 12288];
    let n = c as int;
    assert(rest[0] == 9 && rest[1] == 10 && rest[2] == 11 && rest[3] == 12 && rest[4] == 13);
    assert(rest[5] == 32 && rest[6] == 133 && rest[7] == 160 && rest[8] == 5760);
    assert(rest[9] == 8232 && rest[10] == 8233 && rest[11] == 8239 && rest[12] == 8287);
    assert(rest[13] == 12288);
    if rest.contains(n) {
        let k = choose|k: int| 0 <= k < rest.len() && rest[k] == n;
        assert(rest[k] == n);
    }
}

} // verus!
