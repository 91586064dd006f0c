//! Plain text: white space, trimming, prefixes, decimal numbers.

use vstd::prelude::*;

verus! {

/// The characters with the Unicode property White_Space.
pub open spec fn white_space(c: char) -> bool {
    let n = c as u32;
    ||| 0x9 <= n <= 0xd
    ||| n == 0x20
    ||| n == 0x85
    ||| n == 0xa0
    ||| n == 0x1680
    ||| 0x2000 <= n <= 0x200a
    ||| n == 0x2028
    ||| n == 0x2029
    ||| n == 0x202f
    ||| n == 0x205f
    ||| n == 0x3000
}

/// Whether `c` is white space.
pub fn is_white_space(c: char) -> (r: bool)
    ensures
        r == white_space(c),
{
    let n: u32 = c as u32;
    (0x9 <= n && n <= 0xd) || n == 0x20 || n == 0x85 || n == 0xa0 || n == 0x1680 || (0x2000 <= n
        && n <= 0x200a) || n == 0x2028 || n == 0x2029 || n == 0x202f || n == 0x205f || n == 0x3000
}

/// `s` without its leading white space.
pub open spec fn trimmed_start(s: Seq<char>) -> Seq<char>
    decreases s.len(),
{
    if s.len() > 0 && white_space(s[0]) {
        trimmed_start(s.drop_first())
    } else {
        s
    }
}

/// `s` without its trailing white space.
pub open spec fn trimmed_end(s: Seq<char>) -> Seq<char>
    decreases s.len(),
{
    if s.len() > 0 && white_space(s.last()) {
        trimmed_end(s.drop_last())
    } else {
        s
    }
}

/// `s` without its leading and its trailing white space.
pub open spec fn trimmed(s: Seq<char>) -> Seq<char> {
    trimmed_end(trimmed_start(s))
}

/// The characters of `s`, in order.
pub fn chars_of(s: &str) -> (v: Vec<char>)
    ensures
        v@ == s@,
{
    let mut v: Vec<char> = Vec::new();
    for c in it: s.chars()
        invariant
            v@ == it.seq().take(it.index()),
            it.seq() == s@,
    {
        v.push(c);
    }
    v
}

/// `s` without its leading and its trailing white space.
pub fn trim(s: &str) -> (r: &str)
    ensures
        r@ == trimmed(s@),
{
    let v = chars_of(s);
    let n: usize = v.len();
    let mut i: usize = 0;
    assert(v@.skip(0) == v@);
    while i < n && is_white_space(v[i])
        invariant
            i <= n,
            n == v@.len(),
            v@ == s@,
            trimmed_start(v@) == trimmed_start(v@.skip(i as int)),
        decreases n - i,
    {
        assert(v@.skip(i as int).drop_first() == v@.skip(i + 1));
        i = i + 1;
    }
    assert(trimmed_start(v@) == v@.skip(i as int));
    let mut j: usize = n;
    while i < j && is_white_space(v[j - 1])
        invariant
            i <= j <= n,
            n == v@.len(),
            v@ == s@,
            trimmed_end(v@.skip(i as int)) == trimmed_end(v@.subrange(i as int, j as int)),
        decreases j - i,
    {
        assert(v@.subrange(i as int, j as int).drop_last() == v@.subrange(i as int, j - 1));
        j = j - 1;
    }
    s.substring_char(i, j)
}

/// Whether `a` and `b` hold the same characters.
pub fn same_text(a: &str, b: &str) -> (r: bool)
    ensures
        r == (a@ == b@),
{
    a.to_owned() == b.to_owned()
}

/// Whether `s` begins with `prefix`.
pub fn starts_with(s: &str, prefix: &str) -> (r: bool)
    ensures
        r == prefix@.is_prefix_of(s@),
{
    let v = chars_of(s);
    let p = chars_of(prefix);
    if p.len() > v.len() {
        return false;
    }
    let n: usize = p.len();
    let mut i: usize = 0;
    while i < n
        invariant
            i <= n,
            n == p@.len(),
            n <= v@.len(),
            p@ == prefix@,
            v@ == s@,
            p@.take(i as int) == v@.take(i as int),
        decreases n - i,
    {
        if p[i] != v[i] {
            assert(v@.subrange(0, n as int)[i as int] != p@[i as int]);
            return false;
        }
        assert(p@.take(i + 1) == p@.take(i as int).push(p@[i as int]));
        assert(v@.take(i + 1) == v@.take(i as int).push(v@[i as int]));
        i = i + 1;
    }
    assert(p@.take(n as int) == p@);
    true
}

/// Whether `c` is one of `0` to `9`.
pub open spec fn ascii_digit(c: char) -> bool {
    '0' <= c <= '9'
}

/// The number that the digits of `s` write in base ten.
pub open spec fn decimal_value(s: Seq<char>) -> nat
    decreases s.len(),
{
    if s.len() == 0 {
        0
    } else {
        10 * decimal_value(s.drop_last()) + (s.last() as u32 - '0' as u32) as nat
    }
}

/// What follows an optional leading plus sign.
pub open spec fn unsigned_digits(s: Seq<char>) -> Seq<char> {
    if s.len() > 0 && s[0] == '+' {
        s.drop_first()
    } else {
        s
    }
}

/// The number that `s` writes, at most `max`: an optional plus sign, then one
/// digit or more and nothing else.
pub open spec fn parsed_decimal(s: Seq<char>, max: nat) -> Option<nat> {
    let digits = unsigned_digits(s);
    if digits.len() > 0 && (forall|i: int| 0 <= i < digits.len() ==> ascii_digit(#[trigger] digits[i]))
        && decimal_value(digits) <= max {
        Some(decimal_value(digits))
    } else {
        None
    }
}

proof fn lemma_decimal_value_grows(s: Seq<char>, i: int)
    requires
        0 <= i <= s.len(),
    ensures
        decimal_value(s.take(i)) <= decimal_value(s),
    decreases s.len() - i,
{
    if i == s.len() {
        assert(s.take(i) == s);
    } else {
        assert(s.take(i + 1).drop_last() == s.take(i));
        lemma_decimal_value_grows(s, i + 1);
    }
}

/// Reads `s` as an unsigned number of at most `max`, the way that
/// `str::parse` reads one.
pub fn parse_decimal(s: &str, max: u64) -> (r: Option<u64>)
    ensures
        match r {
            Some(n) => parsed_decimal(s@, max as nat) == Some(n as nat),
            None => parsed_decimal(s@, max as nat) is None,
        },
{
    let v = chars_of(s);
    let n: usize = v.len();
    let mut i: usize = 0;
    if n > 0 && v[0] == '+' {
        i = 1;
    }
    let start: usize = i;
    let ghost digits = unsigned_digits(s@);
    assert(digits == v@.skip(start as int));
    if start == n {
        return None;
    }
    let mut value: u64 = 0;
    assert(digits.take(0).len() == 0);
    while i < n
        invariant
            start <= i <= n,
            n == v@.len(),
            v@ == s@,
            digits == unsigned_digits(s@),
            digits == v@.skip(start as int),
            value <= max,
            value == decimal_value(digits.take(i - start)),
            forall|k: int| 0 <= k < i - start ==> ascii_digit(#[trigger] digits[k]),
        decreases n - i,
    {
        let c: char = v[i];
        let ghost at = i - start;
        assert(c == digits[at]);
        if c < '0' || '9' < c {
            assert(!ascii_digit(digits[at]));
            return None;
        }
        let d: u64 = (c as u32 - '0' as u32) as u64;
        assert(digits.take(at + 1).drop_last() == digits.take(at));
        assert(decimal_value(digits.take(at + 1)) == 10 * value + d);
        proof {
            lemma_decimal_value_grows(digits, at + 1);
        }
        if d > max || value > (max - d) / 10 {
            return None;
        }
        value = value * 10 + d;
        i = i + 1;
    }
    assert(digits.take(n - start) == digits);
    Some(value)
}

/// The digit character of a number below ten.
pub open spec fn digit_char(d: nat) -> char {
    ('0' as u32 + d) as char
}

/// The decimal digits of `n`, without leading zeros.
pub open spec fn decimal(n: nat) -> Seq<char>
    decreases n,
{
    if n < 10 {
        seq![digit_char(n)]
    } else {
        decimal(n / 10).push(digit_char(n % 10))
    }
}

/// `String::push` puts one character behind the others.
pub assume_specification[ String::push ](s: &mut String, c: char)
    ensures
        final(s)@ == old(s)@.push(c),
;

/// The text of these characters.
pub fn text_of_chars(chars: &Vec<char>) -> (r: String)
    ensures
        r@ == chars@,
{
    let mut text = String::new();
    let n: usize = chars.len();
    let mut i: usize = 0;
    while i < n
        invariant
            i <= n,
            n == chars@.len(),
            text@ == chars@.take(i as int),
        decreases n - i,
    {
        text.push(chars[i]);
        assert(chars@.take(i + 1) == chars@.take(i as int).push(chars@[i as int]));
        i = i + 1;
    }
    assert(chars@.take(n as int) == chars@);
    text
}

/// The view of an optional text.
pub open spec fn opt_view(text: Option<String>) -> Option<Seq<char>> {
    match text {
        Some(s) => Some(s@),
        None => None,
    }
}

/// Appends the decimal digits of `n` to `out`.
pub fn push_decimal(out: &mut String, n: u128)
    ensures
        final(out)@ == old(out)@ + decimal(n as nat),
    decreases n,
{
    if n >= 10 {
        push_decimal(out, n / 10);
    }
    let d: u8 = (n % 10) as u8;
    out.push((48 + d) as char);
}

/// The decimal digits of `n`.
pub fn decimal_text(n: u128) -> (r: String)
    ensures
        r@ == decimal(n as nat),
{
    let mut out = String::new();
    push_decimal(&mut out, n);
    out
}

/// Reading back the digits of a number gives that number.
pub proof fn decimal_reads_back(n: nat, max: nat)
    requires
        n <= max,
    ensures
        parsed_decimal(decimal(n), max) == Some(n),
{
    lemma_decimal_digits(n);
}

proof fn lemma_decimal_digits(n: nat)
    ensures
        decimal(n).len() > 0,
        forall|i: int| 0 <= i < decimal(n).len() ==> ascii_digit(#[trigger] decimal(n)[i]),
        decimal_value(decimal(n)) == n,
    decreases n,
{
    if n < 10 {
        assert(decimal(n).drop_last() == Seq::<char>::empty());
        assert(decimal_value(Seq::<char>::empty()) == 0);
    } else {
        lemma_decimal_digits(n / 10);
        assert(decimal(n).drop_last() == decimal(n / 10));
    }
}

/// Whether `s` is white space throughout.
pub open spec fn all_white(s: Seq<char>) -> bool {
    forall|i: int| 0 <= i < s.len() ==> white_space(#[trigger] s[i])
}

proof fn lemma_trim_start_skips(w: Seq<char>, s: Seq<char>)
    requires
        all_white(w),
    ensures
        trimmed_start(w + s) == trimmed_start(s),
    decreases w.len(),
{
    if w.len() == 0 {
        assert(w + s == s);
    } else {
        assert((w + s)[0] == w[0]);
        assert((w + s).drop_first() == w.drop_first() + s);
        lemma_trim_start_skips(w.drop_first(), s);
    }
}

proof fn lemma_trim_end_skips(s: Seq<char>, w: Seq<char>)
    requires
        all_white(w),
    ensures
        trimmed_end(s + w) == trimmed_end(s),
    decreases w.len(),
{
    if w.len() == 0 {
        assert(s + w == s);
    } else {
        assert((s + w).last() == w.last());
        assert((s + w).drop_last() == s + w.drop_last());
        lemma_trim_end_skips(s, w.drop_last());
    }
}

proof fn lemma_trim_start_extends(s: Seq<char>, w: Seq<char>)
    requires
        all_white(w),
    ensures
        trimmed_start(s + w) == if trimmed_start(s).len() > 0 {
            trimmed_start(s) + w
        } else {
            Seq::empty()
        },
    decreases s.len(),
{
    if s.len() == 0 {
        assert(s + w == w + Seq::<char>::empty());
        lemma_trim_start_skips(w, Seq::empty());
    } else {
        assert((s + w)[0] == s[0]);
        if white_space(s[0]) {
            assert((s + w).drop_first() == s.drop_first() + w);
            lemma_trim_start_extends(s.drop_first(), w);
        }
    }
}

/// White space around a text does not survive trimming.
pub proof fn trim_ignores_padding(before: Seq<char>, s: Seq<char>, after: Seq<char>)
    requires
        all_white(before),
        all_white(after),
    ensures
        trimmed(before + s + after) == trimmed(s),
{
    assert(before + s + after == before + (s + after));
    lemma_trim_start_skips(before, s + after);
    lemma_trim_start_extends(s, after);
    if trimmed_start(s).len() > 0 {
        lemma_trim_end_skips(trimmed_start(s), after);
    } else {
        assert(trimmed_start(s) == Seq::<char>::empty());
    }
}

/// Trimming gives the core of a text: what lies between white space at its
/// front and at its back, where it begins and ends with something else.
pub proof fn trimming_gives_the_core(before: Seq<char>, core: Seq<char>, after: Seq<char>)
    requires
        all_white(before),
        all_white(after),
        core.len() > 0 ==> !white_space(core[0]) && !white_space(core.last()),
    ensures
        trimmed(before + core + after) == core,
{
    trim_ignores_padding(before, core, after);
}

/// Every text has such a core; one of nothing but white space has an empty one.
pub proof fn every_text_has_a_core(s: Seq<char>)
    ensures
        exists|before: Seq<char>, after: Seq<char>|
            all_white(before) && all_white(after) && s == #[trigger] (before + trimmed(s) + after),
        trimmed(s).len() > 0 ==> !white_space(trimmed(s)[0]) && !white_space(trimmed(s).last()),
        trimmed(s).len() == 0 <==> all_white(s),
{
    lemma_start_splits(s);
    let t = trimmed_start(s);
    lemma_end_splits(t);
    let before = s.take(s.len() - t.len());
    let after = t.skip(trimmed(s).len() as int);
    assert(s =~= before + trimmed(s) + after);
    if trimmed(s).len() > 0 {
        assert(trimmed(s)[0] == t[0]);
    }
    if trimmed(s).len() == 0 {
        assert forall|i: int| 0 <= i < s.len() implies white_space(#[trigger] s[i]) by {
            if i < before.len() {
                assert(s[i] == before[i]);
            } else {
                assert(s[i] == after[i - before.len()]);
            }
        }
    }
    if all_white(s) {
        trim_ignores_padding(s, Seq::empty(), Seq::empty());
        assert(s + Seq::<char>::empty() + Seq::<char>::empty() =~= s);
    }
}

proof fn lemma_start_splits(s: Seq<char>)
    ensures
        trimmed_start(s).len() <= s.len(),
        all_white(s.take(s.len() - trimmed_start(s).len())),
        s.skip(s.len() - trimmed_start(s).len()) == trimmed_start(s),
        trimmed_start(s).len() > 0 ==> !white_space(trimmed_start(s)[0]),
    decreases s.len(),
{
    if s.len() > 0 && white_space(s[0]) {
        let rest = s.drop_first();
        lemma_start_splits(rest);
        let n = s.len() - trimmed_start(s).len();
        assert(s.skip(n) =~= rest.skip(n - 1));
        assert forall|i: int| 0 <= i < n implies white_space(#[trigger] s.take(n)[i]) by {
            if i > 0 {
                assert(s.take(n)[i] == rest.take(n - 1)[i - 1]);
            }
        }
    } else {
        assert(s.skip(0) =~= s);
    }
}

proof fn lemma_end_splits(s: Seq<char>)
    ensures
        trimmed_end(s).len() <= s.len(),
        all_white(s.skip(trimmed_end(s).len() as int)),
        s.take(trimmed_end(s).len() as int) == trimmed_end(s),
        trimmed_end(s).len() > 0 ==> !white_space(trimmed_end(s).last()),
    decreases s.len(),
{
    if s.len() > 0 && white_space(s.last()) {
        let rest = s.drop_last();
        lemma_end_splits(rest);
        let n = trimmed_end(s).len() as int;
        assert(s.take(n) =~= rest.take(n));
        assert forall|i: int| 0 <= i < s.len() - n implies white_space(#[trigger] s.skip(n)[i]) by {
            if i < rest.len() - n {
                assert(s.skip(n)[i] == rest.skip(n)[i]);
            }
        }
    } else {
        assert(s.take(s.len() as int) =~= s);
    }
}

/// Among the ASCII characters exactly the blank, the tab, the line feed, the
/// vertical tab, the form feed and the carriage return are white space.
pub proof fn ascii_white_space(c: char)
    requires
        (c as u32) < 0x80,
    ensures
        white_space(c) <==> (c == ' ' || c == '\t' || c == '\n' || c == '\u{b}' || c == '\u{c}' || c
            == '\r'),
{
}

/// Beyond ASCII exactly the other blanks and separators of Unicode are.
pub proof fn other_white_space(c: char)
    requires
        (c as u32) >= 0x80,
    ensures
        white_space(c) <==> (c == '\u{85}' || c == '\u{a0}' || c == '\u{1680}' || '\u{2000}' <= c
            <= '\u{200a}' || c == '\u{2028}' || c == '\u{2029}' || c == '\u{202f}' || c
            == '\u{205f}' || c == '\u{3000}'),
{
}

/// A single digit is read as its worth.
pub proof fn one_digit_is_read(d: nat, max: nat)
    requires
        d < 10,
    ensures
        parsed_decimal(seq![(48 + d) as char], max) == if d <= max {
            Some(d)
        } else {
            None
        },
{
    let s = seq![(48 + d) as char];
    assert(s.drop_last() =~= Seq::empty());
    reveal_with_fuel(decimal_value, 2);
}

/// One more digit makes ten times as much, and its own worth on top.
pub proof fn one_more_digit_is_read(s: Seq<char>, n: nat, d: nat, max: nat)
    requires
        parsed_decimal(s, max) == Some(n),
        d < 10,
    ensures
        parsed_decimal(s.push((48 + d) as char), max) == if 10 * n + d <= max {
            Some(10 * n + d)
        } else {
            None
        },
{
    let longer = s.push((48 + d) as char);
    let digits = unsigned_digits(s);
    assert(unsigned_digits(longer) =~= digits.push((48 + d) as char));
    let more = unsigned_digits(longer);
    assert(more.drop_last() =~= digits);
    assert(decimal_value(more) == 10 * n + d);
    assert forall|i: int| 0 <= i < more.len() implies ascii_digit(#[trigger] more[i]) by {
        if i < digits.len() {
            assert(more[i] == digits[i]);
        }
    }
}

/// A plus sign in front makes no difference, and there is at most one.
pub proof fn a_plus_sign_makes_no_difference(s: Seq<char>, max: nat)
    ensures
        parsed_decimal(seq!['+'] + s, max) == if s.len() > 0 && s[0] == '+' {
            None
        } else {
            parsed_decimal(s, max)
        },
{
    assert((seq!['+'] + s).drop_first() =~= s);
    if s.len() > 0 && s[0] == '+' {
        assert(!ascii_digit(s[0]));
    }
}

/// What is read as a number holds nothing but digits behind its plus sign, one
/// at least; the number is no larger than allowed, and a larger allowance gives
/// the same number.
pub proof fn only_digits_are_read(s: Seq<char>, n: nat, max: nat, more: nat)
    requires
        parsed_decimal(s, max) == Some(n),
    ensures
        s.len() > 0,
        forall|i: int|
            0 <= i < s.len() ==> '0' <= #[trigger] s[i] <= '9' || (i == 0 && s[0] == '+' && s.len()
                > 1),
        n <= max,
        n <= more ==> parsed_decimal(s, more) == Some(n),
        n > more ==> parsed_decimal(s, more) is None,
{
    let digits = unsigned_digits(s);
    assert forall|i: int| 0 <= i < s.len() implies '0' <= #[trigger] s[i] <= '9' || (i == 0 && s[0]
        == '+' && s.len() > 1) by {
        if s[0] == '+' {
            if i > 0 {
                assert(s[i] == digits[i - 1]);
                assert(ascii_digit(digits[i - 1]));
            }
        } else {
            assert(ascii_digit(digits[i]));
        }
    }
}

/// A text with a character that is neither a digit nor a plus sign is no number.
pub proof fn other_characters_are_no_number(s: Seq<char>, i: int, max: nat)
    requires
        0 <= i < s.len(),
        !('0' <= s[i] <= '9'),
        s[i] != '+',
    ensures
        parsed_decimal(s, max) is None,
{
    let digits = unsigned_digits(s);
    if s[0] == '+' {
        assert(digits[i - 1] == s[i]);
    }
}

/// The digits of a number are no more than needed: no zero comes first, but for
/// zero itself.
pub proof fn decimals_have_no_leading_zero(n: nat)
    requires
        n > 0,
    ensures
        decimal(n)[0] != '0',
    decreases n,
{
    if n >= 10 {
        decimals_have_no_leading_zero(n / 10);
        lemma_decimal_digits(n / 10);
    }
}

} // verus!
