//! Looking for pieces of a text: words, lines, occurrences.

use crate::text::{all_white, chars_of, is_white_space, trimmed_start, white_space};
use vstd::prelude::*;

verus! {

/// Whether `needle` stands in `s` at position `i`.
pub open spec fn occurs_at(s: Seq<char>, needle: Seq<char>, i: int) -> bool {
    0 <= i <= s.len() - needle.len() && s.subrange(i, i + needle.len()) == needle
}

/// Whether `needle` stands anywhere in `s`.
pub open spec fn occurs(s: Seq<char>, needle: Seq<char>) -> bool {
    exists|i: int| occurs_at(s, needle, i)
}

/// The position of the first `needle` in `s`, if there is one.
pub open spec fn first_occurrence(s: Seq<char>, needle: Seq<char>) -> Option<int> {
    if occurs(s, needle) {
        Some(
            choose|i: int|
                occurs_at(s, needle, i) && forall|k: int| 0 <= k < i ==> !occurs_at(s, needle, k),
        )
    } else {
        None
    }
}

fn matches_at(v: &Vec<char>, p: &Vec<char>, i: usize) -> (r: bool)
    requires
        i <= v@.len(),
    ensures
        r == occurs_at(v@, p@, i as int),
{
    let n: usize = p.len();
    let total: usize = v.len();
    if n > total - i {
        return false;
    }
    let mut k: usize = 0;
    while k < n
        invariant
            k <= n,
            n == p@.len(),
            total == v@.len(),
            i + n <= total,
            forall|j: int| 0 <= j < k ==> v@[i + j] == #[trigger] p@[j],
        decreases n - k,
    {
        if v[i + k] != p[k] {
            return false;
        }
        k = k + 1;
    }
    assert(v@.subrange(i as int, i + n) =~= p@);
    true
}

proof fn lemma_first(s: Seq<char>, needle: Seq<char>, i: int)
    requires
        occurs_at(s, needle, i),
        forall|k: int| 0 <= k < i ==> !occurs_at(s, needle, k),
    ensures
        first_occurrence(s, needle) == Some(i),
{
    let found = first_occurrence(s, needle)->0;
    assert(occurs_at(s, needle, i) && forall|k: int| 0 <= k < i ==> !occurs_at(s, needle, k));
    assert(occurs_at(s, needle, found));
    if found < i {
        assert(!occurs_at(s, needle, found));
    }
}

fn find_from(v: &Vec<char>, p: &Vec<char>) -> (r: Option<usize>)
    ensures
        match r {
            Some(i) => first_occurrence(v@, p@) == Some(i as int) && i + p@.len() <= v@.len(),
            None => first_occurrence(v@, p@) is None,
        },
{
    let n: usize = v.len();
    let mut i: usize = 0;
    loop
        invariant
            i <= n,
            n == v@.len(),
            forall|k: int| 0 <= k < i ==> !occurs_at(v@, p@, k),
        decreases n - i,
    {
        if matches_at(v, p, i) {
            proof {
                lemma_first(v@, p@, i as int);
            }
            return Some(i);
        }
        if i == n {
            return None;
        }
        i = i + 1;
    }
}

/// Whether `needle` stands anywhere in `s`.
pub fn contains_text(s: &str, needle: &str) -> (r: bool)
    ensures
        r == occurs(s@, needle@),
{
    let v = chars_of(s);
    let p = chars_of(needle);
    match find_from(&v, &p) {
        Some(_) => true,
        None => false,
    }
}

/// What stands before and after the first `separator`, if there is one.
pub open spec fn halves(s: Seq<char>, separator: Seq<char>) -> Option<(Seq<char>, Seq<char>)> {
    match first_occurrence(s, separator) {
        Some(i) => Some((s.take(i), s.skip(i + separator.len()))),
        None => None,
    }
}

/// What stands before and after the first `separator`, if there is one.
pub fn split_at_first<'a>(s: &'a str, separator: &str) -> (r: Option<(&'a str, &'a str)>)
    ensures
        match r {
            Some((before, after)) => halves(s@, separator@) == Some((before@, after@)),
            None => halves(s@, separator@) is None,
        },
{
    let v = chars_of(s);
    let p = chars_of(separator);
    match find_from(&v, &p) {
        Some(i) => {
            let end: usize = v.len();
            let before = s.substring_char(0, i);
            let after = s.substring_char(i + p.len(), end);
            Some((before, after))
        },
        None => None,
    }
}

/// `s` with `to` in place of every `from`, searched from the left; an
/// occurrence that shares characters with an earlier one does not count.
pub open spec fn replaced(s: Seq<char>, from: Seq<char>, to: Seq<char>) -> Seq<char>
    decreases s.len(),
{
    if s.len() == 0 {
        s
    } else if from.len() > 0 && occurs_at(s, from, 0) {
        to + replaced(s.skip(from.len() as int), from, to)
    } else {
        seq![s[0]] + replaced(s.drop_first(), from, to)
    }
}

/// `s` with `to` in place of every `from`.
pub fn replace_all(s: &str, from: &str, to: &str) -> (r: String)
    requires
        from@.len() > 0,
    ensures
        r@ == replaced(s@, from@, to@),
{
    let v = chars_of(s);
    let p = chars_of(from);
    let n: usize = v.len();
    let mut out = String::new();
    let mut i: usize = 0;
    assert(v@.skip(0) == s@);
    while i < n
        invariant
            i <= n,
            n == v@.len(),
            p@ == from@,
            from@.len() > 0,
            out@ + replaced(v@.skip(i as int), from@, to@) == replaced(s@, from@, to@),
        decreases n - i,
    {
        let ghost rest = v@.skip(i as int);
        let here = matches_at(&v, &p, i);
        assert(here == occurs_at(rest, from@, 0)) by {
            if i + p@.len() <= n {
                assert(rest.subrange(0, p@.len() as int) =~= v@.subrange(i as int, i + p@.len()));
            }
        }
        if here {
            out.append(to);
            assert(rest.skip(from@.len() as int) =~= v@.skip(i + p@.len()));
            i = i + p.len();
        } else {
            out.push(v[i]);
            assert(rest.drop_first() =~= v@.skip(i + 1));
            i = i + 1;
        }
    }
    out
}

/// How many characters come before the first white space.
pub open spec fn word_length(s: Seq<char>) -> nat
    decreases s.len(),
{
    if s.len() == 0 || white_space(s[0]) {
        0
    } else {
        1 + word_length(s.drop_first())
    }
}

/// The second of the words that white space parts, if there are two.
pub open spec fn second_word(s: Seq<char>) -> Option<Seq<char>> {
    let first = trimmed_start(s);
    let second = trimmed_start(first.skip(word_length(first) as int));
    if second.len() > 0 {
        Some(second.take(word_length(second) as int))
    } else {
        None
    }
}

fn skip_space(v: &Vec<char>, from: usize) -> (r: usize)
    requires
        from <= v@.len(),
    ensures
        from <= r <= v@.len(),
        v@.skip(r as int) == trimmed_start(v@.skip(from as int)),
{
    let n: usize = v.len();
    let mut i: usize = from;
    while i < n && is_white_space(v[i])
        invariant
            from <= i <= n,
            n == v@.len(),
            trimmed_start(v@.skip(i as int)) == trimmed_start(v@.skip(from as int)),
        decreases n - i,
    {
        assert(v@.skip(i as int).drop_first() == v@.skip(i + 1));
        i = i + 1;
    }
    i
}

fn skip_word(v: &Vec<char>, from: usize) -> (r: usize)
    requires
        from <= v@.len(),
    ensures
        from <= r <= v@.len(),
        r - from == word_length(v@.skip(from as int)),
{
    let n: usize = v.len();
    let mut i: usize = from;
    while i < n && !is_white_space(v[i])
        invariant
            from <= i <= n,
            n == v@.len(),
            (i - from) + word_length(v@.skip(i as int)) == word_length(v@.skip(from as int)),
        decreases n - i,
    {
        assert(v@.skip(i as int).drop_first() == v@.skip(i + 1));
        i = i + 1;
    }
    i
}

/// The second of the words that white space parts, if there are two.
pub fn second_word_of(s: &str) -> (r: Option<&str>)
    ensures
        match r {
            Some(word) => second_word(s@) == Some(word@),
            None => second_word(s@) is None,
        },
{
    let v = chars_of(s);
    assert(v@.skip(0) == s@);
    let first: usize = skip_space(&v, 0);
    let gap: usize = skip_word(&v, first);
    assert(v@.skip(first as int).skip(gap - first) =~= v@.skip(gap as int));
    let second: usize = skip_space(&v, gap);
    if second == v.len() {
        return None;
    }
    let end: usize = skip_word(&v, second);
    let word = s.substring_char(second, end);
    Some(word)
}

/// The position of the first line feed, or the length of `s`.
pub open spec fn line_break(s: Seq<char>) -> nat
    decreases s.len(),
{
    if s.len() == 0 || s[0] == '\n' {
        0
    } else {
        1 + line_break(s.drop_first())
    }
}

/// `s` without a carriage return at its end.
pub open spec fn without_return(s: Seq<char>) -> Seq<char> {
    if s.len() > 0 && s.last() == '\r' {
        s.drop_last()
    } else {
        s
    }
}

/// The lines of a text. A line ends in a line feed, or in a carriage return
/// and a line feed, which are no part of it; the last one may end in neither.
pub open spec fn text_lines(s: Seq<char>) -> Seq<Seq<char>>
    decreases s.len(),
{
    let n = line_break(s);
    if s.len() == 0 {
        Seq::empty()
    } else if n < s.len() {
        seq![without_return(s.take(n as int))] + text_lines(s.skip(n as int + 1))
    } else {
        seq![s]
    }
}

fn find_break(v: &Vec<char>, from: usize) -> (r: usize)
    requires
        from <= v@.len(),
    ensures
        from <= r <= v@.len(),
        r - from == line_break(v@.skip(from as int)),
{
    let n: usize = v.len();
    let mut i: usize = from;
    while i < n && v[i] != '\n'
        invariant
            from <= i <= n,
            n == v@.len(),
            (i - from) + line_break(v@.skip(i as int)) == line_break(v@.skip(from as int)),
        decreases n - i,
    {
        assert(v@.skip(i as int).drop_first() == v@.skip(i + 1));
        i = i + 1;
    }
    i
}

/// The texts of a list.
pub open spec fn str_views(list: Seq<&str>) -> Seq<Seq<char>> {
    list.map_values(|s: &str| s@)
}

/// The lines of a text.
pub fn lines<'a>(s: &'a str) -> (r: Vec<&'a str>)
    ensures
        str_views(r@) == text_lines(s@),
{
    let v = chars_of(s);
    let n: usize = v.len();
    let mut found: Vec<&'a str> = Vec::new();
    let mut i: usize = 0;
    assert(v@.skip(0) == s@);
    while i < n
        invariant
            i <= n,
            n == v@.len(),
            v@ == s@,
            str_views(found@) + text_lines(v@.skip(i as int)) == text_lines(s@),
        decreases n - i,
    {
        let ghost rest = v@.skip(i as int);
        let end: usize = find_break(&v, i);
        if end == n {
            let line = s.substring_char(i, n);
            found.push(line);
            i = n;
        } else {
            let stop: usize = if i < end && v[end - 1] == '\r' {
                end - 1
            } else {
                end
            };
            let line = s.substring_char(i, stop);
            assert(line@ =~= without_return(rest.take(end - i)));
            found.push(line);
            assert(rest.skip(end - i + 1) =~= v@.skip(end + 1));
            i = end + 1;
        }
    }
    found
}

/// An ASCII letter in its small form, any other character as it is.
pub open spec fn small(c: char) -> char {
    if 'A' <= c <= 'Z' {
        (c as u32 + 32) as char
    } else {
        c
    }
}

/// An ASCII letter in its small form, any other character as it is.
pub fn small_form(c: char) -> (r: char)
    ensures
        r == small(c),
{
    if 'A' <= c && c <= 'Z' {
        (c as u8 + 32) as char
    } else {
        c
    }
}

/// Whether `s` begins with `prefix`, an ASCII letter of `s` being as good in
/// either form as in its small one.
pub open spec fn begins_like(s: Seq<char>, prefix: Seq<char>) -> bool {
    prefix.is_prefix_of(s.map_values(|c: char| small(c)))
}

/// Whether `s` begins with `prefix`, an ASCII letter of `s` being as good in
/// either form as in its small one.
pub fn starts_like(s: &str, prefix: &str) -> (r: bool)
    ensures
        r == begins_like(s@, prefix@),
{
    let v = chars_of(s);
    let p = chars_of(prefix);
    let n: usize = p.len();
    let ghost low = s@.map_values(|c: char| small(c));
    if n > v.len() {
        return false;
    }
    let mut i: usize = 0;
    while i < n
        invariant
            i <= n,
            n == p@.len(),
            n <= v@.len(),
            v@ == s@,
            p@ == prefix@,
            low == s@.map_values(|c: char| small(c)),
            forall|k: int| 0 <= k < i ==> low[k] == #[trigger] p@[k],
        decreases n - i,
    {
        let folded: char = small_form(v[i]);
        assert(low[i as int] == folded);
        if folded != p[i] {
            assert(low.subrange(0, n as int)[i as int] != p@[i as int]);
            return false;
        }
        i = i + 1;
    }
    assert(low.subrange(0, n as int) =~= p@);
    true
}

/// Whether a text holds no white space.
pub open spec fn unbroken(s: Seq<char>) -> bool {
    forall|i: int| 0 <= i < s.len() ==> !white_space(#[trigger] s[i])
}

proof fn lemma_word_length(word: Seq<char>, rest: Seq<char>)
    requires
        unbroken(word),
        rest.len() > 0 ==> white_space(rest[0]),
    ensures
        word_length(word + rest) == word.len(),
    decreases word.len(),
{
    if word.len() == 0 {
        assert(word + rest =~= rest);
    } else {
        assert((word + rest)[0] == word[0]);
        assert((word + rest).drop_first() =~= word.drop_first() + rest);
        lemma_word_length(word.drop_first(), rest);
    }
}

proof fn lemma_start_skips(space: Seq<char>, rest: Seq<char>)
    requires
        all_white(space),
        rest.len() > 0 ==> !white_space(rest[0]),
    ensures
        trimmed_start(space + rest) == rest,
    decreases space.len(),
{
    if space.len() == 0 {
        assert(space + rest =~= rest);
    } else {
        assert((space + rest)[0] == space[0]);
        assert((space + rest).drop_first() =~= space.drop_first() + rest);
        lemma_start_skips(space.drop_first(), rest);
    }
}

/// The second word of a text is what its name says, however much white space
/// there is around it and before the first.
pub proof fn second_words_are_found(
    before: Seq<char>,
    first: Seq<char>,
    gap: Seq<char>,
    second: Seq<char>,
    rest: Seq<char>,
)
    requires
        all_white(before),
        first.len() > 0,
        unbroken(first),
        gap.len() > 0,
        all_white(gap),
        second.len() > 0,
        unbroken(second),
        rest.len() > 0 ==> white_space(rest[0]),
    ensures
        second_word(before + first + gap + second + rest) == Some(second),
{
    let s = before + first + gap + second + rest;
    let tail = gap + (second + rest);
    assert(s =~= before + (first + tail));
    assert(!white_space(first[0]));
    assert((first + tail)[0] == first[0]);
    lemma_start_skips(before, first + tail);
    assert(tail[0] == gap[0]);
    lemma_word_length(first, tail);
    assert((first + tail).skip(first.len() as int) =~= tail);
    assert(!white_space(second[0]));
    assert((second + rest)[0] == second[0]);
    lemma_start_skips(gap, second + rest);
    lemma_word_length(second, rest);
    assert((second + rest).take(second.len() as int) =~= second);
}

/// A text of one word, or of none, has no second word.
pub proof fn single_words_have_no_second(before: Seq<char>, word: Seq<char>, after: Seq<char>)
    requires
        all_white(before),
        unbroken(word),
        all_white(after),
    ensures
        second_word(before + word + after) is None,
{
    let s = before + word + after;
    if word.len() > 0 {
        assert(s =~= before + (word + after));
        assert(!white_space(word[0]));
        assert((word + after)[0] == word[0]);
        lemma_start_skips(before, word + after);
        if after.len() > 0 {
            assert(white_space(after[0]));
        }
        lemma_word_length(word, after);
        assert((word + after).skip(word.len() as int) =~= after);
    } else {
        assert(s =~= (before + after) + Seq::empty());
        lemma_start_skips(before + after, Seq::empty());
        assert(Seq::<char>::empty().skip(0) =~= Seq::empty());
    }
    lemma_start_skips(after, Seq::empty());
    assert(after + Seq::<char>::empty() =~= after);
    reveal_with_fuel(trimmed_start, 2);
    reveal_with_fuel(word_length, 2);
}

proof fn lemma_line_break(line: Seq<char>, rest: Seq<char>)
    requires
        !line.contains('\n'),
        rest.len() > 0 ==> rest[0] == '\n',
    ensures
        line_break(line + rest) == line.len(),
    decreases line.len(),
{
    if line.len() == 0 {
        assert(line + rest =~= rest);
    } else {
        assert(line.contains(line[0]));
        assert((line + rest)[0] == line[0]);
        assert((line + rest).drop_first() =~= line.drop_first() + rest);
        assert forall|i: int| 0 <= i < line.drop_first().len() implies line.drop_first()[i]
            != '\n' by {
            assert(line.contains(line[i + 1]));
        }
        lemma_line_break(line.drop_first(), rest);
    }
}

/// The lines of a text are what comes before each line feed, without a carriage
/// return right before it, and what comes after the last, if there is anything.
pub proof fn lines_are_parted_by_line_feeds(line: Seq<char>, rest: Seq<char>)
    requires
        !line.contains('\n'),
    ensures
        text_lines(line + seq!['\r', '\n'] + rest) == seq![line] + text_lines(rest),
        line.len() == 0 || line.last() != '\r' ==> text_lines(line + seq!['\n'] + rest) == seq![
            line,
        ] + text_lines(rest),
        text_lines(line) == if line.len() > 0 {
            seq![line]
        } else {
            Seq::empty()
        },
{
    let returned = line.push('\r');
    assert forall|i: int| 0 <= i < returned.len() implies returned[i] != '\n' by {
        if i < line.len() {
            assert(line.contains(line[i]));
        }
    }
    let s = line + seq!['\r', '\n'] + rest;
    assert(s =~= returned + (seq!['\n'] + rest));
    lemma_line_break(returned, seq!['\n'] + rest);
    assert(s.take(returned.len() as int) =~= returned);
    assert(returned.drop_last() =~= line);
    assert(s.skip(returned.len() as int + 1) =~= rest);
    let t = line + seq!['\n'] + rest;
    assert(t =~= line + (seq!['\n'] + rest));
    lemma_line_break(line, seq!['\n'] + rest);
    assert(t.take(line.len() as int) =~= line);
    assert(t.skip(line.len() as int + 1) =~= rest);
    lemma_line_break(line, Seq::empty());
    assert(line + Seq::<char>::empty() =~= line);
}

/// A text occurs in another exactly where that is made up of something, the text
/// and something else.
pub proof fn occurring_is_being_a_piece(s: Seq<char>, needle: Seq<char>)
    ensures
        occurs(s, needle) <==> exists|before: Seq<char>, after: Seq<char>| s == #[trigger] (before
            + needle + after),
{
    if occurs(s, needle) {
        let i = choose|i: int| occurs_at(s, needle, i);
        assert(s =~= s.take(i) + needle + s.skip(i + needle.len())) by {
            assert forall|k: int| i <= k < i + needle.len() implies s[k] == needle[k - i] by {
                assert(s.subrange(i, i + needle.len())[k - i] == needle[k - i]);
            }
        }
    }
    assert forall|before: Seq<char>, after: Seq<char>| s == #[trigger] (before + needle
        + after) implies occurs(s, needle) by {
        let i = before.len() as int;
        assert(s.subrange(i, i + needle.len()) =~= needle);
        assert(occurs_at(s, needle, i));
    }
}

/// The halves of a text and the separator between them make up the text, and the
/// separator does not stand any earlier in it. There are none exactly where it
/// stands nowhere.
pub proof fn halves_lie_at_the_first_separator(s: Seq<char>, separator: Seq<char>)
    ensures
        match halves(s, separator) {
            Some((before, after)) => s == before + separator + after && forall|k: int|
                0 <= k < before.len() ==> !occurs_at(s, separator, k),
            None => !occurs(s, separator),
        },
{
    if occurs(s, separator) {
        let some = choose|i: int| occurs_at(s, separator, i);
        lemma_there_is_a_first(s, separator, some);
        let i = first_occurrence(s, separator)->0;
        assert(occurs_at(s, separator, i));
        assert(s =~= s.take(i) + separator + s.skip(i + separator.len())) by {
            assert forall|k: int| i <= k < i + separator.len() implies s[k] == separator[k - i] by {
                assert(s.subrange(i, i + separator.len())[k - i] == separator[k - i]);
            }
        }
    }
}

proof fn lemma_there_is_a_first(s: Seq<char>, needle: Seq<char>, i: int)
    requires
        occurs_at(s, needle, i),
    ensures
        exists|k: int|
            #![trigger occurs_at(s, needle, k)]
            occurs_at(s, needle, k) && forall|j: int| 0 <= j < k ==> !occurs_at(s, needle, j),
    decreases i,
{
    if exists|j: int| 0 <= j < i && occurs_at(s, needle, j) {
        let j = choose|j: int| 0 <= j < i && occurs_at(s, needle, j);
        lemma_there_is_a_first(s, needle, j);
    }
}

/// The first occurrence is replaced, what comes before it stays, and what comes
/// after it is gone through in the same way.
pub proof fn occurrences_are_replaced_in_turn(
    before: Seq<char>,
    from: Seq<char>,
    after: Seq<char>,
    to: Seq<char>,
)
    requires
        from.len() > 0,
        forall|k: int| 0 <= k < before.len() ==> !occurs_at(before + from + after, from, k),
    ensures
        replaced(before + from + after, from, to) == before + to + replaced(after, from, to),
    decreases before.len(),
{
    let s = before + from + after;
    if before.len() == 0 {
        assert(s.subrange(0, from.len() as int) =~= from);
        assert(s.skip(from.len() as int) =~= after);
        assert(before + to + replaced(after, from, to) =~= to + replaced(after, from, to));
    } else {
        let rest = before.drop_first();
        assert(s.drop_first() =~= rest + from + after);
        assert forall|k: int| 0 <= k < rest.len() implies !occurs_at(rest + from + after, from, k) by {
            if occurs_at(rest + from + after, from, k) {
                assert(s.subrange(k + 1, k + 1 + from.len()) =~= (rest + from + after).subrange(
                    k,
                    k + from.len(),
                ));
                assert(occurs_at(s, from, k + 1));
            }
        }
        occurrences_are_replaced_in_turn(rest, from, after, to);
        assert(!occurs_at(s, from, 0));
        assert(s[0] == before[0]);
        assert(seq![s[0]] + (rest + to + replaced(after, from, to)) =~= before + to + replaced(
            after,
            from,
            to,
        ));
    }
}

/// A text in which nothing is to be replaced stays as it is.
pub proof fn other_texts_are_kept(s: Seq<char>, from: Seq<char>, to: Seq<char>)
    requires
        !occurs(s, from),
    ensures
        replaced(s, from, to) == s,
    decreases s.len(),
{
    if s.len() > 0 {
        let rest = s.drop_first();
        if occurs(rest, from) {
            let k = choose|k: int| occurs_at(rest, from, k);
            assert(s.subrange(k + 1, k + 1 + from.len()) =~= rest.subrange(k, k + from.len()));
            assert(occurs_at(s, from, k + 1));
        }
        other_texts_are_kept(rest, from, to);
        assert(!occurs_at(s, from, 0));
        assert(seq![s[0]] + rest =~= s);
    }
}

/// A text begins like another where the letters at its front are, in their small
/// form, the other; and only there.
pub proof fn letters_count_in_either_form(front: Seq<char>, rest: Seq<char>, prefix: Seq<char>)
    requires
        front.len() == prefix.len(),
    ensures
        begins_like(front + rest, prefix) <==> forall|i: int|
            0 <= i < front.len() ==> small(#[trigger] front[i]) == prefix[i],
{
    let low = (front + rest).map_values(|c: char| small(c));
    let cut = low.subrange(0, prefix.len() as int);
    assert forall|i: int| 0 <= i < front.len() implies cut[i] == small(#[trigger] front[i]) by {
        assert((front + rest)[i] == front[i]);
    }
    if forall|i: int| 0 <= i < front.len() ==> small(#[trigger] front[i]) == prefix[i] {
        assert forall|i: int| 0 <= i < prefix.len() implies cut[i] == prefix[i] by {
            assert(small(front[i]) == prefix[i]);
        }
        assert(cut =~= prefix);
    }
}

/// What stands before and after a separator are the halves, where the separator
/// does not stand any earlier.
pub proof fn the_first_separator_parts(before: Seq<char>, separator: Seq<char>, after: Seq<char>)
    requires
        forall|k: int|
            0 <= k < before.len() ==> !occurs_at(before + separator + after, separator, k),
    ensures
        halves(before + separator + after, separator) == Some((before, after)),
{
    let s = before + separator + after;
    let n = before.len() as int;
    assert(s.subrange(n, n + separator.len()) =~= separator);
    lemma_first(s, separator, n);
    assert(occurs_at(s, separator, n));
    assert(s.take(n) =~= before);
    assert(s.skip(n + separator.len()) =~= after);
}

} // verus!
