//! Texts with blanks to fill in.

use crate::scan::{occurs_at, replaced};
use crate::text::chars_of;
use vstd::prelude::*;

verus! {

/// A blank as it stands in a text, and what goes in its place.
pub type FieldView = (Seq<char>, Seq<char>);

/// The fields of a list.
pub open spec fn field_views(fields: Seq<(&str, &str)>) -> Seq<FieldView> {
    fields.map_values(|field: (&str, &str)| (field.0@, field.1@))
}

/// The first of the fields whose blank `s` begins with: the length of the
/// blank, and what goes in its place.
pub open spec fn blank_here(s: Seq<char>, fields: Seq<FieldView>) -> Option<(nat, Seq<char>)>
    decreases fields.len(),
{
    if fields.len() == 0 {
        None
    } else if fields[0].0.len() > 0 && occurs_at(s, fields[0].0, 0) {
        Some((fields[0].0.len(), fields[0].1))
    } else {
        blank_here(s, fields.drop_first())
    }
}

/// A blank that a text begins with is no longer than the text.
pub proof fn lemma_blank_fits(s: Seq<char>, fields: Seq<FieldView>)
    ensures
        blank_here(s, fields) matches Some((n, _)) ==> 0 < n <= s.len(),
    decreases fields.len(),
{
    if fields.len() > 0 {
        lemma_blank_fits(s, fields.drop_first());
    }
}

/// `s` with its blanks filled in. What is filled in is not searched for blanks.
pub open spec fn filled(s: Seq<char>, fields: Seq<FieldView>) -> Seq<char>
    decreases s.len(),
{
    proof {
        lemma_blank_fits(s, fields);
    }
    if s.len() == 0 {
        Seq::empty()
    } else {
        match blank_here(s, fields) {
            Some((n, value)) => value + filled(s.skip(n as int), fields),
            None => seq![s[0]] + filled(s.drop_first(), fields),
        }
    }
}

fn find_blank(v: &Vec<char>, at: usize, fields: &Vec<(&str, &str)>) -> (r: Option<(usize, usize)>)
    requires
        at <= v@.len(),
    ensures
        match r {
            Some((n, i)) => i < fields@.len() && at + n <= v@.len() && blank_here(
                v@.skip(at as int),
                field_views(fields@),
            ) == Some((n as nat, fields@[i as int].1@)),
            None => blank_here(v@.skip(at as int), field_views(fields@)) is None,
        },
{
    let ghost rest = v@.skip(at as int);
    let ghost all = field_views(fields@);
    let total: usize = v.len();
    let count: usize = fields.len();
    let mut i: usize = 0;
    assert(all.skip(0) =~= all);
    while i < count
        invariant
            i <= count,
            count == fields@.len(),
            at <= total,
            total == v@.len(),
            rest == v@.skip(at as int),
            all == field_views(fields@),
            blank_here(rest, all) == blank_here(rest, all.skip(i as int)),
        decreases count - i,
    {
        let blank = chars_of(fields[i].0);
        let n: usize = blank.len();
        assert(all.skip(i as int)[0] == (blank@, fields@[i as int].1@));
        assert(all.skip(i as int).drop_first() =~= all.skip(i + 1));
        if n > 0 && n <= total - at {
            let mut k: usize = 0;
            while k < n && v[at + k] == blank[k]
                invariant
                    k <= n,
                    n == blank@.len(),
                    at + n <= total,
                    total == v@.len(),
                    forall|j: int| 0 <= j < k ==> v@[at + j] == #[trigger] blank@[j],
                decreases n - k,
            {
                k = k + 1;
            }
            if k == n {
                assert(rest.subrange(0, n as int) =~= blank@);
                return Some((n, i));
            }
            assert(rest.subrange(0, n as int)[k as int] != blank@[k as int]);
        }
        i = i + 1;
    }
    None
}

/// `template` with its blanks filled in.
pub fn fill(template: &str, fields: &Vec<(&str, &str)>) -> (r: String)
    ensures
        r@ == filled(template@, field_views(fields@)),
{
    let v = chars_of(template);
    let n: usize = v.len();
    let ghost all = field_views(fields@);
    let mut out = String::new();
    let mut i: usize = 0;
    assert(v@.skip(0) =~= template@);
    assert(out@ + filled(v@.skip(0), all) =~= filled(template@, all));
    while i < n
        invariant
            i <= n,
            n == v@.len(),
            all == field_views(fields@),
            out@ + filled(v@.skip(i as int), all) == filled(template@, all),
        decreases n - i,
    {
        let ghost rest = v@.skip(i as int);
        proof {
            lemma_blank_fits(rest, all);
        }
        match find_blank(&v, i, fields) {
            Some((length, which)) => {
                out.append(fields[which].1);
                assert(rest.skip(length as int) =~= v@.skip(i + length));
                i = i + length;
            },
            None => {
                out.push(v[i]);
                assert(rest.drop_first() =~= v@.skip(i + 1));
                i = i + 1;
            },
        }
        assert(out@ + filled(v@.skip(i as int), all) =~= filled(template@, all));
    }
    assert(v@.skip(n as int) =~= Seq::<char>::empty());
    assert(out@ =~= filled(template@, all));
    out
}

/// To fill in one blank is to replace it wherever it stands.
pub proof fn filling_one_blank_replaces_it(s: Seq<char>, blank: Seq<char>, value: Seq<char>)
    requires
        blank.len() > 0,
    ensures
        filled(s, seq![(blank, value)]) == replaced(s, blank, value),
    decreases s.len(),
{
    let fields = seq![(blank, value)];
    assert(fields.drop_first() =~= Seq::<FieldView>::empty());
    reveal_with_fuel(blank_here, 2);
    if s.len() > 0 {
        if occurs_at(s, blank, 0) {
            filling_one_blank_replaces_it(s.skip(blank.len() as int), blank, value);
        } else {
            filling_one_blank_replaces_it(s.drop_first(), blank, value);
        }
    }
}

/// A text without blanks stays as it is.
pub proof fn filling_keeps_plain_text(s: Seq<char>, fields: Seq<FieldView>)
    requires
        forall|i: int| 0 <= i <= s.len() ==> (#[trigger] blank_here(s.skip(i), fields)) is None,
    ensures
        filled(s, fields) == s,
    decreases s.len(),
{
    if s.len() > 0 {
        assert(s.skip(0) =~= s);
        let rest = s.drop_first();
        assert forall|i: int| 0 <= i <= rest.len() implies (#[trigger] blank_here(
            rest.skip(i),
            fields,
        )) is None by {
            assert(rest.skip(i) =~= s.skip(i + 1));
        }
        filling_keeps_plain_text(rest, fields);
        assert(seq![s[0]] + rest =~= s);
    }
}

/// The first blank is filled in with what goes in its place, what comes before it
/// stays, and what comes after it is gone through in the same way.
pub proof fn blanks_are_filled_in_turn(
    before: Seq<char>,
    k: int,
    after: Seq<char>,
    fields: Seq<FieldView>,
)
    requires
        0 <= k < fields.len(),
        fields[k].0.len() > 0,
        forall|i: int, j: int|
            0 <= i < before.len() && 0 <= j < fields.len() && fields[j].0.len() > 0 ==> !#[trigger]
                occurs_at(before + fields[k].0 + after, fields[j].0, i),
        forall|j: int|
            0 <= j < k && fields[j].0.len() > 0 ==> !occurs_at(
                fields[k].0 + after,
                (#[trigger] fields[j]).0,
                0,
            ),
    ensures
        filled(before + fields[k].0 + after, fields) == before + fields[k].1 + filled(after, fields),
    decreases before.len(),
{
    let s = before + fields[k].0 + after;
    if before.len() == 0 {
        let blank = fields[k].0;
        assert(s =~= blank + after);
        assert(s.subrange(0, blank.len() as int) =~= blank);
        lemma_blank_found(s, fields, k);
        assert(s.skip(blank.len() as int) =~= after);
        assert(before + fields[k].1 + filled(after, fields) =~= fields[k].1 + filled(after, fields));
    } else {
        let rest = before.drop_first();
        let t = rest + fields[k].0 + after;
        assert(s.drop_first() =~= t);
        assert forall|i: int, j: int|
            0 <= i < rest.len() && 0 <= j < fields.len() && fields[j].0.len() > 0 implies
            !#[trigger] occurs_at(t, fields[j].0, i) by {
            if occurs_at(t, fields[j].0, i) {
                let n = fields[j].0.len();
                assert(s.subrange(i + 1, i + 1 + n) =~= t.subrange(i, i + n));
                assert(occurs_at(s, fields[j].0, i + 1));
            }
        }
        blanks_are_filled_in_turn(rest, k, after, fields);
        assert forall|j: int| 0 <= j < fields.len() && fields[j].0.len() > 0 implies !occurs_at(
            s,
            (#[trigger] fields[j]).0,
            0,
        ) by {
            assert(!occurs_at(before + fields[k].0 + after, fields[j].0, 0));
        }
        lemma_no_blank(s, fields);
        assert(s[0] == before[0]);
        assert(seq![s[0]] + (rest + fields[k].1 + filled(after, fields)) =~= before + fields[k].1
            + filled(after, fields));
    }
}

proof fn lemma_blank_found(s: Seq<char>, fields: Seq<FieldView>, k: int)
    requires
        0 <= k < fields.len(),
        fields[k].0.len() > 0,
        occurs_at(s, fields[k].0, 0),
        forall|j: int|
            0 <= j < k && fields[j].0.len() > 0 ==> !occurs_at(s, (#[trigger] fields[j]).0, 0),
    ensures
        blank_here(s, fields) == Some((fields[k].0.len(), fields[k].1)),
    decreases k,
{
    if k > 0 {
        let rest = fields.drop_first();
        assert(fields[0].0.len() > 0 ==> !occurs_at(s, fields[0].0, 0));
        assert(rest[k - 1] == fields[k]);
        assert forall|j: int| 0 <= j < k - 1 && rest[j].0.len() > 0 implies !occurs_at(
            s,
            (#[trigger] rest[j]).0,
            0,
        ) by {
            assert(rest[j] == fields[j + 1]);
        }
        lemma_blank_found(s, rest, k - 1);
    }
}

proof fn lemma_no_blank(s: Seq<char>, fields: Seq<FieldView>)
    requires
        forall|j: int|
            0 <= j < fields.len() && fields[j].0.len() > 0 ==> !occurs_at(
                s,
                (#[trigger] fields[j]).0,
                0,
            ),
    ensures
        blank_here(s, fields) is None,
    decreases fields.len(),
{
    if fields.len() > 0 {
        let rest = fields.drop_first();
        assert(fields[0].0.len() > 0 ==> !occurs_at(s, fields[0].0, 0));
        assert forall|j: int| 0 <= j < rest.len() && rest[j].0.len() > 0 implies !occurs_at(
            s,
            (#[trigger] rest[j]).0,
            0,
        ) by {
            assert(rest[j] == fields[j + 1]);
        }
        lemma_no_blank(s, rest);
    }
}

} // verus!
