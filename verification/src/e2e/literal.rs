//! Documents that are written down rather than read: what goes into a command,
//! and what a reply is compared with.

use crate::json::{
    lemma_member_names, members_view, number_of_i64, push_member, whole_of, Json, JsonView,
};
use crate::text::same_text;
use vstd::prelude::*;

verus! {

/// A document that is written down.
pub enum LiteralView {
    Truth(bool),
    Whole(i64),
    Word(Seq<char>),
    List(Seq<LiteralView>),
    Record(Seq<(Seq<char>, LiteralView)>),
}

/// A document that is written down.
#[derive(Debug, PartialEq)]
pub enum Literal {
    Truth(bool),
    Whole(i64),
    Word(String),
    List(Vec<Literal>),
    Record(Vec<(String, Literal)>),
}

/// What a literal is.
pub open spec fn literal_view(literal: Literal) -> LiteralView
    decreases literal,
{
    match literal {
        Literal::Truth(b) => LiteralView::Truth(b),
        Literal::Whole(n) => LiteralView::Whole(n),
        Literal::Word(s) => LiteralView::Word(s@),
        Literal::List(items) => LiteralView::List(
            Seq::new(
                items@.len(),
                |i: int|
                    if 0 <= i < items@.len() {
                        literal_view(items@[i])
                    } else {
                        LiteralView::Truth(false)
                    },
            ),
        ),
        Literal::Record(fields) => LiteralView::Record(
            Seq::new(
                fields@.len(),
                |i: int|
                    if 0 <= i < fields@.len() {
                        (fields@[i].0@, literal_view(fields@[i].1))
                    } else {
                        (Seq::empty(), LiteralView::Truth(false))
                    },
            ),
        ),
    }
}

impl View for Literal {
    type V = LiteralView;

    open spec fn view(&self) -> LiteralView {
        literal_view(*self)
    }
}

/// The members that the fields of a record make; of two with one name the later
/// counts.
pub open spec fn record_members(fields: Seq<(Seq<char>, LiteralView)>) -> Map<Seq<char>, JsonView>
    decreases fields,
{
    if fields.len() == 0 {
        Map::empty()
    } else {
        record_members(fields.drop_last()).insert(fields.last().0, document(fields.last().1))
    }
}

/// The document that a literal writes down.
pub open spec fn document(literal: LiteralView) -> JsonView
    decreases literal,
{
    match literal {
        LiteralView::Truth(b) => JsonView::Bool(b),
        LiteralView::Whole(n) => JsonView::Number(number_of_i64(n)),
        LiteralView::Word(s) => JsonView::Text(s),
        LiteralView::List(items) => JsonView::Array(
            Seq::new(
                items.len(),
                |i: int|
                    if 0 <= i < items.len() {
                        document(items[i])
                    } else {
                        JsonView::Null
                    },
            ),
        ),
        LiteralView::Record(fields) => JsonView::Object(record_members(fields)),
    }
}

/// Whether a document says what a literal says: no more members, and no fewer.
pub open spec fn fits(literal: LiteralView, found: JsonView) -> bool
    decreases literal,
{
    match (literal, found) {
        (LiteralView::Truth(b), JsonView::Bool(c)) => b == c,
        (LiteralView::Whole(n), JsonView::Number(_)) => whole_of(Some(found)) == Some(n),
        (LiteralView::Word(s), JsonView::Text(t)) => s == t,
        (LiteralView::List(items), JsonView::Array(elements)) => items.len() == elements.len()
            && forall|i: int| 0 <= i < items.len() ==> fits(#[trigger] items[i], elements[i]),
        (LiteralView::Record(fields), JsonView::Object(members)) => {
            &&& forall|i: int|
                0 <= i < fields.len() ==> members.contains_key((#[trigger] fields[i]).0) && fits(
                    fields[i].1,
                    members[fields[i].0],
                )
            &&& forall|name: Seq<char>| #[trigger]
                members.contains_key(name) ==> names_field(fields, name)
        },
        _ => false,
    }
}

/// Whether one of the fields has that name.
pub open spec fn names_field(fields: Seq<(Seq<char>, LiteralView)>, name: Seq<char>) -> bool {
    exists|i: int| 0 <= i < fields.len() && (#[trigger] fields[i]).0 == name
}

/// The fields of a list.
pub open spec fn fields_view(fields: Seq<(String, Literal)>) -> Seq<(Seq<char>, LiteralView)> {
    fields.map_values(|field: (String, Literal)| (field.0@, field.1@))
}

/// The literals of a list.
pub open spec fn items_view(items: Seq<Literal>) -> Seq<LiteralView> {
    items.map_values(|item: Literal| item@)
}

/// Adds a field to those of a record.
pub fn push_field(fields: &mut Vec<(String, Literal)>, name: &str, value: Literal)
    ensures
        fields_view(final(fields)@) == fields_view(old(fields)@).push((name@, value@)),
{
    fields.push((name.to_owned(), value));
    assert(fields_view(fields@) =~= fields_view(old(fields)@).push((name@, value@)));
}

impl Literal {
    /// A text.
    pub fn word(text: &str) -> (r: Literal)
        ensures
            r@ == LiteralView::Word(text@),
    {
        Literal::Word(text.to_owned())
    }

    /// A record of these fields.
    pub fn record(fields: Vec<(String, Literal)>) -> (r: Literal)
        ensures
            r@ == LiteralView::Record(fields_view(fields@)),
    {
        let r = Literal::Record(fields);
        assert(r@->Record_0 =~= fields_view(fields@));
        r
    }

    /// A list of these items.
    pub fn list(items: Vec<Literal>) -> (r: Literal)
        ensures
            r@ == LiteralView::List(items_view(items@)),
    {
        let r = Literal::List(items);
        assert(r@->List_0 =~= items_view(items@));
        r
    }

    /// The document that the literal writes down.
    pub fn to_json(&self) -> (r: Json)
        ensures
            r@ == document(self@),
        decreases self,
    {
        match self {
            Literal::Truth(b) => Json::Bool(*b),
            Literal::Whole(n) => Json::whole(*n),
            Literal::Word(s) => Json::Text(s.as_str().to_owned()),
            Literal::List(items) => {
                let n: usize = items.len();
                let mut elements: Vec<Json> = Vec::new();
                let mut i: usize = 0;
                while i < n
                    invariant
                        i <= n,
                        n == items@.len(),
                        *self == Literal::List(*items),
                        elements@.len() == i,
                        forall|k: int|
                            0 <= k < i ==> (#[trigger] elements@[k])@ == document(
                                literal_view(items@[k]),
                            ),
                    decreases n - i,
                {
                    assert(decreases_to!(self => self->List_0));
                    elements.push(items[i].to_json());
                    i = i + 1;
                }
                let r = Json::Array(elements);
                assert(r@->Array_0 =~= document(self@)->Array_0);
                r
            },
            Literal::Record(fields) => {
                let n: usize = fields.len();
                let mut members: Vec<(String, Json)> = Vec::new();
                let mut i: usize = 0;
                let ghost all = self@->Record_0;
                assert(all.take(0) =~= Seq::empty());
                while i < n
                    invariant
                        i <= n,
                        n == fields@.len(),
                        *self == Literal::Record(*fields),
                        all == self@->Record_0,
                        members_view(members@) == record_members(all.take(i as int)),
                    decreases n - i,
                {
                    assert(decreases_to!(self => self->Record_0));
                    let field = &fields[i];
                    assert(all[i as int] == (field.0@, literal_view(field.1)));
                    assert(all.take(i + 1).drop_last() =~= all.take(i as int));
                    push_member(&mut members, field.0.as_str(), field.1.to_json());
                    i = i + 1;
                }
                assert(all.take(n as int) =~= all);
                Json::Object(members)
            },
        }
    }

    /// Whether a document says what the literal says.
    pub fn fits_json(&self, found: &Json) -> (r: bool)
        ensures
            r == fits(self@, found@),
        decreases self,
    {
        match (self, found) {
            (Literal::Truth(b), Json::Bool(c)) => *b == *c,
            (Literal::Whole(n), Json::Number(_)) => match found.as_whole() {
                Some(m) => *n == m,
                None => false,
            },
            (Literal::Word(s), Json::Text(t)) => same_text(s.as_str(), t.as_str()),
            (Literal::List(items), Json::Array(elements)) => {
                let n: usize = items.len();
                if elements.len() != n {
                    return false;
                }
                let mut i: usize = 0;
                while i < n
                    invariant
                        i <= n,
                        n == items@.len(),
                        n == elements@.len(),
                        *self == Literal::List(*items),
                        found@ is Array,
                        found@->Array_0.len() == n,
                        forall|k: int| 0 <= k < n ==> found@->Array_0[k] == #[trigger] elements@[k]@,
                        forall|k: int|
                            0 <= k < i ==> fits(#[trigger] self@->List_0[k], found@->Array_0[k]),
                    decreases n - i,
                {
                    assert(decreases_to!(self => self->List_0));
                    if !items[i].fits_json(&elements[i]) {
                        assert(!fits(self@->List_0[i as int], found@->Array_0[i as int]));
                        return false;
                    }
                    i = i + 1;
                }
                true
            },
            (Literal::Record(fields), Json::Object(members)) => {
                let n: usize = fields.len();
                let ghost all = self@->Record_0;
                let mut i: usize = 0;
                while i < n
                    invariant
                        i <= n,
                        n == fields@.len(),
                        *self == Literal::Record(*fields),
                        all == self@->Record_0,
                        found@ is Object,
                        forall|k: int|
                            0 <= k < i ==> found@->Object_0.contains_key((#[trigger] all[k]).0)
                                && fits(all[k].1, found@->Object_0[all[k].0]),
                    decreases n - i,
                {
                    assert(decreases_to!(self => self->Record_0));
                    assert(all[i as int] == (fields@[i as int].0@, fields@[i as int].1@));
                    let fine = match found.get(fields[i].0.as_str()) {
                        Some(value) => fields[i].1.fits_json(value),
                        None => false,
                    };
                    if !fine {
                        return false;
                    }
                    i = i + 1;
                }
                let count: usize = members.len();
                let mut j: usize = 0;
                while j < count
                    invariant
                        j <= count,
                        count == members@.len(),
                        *self == Literal::Record(*fields),
                        all == self@->Record_0,
                        found@ == JsonView::Object(members_view(members@)),
                        forall|k: int|
                            0 <= k < j ==> names_field(all, (#[trigger] members@[k]).0@),
                    decreases count - j,
                {
                    if !has_field(fields, members[j].0.as_str()) {
                        proof {
                            lemma_member_names(members@);
                            assert(found@->Object_0.contains_key(members@[j as int].0@));
                            assert(!names_field(self@->Record_0, members@[j as int].0@));
                        }
                        return false;
                    }
                    j = j + 1;
                }
                proof {
                    lemma_member_names(members@);
                }
                true
            },
            _ => false,
        }
    }
}

fn has_field(fields: &Vec<(String, Literal)>, name: &str) -> (r: bool)
    ensures
        r == names_field(literal_view(Literal::Record(*fields))->Record_0, name@),
{
    let ghost all = literal_view(Literal::Record(*fields))->Record_0;
    let n: usize = fields.len();
    let mut i: usize = 0;
    while i < n
        invariant
            i <= n,
            n == fields@.len(),
            all == literal_view(Literal::Record(*fields))->Record_0,
            forall|k: int| 0 <= k < i ==> (#[trigger] all[k]).0 != name@,
        decreases n - i,
    {
        assert(all[i as int].0 == fields@[i as int].0@);
        if same_text(fields[i].0.as_str(), name) {
            return true;
        }
        i = i + 1;
    }
    false
}

/// What a literal writes down: itself; a list of what its items write down, in
/// their order.
pub proof fn literals_write_themselves_down(
    b: bool,
    n: i64,
    s: Seq<char>,
    items: Seq<LiteralView>,
    i: int,
)
    ensures
        document(LiteralView::Truth(b)) == JsonView::Bool(b),
        document(LiteralView::Whole(n)) == JsonView::Number(number_of_i64(n)),
        document(LiteralView::Word(s)) == JsonView::Text(s),
        document(LiteralView::List(items)) matches JsonView::Array(elements) && elements.len()
            == items.len() && (0 <= i < items.len() ==> elements[i] == document(items[i])),
{
}

/// A record writes down an object with just the names of its fields; under each
/// is what the last field of that name writes down.
pub proof fn records_write_their_fields_down(
    fields: Seq<(Seq<char>, LiteralView)>,
    name: Seq<char>,
    k: int,
)
    ensures
        document(LiteralView::Record(fields)) is Object,
        document(LiteralView::Record(fields))->Object_0.contains_key(name) <==> names_field(
            fields,
            name,
        ),
        0 <= k < fields.len() && fields[k].0 == name && (forall|i: int|
            k < i < fields.len() ==> (#[trigger] fields[i]).0 != name) ==> document(
            LiteralView::Record(fields),
        )->Object_0[name] == document(fields[k].1),
{
    lemma_record_members(fields, name, k);
}

proof fn lemma_record_members(fields: Seq<(Seq<char>, LiteralView)>, name: Seq<char>, k: int)
    ensures
        record_members(fields).contains_key(name) <==> names_field(fields, name),
        0 <= k < fields.len() && fields[k].0 == name && (forall|i: int|
            k < i < fields.len() ==> (#[trigger] fields[i]).0 != name) ==> record_members(
            fields,
        )[name] == document(fields[k].1),
    decreases fields.len(),
{
    if fields.len() > 0 {
        let rest = fields.drop_last();
        lemma_record_members(rest, name, k);
        let n = fields.len() - 1;
        assert(fields.last() == fields[n]);
        if names_field(rest, name) {
            let i = choose|i: int| 0 <= i < rest.len() && (#[trigger] rest[i]).0 == name;
            assert(fields[i].0 == name);
        }
        if names_field(fields, name) && fields.last().0 != name {
            let i = choose|i: int| 0 <= i < fields.len() && (#[trigger] fields[i]).0 == name;
            assert(rest[i].0 == name);
        }
        if 0 <= k < fields.len() && fields[k].0 == name && (forall|i: int|
            k < i < fields.len() ==> (#[trigger] fields[i]).0 != name) && k < n {
            assert(fields[n].0 != name);
            assert(rest[k] == fields[k]);
            assert forall|i: int| k < i < rest.len() implies (#[trigger] rest[i]).0 != name by {
                assert(rest[i] == fields[i]);
            }
        }
    }
}

/// A document fits a literal of its own kind that says the same, and no other.
pub proof fn only_the_same_fits(
    b: bool,
    s: Seq<char>,
    n: i64,
    found: JsonView,
    items: Seq<LiteralView>,
    fields: Seq<(Seq<char>, LiteralView)>,
)
    ensures
        fits(LiteralView::Truth(b), found) <==> found == JsonView::Bool(b),
        fits(LiteralView::Word(s), found) <==> found == JsonView::Text(s),
        fits(LiteralView::Whole(n), found) <==> (found matches JsonView::Number(number)
            && crate::json::number_as_i64(number) == Some(n)),
        fits(LiteralView::List(items), found) <==> (found matches JsonView::Array(elements)
            && elements.len() == items.len() && forall|i: int|
            0 <= i < items.len() ==> fits(#[trigger] items[i], elements[i])),
        fits(LiteralView::Record(fields), found) ==> found is Object,
{
}

/// An object fits a record where it has what each field says under its name, and
/// no other names.
pub proof fn objects_fit_their_records(
    fields: Seq<(Seq<char>, LiteralView)>,
    members: Map<Seq<char>, JsonView>,
    k: int,
    name: Seq<char>,
)
    ensures
        fits(LiteralView::Record(fields), JsonView::Object(members)) ==> {
            &&& 0 <= k < fields.len() ==> members.contains_key(fields[k].0) && fits(
                fields[k].1,
                members[fields[k].0],
            )
            &&& members.contains_key(name) ==> names_field(fields, name)
        },
        (forall|i: int|
            0 <= i < fields.len() ==> members.contains_key((#[trigger] fields[i]).0) && fits(
                fields[i].1,
                members[fields[i].0],
            )) && (forall|other: Seq<char>| #[trigger]
            members.contains_key(other) ==> names_field(fields, other)) ==> fits(
            LiteralView::Record(fields),
            JsonView::Object(members),
        ),
{
    let record = LiteralView::Record(fields);
    let object = JsonView::Object(members);
    if fits(record, object) {
        lemma_fitting_members(record, object, k, name);
    }
}

proof fn lemma_fitting_members(record: LiteralView, object: JsonView, k: int, name: Seq<char>)
    requires
        record is Record,
        object is Object,
        fits(record, object),
    ensures
        0 <= k < record->Record_0.len() ==> object->Object_0.contains_key(record->Record_0[k].0)
            && fits(record->Record_0[k].1, object->Object_0[record->Record_0[k].0]),
        object->Object_0.contains_key(name) ==> names_field(record->Record_0, name),
{
}

/// A field has a name where it stands under it.
pub proof fn fields_have_their_names(
    fields: Seq<(Seq<char>, LiteralView)>,
    field: (Seq<char>, LiteralView),
    name: Seq<char>,
)
    ensures
        !names_field(Seq::empty(), name),
        names_field(fields.push(field), name) <==> names_field(fields, name) || field.0 == name,
{
    let more = fields.push(field);
    if names_field(fields, name) {
        let i = choose|i: int| 0 <= i < fields.len() && (#[trigger] fields[i]).0 == name;
        assert(more[i].0 == name);
    }
    if field.0 == name {
        assert(more[fields.len() as int].0 == name);
    }
    if names_field(more, name) && field.0 != name {
        let i = choose|i: int| 0 <= i < more.len() && (#[trigger] more[i]).0 == name;
        assert(fields[i].0 == name);
    }
}

} // verus!
