//! JSON values: the library's own type, its mathematical model, and the way
//! to and from `serde_json`.

use crate::text::same_text;
use vstd::prelude::*;

verus! {

/// A number of a JSON document, as `serde_json` keeps it.
#[verifier::external_type_specification]
#[verifier::external_body]
pub struct ExNumber(serde_json::Number);

/// What `serde_json` refuses a text with.
#[verifier::external_type_specification]
#[verifier::external_body]
pub struct ExError(serde_json::Error);

/// A JSON document, as `serde_json` keeps it.
#[verifier::external_type_specification]
#[verifier::external_body]
pub struct ExValue(serde_json::Value);

/// The members of a JSON object, as `serde_json` keeps them.
#[verifier::external_type_specification]
#[verifier::external_body]
#[verifier::reject_recursive_types(K)]
#[verifier::reject_recursive_types(V)]
pub struct ExMap<K, V>(serde_json::Map<K, V>);

/// What a JSON value is: an object is a finite map, with no order.
pub enum JsonView {
    Null,
    Bool(bool),
    Number(serde_json::Number),
    Text(Seq<char>),
    Array(Seq<JsonView>),
    Object(Map<Seq<char>, JsonView>),
}

/// A JSON value. Of two members of an object with one name, the later counts.
#[derive(Debug, PartialEq)]
pub enum Json {
    Null,
    Bool(bool),
    Number(serde_json::Number),
    Text(String),
    Array(Vec<Json>),
    Object(Vec<(String, Json)>),
}

/// The map of an object's members: the later of two with one name counts.
pub open spec fn members_view(members: Seq<(String, Json)>) -> Map<Seq<char>, JsonView>
    decreases members,
{
    if members.len() == 0 {
        Map::empty()
    } else {
        members_view(members.drop_last()).insert(members.last().0@, json_view(members.last().1))
    }
}

/// What a JSON value is.
pub open spec fn json_view(json: Json) -> JsonView
    decreases json,
{
    match json {
        Json::Null => JsonView::Null,
        Json::Bool(b) => JsonView::Bool(b),
        Json::Number(n) => JsonView::Number(n),
        Json::Text(s) => JsonView::Text(s@),
        Json::Array(items) => JsonView::Array(
            Seq::new(
                items@.len(),
                |i: int|
                    if 0 <= i < items@.len() {
                        json_view(items@[i])
                    } else {
                        JsonView::Null
                    },
            ),
        ),
        Json::Object(members) => JsonView::Object(members_view(members@)),
    }
}

impl View for Json {
    type V = JsonView;

    open spec fn view(&self) -> JsonView {
        json_view(*self)
    }
}

/// What a `serde_json::Value` holds.
pub uninterp spec fn value_view(value: serde_json::Value) -> JsonView;

/// What a `serde_json::Map` holds.
pub uninterp spec fn object_view(
    members: serde_json::Map<String, serde_json::Value>,
) -> Map<Seq<char>, JsonView>;

/// The message of a `serde_json::Error`.
pub uninterp spec fn error_message(error: serde_json::Error) -> Seq<char>;

/// What `serde_json::from_str` makes of a text: the document, or the message
/// of its error.
pub uninterp spec fn json_parse(text: Seq<char>) -> Result<JsonView, Seq<char>>;

/// The compact text that `serde_json::to_string` writes for a document.
pub uninterp spec fn json_text(document: JsonView) -> Seq<char>;

/// The whole number that `serde_json::Number::as_i64` makes of a number, if it
/// is one that fits.
pub uninterp spec fn number_as_i64(number: serde_json::Number) -> Option<i64>;

/// The number that `serde_json::Number::from` makes of a whole number.
pub uninterp spec fn number_of_i64(n: i64) -> serde_json::Number;

/// One level of a `serde_json::Value`, taken apart.
pub enum Node {
    Null,
    Bool(bool),
    Number(serde_json::Number),
    Text(String),
    Array(Vec<serde_json::Value>),
    Object(serde_json::Map<String, serde_json::Value>),
}

/// What one level, with what hangs below it, holds.
pub open spec fn node_view(node: Node) -> JsonView {
    match node {
        Node::Null => JsonView::Null,
        Node::Bool(b) => JsonView::Bool(b),
        Node::Number(n) => JsonView::Number(n),
        Node::Text(s) => JsonView::Text(s@),
        Node::Array(items) => JsonView::Array(Seq::new(items@.len(), |i: int| value_view(items@[i]))),
        Node::Object(members) => JsonView::Object(object_view(members)),
    }
}

/// The map of entries that come one after the other.
pub open spec fn entries_view(entries: Seq<(String, serde_json::Value)>) -> Map<
    Seq<char>,
    JsonView,
>
    decreases entries.len(),
{
    if entries.len() == 0 {
        Map::empty()
    } else {
        entries_view(entries.drop_last()).insert(entries.last().0@, value_view(entries.last().1))
    }
}

/// No two entries have one name.
pub open spec fn distinct_names(entries: Seq<(String, serde_json::Value)>) -> bool {
    forall|i: int, j: int|
        #![trigger entries[i], entries[j]]
        0 <= i < j < entries.len() ==> entries[i].0@ != entries[j].0@
}

proof fn lemma_entries_finite(entries: Seq<(String, serde_json::Value)>)
    ensures
        entries_view(entries).dom().finite(),
    decreases entries.len(),
{
    if entries.len() > 0 {
        lemma_entries_finite(entries.drop_last());
    }
}

proof fn lemma_entry_counts(entries: Seq<(String, serde_json::Value)>, i: int)
    requires
        distinct_names(entries),
        0 <= i < entries.len(),
    ensures
        entries_view(entries).contains_key(entries[i].0@),
        entries_view(entries)[entries[i].0@] == value_view(entries[i].1),
        entries_view(entries).dom().finite(),
    decreases entries.len(),
{
    lemma_entries_finite(entries);
    if i < entries.len() - 1 {
        assert(entries.drop_last()[i] == entries[i]);
        assert forall|a: int, b: int|
            #![trigger entries.drop_last()[a], entries.drop_last()[b]]
            0 <= a < b < entries.drop_last().len() implies entries.drop_last()[a].0@
            != entries.drop_last()[b].0@ by {
            assert(entries[a].0@ != entries[b].0@);
        }
        lemma_entry_counts(entries.drop_last(), i);
        assert(entries[i].0@ != entries[entries.len() - 1].0@);
    }
}

/// Whether a text begins with a capital ASCII letter.
pub open spec fn begins_with_capital(text: Seq<char>) -> bool {
    text.len() > 0 && 'A' <= text[0] <= 'Z'
}

/// `serde_json::from_str` into a `serde_json::Value`: the text alone decides
/// the document, or the message with which it is refused. A text that begins
/// with a capital letter is refused, since no document does.
#[verifier::external_body]
fn value_from_str(text: &str) -> (r: Result<serde_json::Value, serde_json::Error>)
    ensures
        match r {
            Ok(value) => json_parse(text@) == Ok::<JsonView, Seq<char>>(value_view(value)),
            Err(error) => json_parse(text@) == Err::<JsonView, Seq<char>>(error_message(error)),
        },
        begins_with_capital(text@) ==> r is Err,
{
    serde_json::from_str(text)
}

/// `to_string` of a `serde_json::Error`: its message.
#[verifier::external_body]
fn message_of_error(error: &serde_json::Error) -> (r: String)
    ensures
        r@ == error_message(*error),
{
    error.to_string()
}

/// How deep a document may be nested for `serde_json::from_str` to read it.
pub const MAX_DEPTH: usize = 127;

/// Whether the numbers of a document are whole ones that fit, and its arrays and
/// objects lie no deeper than that inside each other.
pub open spec fn plain(document: JsonView, depth: nat) -> bool
    decreases depth,
{
    match document {
        JsonView::Number(n) => number_as_i64(n) is Some,
        JsonView::Array(items) => depth > 0 && forall|i: int|
            0 <= i < items.len() ==> plain(#[trigger] items[i], (depth - 1) as nat),
        JsonView::Object(members) => depth > 0 && forall|name: Seq<char>| #[trigger]
            members.contains_key(name) ==> plain(members[name], (depth - 1) as nat),
        _ => true,
    }
}

/// Whether reading a text gives that document.
pub open spec fn reads_as(text: Seq<char>, document: JsonView) -> bool {
    json_parse(text) == Ok::<JsonView, Seq<char>>(document)
}

/// `serde_json::to_string` of a `serde_json::Value`: the document alone
/// decides the text, which holds no line feed, since the compact form puts
/// none between tokens and strings escape theirs. `serde_json::from_str` reads
/// the same document from it, where the numbers are whole and the nesting is
/// not too deep. Nothing is claimed of reading back other documents: a fraction
/// may come back as one next to it.
#[verifier::external_body]
fn value_to_string(value: &serde_json::Value) -> (r: String)
    ensures
        r@ == json_text(value_view(*value)),
        !r@.contains('\n'),
        plain(value_view(*value), MAX_DEPTH as nat) ==> reads_as(r@, value_view(*value)),
{
    serde_json::to_string(value).unwrap_or_default()
}

/// The variants of `serde_json::Value`, taken apart one for one.
#[verifier::external_body]
fn node_of_value(value: serde_json::Value) -> (r: Node)
    ensures
        node_view(r) == value_view(value),
{
    match value {
        serde_json::Value::Null => Node::Null,
        serde_json::Value::Bool(b) => Node::Bool(b),
        serde_json::Value::Number(n) => Node::Number(n),
        serde_json::Value::String(s) => Node::Text(s),
        serde_json::Value::Array(items) => Node::Array(items),
        serde_json::Value::Object(members) => Node::Object(members),
    }
}

/// The variants of `serde_json::Value`, put together one for one.
#[verifier::external_body]
fn value_of_node(node: Node) -> (r: serde_json::Value)
    ensures
        value_view(r) == node_view(node),
{
    match node {
        Node::Null => serde_json::Value::Null,
        Node::Bool(b) => serde_json::Value::Bool(b),
        Node::Number(n) => serde_json::Value::Number(n),
        Node::Text(s) => serde_json::Value::String(s),
        Node::Array(items) => serde_json::Value::Array(items),
        Node::Object(members) => serde_json::Value::Object(members),
    }
}

/// `serde_json::Map::into_iter` hands out every member once.
#[verifier::external_body]
fn object_entries(members: serde_json::Map<String, serde_json::Value>) -> (r: Vec<
    (String, serde_json::Value),
>)
    ensures
        distinct_names(r@),
        entries_view(r@) == object_view(members),
{
    members.into_iter().collect()
}

/// `serde_json::Map::new` makes an object without members.
#[verifier::external_body]
fn empty_object() -> (r: serde_json::Map<String, serde_json::Value>)
    ensures
        object_view(r) == entries_view(Seq::empty()),
{
    serde_json::Map::new()
}

/// `serde_json::Map::insert` adds a member, in place of one with its name.
#[verifier::external_body]
fn insert_member(
    members: &mut serde_json::Map<String, serde_json::Value>,
    name: String,
    value: serde_json::Value,
)
    ensures
        object_view(*final(members)) == object_view(*old(members)).insert(name@, value_view(value)),
{
    members.insert(name, value);
}

/// Takes over a document of `serde_json`.
pub fn json_of_value(value: serde_json::Value) -> (r: Json)
    ensures
        r@ == value_view(value),
    decreases value_view(value),
{
    let ghost whole = value_view(value);
    match node_of_value(value) {
        Node::Null => Json::Null,
        Node::Bool(b) => Json::Bool(b),
        Node::Number(n) => Json::Number(n),
        Node::Text(s) => Json::Text(s),
        Node::Array(items) => {
            let ghost all = items@;
            let mut taken: Vec<Json> = Vec::new();
            for item in it: items
                invariant
                    it.seq() == all,
                    whole == node_view(Node::Array(items)),
                    whole == value_view(value),
                    all == items@,
                    taken@.len() == it.index(),
                    forall|i: int| 0 <= i < taken@.len() ==> #[trigger] taken@[i]@ == value_view(all[i]),
            {
                assert(whole->Array_0[it.index()] == value_view(item));
                taken.push(json_of_value(item));
            }
            proof {
                let image = json_view(Json::Array(taken))->Array_0;
                assert forall|i: int| 0 <= i < image.len() implies image[i] == whole->Array_0[i] by {
                    assert(image[i] == taken@[i]@);
                }
                assert(image =~= whole->Array_0);
            }
            Json::Array(taken)
        },
        Node::Object(members) => {
            let entries = object_entries(members);
            let ghost all = entries@;
            let mut taken: Vec<(String, Json)> = Vec::new();
            for entry in it: entries
                invariant
                    it.seq() == all,
                    distinct_names(all),
                    whole == JsonView::Object(entries_view(all)),
                    whole == value_view(value),
                    taken@.len() == it.index(),
                    members_view(taken@) == entries_view(all.take(it.index())),
            {
                proof {
                    lemma_entry_counts(all, it.index());
                    let next = all.take(it.index() + 1);
                    assert(next.drop_last() == all.take(it.index()));
                }
                assert(decreases_to!(whole->Object_0 => whole->Object_0[entry.0@]));
                let ghost before = taken@;
                let member = json_of_value(entry.1);
                taken.push((entry.0, member));
                assert(taken@.drop_last() == before);
            }
            assert(all.take(all.len() as int) == all);
            Json::Object(taken)
        },
    }
}

/// Hands a document over to `serde_json`.
pub fn value_of_json(json: Json) -> (r: serde_json::Value)
    ensures
        value_view(r) == json@,
    decreases json,
{
    match json {
        Json::Null => value_of_node(Node::Null),
        Json::Bool(b) => value_of_node(Node::Bool(b)),
        Json::Number(n) => value_of_node(Node::Number(n)),
        Json::Text(s) => value_of_node(Node::Text(s)),
        Json::Array(items) => {
            let ghost all = items@;
            let mut handed: Vec<serde_json::Value> = Vec::new();
            for item in it: items
                invariant
                    it.seq() == all,
                    json == Json::Array(items),
                    all == items@,
                    handed@.len() == it.index(),
                    forall|i: int|
                        0 <= i < handed@.len() ==> value_view(#[trigger] handed@[i]) == all[i]@,
            {
                assert(decreases_to!(json => json->Array_0));
                handed.push(value_of_json(item));
            }
            proof {
                let image = node_view(Node::Array(handed))->Array_0;
                assert forall|i: int| 0 <= i < image.len() implies image[i] == json@->Array_0[i] by {
                    assert(value_view(handed@[i]) == all[i]@);
                }
                assert(image =~= json@->Array_0);
            }
            value_of_node(Node::Array(handed))
        },
        Json::Object(members) => {
            let ghost all = members@;
            let mut handed = empty_object();
            for member in it: members
                invariant
                    it.seq() == all,
                    json == Json::Object(members),
                    all == members@,
                    object_view(handed) == members_view(all.take(it.index())),
            {
                assert(all.take(it.index() + 1).drop_last() == all.take(it.index()));
                assert(decreases_to!(json => json->Object_0));
                let value = value_of_json(member.1);
                insert_member(&mut handed, member.0, value);
            }
            assert(all.take(all.len() as int) == all);
            value_of_node(Node::Object(handed))
        },
    }
}

/// `serde_json::Number::as_i64`: the whole number that a number is, if it is one
/// that fits.
#[verifier::external_body]
fn whole_of_number(number: &serde_json::Number) -> (r: Option<i64>)
    ensures
        r == number_as_i64(*number),
{
    number.as_i64()
}

/// `serde_json::Number::from`: a whole number as a number. Asked for the whole
/// number that it is, it gives the same one.
#[verifier::external_body]
fn number_of_whole(n: i64) -> (r: serde_json::Number)
    ensures
        r == number_of_i64(n),
        number_as_i64(r) == Some(n),
{
    serde_json::Number::from(n)
}

/// The whole number, where there is one that fits.
pub open spec fn whole_of(document: Option<JsonView>) -> Option<i64> {
    match document {
        Some(JsonView::Number(n)) => number_as_i64(n),
        _ => None,
    }
}

/// The member of that name, where `document` is an object that has one.
pub open spec fn member(document: JsonView, name: Seq<char>) -> Option<JsonView> {
    match document {
        JsonView::Object(members) => if members.contains_key(name) {
            Some(members[name])
        } else {
            None
        },
        _ => None,
    }
}

/// The truth value, where there is one.
pub open spec fn truth(document: Option<JsonView>) -> Option<bool> {
    match document {
        Some(JsonView::Bool(b)) => Some(b),
        _ => None,
    }
}

/// The text, where there is one.
pub open spec fn text_of(document: Option<JsonView>) -> Option<Seq<char>> {
    match document {
        Some(JsonView::Text(s)) => Some(s),
        _ => None,
    }
}

/// An object has the members that its list names, and no others.
pub proof fn lemma_member_names(members: Seq<(String, Json)>)
    ensures
        forall|k: int|
            0 <= k < members.len() ==> members_view(members).contains_key(
                (#[trigger] members[k]).0@,
            ),
        forall|name: Seq<char>| #[trigger]
            members_view(members).contains_key(name) ==> exists|k: int|
                0 <= k < members.len() && (#[trigger] members[k]).0@ == name,
    decreases members.len(),
{
    if members.len() > 0 {
        let rest = members.drop_last();
        lemma_member_names(rest);
        assert forall|k: int| 0 <= k < members.len() implies members_view(members).contains_key(
            (#[trigger] members[k]).0@,
        ) by {
            if k < rest.len() {
                assert(members[k] == rest[k]);
            }
        }
        assert forall|name: Seq<char>| #[trigger]
            members_view(members).contains_key(name) implies exists|k: int|
            0 <= k < members.len() && (#[trigger] members[k]).0@ == name by {
            if name == members.last().0@ {
                assert(members[members.len() - 1].0@ == name);
            } else {
                assert(members_view(rest).contains_key(name));
                let k = choose|k: int| 0 <= k < rest.len() && (#[trigger] rest[k]).0@ == name;
                assert(members[k].0@ == name);
            }
        }
    }
}

/// Adds a member to those of an object.
pub fn push_member(members: &mut Vec<(String, Json)>, name: &str, value: Json)
    ensures
        members_view(final(members)@) == members_view(old(members)@).insert(name@, value@),
{
    let ghost before = members@;
    members.push((name.to_owned(), value));
    assert(members@.drop_last() == before);
}

impl Json {
    /// Reads a document with `serde_json`.
    pub fn parse(text: &str) -> (r: Result<Json, String>)
        ensures
            match r {
                Ok(json) => json_parse(text@) == Ok::<JsonView, Seq<char>>(json@),
                Err(message) => json_parse(text@) == Err::<JsonView, Seq<char>>(message@),
            },
            begins_with_capital(text@) ==> r is Err,
    {
        match value_from_str(text) {
            Ok(value) => Ok(json_of_value(value)),
            Err(error) => Err(message_of_error(&error)),
        }
    }

    /// Writes a document with `serde_json`, on one line.
    pub fn into_text(self) -> (r: String)
        ensures
            r@ == json_text(self@),
            !r@.contains('\n'),
            plain(self@, MAX_DEPTH as nat) ==> reads_as(r@, self@),
    {
        let value = value_of_json(self);
        value_to_string(&value)
    }

    /// The member of that name, where `self` is an object that has one.
    pub fn get(&self, name: &str) -> (r: Option<&Json>)
        ensures
            match r {
                Some(json) => member(self@, name@) == Some(json@),
                None => member(self@, name@) is None,
            },
    {
        match self {
            Json::Object(members) => {
                let mut i: usize = members.len();
                assert(members@.take(i as int) == members@);
                while i > 0
                    invariant
                        i <= members@.len(),
                        self@ == JsonView::Object(members_view(members@)),
                        member(self@, name@) == member(
                            JsonView::Object(members_view(members@.take(i as int))),
                            name@,
                        ),
                    decreases i,
                {
                    assert(members@.take(i as int).drop_last() == members@.take(i - 1));
                    if same_text(members[i - 1].0.as_str(), name) {
                        return Some(&members[i - 1].1);
                    }
                    i = i - 1;
                }
                None
            },
            _ => None,
        }
    }

    /// The truth value that `self` is, if it is one.
    pub fn as_bool(&self) -> (r: Option<bool>)
        ensures
            r == truth(Some(self@)),
    {
        match self {
            Json::Bool(b) => Some(*b),
            _ => None,
        }
    }

    /// A whole number.
    pub fn whole(n: i64) -> (r: Json)
        ensures
            r@ == JsonView::Number(number_of_i64(n)),
            whole_of(Some(r@)) == Some(n),
    {
        Json::Number(number_of_whole(n))
    }

    /// The whole number that `self` is, if it is one that fits.
    pub fn as_whole(&self) -> (r: Option<i64>)
        ensures
            r == whole_of(Some(self@)),
    {
        match self {
            Json::Number(n) => whole_of_number(n),
            _ => None,
        }
    }

    /// The text that `self` is, if it is one.
    pub fn as_text(&self) -> (r: Option<&str>)
        ensures
            match r {
                Some(s) => text_of(Some(self@)) == Some(s@),
                None => text_of(Some(self@)) is None,
            },
    {
        match self {
            Json::Text(s) => Some(s.as_str()),
            _ => None,
        }
    }
}

/// The member of an object is what the object has under that name; nothing else
/// has members.
pub proof fn members_are_looked_up(
    members: Map<Seq<char>, JsonView>,
    name: Seq<char>,
    document: JsonView,
)
    ensures
        members.contains_key(name) ==> member(JsonView::Object(members), name) == Some(
            members[name],
        ),
        !members.contains_key(name) ==> member(JsonView::Object(members), name) is None,
        !(document is Object) ==> member(document, name) is None,
{
}

/// Truth values, texts and whole numbers are read as such, and nothing else is.
pub proof fn values_are_read_as_they_are(document: JsonView, b: bool, s: Seq<char>)
    ensures
        truth(Some(document)) == Some(b) <==> document == JsonView::Bool(b),
        text_of(Some(document)) == Some(s) <==> document == JsonView::Text(s),
        whole_of(Some(document)) is Some ==> document is Number,
        document matches JsonView::Number(n) ==> whole_of(Some(document)) == number_as_i64(n),
        truth(None) is None,
        text_of(None) is None,
        whole_of(None) is None,
{
}

/// Of two members with one name the later counts.
pub proof fn later_members_count(
    members: Seq<(String, Json)>,
    name: String,
    value: Json,
    other: Seq<char>,
)
    ensures
        members_view(members.push((name, value))).contains_key(name@),
        members_view(members.push((name, value)))[name@] == value@,
        other != name@ ==> members_view(members.push((name, value))).contains_key(other)
            == members_view(members).contains_key(other),
        other != name@ && members_view(members).contains_key(other) ==> members_view(
            members.push((name, value)),
        )[other] == members_view(members)[other],
{
    assert(members.push((name, value)).drop_last() =~= members);
}

/// A document is plain where its numbers are whole ones, and its lists and objects
/// are made of plain ones that lie less deep.
pub proof fn plain_documents_are_made_of_plain_ones(
    document: JsonView,
    depth: nat,
    i: int,
    name: Seq<char>,
)
    ensures
        document is Null || document is Bool || document is Text ==> plain(document, depth),
        document matches JsonView::Number(n) ==> plain(document, depth) == (number_as_i64(n)
            is Some),
        depth == 0 && (document is Array || document is Object) ==> !plain(document, depth),
        plain(document, depth) && document is Array && 0 <= i < document->Array_0.len() ==> plain(
            document->Array_0[i],
            (depth - 1) as nat,
        ),
        plain(document, depth) && document is Object && document->Object_0.contains_key(name)
            ==> plain(document->Object_0[name], (depth - 1) as nat),
{
}

/// The other way round: what is made of plain documents is plain one level up.
pub proof fn plain_documents_make_plain_ones(document: JsonView, depth: nat)
    ensures
        document is Array && (forall|i: int|
            0 <= i < document->Array_0.len() ==> plain(#[trigger] document->Array_0[i], depth))
            ==> plain(document, depth + 1),
        document is Object && (forall|name: Seq<char>| #[trigger]
            document->Object_0.contains_key(name) ==> plain(document->Object_0[name], depth))
            ==> plain(document, depth + 1),
{
    reveal_with_fuel(plain, 2);
    assert(((depth + 1) - 1) as nat == depth);
}

} // verus!
