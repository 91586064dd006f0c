//! Reading what comes back: replies of the daemon and of the browser.

use crate::json::{member, members_view, text_of, truth, Json, JsonView};
use crate::protocol::{holds, succeeded};
use crate::text::{chars_of, same_text};
use vstd::prelude::*;

verus! {

/// Whether a reply reports a failure.
pub open spec fn failure(reply: JsonView) -> bool {
    truth(member(reply, "success"@)) == Some(false)
}

fn reported(reply: &Json) -> (r: Option<bool>)
    ensures
        r == truth(member(reply@, "success"@)),
{
    match reply.get("success") {
        Some(value) => value.as_bool(),
        None => None,
    }
}

/// Whether a reply reports success.
pub fn is_success(reply: &Json) -> (r: bool)
    ensures
        r == succeeded(reply@),
{
    match reported(reply) {
        Some(b) => b,
        None => false,
    }
}

/// Whether a reply reports a failure.
pub fn is_failure(reply: &Json) -> (r: bool)
    ensures
        r == failure(reply@),
{
    match reported(reply) {
        Some(b) => !b,
        None => false,
    }
}

/// What a reply carries, which has to be there.
pub fn get_data(reply: &Json) -> (r: &Json)
    requires
        member(reply@, "data"@) is Some,
    ensures
        member(reply@, "data"@) == Some(r@),
{
    match reply.get("data") {
        Some(data) => data,
        None => vstd::pervasive::unreached(),
    }
}

/// Whether a reply reports a failure with that code.
pub fn has_error_code(reply: &Json, code: &str) -> (r: bool)
    ensures
        r == (failure(reply@) && text_of(member(reply@, "code"@)) == Some(code@)),
{
    if !is_failure(reply) {
        return false;
    }
    has_text(reply, "code", code)
}

/// Whether the member of that name is that text.
pub fn has_text(document: &Json, name: &str, text: &str) -> (r: bool)
    ensures
        r == (text_of(member(document@, name@)) == Some(text@)),
{
    match document.get(name) {
        Some(value) => match value.as_text() {
            Some(found) => same_text(found, text),
            None => false,
        },
        None => false,
    }
}

/// What is found in a document, one member inside the other.
pub open spec fn value_at(document: JsonView, path: Seq<Seq<char>>) -> Option<JsonView>
    decreases path.len(),
{
    if path.len() == 0 {
        Some(document)
    } else {
        match member(document, path[0]) {
            Some(inner) => value_at(inner, path.drop_first()),
            None => None,
        }
    }
}

/// The texts of a list.
pub open spec fn text_views(list: Seq<String>) -> Seq<Seq<char>> {
    list.map_values(|s: String| s@)
}

/// What is found in a document, one member inside the other.
pub fn find_value<'a>(document: &'a Json, path: &Vec<String>) -> (r: Option<&'a Json>)
    ensures
        match r {
            Some(value) => value_at(document@, text_views(path@)) == Some(value@),
            None => value_at(document@, text_views(path@)) is None,
        },
{
    let ghost names = text_views(path@);
    let n: usize = path.len();
    let mut here: &'a Json = document;
    let mut i: usize = 0;
    assert(names.skip(0) =~= names);
    while i < n
        invariant
            i <= n,
            n == path@.len(),
            names == text_views(path@),
            value_at(document@, names) == value_at(here@, names.skip(i as int)),
        decreases n - i,
    {
        assert(names.skip(i as int)[0] == path@[i as int]@);
        assert(names.skip(i as int).drop_first() =~= names.skip(i + 1));
        match here.get(path[i].as_str()) {
            Some(inner) => {
                here = inner;
            },
            None => {
                return None;
            },
        }
        i = i + 1;
    }
    Some(here)
}

/// Whether `a` comes before `b` where texts are put in order: by the codes of
/// their characters, from the first on.
pub open spec fn text_before(a: Seq<char>, b: Seq<char>) -> bool
    decreases a.len(),
{
    if b.len() == 0 {
        false
    } else if a.len() == 0 {
        true
    } else if a[0] == b[0] {
        text_before(a.drop_first(), b.drop_first())
    } else {
        a[0] < b[0]
    }
}

proof fn lemma_one_before_the_other(a: Seq<char>, b: Seq<char>)
    ensures
        !(text_before(a, b) && text_before(b, a)),
        a != b ==> text_before(a, b) || text_before(b, a),
    decreases a.len(),
{
    if a.len() > 0 && b.len() > 0 && a[0] == b[0] {
        lemma_one_before_the_other(a.drop_first(), b.drop_first());
        if a.drop_first() == b.drop_first() {
            assert(a =~= seq![a[0]] + a.drop_first());
            assert(b =~= seq![b[0]] + b.drop_first());
        }
    } else if a.len() == 0 && b.len() == 0 {
        assert(a =~= b);
    }
}

proof fn lemma_before_is_transitive(a: Seq<char>, b: Seq<char>, c: Seq<char>)
    requires
        text_before(a, b),
        text_before(b, c),
    ensures
        text_before(a, c),
    decreases a.len(),
{
    if a.len() > 0 && b.len() > 0 && c.len() > 0 && a[0] == b[0] && b[0] == c[0] {
        lemma_before_is_transitive(a.drop_first(), b.drop_first(), c.drop_first());
    }
}

fn comes_before(a: &str, b: &str) -> (r: bool)
    ensures
        r == text_before(a@, b@),
{
    let v = chars_of(a);
    let w = chars_of(b);
    let n: usize = v.len();
    let m: usize = w.len();
    let mut i: usize = 0;
    assert(v@.skip(0) =~= v@);
    assert(w@.skip(0) =~= w@);
    while i < n && i < m && v[i] == w[i]
        invariant
            i <= n,
            i <= m,
            n == v@.len(),
            m == w@.len(),
            v@ == a@,
            w@ == b@,
            text_before(a@, b@) == text_before(v@.skip(i as int), w@.skip(i as int)),
        decreases n - i,
    {
        assert(v@.skip(i as int).drop_first() =~= v@.skip(i + 1));
        assert(w@.skip(i as int).drop_first() =~= w@.skip(i + 1));
        i = i + 1;
    }
    if i == m {
        false
    } else if i == n {
        true
    } else {
        v[i] < w[i]
    }
}

/// The references of a snapshot, where it has any.
pub open spec fn references(snapshot: JsonView) -> Map<Seq<char>, JsonView> {
    match value_at(snapshot, seq!["data"@, "refs"@]) {
        Some(JsonView::Object(refs)) => refs,
        _ => Map::empty(),
    }
}

/// Whether a reference of a snapshot stands for something of that name.
pub open spec fn refers_to(snapshot: JsonView, reference: Seq<char>, name: Seq<char>) -> bool {
    &&& references(snapshot).contains_key(reference)
    &&& text_of(member(references(snapshot)[reference], "name"@)) == Some(name)
}

/// Whether `reference` is the first, in the order of texts, that stands for
/// something of that name.
pub open spec fn first_reference(snapshot: JsonView, reference: Seq<char>, name: Seq<char>) -> bool {
    &&& refers_to(snapshot, reference, name)
    &&& forall|other: Seq<char>| #[trigger]
        refers_to(snapshot, other, name) ==> other == reference || text_before(reference, other)
}

/// The first reference to something of that name, if there is one.
pub open spec fn reference(snapshot: JsonView, name: Seq<char>) -> Option<Seq<char>> {
    if exists|found: Seq<char>| first_reference(snapshot, found, name) {
        Some(choose|found: Seq<char>| first_reference(snapshot, found, name))
    } else {
        None
    }
}

proof fn lemma_reference(snapshot: JsonView, found: Seq<char>, name: Seq<char>)
    requires
        first_reference(snapshot, found, name),
    ensures
        reference(snapshot, name) == Some(found),
{
    let chosen = choose|found: Seq<char>| first_reference(snapshot, found, name);
    assert(first_reference(snapshot, chosen, name));
    assert(refers_to(snapshot, chosen, name));
    assert(refers_to(snapshot, found, name));
    lemma_one_before_the_other(chosen, found);
}

/// The first reference of a snapshot to something of that name, if there is one.
pub fn reference_named(snapshot: &Json, name: &str) -> (r: Option<String>)
    ensures
        match r {
            Some(found) => reference(snapshot@, name@) == Some(found@) && refers_to(
                snapshot@,
                found@,
                name@,
            ),
            None => reference(snapshot@, name@) is None && forall|other: Seq<char>|
                !#[trigger] refers_to(snapshot@, other, name@),
        },
{
    let ghost path = seq!["data"@, "refs"@];
    assert(path.drop_first() =~= seq!["refs"@]);
    assert(path.drop_first().drop_first() =~= Seq::<Seq<char>>::empty());
    reveal_with_fuel(value_at, 3);
    let refs: &Json = match snapshot.get("data") {
        Some(data) => match data.get("refs") {
            Some(refs) => refs,
            None => {
                return None;
            },
        },
        None => {
            return None;
        },
    };
    assert(value_at(snapshot@, path) == Some(refs@));
    match refs {
        Json::Object(members) => {
            assert(references(snapshot@) == members_view(members@));
            let n: usize = members.len();
            let mut best: Option<&str> = None;
            let mut i: usize = 0;
            while i < n
                invariant
                    i <= n,
                    n == members@.len(),
                    refs@ == JsonView::Object(members_view(members@)),
                    references(snapshot@) == members_view(members@),
                    match best {
                        Some(found) => refers_to(snapshot@, found@, name@) && forall|k: int|
                            0 <= k < i && refers_to(snapshot@, (#[trigger] members@[k]).0@, name@)
                                ==> members@[k].0@ == found@ || text_before(
                                found@,
                                members@[k].0@,
                            ),
                        None => forall|k: int|
                            0 <= k < i ==> !refers_to(
                                snapshot@,
                                (#[trigger] members@[k]).0@,
                                name@,
                            ),
                    },
                decreases n - i,
            {
                let key = members[i].0.as_str();
                let named = match refs.get(key) {
                    Some(entry) => has_text(entry, "name", name),
                    None => false,
                };
                assert(named == refers_to(snapshot@, key@, name@));
                if named {
                    match best {
                        Some(found) => {
                            if comes_before(key, found) {
                                proof {
                                    assert forall|k: int|
                                        0 <= k < i && refers_to(
                                            snapshot@,
                                            (#[trigger] members@[k]).0@,
                                            name@,
                                        ) implies members@[k].0@ == key@ || text_before(
                                        key@,
                                        members@[k].0@,
                                    ) by {
                                        if members@[k].0@ != found@ {
                                            lemma_before_is_transitive(
                                                key@,
                                                found@,
                                                members@[k].0@,
                                            );
                                        }
                                    }
                                }
                                best = Some(key);
                            } else {
                                proof {
                                    lemma_one_before_the_other(key@, found@);
                                }
                            }
                        },
                        None => {
                            best = Some(key);
                        },
                    }
                }
                i = i + 1;
            }
            proof {
                crate::json::lemma_member_names(members@);
            }
            match best {
                Some(found) => {
                    proof {
                        assert forall|other: Seq<char>| #[trigger]
                            refers_to(snapshot@, other, name@) implies other == found@
                            || text_before(found@, other) by {
                            let k = choose|k: int|
                                0 <= k < members@.len() && (#[trigger] members@[k]).0@ == other;
                            assert(members@[k].0@ == other);
                        }
                        lemma_reference(snapshot@, found@, name@);
                    }
                    Some(found.to_owned())
                },
                None => {
                    assert forall|other: Seq<char>| !#[trigger] refers_to(
                        snapshot@,
                        other,
                        name@,
                    ) by {
                        if refers_to(snapshot@, other, name@) {
                            let k = choose|k: int|
                                0 <= k < members@.len() && (#[trigger] members@[k]).0@ == other;
                            assert(!refers_to(snapshot@, members@[k].0@, name@));
                        }
                    }
                    None
                },
            }
        },
        _ => None,
    }
}

/// Whether the attributes of a node, names and values in turn, hold that one.
pub open spec fn attribute_at(attributes: Seq<JsonView>, i: int, name: Seq<char>, value: Seq<char>) -> bool {
    &&& 0 <= i
    &&& 2 * i + 1 < attributes.len()
    &&& text_of(Some(attributes[2 * i])) == Some(name)
    &&& text_of(Some(attributes[2 * i + 1])) == Some(value)
}

/// Whether a node that the browser describes has that attribute.
pub open spec fn has_attribute(description: JsonView, name: Seq<char>, value: Seq<char>) -> bool {
    match value_at(description, seq!["node"@, "attributes"@]) {
        Some(JsonView::Array(attributes)) => exists|i: int| #[trigger]
            attribute_at(attributes, i, name, value),
        _ => false,
    }
}

fn is_text(document: &Json, text: &str) -> (r: bool)
    ensures
        r == (text_of(Some(document@)) == Some(text@)),
{
    match document.as_text() {
        Some(found) => same_text(found, text),
        None => false,
    }
}

/// Whether a node that the browser describes has that attribute.
pub fn node_has_attribute(description: &Json, name: &str, value: &str) -> (r: bool)
    ensures
        r == has_attribute(description@, name@, value@),
{
    let ghost path = seq!["node"@, "attributes"@];
    assert(path.drop_first() =~= seq!["attributes"@]);
    assert(path.drop_first().drop_first() =~= Seq::<Seq<char>>::empty());
    reveal_with_fuel(value_at, 3);
    let found: &Json = match description.get("node") {
        Some(node) => match node.get("attributes") {
            Some(found) => found,
            None => {
                return false;
            },
        },
        None => {
            return false;
        },
    };
    assert(value_at(description@, path) == Some(found@));
    match found {
        Json::Array(attributes) => {
            let ghost all = found@->Array_0;
            let n: usize = attributes.len();
            let mut i: usize = 0;
            while i < n / 2
                invariant
                    i <= n / 2,
                    n == attributes@.len(),
                    n == all.len(),
                    value_at(description@, seq!["node"@, "attributes"@]) == Some(found@),
                    found@ == JsonView::Array(all),
                    forall|k: int| 0 <= k < n ==> all[k] == #[trigger] attributes@[k]@,
                    forall|k: int| 0 <= k < i ==> !#[trigger] attribute_at(all, k, name@, value@),
                decreases n - i,
            {
                let here = is_text(&attributes[2 * i], name) && is_text(
                    &attributes[2 * i + 1],
                    value,
                );
                assert(here == attribute_at(all, i as int, name@, value@));
                if here {
                    assert(match value_at(description@, seq!["node"@, "attributes"@]) {
                        Some(JsonView::Array(listed)) => attribute_at(
                            listed,
                            i as int,
                            name@,
                            value@,
                        ),
                        _ => false,
                    });
                    return true;
                }
                i = i + 1;
            }
            assert forall|k: int| !#[trigger] attribute_at(all, k, name@, value@) by {
                if 0 <= k && 2 * k + 1 < n {
                    assert(k < n / 2);
                }
            }
            false
        },
        _ => false,
    }
}

/// Replies that say so in the member `success` are successes or failures;
/// without a truth value there they are neither.
pub proof fn replies_say_how_it_went(reply: JsonView)
    ensures
        succeeded(reply) <==> holds(reply, "success"@, JsonView::Bool(true)),
        failure(reply) <==> holds(reply, "success"@, JsonView::Bool(false)),
{
}

/// What is found along a path is found along its first name, in what is found
/// along the others: at each step the member of that name is taken, and nothing
/// is found where there is none.
pub proof fn paths_are_followed_name_by_name(
    document: JsonView,
    name: Seq<char>,
    path: Seq<Seq<char>>,
)
    ensures
        value_at(document, Seq::empty()) == Some(document),
        match document {
            JsonView::Object(members) => if members.contains_key(name) {
                value_at(document, seq![name] + path) == value_at(members[name], path)
            } else {
                value_at(document, seq![name] + path) is None
            },
            _ => value_at(document, seq![name] + path) is None,
        },
{
    assert((seq![name] + path).drop_first() =~= path);
}

/// Whether a snapshot has that reference to something of that name.
pub open spec fn listed_in(snapshot: JsonView, reference: Seq<char>, name: Seq<char>) -> bool {
    exists|data: JsonView, refs: JsonView, entry: JsonView|
        #![trigger holds(snapshot, "data"@, data), holds(data, "refs"@, refs), holds(refs, reference, entry)]
        holds(snapshot, "data"@, data) && holds(data, "refs"@, refs) && holds(
            refs,
            reference,
            entry,
        ) && holds(entry, "name"@, JsonView::Text(name))
}

proof fn lemma_listed(snapshot: JsonView, reference: Seq<char>, name: Seq<char>)
    ensures
        refers_to(snapshot, reference, name) <==> listed_in(snapshot, reference, name),
{
    let path = seq!["data"@, "refs"@];
    assert(path.drop_first() =~= seq!["refs"@]);
    assert(path.drop_first().drop_first() =~= Seq::<Seq<char>>::empty());
    reveal_with_fuel(value_at, 3);
    if refers_to(snapshot, reference, name) {
        let data = member(snapshot, "data"@)->0;
        let refs = member(data, "refs"@)->0;
        let entry = references(snapshot)[reference];
        assert(holds(snapshot, "data"@, data) && holds(data, "refs"@, refs) && holds(
            refs,
            reference,
            entry,
        ));
    }
}

/// The reference to something of a name is one that the snapshot lists for it,
/// and the first of those in the order of texts; where any is listed, one is
/// found.
pub proof fn references_are_the_first_listed(
    snapshot: JsonView,
    name: Seq<char>,
    found: Seq<char>,
    other: Seq<char>,
)
    ensures
        reference(snapshot, name) == Some(found) ==> listed_in(snapshot, found, name) && (listed_in(
            snapshot,
            other,
            name,
        ) ==> other == found || text_before(found, other)),
        listed_in(snapshot, found, name) && (forall|another: Seq<char>| #[trigger]
            listed_in(snapshot, another, name) ==> another == found || text_before(found, another))
            ==> reference(snapshot, name) == Some(found),
{
    lemma_listed(snapshot, found, name);
    lemma_listed(snapshot, other, name);
    if listed_in(snapshot, found, name) && (forall|another: Seq<char>| #[trigger]
        listed_in(snapshot, another, name) ==> another == found || text_before(found, another)) {
        assert forall|another: Seq<char>| #[trigger]
            refers_to(snapshot, another, name) implies another == found || text_before(
            found,
            another,
        ) by {
            lemma_listed(snapshot, another, name);
        }
        lemma_reference(snapshot, found, name);
    }
}

/// The order of texts: nothing comes first, else the lower code at the first
/// place where they differ.
pub proof fn texts_are_ordered_by_their_codes(
    common: Seq<char>,
    a: char,
    b: char,
    rest: Seq<char>,
    other: Seq<char>,
)
    requires
        a != b,
    ensures
        text_before(common.push(a) + rest, common.push(b) + other) <==> a < b,
        text_before(common, common.push(a) + rest),
        !text_before(common.push(a) + rest, common),
        !text_before(common, common),
    decreases common.len(),
{
    let x = common.push(a) + rest;
    let y = common.push(b) + other;
    if common.len() > 0 {
        let less = common.drop_first();
        assert(x.drop_first() =~= less.push(a) + rest);
        assert(y.drop_first() =~= less.push(b) + other);
        assert(x[0] == common[0] && y[0] == common[0]);
        texts_are_ordered_by_their_codes(less, a, b, rest, other);
    } else {
        assert(x[0] == a && y[0] == b);
    }
}

/// A node has an attribute where the browser lists the name at an even place and
/// the value right behind it, and only there.
pub proof fn attributes_come_in_pairs(
    description: JsonView,
    node: JsonView,
    attributes: Seq<JsonView>,
    name: Seq<char>,
    value: Seq<char>,
)
    requires
        holds(description, "node"@, node),
        holds(node, "attributes"@, JsonView::Array(attributes)),
    ensures
        has_attribute(description, name, value) <==> exists|i: int|
            0 <= i < attributes.len() - 1 && i % 2 == 0 && #[trigger] attributes[i]
                == JsonView::Text(name) && attributes[i + 1] == JsonView::Text(value),
{
    let path = seq!["node"@, "attributes"@];
    assert(path.drop_first() =~= seq!["attributes"@]);
    assert(path.drop_first().drop_first() =~= Seq::<Seq<char>>::empty());
    reveal_with_fuel(value_at, 3);
    assert(value_at(description, path) == Some(JsonView::Array(attributes)));
    if has_attribute(description, name, value) {
        let k = choose|k: int| #[trigger] attribute_at(attributes, k, name, value);
        assert(attributes[2 * k] == JsonView::Text(name));
    }
    assert forall|i: int|
        0 <= i < attributes.len() - 1 && i % 2 == 0 && #[trigger] attributes[i] == JsonView::Text(
            name,
        ) && attributes[i + 1] == JsonView::Text(value) implies has_attribute(
        description,
        name,
        value,
    ) by {
        let k = i / 2;
        assert(i == 2 * k);
        assert(attribute_at(attributes, k, name, value));
        assert(match value_at(description, path) {
            Some(JsonView::Array(listed)) => attribute_at(listed, k, name, value),
            _ => false,
        });
    }
}

/// A description without a node, or with one whose attributes are no list, has no
/// attribute at all.
pub proof fn other_descriptions_have_no_attribute(
    description: JsonView,
    name: Seq<char>,
    value: Seq<char>,
)
    requires
        forall|node: JsonView, attributes: Seq<JsonView>|
            #![trigger holds(description, "node"@, node), holds(node, "attributes"@, JsonView::Array(attributes))]
            !(holds(description, "node"@, node) && holds(
                node,
                "attributes"@,
                JsonView::Array(attributes),
            )),
    ensures
        !has_attribute(description, name, value),
{
    let path = seq!["node"@, "attributes"@];
    assert(path.drop_first() =~= seq!["attributes"@]);
    assert(path.drop_first().drop_first() =~= Seq::<Seq<char>>::empty());
    reveal_with_fuel(value_at, 3);
    if has_attribute(description, name, value) {
        let node = member(description, "node"@)->0;
        let attributes = member(node, "attributes"@)->0->Array_0;
        assert(holds(description, "node"@, node));
        assert(holds(node, "attributes"@, JsonView::Array(attributes)));
    }
}

} // verus!
