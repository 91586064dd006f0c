//! Where a frame lies in the tree of a page's frames.

use crate::e2e::replies::text_views;
use crate::json::{members_view, text_of, member, Json, JsonView};
use crate::protocol::holds;
use crate::text::same_text;
use vstd::prelude::*;

verus! {

/// The identifier of the frame at the top of a tree.
pub open spec fn own_id(tree: JsonView) -> Option<Seq<char>> {
    match member(tree, "frame"@) {
        Some(frame) => text_of(member(frame, "id"@)),
        None => None,
    }
}

/// The frames from the top of a tree down to the one with that identifier, the
/// first that has it, if there is one. What lies below a frame without an
/// identifier is out of reach.
pub open spec fn frame_path(tree: JsonView, id: Seq<char>) -> Option<Seq<Seq<char>>>
    decreases tree, 1nat,
{
    match (own_id(tree), tree) {
        (Some(own), JsonView::Object(members)) => if own == id {
            Some(seq![own])
        } else if members.dom().finite() && members.contains_key("childFrames"@) {
            match members["childFrames"@] {
                JsonView::Array(children) => match first_path(children, id) {
                    Some(path) => Some(seq![own] + path),
                    None => None,
                },
                _ => None,
            }
        } else {
            None
        },
        _ => None,
    }
}

/// The path to the frame with that identifier in the first tree that has it.
pub open spec fn first_path(trees: Seq<JsonView>, id: Seq<char>) -> Option<Seq<Seq<char>>>
    decreases trees, 0nat,
{
    if trees.len() == 0 {
        None
    } else {
        match frame_path(trees[0], id) {
            Some(path) => Some(path),
            None => first_path(trees.drop_first(), id),
        }
    }
}

proof fn lemma_members_finite(members: Seq<(String, Json)>)
    ensures
        members_view(members).dom().finite(),
    decreases members.len(),
{
    if members.len() > 0 {
        lemma_members_finite(members.drop_last());
    }
}

fn id_of(tree: &Json) -> (r: Option<&str>)
    ensures
        match r {
            Some(own) => own_id(tree@) == Some(own@),
            None => own_id(tree@) is None,
        },
{
    match tree.get("frame") {
        Some(frame) => match frame.get("id") {
            Some(id) => id.as_text(),
            None => None,
        },
        None => None,
    }
}

/// The frames from the top of a tree down to the one with that identifier, if
/// there is one.
pub fn reference_frame_path(tree: &Json, frame_id: &str) -> (r: Option<Vec<String>>)
    ensures
        match r {
            Some(path) => frame_path(tree@, frame_id@) == Some(text_views(path@)),
            None => frame_path(tree@, frame_id@) is None,
        },
    decreases tree@,
{
    let own = match id_of(tree) {
        Some(own) => own,
        None => {
            return None;
        },
    };
    proof {
        match tree {
            Json::Object(members) => lemma_members_finite(members@),
            _ => {},
        }
    }
    let mut path: Vec<String> = Vec::new();
    path.push(own.to_owned());
    assert(text_views(path@) =~= seq![own@]);
    if same_text(own, frame_id) {
        return Some(path);
    }
    let below: &Json = match tree.get("childFrames") {
        Some(below) => below,
        None => {
            return None;
        },
    };
    match below {
        Json::Array(children) => {
            let ghost all = below@->Array_0;
            let n: usize = children.len();
            let mut i: usize = 0;
            assert(all.skip(0) =~= all);
            while i < n
                invariant
                    i <= n,
                    n == children@.len(),
                    n == all.len(),
                    forall|k: int| 0 <= k < n ==> all[k] == #[trigger] children@[k]@,
                    tree@ is Object,
                    tree@->Object_0.dom().finite(),
                    tree@->Object_0.contains_key("childFrames"@),
                    tree@->Object_0["childFrames"@] == below@,
                    below@ == JsonView::Array(all),
                    own_id(tree@) == Some(own@),
                    own@ != frame_id@,
                    text_views(path@) == seq![own@],
                    first_path(all, frame_id@) == first_path(all.skip(i as int), frame_id@),
                decreases n - i,
            {
                assert(decreases_to!(tree@ => tree@->Object_0));
                assert(decreases_to!(tree@->Object_0 => tree@->Object_0["childFrames"@]));
                assert(decreases_to!(below@ => below@->Array_0));
                assert(decreases_to!(all => all[i as int]));
                assert(all.skip(i as int)[0] == all[i as int]);
                assert(all.skip(i as int).drop_first() =~= all.skip(i + 1));
                match reference_frame_path(&children[i], frame_id) {
                    Some(rest) => {
                        let mut rest = rest;
                        let ghost tail = rest@;
                        path.append(&mut rest);
                        assert(text_views(path@) =~= seq![own@] + text_views(tail));
                        return Some(path);
                    },
                    None => {},
                }
                i = i + 1;
            }
            None
        },
        _ => None,
    }
}

/// A path to a frame begins at the top of the tree and ends at the frame.
pub proof fn frame_paths_lead_to_the_frame(tree: JsonView, id: Seq<char>)
    ensures
        frame_path(tree, id) matches Some(path) ==> path.len() > 0 && own_id(tree) == Some(path[0])
            && path.last() == id,
    decreases tree, 1nat,
{
    match (own_id(tree), tree) {
        (Some(own), JsonView::Object(members)) => if own != id && members.dom().finite()
            && members.contains_key("childFrames"@) {
            match members["childFrames"@] {
                JsonView::Array(children) => lemma_first_path(children, id),
                _ => {},
            }
        },
        _ => {},
    }
}

proof fn lemma_first_path(trees: Seq<JsonView>, id: Seq<char>)
    ensures
        first_path(trees, id) matches Some(path) ==> path.len() > 0 && path.last() == id,
    decreases trees, 0nat,
{
    if trees.len() > 0 {
        frame_paths_lead_to_the_frame(trees[0], id);
        lemma_first_path(trees.drop_first(), id);
    }
}

/// The frame at the top of a tree is reached by itself.
pub proof fn a_frame_leads_to_itself(tree: JsonView, frame: JsonView, id: Seq<char>)
    requires
        holds(tree, "frame"@, frame),
        holds(frame, "id"@, JsonView::Text(id)),
    ensures
        frame_path(tree, id) == Some(seq![id]),
{
}

/// Any other frame is reached through the first of the children that have it:
/// the path is the one there, with the frame at the top in front.
pub proof fn children_are_searched_in_order(
    tree: JsonView,
    frame: JsonView,
    own: Seq<char>,
    children: Seq<JsonView>,
    id: Seq<char>,
    k: int,
    path: Seq<Seq<char>>,
)
    requires
        holds(tree, "frame"@, frame),
        holds(frame, "id"@, JsonView::Text(own)),
        own != id,
        tree->Object_0.dom().finite(),
        holds(tree, "childFrames"@, JsonView::Array(children)),
    ensures
        0 <= k < children.len() && frame_path(children[k], id) == Some(path) && (forall|i: int|
            0 <= i < k ==> frame_path(#[trigger] children[i], id) is None) ==> frame_path(tree, id)
            == Some(seq![own] + path),
        (forall|i: int| 0 <= i < children.len() ==> frame_path(#[trigger] children[i], id) is None)
            ==> frame_path(tree, id) is None,
{
    if 0 <= k < children.len() && frame_path(children[k], id) == Some(path) && (forall|i: int|
        0 <= i < k ==> frame_path(#[trigger] children[i], id) is None) {
        lemma_first_of(children, id, k);
    }
    if forall|i: int| 0 <= i < children.len() ==> frame_path(#[trigger] children[i], id) is None {
        lemma_none_of(children, id);
    }
}

proof fn lemma_first_of(trees: Seq<JsonView>, id: Seq<char>, k: int)
    requires
        0 <= k < trees.len(),
        frame_path(trees[k], id) is Some,
        forall|i: int| 0 <= i < k ==> frame_path(#[trigger] trees[i], id) is None,
    ensures
        first_path(trees, id) == frame_path(trees[k], id),
    decreases k,
{
    if k > 0 {
        let rest = trees.drop_first();
        assert(rest[k - 1] == trees[k]);
        assert(frame_path(trees[0], id) is None);
        assert forall|i: int| 0 <= i < k - 1 implies frame_path(#[trigger] rest[i], id) is None by {
            assert(rest[i] == trees[i + 1]);
        }
        lemma_first_of(rest, id, k - 1);
    }
}

proof fn lemma_none_of(trees: Seq<JsonView>, id: Seq<char>)
    requires
        forall|i: int| 0 <= i < trees.len() ==> frame_path(#[trigger] trees[i], id) is None,
    ensures
        first_path(trees, id) is None,
    decreases trees.len(),
{
    if trees.len() > 0 {
        let rest = trees.drop_first();
        assert(frame_path(trees[0], id) is None);
        assert forall|i: int| 0 <= i < rest.len() implies frame_path(#[trigger] rest[i], id) is None by {
            assert(rest[i] == trees[i + 1]);
        }
        lemma_none_of(rest, id);
    }
}

/// Nothing is reached in a tree whose top has no identifier, nor anything else in
/// one that lists no children.
pub proof fn dead_ends(tree: JsonView, id: Seq<char>)
    ensures
        (forall|frame: JsonView, own: Seq<char>|
            #![trigger holds(tree, "frame"@, frame), holds(frame, "id"@, JsonView::Text(own))]
            !(holds(tree, "frame"@, frame) && holds(frame, "id"@, JsonView::Text(own))))
            ==> frame_path(tree, id) is None,
        (forall|children: Seq<JsonView>| !#[trigger]
            holds(tree, "childFrames"@, JsonView::Array(children))) && frame_path(tree, id) is Some
            ==> own_id(tree) == Some(id),
{
    if let Some(own) = own_id(tree) {
        let frame = member(tree, "frame"@)->0;
        assert(holds(tree, "frame"@, frame));
        assert(holds(frame, "id"@, JsonView::Text(own)));
    }
    if let JsonView::Object(members) = tree {
        if members.contains_key("childFrames"@) && members["childFrames"@] is Array {
            let children = members["childFrames"@]->Array_0;
            assert(holds(tree, "childFrames"@, JsonView::Array(children)));
        }
    }
}

} // verus!
