//! Names and files of test runs.

use crate::e2e::replies::text_views;
use crate::text::{decimal, push_decimal, same_text, starts_with};
use vstd::prelude::*;

verus! {

/// The name of a login profile that was made at a moment.
pub open spec fn profile_name(suffix: Seq<char>, nanos: nat) -> Seq<char> {
    "e2e-auth-login-"@ + suffix + "-"@ + decimal(nanos)
}

/// The name of a login profile that was made so many nanoseconds after the
/// start of 1970.
pub fn auth_profile_name(suffix: &str, nanos: u128) -> (r: String)
    ensures
        r@ == profile_name(suffix@, nanos as nat),
{
    let mut name = "e2e-auth-login-".to_owned().concat(suffix).concat("-");
    push_decimal(&mut name, nanos);
    name
}

/// A moment, as `std::time` keeps it.
#[verifier::external_type_specification]
#[verifier::external_body]
pub struct ExSystemTime(std::time::SystemTime);

/// How many nanoseconds a moment lies after the start of 1970, if it does.
pub uninterp spec fn nanos_since_epoch(moment: std::time::SystemTime) -> Option<u128>;

/// `std::time::SystemTime::now`: the present moment. Nothing is claimed of it.
#[verifier::external_body]
fn present_moment() -> (r: std::time::SystemTime) {
    std::time::SystemTime::now()
}

/// `std::time::SystemTime::duration_since` the start of 1970, in nanoseconds:
/// the moment alone decides it, and there is none for an earlier moment.
#[verifier::external_body]
fn since_epoch(moment: &std::time::SystemTime) -> (r: Option<u128>)
    ensures
        r == nanos_since_epoch(*moment),
{
    match moment.duration_since(std::time::UNIX_EPOCH) {
        Ok(since) => Some(since.as_nanos()),
        Err(_) => None,
    }
}

/// The nanoseconds that stand in a name for a moment; there are none for one
/// before 1970.
pub open spec fn named_nanos(since: Option<u128>) -> nat {
    match since {
        Some(nanos) => nanos as nat,
        None => 0,
    }
}

/// The name of a login profile that was made so many nanoseconds after the
/// start of 1970, if it was after that at all.
pub fn auth_profile_name_since(suffix: &str, since: Option<u128>) -> (r: String)
    ensures
        r@ == profile_name(suffix@, named_nanos(since)),
{
    match since {
        Some(nanos) => auth_profile_name(suffix, nanos),
        None => auth_profile_name(suffix, 0),
    }
}

/// A name for a login profile that no earlier run has used: it ends in the
/// moment of its making.
pub fn unique_auth_profile_name(suffix: &str) -> (r: String)
    ensures
        exists|moment: std::time::SystemTime|
            r@ == profile_name(suffix@, named_nanos(#[trigger] nanos_since_epoch(moment))),
{
    let moment = present_moment();
    auth_profile_name_since(suffix, since_epoch(&moment))
}

/// Names that were made at different moments differ.
pub proof fn profile_names_differ(suffix: Seq<char>, a: nat, b: nat)
    requires
        profile_name(suffix, a) == profile_name(suffix, b),
    ensures
        a == b,
{
    let head = "e2e-auth-login-"@ + suffix + "-"@;
    assert(decimal(a) =~= profile_name(suffix, a).skip(head.len() as int));
    assert(decimal(b) =~= profile_name(suffix, b).skip(head.len() as int));
    crate::text::decimal_reads_back(a, a + b);
    crate::text::decimal_reads_back(b, a + b);
}

/// The fixture pages that come as files.
pub open spec fn known_fixture(name: Seq<char>) -> bool {
    ||| name == "drag_probe"@
    ||| name == "html5_drag_probe"@
    ||| name == "pointer_capture_probe"@
    ||| name == "snapshot_diff_probe"@
    ||| name == "upload_probe"@
    ||| name == "webmcp_delayed_probe"@
    ||| name == "webmcp_frame_probe"@
    ||| name == "webmcp_probe"@
    ||| name == "webmcp_context_probe"@
}

/// The file of a fixture page.
pub fn native_test_fixture_path(name: &str) -> (r: String)
    requires
        known_fixture(name@),
    ensures
        r@ == "test_fixtures/"@ + name@ + ".html"@,
{
    "test_fixtures/".to_owned().concat(name).concat(".html")
}

/// The texts of the fixture pages that come as files.
#[derive(Debug, PartialEq)]
pub struct NativeFixtures {
    pub drag_probe: String,
    pub html5_drag_probe: String,
    pub pointer_capture_probe: String,
    pub snapshot_diff_probe: String,
    pub upload_probe: String,
    pub webmcp_delayed_probe: String,
    pub webmcp_frame_probe: String,
    pub webmcp_probe: String,
    pub webmcp_context_probe: String,
}

/// The text of a fixture page.
pub open spec fn fixture_text(fixtures: NativeFixtures, name: Seq<char>) -> Seq<char> {
    if name == "drag_probe"@ {
        fixtures.drag_probe@
    } else if name == "html5_drag_probe"@ {
        fixtures.html5_drag_probe@
    } else if name == "pointer_capture_probe"@ {
        fixtures.pointer_capture_probe@
    } else if name == "snapshot_diff_probe"@ {
        fixtures.snapshot_diff_probe@
    } else if name == "upload_probe"@ {
        fixtures.upload_probe@
    } else if name == "webmcp_delayed_probe"@ {
        fixtures.webmcp_delayed_probe@
    } else if name == "webmcp_frame_probe"@ {
        fixtures.webmcp_frame_probe@
    } else if name == "webmcp_probe"@ {
        fixtures.webmcp_probe@
    } else {
        fixtures.webmcp_context_probe@
    }
}

/// The text of a fixture page.
pub fn native_test_fixture_html<'a>(fixtures: &'a NativeFixtures, name: &str) -> (r: &'a str)
    requires
        known_fixture(name@),
    ensures
        r@ == fixture_text(*fixtures, name@),
{
    if same_text(name, "drag_probe") {
        fixtures.drag_probe.as_str()
    } else if same_text(name, "html5_drag_probe") {
        fixtures.html5_drag_probe.as_str()
    } else if same_text(name, "pointer_capture_probe") {
        fixtures.pointer_capture_probe.as_str()
    } else if same_text(name, "snapshot_diff_probe") {
        fixtures.snapshot_diff_probe.as_str()
    } else if same_text(name, "upload_probe") {
        fixtures.upload_probe.as_str()
    } else if same_text(name, "webmcp_delayed_probe") {
        fixtures.webmcp_delayed_probe.as_str()
    } else if same_text(name, "webmcp_frame_probe") {
        fixtures.webmcp_frame_probe.as_str()
    } else if same_text(name, "webmcp_probe") {
        fixtures.webmcp_probe.as_str()
    } else {
        fixtures.webmcp_context_probe.as_str()
    }
}

/// Of the names of saved states, those of that key, each with its backup.
pub open spec fn states_of_key(names: Seq<Seq<char>>, key: Seq<char>) -> Seq<Seq<char>>
    decreases names.len(),
{
    if names.len() == 0 {
        Seq::empty()
    } else {
        let earlier = states_of_key(names.drop_last(), key);
        if (key + "-"@).is_prefix_of(names.last()) {
            earlier + seq![names.last(), names.last() + ".previous"@]
        } else {
            earlier
        }
    }
}

/// Of the files with saved states, those to remove for a key: its states, each
/// with its backup.
pub fn restore_state_files(names: &Vec<String>, restore_key: &str) -> (r: Vec<String>)
    ensures
        text_views(r@) == states_of_key(text_views(names@), restore_key@),
{
    let prefix = restore_key.to_owned().concat("-");
    let n: usize = names.len();
    let ghost all = text_views(names@);
    let mut found: Vec<String> = Vec::new();
    let mut i: usize = 0;
    assert(all.take(0) =~= Seq::empty());
    assert(text_views(found@) =~= states_of_key(all.take(0), restore_key@));
    while i < n
        invariant
            i <= n,
            n == names@.len(),
            all == text_views(names@),
            prefix@ == restore_key@ + "-"@,
            text_views(found@) == states_of_key(all.take(i as int), restore_key@),
        decreases n - i,
    {
        let name = names[i].as_str();
        assert(all.take(i + 1).drop_last() =~= all.take(i as int));
        assert(all.take(i + 1).last() == name@);
        if starts_with(name, prefix.as_str()) {
            found.push(name.to_owned());
            found.push(name.to_owned().concat(".previous"));
        }
        assert(text_views(found@) =~= states_of_key(all.take(i + 1), restore_key@));
        i = i + 1;
    }
    assert(all.take(n as int) =~= all);
    found
}

/// The binding of a session's tab, from the outcome of loading it: it must be
/// readable and there.
pub fn load_binding<T, E>(loaded: Result<Option<T>, E>) -> (r: T)
    requires
        loaded matches Ok(Some(_)),
    ensures
        loaded == Ok::<Option<T>, E>(Some(r)),
{
    match loaded {
        Ok(Some(binding)) => binding,
        _ => vstd::pervasive::unreached(),
    }
}

/// A profile's name says what it is for and when it was made, so that both read
/// back.
pub proof fn profile_names_say_when(suffix: Seq<char>, nanos: nat)
    ensures
        ({
            let name = profile_name(suffix, nanos);
            let head = "e2e-auth-login-"@ + suffix + "-"@;
            head.is_prefix_of(name) && crate::text::parsed_decimal(
                name.skip(head.len() as int),
                nanos,
            ) == Some(nanos)
        }),
{
    let head = "e2e-auth-login-"@ + suffix + "-"@;
    let name = profile_name(suffix, nanos);
    assert(name =~= head + decimal(nanos));
    assert(name.skip(head.len() as int) =~= decimal(nanos));
    assert(name.subrange(0, head.len() as int) =~= head);
    crate::text::decimal_reads_back(nanos, nanos);
}

/// Of the files with saved states just those whose name is the key, a dash and
/// anything are removed, each with its backup right behind it, in their order.
pub proof fn states_of_a_key_are_removed(names: Seq<Seq<char>>, key: Seq<char>, rest: Seq<char>)
    ensures
        states_of_key(Seq::empty(), key) == Seq::<Seq<char>>::empty(),
        states_of_key(names.push(key + "-"@ + rest), key) == states_of_key(names, key).push(
            key + "-"@ + rest,
        ).push(key + "-"@ + rest + ".previous"@),
{
    let name = key + "-"@ + rest;
    assert(names.push(name).drop_last() =~= names);
    assert(name.subrange(0, (key + "-"@).len() as int) =~= key + "-"@);
    assert(states_of_key(names.push(name), key) =~= states_of_key(names, key).push(name).push(
        name + ".previous"@,
    ));
}

/// Other files are left alone.
pub proof fn other_states_are_left_alone(names: Seq<Seq<char>>, key: Seq<char>, name: Seq<char>)
    requires
        !(key + "-"@).is_prefix_of(name),
    ensures
        states_of_key(names.push(name), key) == states_of_key(names, key),
{
    assert(names.push(name).drop_last() =~= names);
}

/// A moment before 1970 counts as its start.
pub proof fn early_moments_count_as_the_start(nanos: u128)
    ensures
        named_nanos(Some(nanos)) == nanos,
        named_nanos(None) == 0,
{
}

/// Every fixture has its own text.
pub proof fn fixtures_are_told_apart(fixtures: NativeFixtures)
    ensures
        fixture_text(fixtures, "drag_probe"@) == fixtures.drag_probe@,
        fixture_text(fixtures, "html5_drag_probe"@) == fixtures.html5_drag_probe@,
        fixture_text(fixtures, "pointer_capture_probe"@) == fixtures.pointer_capture_probe@,
        fixture_text(fixtures, "snapshot_diff_probe"@) == fixtures.snapshot_diff_probe@,
        fixture_text(fixtures, "upload_probe"@) == fixtures.upload_probe@,
        fixture_text(fixtures, "webmcp_delayed_probe"@) == fixtures.webmcp_delayed_probe@,
        fixture_text(fixtures, "webmcp_frame_probe"@) == fixtures.webmcp_frame_probe@,
        fixture_text(fixtures, "webmcp_probe"@) == fixtures.webmcp_probe@,
        fixture_text(fixtures, "webmcp_context_probe"@) == fixtures.webmcp_context_probe@,
{
    reveal_strlit("drag_probe");
    reveal_strlit("html5_drag_probe");
    reveal_strlit("pointer_capture_probe");
    reveal_strlit("snapshot_diff_probe");
    reveal_strlit("upload_probe");
    reveal_strlit("webmcp_delayed_probe");
    reveal_strlit("webmcp_frame_probe");
    reveal_strlit("webmcp_probe");
    reveal_strlit("webmcp_context_probe");
    assert("drag_probe"@.len() == 10 && "html5_drag_probe"@.len() == 16);
    assert("pointer_capture_probe"@.len() == 21 && "snapshot_diff_probe"@.len() == 19);
    assert("upload_probe"@.len() == 12 && "webmcp_delayed_probe"@.len() == 20);
    assert("webmcp_frame_probe"@.len() == 18 && "webmcp_probe"@.len() == 12);
    assert("webmcp_context_probe"@.len() == 20);
    assert("upload_probe"@[0] == 'u' && "webmcp_probe"@[0] == 'w');
    assert("webmcp_delayed_probe"@[7] == 'd' && "webmcp_context_probe"@[7] == 'c');
}

} // verus!
