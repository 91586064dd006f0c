//! Where a session's daemon is to be found: its directory, and its port where
//! there are no Unix domain sockets.

use crate::scan::{small, small_form};
use crate::text::{chars_of, opt_view, text_of_chars};
use vstd::prelude::*;

verus! {

/// The first port that a session may have.
pub const FIRST_PORT: u16 = 49152;

/// How many ports there are to choose from.
pub const PORT_COUNT: u64 = 16383;

/// The hash of a session name: every character adds its code to 31 times the
/// hash of those before it, in 32 bits.
pub open spec fn session_hash(session: Seq<char>) -> nat
    decreases session.len(),
{
    if session.len() == 0 {
        0
    } else {
        ((31 * session_hash(session.drop_last()) + session.last() as u32) % 0x1_0000_0000) as nat
    }
}

/// The distance from zero of 32 bits that are read as a signed number.
pub open spec fn signed_magnitude(bits: nat) -> nat {
    if bits < 0x8000_0000 {
        bits
    } else {
        (0x1_0000_0000 - bits) as nat
    }
}

/// The port of a session without a namespace.
pub open spec fn session_port(session: Seq<char>) -> nat {
    FIRST_PORT as nat + signed_magnitude(session_hash(session)) % (PORT_COUNT as nat)
}

/// The port of a session without a namespace, where there are no Unix domain
/// sockets. Nothing is said of what a namespace would make of it.
pub fn get_port_for_session(session: &str) -> (r: u16)
    ensures
        r == session_port(session@),
{
    let chars = chars_of(session);
    let n: usize = chars.len();
    let mut hash: u64 = 0;
    let mut i: usize = 0;
    while i < n
        invariant
            i <= n,
            n == chars@.len(),
            hash < 0x1_0000_0000,
            hash == session_hash(chars@.take(i as int)),
        decreases n - i,
    {
        assert(chars@.take(i + 1).drop_last() == chars@.take(i as int));
        let c: char = chars[i];
        hash = (31 * hash + c as u32 as u64) % 0x1_0000_0000;
        i = i + 1;
    }
    assert(chars@.take(n as int) == session@);
    let magnitude: u64 = if hash < 0x8000_0000 {
        hash
    } else {
        0x1_0000_0000 - hash
    };
    FIRST_PORT + (magnitude % PORT_COUNT) as u16
}

/// Every session's port is one that the system leaves to programs.
pub proof fn session_port_is_dynamic(session: Seq<char>)
    ensures
        49152 <= session_port(session) <= 65534,
{
}

/// Whether `c` is an ASCII letter or digit.
pub open spec fn ascii_alphanumeric(c: char) -> bool {
    'a' <= c <= 'z' || 'A' <= c <= 'Z' || '0' <= c <= '9'
}

/// The words of a name in lower case, with one dash behind each but for those
/// at the front: a word is a run of ASCII letters and digits.
pub open spec fn dashed_words(name: Seq<char>) -> Seq<char>
    decreases name.len(),
{
    if name.len() == 0 {
        Seq::empty()
    } else {
        let before = dashed_words(name.drop_last());
        let c = name.last();
        if ascii_alphanumeric(c) {
            before.push(small(c))
        } else if before.len() > 0 && before.last() != '-' {
            before.push('-')
        } else {
            before
        }
    }
}

/// The directory name that stands for a namespace: its words in lower case,
/// with dashes between them.
pub open spec fn namespace_slug(name: Seq<char>) -> Seq<char> {
    let dashed = dashed_words(name);
    if dashed.len() > 0 && dashed.last() == '-' {
        dashed.drop_last()
    } else {
        dashed
    }
}

/// The directory name that stands for a namespace.
pub fn slug_of_namespace(name: &str) -> (r: String)
    ensures
        r@ == namespace_slug(name@),
{
    let chars = chars_of(name);
    let n: usize = chars.len();
    let mut dashed: Vec<char> = Vec::new();
    let mut i: usize = 0;
    while i < n
        invariant
            i <= n,
            n == chars@.len(),
            dashed@ == dashed_words(chars@.take(i as int)),
        decreases n - i,
    {
        assert(chars@.take(i + 1).drop_last() == chars@.take(i as int));
        let c: char = chars[i];
        if ('a' <= c && c <= 'z') || ('A' <= c && c <= 'Z') || ('0' <= c && c <= '9') {
            dashed.push(small_form(c));
        } else if dashed.len() > 0 && dashed[dashed.len() - 1] != '-' {
            dashed.push('-');
        }
        i = i + 1;
    }
    assert(chars@.take(n as int) == name@);
    if dashed.len() > 0 && dashed[dashed.len() - 1] == '-' {
        dashed.pop();
    }
    text_of_chars(&dashed)
}

/// A text that is there and not empty.
pub open spec fn given(text: Option<Seq<char>>) -> Option<Seq<char>> {
    match text {
        Some(s) => if s.len() > 0 {
            Some(s)
        } else {
            None
        },
        None => None,
    }
}

/// The directory of the daemons without a namespace.
pub open spec fn base_dir(
    socket_dir: Option<Seq<char>>,
    runtime_dir: Option<Seq<char>>,
    home: Option<Seq<char>>,
    temp: Seq<char>,
) -> Seq<char> {
    match (given(socket_dir), given(runtime_dir), home) {
        (Some(dir), _, _) => dir,
        (None, Some(dir), _) => dir + "/agent-browser"@,
        (None, None, Some(dir)) => dir + "/.agent-browser"@,
        (None, None, None) => temp + "/agent-browser"@,
    }
}

/// The directory of a namespace's daemons below that of all daemons.
pub open spec fn namespaced(base: Seq<char>, namespace: Option<Seq<char>>) -> Seq<char> {
    match namespace {
        Some(name) => if namespace_slug(name).len() > 0 {
            base + "/namespaces/"@ + namespace_slug(name) + "/run"@
        } else {
            base
        },
        None => base,
    }
}

fn base_directory(
    socket_dir: Option<String>,
    runtime_dir: Option<String>,
    home: Option<String>,
    temp: &str,
) -> (r: String)
    ensures
        r@ == base_dir(opt_view(socket_dir), opt_view(runtime_dir), opt_view(home), temp@),
{
    match socket_dir {
        Some(dir) => if !dir.as_str().is_empty() {
            return dir;
        },
        None => {},
    }
    match runtime_dir {
        Some(dir) => if !dir.as_str().is_empty() {
            return dir.concat("/agent-browser");
        },
        None => {},
    }
    match home {
        Some(dir) => dir.concat("/.agent-browser"),
        None => temp.to_owned().concat("/agent-browser"),
    }
}

/// The directory that holds a daemon's socket and its other files: the one that
/// AGENT_BROWSER_SOCKET_DIR names, else one below XDG_RUNTIME_DIR, the home
/// directory or the directory for temporary files; and below that one of its
/// own for each AGENT_BROWSER_NAMESPACE. Client and daemon find it alike.
pub fn get_daemon_socket_dir(
    socket_dir: Option<String>,
    runtime_dir: Option<String>,
    namespace: Option<String>,
    home: Option<String>,
    temp: &str,
) -> (r: String)
    ensures
        r@ == namespaced(
            base_dir(opt_view(socket_dir), opt_view(runtime_dir), opt_view(home), temp@),
            opt_view(namespace),
        ),
{
    let base = base_directory(socket_dir, runtime_dir, home, temp);
    match namespace {
        Some(name) => {
            let slug = slug_of_namespace(name.as_str());
            if slug.as_str().is_empty() {
                base
            } else {
                base.concat("/namespaces/").concat(slug.as_str()).concat("/run")
            }
        },
        None => base,
    }
}

/// 31 to that power.
pub open spec fn power_of_31(n: nat) -> nat
    decreases n,
{
    if n == 0 {
        1
    } else {
        31 * power_of_31((n - 1) as nat)
    }
}

/// The codes of the characters, each times 31 to the number of those behind it,
/// in one sum.
pub open spec fn weighted_codes(s: Seq<char>) -> nat
    decreases s.len(),
{
    if s.len() == 0 {
        0
    } else {
        s[0] as u32 as nat * power_of_31((s.len() - 1) as nat) + weighted_codes(s.drop_first())
    }
}

proof fn lemma_weighted_back(s: Seq<char>)
    requires
        s.len() > 0,
    ensures
        weighted_codes(s) == 31 * weighted_codes(s.drop_last()) + s.last() as u32 as nat,
    decreases s.len(),
{
    let n = s.len();
    if n == 1 {
        assert(s.drop_first() =~= Seq::empty());
        assert(s.drop_last() =~= Seq::empty());
        assert(power_of_31(0) == 1);
        assert(s[0] as u32 as nat * 1 == s[0] as u32 as nat);
    } else {
        let rest = s.drop_first();
        lemma_weighted_back(rest);
        assert(rest.drop_last() =~= s.drop_last().drop_first());
        assert(s.drop_last()[0] == s[0]);
        let code = s[0] as u32 as nat;
        let less = power_of_31((n - 2) as nat);
        assert(power_of_31((n - 1) as nat) == 31 * less);
        assert(code * (31 * less) == 31 * (code * less)) by (nonlinear_arith);
    }
}

/// The port of a session is found by the sum of its characters' codes, weighted
/// by powers of 31: its low 32 bits, taken as a signed number and without its
/// sign, choose among the 16383 ports from 49152 on.
pub proof fn session_ports_are_hashes(session: Seq<char>)
    ensures
        ({
            let bits = weighted_codes(session) as int % 0x1_0000_0000;
            let signed = if bits >= 0x8000_0000 {
                bits - 0x1_0000_0000
            } else {
                bits
            };
            let distance = if signed < 0 {
                -signed
            } else {
                signed
            };
            session_port(session) == 49152 + distance % 16383
        }),
{
    lemma_hash_is_weighted(session);
}

proof fn lemma_hash_is_weighted(s: Seq<char>)
    ensures
        session_hash(s) as int == weighted_codes(s) as int % 0x1_0000_0000,
    decreases s.len(),
{
    if s.len() > 0 {
        lemma_hash_is_weighted(s.drop_last());
        lemma_weighted_back(s);
        let w = weighted_codes(s.drop_last()) as int;
        let c = s.last() as u32 as int;
        assert((31 * (w % 0x1_0000_0000) + c) % 0x1_0000_0000 == (31 * w + c) % 0x1_0000_0000);
        assert(session_hash(s) as int == (31 * (w % 0x1_0000_0000) + c) % 0x1_0000_0000);
        assert(weighted_codes(s) as int == 31 * w + c);
    }
}

/// A text with its ASCII letters in their small form.
pub open spec fn in_small(s: Seq<char>) -> Seq<char> {
    s.map_values(|c: char| small(c))
}

/// Whether a text holds nothing but ASCII letters and digits.
pub open spec fn is_word(s: Seq<char>) -> bool {
    forall|i: int| 0 <= i < s.len() ==> ascii_alphanumeric(#[trigger] s[i])
}

/// Whether a text holds no ASCII letter or digit.
pub open spec fn is_gap(s: Seq<char>) -> bool {
    forall|i: int| 0 <= i < s.len() ==> !ascii_alphanumeric(#[trigger] s[i])
}

proof fn lemma_dashed_gap(gap: Seq<char>, rest: Seq<char>)
    requires
        is_gap(gap),
    ensures
        dashed_words(gap + rest) == dashed_words(rest),
    decreases rest.len(), gap.len(),
{
    if rest.len() > 0 {
        assert((gap + rest).drop_last() =~= gap + rest.drop_last());
        lemma_dashed_gap(gap, rest.drop_last());
    } else if gap.len() > 0 {
        assert((gap + rest).drop_last() =~= gap.drop_last() + rest);
        assert((gap + rest).last() == gap.last());
        lemma_dashed_gap(gap.drop_last(), rest);
    } else {
        assert(gap + rest =~= rest);
    }
}

proof fn lemma_dashed_word(word: Seq<char>)
    requires
        is_word(word),
    ensures
        dashed_words(word) == in_small(word),
    decreases word.len(),
{
    if word.len() > 0 {
        lemma_dashed_word(word.drop_last());
        assert(in_small(word) =~= in_small(word.drop_last()).push(small(word.last())));
    } else {
        assert(in_small(word) =~= Seq::empty());
    }
}

proof fn lemma_dashed_joined(word: Seq<char>, gap: Seq<char>, rest: Seq<char>)
    requires
        is_word(word),
        word.len() > 0,
        is_gap(gap),
        gap.len() > 0,
    ensures
        dashed_words(word + gap + rest) == in_small(word).push('-') + dashed_words(rest),
    decreases rest.len(), gap.len(),
{
    let whole = word + gap + rest;
    let head = in_small(word).push('-');
    if rest.len() > 0 {
        assert(whole.drop_last() =~= word + gap + rest.drop_last());
        lemma_dashed_joined(word, gap, rest.drop_last());
        let tail = dashed_words(rest.drop_last());
        assert((head + tail).len() > 0);
        if tail.len() > 0 {
            assert((head + tail).last() == tail.last());
        } else {
            assert((head + tail).last() == '-');
        }
        assert(dashed_words(whole) =~= head + dashed_words(rest));
    } else {
        assert(dashed_words(rest) =~= Seq::empty());
        assert(whole.last() == gap.last());
        if gap.len() == 1 {
            assert(whole.drop_last() =~= word);
            lemma_dashed_word(word);
            assert(ascii_alphanumeric(word[word.len() - 1]));
            assert(in_small(word).last() == small(word.last()));
            assert(dashed_words(whole) =~= head + dashed_words(rest));
        } else {
            assert(whole.drop_last() =~= word + gap.drop_last() + rest);
            lemma_dashed_joined(word, gap.drop_last(), rest);
            assert((head + dashed_words(rest)) =~= head);
            assert(dashed_words(whole) =~= head + dashed_words(rest));
        }
    }
}

proof fn lemma_no_dash_in_front(s: Seq<char>)
    ensures
        dashed_words(s).len() > 0 ==> dashed_words(s)[0] != '-',
    decreases s.len(),
{
    if s.len() > 0 {
        lemma_no_dash_in_front(s.drop_last());
    }
}

/// A word stands for itself in small letters, and what comes before the first
/// word of a namespace does not count.
pub proof fn words_name_themselves(gap: Seq<char>, word: Seq<char>, rest: Seq<char>)
    requires
        is_gap(gap),
        is_word(word),
    ensures
        namespace_slug(word) == in_small(word),
        namespace_slug(gap + rest) == namespace_slug(rest),
{
    lemma_dashed_word(word);
    lemma_dashed_gap(gap, rest);
    if word.len() > 0 {
        assert(ascii_alphanumeric(word[word.len() - 1]));
        assert(in_small(word).last() == small(word.last()));
    }
}

/// Between two words of a namespace there is one dash, whatever lies between
/// them, and behind the last there is none.
pub proof fn words_are_joined_by_dashes(word: Seq<char>, gap: Seq<char>, rest: Seq<char>)
    requires
        is_word(word),
        word.len() > 0,
        is_gap(gap),
        gap.len() > 0,
    ensures
        namespace_slug(word + gap + rest) == if namespace_slug(rest).len() > 0 {
            in_small(word) + "-"@ + namespace_slug(rest)
        } else {
            in_small(word)
        },
{
    lemma_dashed_joined(word, gap, rest);
    lemma_no_dash_in_front(rest);
    reveal_strlit("-");
    let head = in_small(word).push('-');
    let tail = dashed_words(rest);
    if tail.len() == 0 {
        assert((head + tail) =~= head);
        assert((head + tail).drop_last() =~= in_small(word));
    } else {
        assert((head + tail).last() == tail.last());
        assert((head + tail).drop_last() =~= head + tail.drop_last());
        assert(head =~= in_small(word) + "-"@);
    }
}

/// Letters become small ones by their place in the alphabet, and nothing else
/// changes.
pub proof fn small_letters_keep_their_place(c: char)
    ensures
        'A' <= c <= 'Z' ==> 'a' <= small(c) <= 'z' && small(c) as int - 'a' as int == c as int
            - 'A' as int,
        !('A' <= c <= 'Z') ==> small(c) == c,
{
}

/// Where the daemons are: where they are told to be, if they are told anything;
/// else below the directory for running programs, if that is given; else in the
/// home directory; else among the temporary files.
pub proof fn directories_come_in_order(
    told: Seq<char>,
    runtime: Seq<char>,
    any: Option<Seq<char>>,
    home: Seq<char>,
    any_home: Option<Seq<char>>,
    temp: Seq<char>,
    none: Option<Seq<char>>,
    nothing: Option<Seq<char>>,
)
    requires
        told.len() > 0,
        runtime.len() > 0,
        none matches Some(text) ==> text.len() == 0,
        nothing matches Some(text) ==> text.len() == 0,
    ensures
        base_dir(Some(told), any, any_home, temp) == told,
        base_dir(none, Some(runtime), any_home, temp) == runtime + "/agent-browser"@,
        base_dir(none, nothing, Some(home), temp) == home + "/.agent-browser"@,
        base_dir(none, nothing, None, temp) == temp + "/agent-browser"@,
{
}

/// The daemons of a namespace are in a directory of their own below that; those
/// without one, or with one that has no word in it, are in that itself.
pub proof fn namespaces_have_directories(base: Seq<char>, name: Seq<char>, gap: Seq<char>)
    requires
        is_gap(gap),
    ensures
        namespaced(base, None) == base,
        namespaced(base, Some(gap)) == base,
        namespace_slug(name).len() > 0 ==> namespaced(base, Some(name)) == base + "/namespaces/"@
            + namespace_slug(name) + "/run"@,
{
    words_name_themselves(gap, Seq::empty(), Seq::empty());
    assert(gap + Seq::<char>::empty() =~= gap);
    assert(in_small(Seq::empty()) =~= Seq::empty());
}

} // verus!
