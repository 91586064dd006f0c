//! The pages that end-to-end runs visit.

use crate::e2e::markup::{
    BRANCH, BUILTIN_CONTROLS, CHILD_OVERLAY, CLICK_CHILD, CLICK_PARENT, CROSS_COMMON, CROSS_LEAF,
    CROSS_ROOT, DELAYED_LOGIN, PARENT_OVERLAY, RELATIONSHIP_PARENT, SHADOW_COMMON,
    SHADOW_DIALOG_OVERLAY, SHADOW_FRAME_OVERLAY, SHADOW_LEAF, SHADOW_ROOT,
};
use crate::e2e::template::{field_views, fill, filled};
use crate::scan::{replace_all, replaced};
use crate::text::{decimal, decimal_text, push_decimal};
use vstd::prelude::*;

verus! {

/// How the document in a frame is related to the page around it.
#[derive(Clone, Copy, Debug, PartialEq, Eq, Structural)]
pub enum Topology {
    /// Of the same origin.
    SameOrigin,
    /// Of another origin, but in the same browser session.
    SameSession,
    /// Of another site, in a process of its own.
    Oopif,
}

/// What covers the pages of a click.
#[derive(Clone, Copy, Debug, PartialEq, Eq, Structural)]
pub enum Cover {
    Nothing,
    /// The target inside the frame is covered.
    Child,
    /// The whole page is covered.
    Parent,
}

/// The origin of a page that is served on this machine.
pub open spec fn localhost(port: nat) -> Seq<char> {
    "http://localhost:"@ + decimal(port)
}

/// The origin of a page that is served on this machine.
pub fn localhost_origin(port: u16) -> (r: String)
    ensures
        r@ == localhost(port as nat),
{
    let mut origin = "http://localhost:".to_owned();
    push_decimal(&mut origin, port as u128);
    origin
}

/// The address of this machine by number, which is another site than its name.
pub open spec fn loopback(port: nat) -> Seq<char> {
    "http://127.0.0.1:"@ + decimal(port)
}

/// The address of this machine by number, which is another site than its name.
pub fn loopback_origin(port: u16) -> (r: String)
    ensures
        r@ == loopback(port as nat),
{
    let mut origin = "http://127.0.0.1:".to_owned();
    push_decimal(&mut origin, port as u128);
    origin
}

/// Where the document in the frame comes from.
pub open spec fn child_url(topology: Topology, port: nat, child_port: nat) -> Seq<char> {
    match topology {
        Topology::SameOrigin => localhost(port) + "/child"@,
        Topology::SameSession => localhost(child_port) + "/child"@,
        Topology::Oopif => loopback(child_port) + "/child"@,
    }
}

/// Where the document in the frame comes from, on a page that is served on
/// `port`, with another server on `child_port`.
pub fn child_frame_url(topology: Topology, port: u16, child_port: u16) -> (r: String)
    ensures
        r@ == child_url(topology, port as nat, child_port as nat),
{
    match topology {
        Topology::SameOrigin => localhost_origin(port).concat("/child"),
        Topology::SameSession => localhost_origin(child_port).concat("/child"),
        Topology::Oopif => loopback_origin(child_port).concat("/child"),
    }
}

/// The page in the frame of a click.
pub open spec fn click_child(cover: Cover) -> Seq<char> {
    let overlay = if cover == Cover::Child {
        CHILD_OVERLAY@
    } else {
        ""@
    };
    filled(CLICK_CHILD@, seq![("{child_overlay}"@, overlay)])
}

/// The page in the frame of a click.
pub fn click_child_page(cover: Cover) -> (r: String)
    ensures
        r@ == click_child(cover),
{
    let overlay = if cover == Cover::Child {
        CHILD_OVERLAY
    } else {
        ""
    };
    let mut fields: Vec<(&str, &str)> = Vec::new();
    fields.push(("{child_overlay}", overlay));
    assert(field_views(fields@) =~= seq![("{child_overlay}"@, overlay@)]);
    fill(CLICK_CHILD, &fields)
}

/// The page around the frame of a click.
pub open spec fn click_parent(child: Seq<char>, transform: Seq<char>, cover: Cover) -> Seq<char> {
    let overlay = if cover == Cover::Parent {
        PARENT_OVERLAY@
    } else {
        ""@
    };
    filled(
        CLICK_PARENT@,
        seq![
            ("{child_url}"@, child),
            ("{transform}"@, transform),
            ("{parent_overlay}"@, overlay),
        ],
    )
}

/// The page around the frame of a click; the frame shows `child`, put into
/// place by `transform`.
pub fn click_parent_page(child: &str, transform: &str, cover: Cover) -> (r: String)
    ensures
        r@ == click_parent(child@, transform@, cover),
{
    let overlay = if cover == Cover::Parent {
        PARENT_OVERLAY
    } else {
        ""
    };
    let mut fields: Vec<(&str, &str)> = Vec::new();
    fields.push(("{child_url}", child));
    fields.push(("{transform}", transform));
    fields.push(("{parent_overlay}", overlay));
    assert(field_views(fields@) =~= seq![
        ("{child_url}"@, child@),
        ("{transform}"@, transform@),
        ("{parent_overlay}"@, overlay@),
    ]);
    fill(CLICK_PARENT, &fields)
}

/// A login form that appears late.
pub open spec fn delayed_login(render_delay_ms: nat, ping_interval_ms: nat) -> Seq<char> {
    filled(
        DELAYED_LOGIN@,
        seq![
            ("{ping_interval_ms}"@, decimal(ping_interval_ms)),
            ("{render_delay_ms}"@, decimal(render_delay_ms)),
        ],
    )
}

/// A login form that appears after `render_delay_ms`, on a page that fetches
/// something every `ping_interval_ms`.
pub fn delayed_login_page(render_delay_ms: u64, ping_interval_ms: u64) -> (r: String)
    ensures
        r@ == delayed_login(render_delay_ms as nat, ping_interval_ms as nat),
{
    let ping = decimal_text(ping_interval_ms as u128);
    let render = decimal_text(render_delay_ms as u128);
    let mut fields: Vec<(&str, &str)> = Vec::new();
    fields.push(("{ping_interval_ms}", ping.as_str()));
    fields.push(("{render_delay_ms}", render.as_str()));
    assert(field_views(fields@) =~= seq![
        ("{ping_interval_ms}"@, ping@),
        ("{render_delay_ms}"@, render@),
    ]);
    fill(DELAYED_LOGIN, &fields)
}

/// Frames inside other controls, and one above another.
pub open spec fn relationships(child: Seq<char>) -> Seq<char> {
    filled(RELATIONSHIP_PARENT@, seq![("{child_url}"@, child)])
}

/// Frames inside other controls, and one above another; each shows `child`.
pub fn relationship_page(child: &str) -> (r: String)
    ensures
        r@ == relationships(child@),
{
    let mut fields: Vec<(&str, &str)> = Vec::new();
    fields.push(("{child_url}", child));
    assert(field_views(fields@) =~= seq![("{child_url}"@, child@)]);
    fill(RELATIONSHIP_PARENT, &fields)
}

/// The controls inside built-in elements of that kind.
pub open spec fn builtin_controls(kind: Seq<char>) -> Seq<char> {
    replaced(BUILTIN_CONTROLS@, "BUILTIN_KIND"@, kind)
}

/// The controls inside built-in elements of that kind.
pub fn builtin_page(kind: &str) -> (r: String)
    ensures
        r@ == builtin_controls(kind@),
{
    proof {
        reveal_strlit("BUILTIN_KIND");
    }
    replace_all(BUILTIN_CONTROLS, "BUILTIN_KIND", kind)
}

/// The word for a truth value in a script.
pub open spec fn truth_word(b: bool) -> Seq<char> {
    if b {
        "true"@
    } else {
        "false"@
    }
}

fn word_of_truth(b: bool) -> (r: &'static str)
    ensures
        r@ == truth_word(b),
{
    if b {
        "true"
    } else {
        "false"
    }
}

/// A page at the end of a branch.
pub open spec fn leaf(template: Seq<char>, name: Seq<char>, label: Seq<char>) -> Seq<char> {
    filled(template, seq![("{name}"@, name), ("{label}"@, label)])
}

fn leaf_page(template: &str, name: &str, label: &str) -> (r: String)
    ensures
        r@ == leaf(template@, name@, label@),
{
    let mut fields: Vec<(&str, &str)> = Vec::new();
    fields.push(("{name}", name));
    fields.push(("{label}", label));
    assert(field_views(fields@) =~= seq![("{name}"@, name@), ("{label}"@, label@)]);
    fill(template, &fields)
}

/// A page that holds nothing but the end of its branch.
pub open spec fn branch(name: Seq<char>, leaf_origin: Seq<char>) -> Seq<char> {
    filled(BRANCH@, seq![("{name}"@, name), ("{leaf_origin}"@, leaf_origin)])
}

fn branch_page(name: &str, leaf_origin: &str) -> (r: String)
    ensures
        r@ == branch(name@, leaf_origin@),
{
    let mut fields: Vec<(&str, &str)> = Vec::new();
    fields.push(("{name}", name));
    fields.push(("{leaf_origin}", leaf_origin));
    assert(field_views(fields@) =~= seq![("{name}"@, name@), ("{leaf_origin}"@, leaf_origin@)]);
    fill(BRANCH, &fields)
}

/// A page by the path that it is found under.
pub type PageView = (Seq<char>, Seq<char>);

/// The pages of a list.
pub open spec fn page_views(pages: Seq<(String, String)>) -> Seq<PageView> {
    pages.map_values(|page: (String, String)| (page.0@, page.1@))
}

/// The origin of the pages on the other side.
pub open spec fn other_side(topology: Topology, port: nat, other_port: nat) -> Seq<char> {
    if topology == Topology::SameOrigin {
        localhost(port)
    } else {
        localhost(other_port)
    }
}

fn other_origin(topology: Topology, port: u16, other_port: u16) -> (r: String)
    ensures
        r@ == other_side(topology, port as nat, other_port as nat),
{
    if topology == Topology::SameOrigin {
        localhost_origin(port)
    } else {
        localhost_origin(other_port)
    }
}

/// Two branches of frames under one embedded document: the target in one, what
/// covers it in the other. For cousins, both lie one level deeper, and across
/// origins their ends have changed sides.
pub open spec fn cross_branch(topology: Topology, cousins: bool, port: nat, other_port: nat) -> Seq<
    PageView,
> {
    let origin = localhost(port);
    let other = other_side(topology, port, other_port);
    let target_url = if cousins {
        origin + "/target-branch"@
    } else {
        origin + "/target-leaf"@
    };
    let overlay_url = if cousins {
        other + "/overlay-branch"@
    } else {
        other + "/overlay-leaf"@
    };
    seq![
        ("/"@, replaced(CROSS_ROOT@, "__COUSINS__"@, truth_word(cousins))),
        (
            "/common"@,
            filled(
                CROSS_COMMON@,
                seq![("{target_url}"@, target_url), ("{overlay_url}"@, overlay_url)],
            ),
        ),
        ("/target-leaf"@, leaf(CROSS_LEAF@, "target"@, "Cross branch target"@)),
        ("/target-branch"@, branch("target"@, other)),
        ("/overlay-leaf"@, leaf(CROSS_LEAF@, "overlay"@, "Cross branch overlay"@)),
        ("/overlay-branch"@, branch("overlay"@, origin)),
    ]
}

/// Two branches of frames under one embedded document, served on `port` and
/// `other_port` alike.
pub fn cross_branch_pages(topology: Topology, cousins: bool, port: u16, other_port: u16) -> (r: Vec<
    (String, String),
>)
    ensures
        page_views(r@) == cross_branch(topology, cousins, port as nat, other_port as nat),
{
    proof {
        reveal_strlit("__COUSINS__");
    }
    let origin = localhost_origin(port);
    let other = other_origin(topology, port, other_port);
    let target_url = origin.as_str().to_owned().concat(
        if cousins {
            "/target-branch"
        } else {
            "/target-leaf"
        },
    );
    let overlay_url = other.as_str().to_owned().concat(
        if cousins {
            "/overlay-branch"
        } else {
            "/overlay-leaf"
        },
    );
    let mut fields: Vec<(&str, &str)> = Vec::new();
    fields.push(("{target_url}", target_url.as_str()));
    fields.push(("{overlay_url}", overlay_url.as_str()));
    assert(field_views(fields@) =~= seq![
        ("{target_url}"@, target_url@),
        ("{overlay_url}"@, overlay_url@),
    ]);
    let mut pages: Vec<(String, String)> = Vec::new();
    pages.push(
        ("/".to_owned(), replace_all(CROSS_ROOT, "__COUSINS__", word_of_truth(cousins))),
    );
    pages.push(("/common".to_owned(), fill(CROSS_COMMON, &fields)));
    pages.push(
        ("/target-leaf".to_owned(), leaf_page(CROSS_LEAF, "target", "Cross branch target")),
    );
    pages.push(("/target-branch".to_owned(), branch_page("target", other.as_str())));
    pages.push(
        ("/overlay-leaf".to_owned(), leaf_page(CROSS_LEAF, "overlay", "Cross branch overlay")),
    );
    pages.push(("/overlay-branch".to_owned(), branch_page("overlay", origin.as_str())));
    assert(page_views(pages@) =~= cross_branch(
        topology,
        cousins,
        port as nat,
        other_port as nat,
    ));
    pages
}

/// How a shell lets scripts look inside.
#[derive(Clone, Copy, Debug, PartialEq, Eq, Structural)]
pub enum ShadowMode {
    Open,
    Closed,
}

/// The word for how a shell lets scripts look inside.
pub open spec fn mode_name(mode: ShadowMode) -> Seq<char> {
    match mode {
        ShadowMode::Open => "open"@,
        ShadowMode::Closed => "closed"@,
    }
}

/// The word for how a shell lets scripts look inside.
pub fn mode_word(mode: ShadowMode) -> (r: &'static str)
    ensures
        r@ == mode_name(mode),
{
    match mode {
        ShadowMode::Open => "open",
        ShadowMode::Closed => "closed",
    }
}

/// The document with the shared shell.
pub open spec fn shadow_common(
    mode: ShadowMode,
    frame_overlay: bool,
    cousins: bool,
    target_url: Seq<char>,
    overlay_url: Seq<char>,
) -> Seq<char> {
    let overlay = if frame_overlay {
        filled(SHADOW_FRAME_OVERLAY@, seq![("{overlay_url}"@, overlay_url)])
    } else {
        SHADOW_DIALOG_OVERLAY@
    };
    let overlay_id = if frame_overlay {
        "chat-frame"@
    } else {
        "consent"@
    };
    filled(
        SHADOW_COMMON@,
        seq![
            ("{cousins}"@, truth_word(cousins)),
            ("{mode}"@, mode_name(mode)),
            ("{target_url}"@, target_url),
            ("{overlay}"@, overlay),
            ("{overlay_id}"@, overlay_id),
            ("{frame_overlay}"@, truth_word(frame_overlay)),
        ],
    )
}

fn shadow_common_page(
    mode: ShadowMode,
    frame_overlay: bool,
    cousins: bool,
    target_url: &str,
    overlay_url: &str,
) -> (r: String)
    ensures
        r@ == shadow_common(mode, frame_overlay, cousins, target_url@, overlay_url@),
{
    let overlay = if frame_overlay {
        let mut inner: Vec<(&str, &str)> = Vec::new();
        inner.push(("{overlay_url}", overlay_url));
        assert(field_views(inner@) =~= seq![("{overlay_url}"@, overlay_url@)]);
        fill(SHADOW_FRAME_OVERLAY, &inner)
    } else {
        SHADOW_DIALOG_OVERLAY.to_owned()
    };
    let overlay_id = if frame_overlay {
        "chat-frame"
    } else {
        "consent"
    };
    let mut fields: Vec<(&str, &str)> = Vec::new();
    fields.push(("{cousins}", word_of_truth(cousins)));
    fields.push(("{mode}", mode_word(mode)));
    fields.push(("{target_url}", target_url));
    fields.push(("{overlay}", overlay.as_str()));
    fields.push(("{overlay_id}", overlay_id));
    fields.push(("{frame_overlay}", word_of_truth(frame_overlay)));
    assert(field_views(fields@) =~= seq![
        ("{cousins}"@, truth_word(cousins)),
        ("{mode}"@, mode_name(mode)),
        ("{target_url}"@, target_url@),
        ("{overlay}"@, overlay@),
        ("{overlay_id}"@, overlay_id@),
        ("{frame_overlay}"@, truth_word(frame_overlay)),
    ]);
    fill(SHADOW_COMMON, &fields)
}

/// A target in a frame inside a shell, and what covers it inside the same
/// shell: another frame, or a dialog. For cousins both frames hold another.
pub open spec fn shadow_frame(
    topology: Topology,
    mode: ShadowMode,
    frame_overlay: bool,
    cousins: bool,
    port: nat,
    other_port: nat,
) -> Seq<PageView> {
    let origin = localhost(port);
    let leaf_origin = other_side(topology, port, other_port);
    let target_url = if cousins {
        origin + "/target-branch"@
    } else {
        leaf_origin + "/target-leaf"@
    };
    let overlay_url = if cousins {
        origin + "/overlay-branch"@
    } else {
        leaf_origin + "/overlay-leaf"@
    };
    seq![
        ("/"@, SHADOW_ROOT@),
        ("/common"@, shadow_common(mode, frame_overlay, cousins, target_url, overlay_url)),
        ("/target-leaf"@, leaf(SHADOW_LEAF@, "target"@, "Shared shell target"@)),
        ("/target-branch"@, branch("target"@, leaf_origin)),
        ("/overlay-leaf"@, leaf(SHADOW_LEAF@, "overlay"@, "Shared shell chat"@)),
        ("/overlay-branch"@, branch("overlay"@, leaf_origin)),
    ]
}

/// A target in a frame inside a shell, and what covers it inside the same
/// shell, served on `port` and `other_port` alike.
pub fn shadow_frame_pages(
    topology: Topology,
    mode: ShadowMode,
    frame_overlay: bool,
    cousins: bool,
    port: u16,
    other_port: u16,
) -> (r: Vec<(String, String)>)
    ensures
        page_views(r@) == shadow_frame(
            topology,
            mode,
            frame_overlay,
            cousins,
            port as nat,
            other_port as nat,
        ),
{
    let origin = localhost_origin(port);
    let leaf_origin = other_origin(topology, port, other_port);
    let target_url = if cousins {
        origin.as_str().to_owned().concat("/target-branch")
    } else {
        leaf_origin.as_str().to_owned().concat("/target-leaf")
    };
    let overlay_url = if cousins {
        origin.as_str().to_owned().concat("/overlay-branch")
    } else {
        leaf_origin.as_str().to_owned().concat("/overlay-leaf")
    };
    let mut pages: Vec<(String, String)> = Vec::new();
    pages.push(("/".to_owned(), SHADOW_ROOT.to_owned()));
    pages.push(
        (
            "/common".to_owned(),
            shadow_common_page(
                mode,
                frame_overlay,
                cousins,
                target_url.as_str(),
                overlay_url.as_str(),
            ),
        ),
    );
    pages.push(
        ("/target-leaf".to_owned(), leaf_page(SHADOW_LEAF, "target", "Shared shell target")),
    );
    pages.push(("/target-branch".to_owned(), branch_page("target", leaf_origin.as_str())));
    pages.push(
        ("/overlay-leaf".to_owned(), leaf_page(SHADOW_LEAF, "overlay", "Shared shell chat")),
    );
    pages.push(("/overlay-branch".to_owned(), branch_page("overlay", leaf_origin.as_str())));
    assert(page_views(pages@) =~= shadow_frame(
        topology,
        mode,
        frame_overlay,
        cousins,
        port as nat,
        other_port as nat,
    ));
    pages
}

/// Where a frame's document comes from: for one origin, from the page's own port;
/// for one session, from the other port under the same name; for a site of its
/// own, from the other port of the machine by its number. The path is the same.
pub proof fn frames_come_from_their_topology(port: nat, child_port: nat)
    ensures
        child_url(Topology::SameOrigin, port, child_port) == "http://localhost:"@ + decimal(port)
            + "/child"@,
        child_url(Topology::SameSession, port, child_port) == "http://localhost:"@ + decimal(
            child_port,
        ) + "/child"@,
        child_url(Topology::Oopif, port, child_port) == "http://127.0.0.1:"@ + decimal(child_port)
            + "/child"@,
        other_side(Topology::SameOrigin, port, child_port) == "http://localhost:"@ + decimal(port),
        other_side(Topology::SameSession, port, child_port) == "http://localhost:"@ + decimal(
            child_port,
        ),
        other_side(Topology::Oopif, port, child_port) == "http://localhost:"@ + decimal(child_port),
{
}

/// The origins of two ports are the same only if the ports are.
pub proof fn origins_tell_ports_apart(a: nat, b: nat)
    ensures
        localhost(a) == localhost(b) ==> a == b,
        loopback(a) == loopback(b) ==> a == b,
{
    let name = "http://localhost:"@;
    let number = "http://127.0.0.1:"@;
    assert(localhost(a).skip(name.len() as int) =~= decimal(a));
    assert(localhost(b).skip(name.len() as int) =~= decimal(b));
    assert(loopback(a).skip(number.len() as int) =~= decimal(a));
    assert(loopback(b).skip(number.len() as int) =~= decimal(b));
    crate::text::decimal_reads_back(a, a + b);
    crate::text::decimal_reads_back(b, a + b);
}

/// A click's pages are covered exactly where they have to be: the frame's where
/// the child is covered, the one around it where the parent is. The frame shows
/// what it has to, in its place.
pub proof fn covers_lie_where_they_have_to(child: Seq<char>, transform: Seq<char>, cover: Cover)
    ensures
        click_child(Cover::Child) == filled(
            CLICK_CHILD@,
            seq![("{child_overlay}"@, CHILD_OVERLAY@)],
        ),
        cover != Cover::Child ==> click_child(cover) == filled(
            CLICK_CHILD@,
            seq![("{child_overlay}"@, ""@)],
        ),
        click_parent(child, transform, Cover::Parent) == filled(
            CLICK_PARENT@,
            seq![
                ("{child_url}"@, child),
                ("{transform}"@, transform),
                ("{parent_overlay}"@, PARENT_OVERLAY@),
            ],
        ),
        cover != Cover::Parent ==> click_parent(child, transform, cover) == filled(
            CLICK_PARENT@,
            seq![
                ("{child_url}"@, child),
                ("{transform}"@, transform),
                ("{parent_overlay}"@, ""@),
            ],
        ),
{
}

/// The late login has both times in its page, each where it belongs; the controls
/// inside other ones know the frame that they show; and the built-in ones know
/// their kind.
pub proof fn pages_know_what_they_are_told(
    delay: nat,
    interval: nat,
    child: Seq<char>,
    kind: Seq<char>,
)
    ensures
        delayed_login(delay, interval) == filled(
            DELAYED_LOGIN@,
            seq![
                ("{ping_interval_ms}"@, decimal(interval)),
                ("{render_delay_ms}"@, decimal(delay)),
            ],
        ),
        relationships(child) == filled(RELATIONSHIP_PARENT@, seq![("{child_url}"@, child)]),
        builtin_controls(kind) == replaced(BUILTIN_CONTROLS@, "BUILTIN_KIND"@, kind),
{
}

/// Two branches of frames: the six pages, and where their frames point. Without
/// cousins the target is the page's own and the cover is the other side's; with
/// cousins there is a branch in between, and the ends change sides.
pub proof fn cross_branches_point_to_both_sides(topology: Topology, port: nat, other_port: nat)
    ensures
        ({
            let own = "http://localhost:"@ + decimal(port);
            let other = "http://localhost:"@ + decimal(
                if topology == Topology::SameOrigin {
                    port
                } else {
                    other_port
                },
            );
            let near = cross_branch(topology, false, port, other_port);
            let far = cross_branch(topology, true, port, other_port);
            let leaves = |pages: Seq<PageView>|
                {
                    &&& pages.len() == 6
                    &&& pages[2] == (
                        "/target-leaf"@,
                        leaf(CROSS_LEAF@, "target"@, "Cross branch target"@),
                    )
                    &&& pages[3] == ("/target-branch"@, branch("target"@, other))
                    &&& pages[4] == (
                        "/overlay-leaf"@,
                        leaf(CROSS_LEAF@, "overlay"@, "Cross branch overlay"@),
                    )
                    &&& pages[5] == ("/overlay-branch"@, branch("overlay"@, own))
                };
            &&& leaves(near) && leaves(far)
            &&& near[0] == ("/"@, replaced(CROSS_ROOT@, "__COUSINS__"@, "false"@))
            &&& far[0] == ("/"@, replaced(CROSS_ROOT@, "__COUSINS__"@, "true"@))
            &&& near[1] == (
                "/common"@,
                filled(
                    CROSS_COMMON@,
                    seq![
                        ("{target_url}"@, own + "/target-leaf"@),
                        ("{overlay_url}"@, other + "/overlay-leaf"@),
                    ],
                ),
            )
            &&& far[1] == (
                "/common"@,
                filled(
                    CROSS_COMMON@,
                    seq![
                        ("{target_url}"@, own + "/target-branch"@),
                        ("{overlay_url}"@, other + "/overlay-branch"@),
                    ],
                ),
            )
        }),
{
}

/// A shared shell: the six pages, and where their frames point. The ends of both
/// branches are on the other side; with cousins there is a branch of the page's
/// own in between.
pub proof fn shared_shells_point_to_the_other_side(
    topology: Topology,
    mode: ShadowMode,
    frame_overlay: bool,
    port: nat,
    other_port: nat,
)
    ensures
        ({
            let own = "http://localhost:"@ + decimal(port);
            let other = "http://localhost:"@ + decimal(
                if topology == Topology::SameOrigin {
                    port
                } else {
                    other_port
                },
            );
            let near = shadow_frame(topology, mode, frame_overlay, false, port, other_port);
            let far = shadow_frame(topology, mode, frame_overlay, true, port, other_port);
            let leaves = |pages: Seq<PageView>|
                {
                    &&& pages.len() == 6
                    &&& pages[0] == ("/"@, SHADOW_ROOT@)
                    &&& pages[2] == (
                        "/target-leaf"@,
                        leaf(SHADOW_LEAF@, "target"@, "Shared shell target"@),
                    )
                    &&& pages[3] == ("/target-branch"@, branch("target"@, other))
                    &&& pages[4] == (
                        "/overlay-leaf"@,
                        leaf(SHADOW_LEAF@, "overlay"@, "Shared shell chat"@),
                    )
                    &&& pages[5] == ("/overlay-branch"@, branch("overlay"@, other))
                };
            &&& leaves(near) && leaves(far)
            &&& near[1] == (
                "/common"@,
                shadow_common(
                    mode,
                    frame_overlay,
                    false,
                    other + "/target-leaf"@,
                    other + "/overlay-leaf"@,
                ),
            )
            &&& far[1] == (
                "/common"@,
                shadow_common(
                    mode,
                    frame_overlay,
                    true,
                    own + "/target-branch"@,
                    own + "/overlay-branch"@,
                ),
            )
        }),
{
}

/// The document with the shell knows how scripts may look inside, whether there
/// are cousins, what covers the target and by which identifier that is found.
pub proof fn shared_shells_know_their_cover(
    cousins: bool,
    mode: ShadowMode,
    target_url: Seq<char>,
    overlay_url: Seq<char>,
)
    ensures
        ({
            let told = |overlay: Seq<char>, id: Seq<char>, frame: Seq<char>|
                filled(
                    SHADOW_COMMON@,
                    seq![
                        (
                            "{cousins}"@,
                            if cousins {
                                "true"@
                            } else {
                                "false"@
                            },
                        ),
                        (
                            "{mode}"@,
                            if mode == ShadowMode::Open {
                                "open"@
                            } else {
                                "closed"@
                            },
                        ),
                        ("{target_url}"@, target_url),
                        ("{overlay}"@, overlay),
                        ("{overlay_id}"@, id),
                        ("{frame_overlay}"@, frame),
                    ],
                );
            &&& shadow_common(mode, true, cousins, target_url, overlay_url) == told(
                filled(SHADOW_FRAME_OVERLAY@, seq![("{overlay_url}"@, overlay_url)]),
                "chat-frame"@,
                "true"@,
            )
            &&& shadow_common(mode, false, cousins, target_url, overlay_url) == told(
                SHADOW_DIALOG_OVERLAY@,
                "consent"@,
                "false"@,
            )
        }),
{
}

/// The pages of branches know their name, their label and where their end is.
pub proof fn branches_know_their_ends(
    template: Seq<char>,
    name: Seq<char>,
    label: Seq<char>,
    origin: Seq<char>,
)
    ensures
        leaf(template, name, label) == filled(template, seq![("{name}"@, name), ("{label}"@, label)]),
        branch(name, origin) == filled(BRANCH@, seq![("{name}"@, name), ("{leaf_origin}"@, origin)]),
{
}

} // verus!
