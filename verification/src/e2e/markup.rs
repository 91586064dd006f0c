//! The markup of the pages that end-to-end runs visit. Blanks stand in braces.

use vstd::prelude::*;

verus! {

/// What covers the target inside the frame.
pub const CHILD_OVERLAY: &'static str = "<div id='child-overlay' style='position:absolute;left:20px;top:20px;width:100px;height:30px;z-index:10'></div>";

/// What covers the whole page.
pub const PARENT_OVERLAY: &'static str = "<div id='parent-overlay' style='position:fixed;inset:0;z-index:10'></div>";

/// The page in the frame: a target, a decoy below it, and what covers them.
pub const CLICK_CHILD: &'static str = r#"<!doctype html><html><body style="margin:0">
<button id="target" style="position:absolute;left:20px;top:20px;width:100px;height:30px"
    onclick="parent.postMessage('target', '*')">Frame target</button>
<button id="decoy" style="position:absolute;left:0;top:120px;width:390px;height:60px"
    onclick="parent.postMessage('decoy', '*')">Lower decoy</button>
{child_overlay}<script>parent.postMessage('ready', '*')</script></body></html>"#;

/// The page around the frame, which counts the clicks.
pub const CLICK_PARENT: &'static str = r#"<!doctype html><html><body style="margin:0">
<script>
window.clicks = {target:0, decoy:0, top:0};
window.childReady = false;
addEventListener('message', event => {
    if (event.source !== document.getElementById('click-frame').contentWindow) return;
    if (event.data === 'ready') window.childReady = true;
    else if (event.data === 'target' || event.data === 'decoy') window.clicks[event.data]++;
});
</script>
<button style="position:absolute;left:10px;top:10px" onclick="window.clicks.top++">Top target</button>
<iframe id="click-frame" name="click-frame" title="Click frame" src="{child_url}"
    style="position:absolute;left:100px;top:120px;width:400px;height:240px;border:0;transform-origin:0 0;transform:{transform}"></iframe>
{parent_overlay}</body></html>"#;

/// A login form that appears late, on a page that never stops fetching.
pub const DELAYED_LOGIN: &'static str = r#"<!doctype html>
<html>
  <head><meta charset="utf-8"><title>Delayed Login</title></head>
  <body>
    <input id="search" type="text" name="search" />
    <div id="root">loading...</div>
    <script>
      setInterval(() => {
        fetch('/ping?ts=' + Date.now()).catch(() => {});
      }, {ping_interval_ms});

      setTimeout(() => {
        const root = document.getElementById('root');
        root.innerHTML = `
          <form id="login-form">
            <input type="email" name="email" />
            <input type="password" name="password" />
            <button type="submit">Sign in</button>
          </form>
        `;
        document.getElementById('login-form').addEventListener('submit', function(e) {
          e.preventDefault();
          e.stopPropagation();
          window.__submitted = true;
        });
      }, {render_delay_ms});
    </script>
  </body>
</html>"#;

/// A login form that appears once asked for.
pub const STATEFUL_LOGIN: &'static str = r#"<!doctype html>
<html>
  <head><meta charset="utf-8"><title>Stateful Login</title><link rel="icon" href="data:," /></head>
  <body>
    <button id="reveal" type="button">Continue to login</button>
    <form id="login-form" style="display:none">
      <input type="email" name="email" />
      <input type="password" name="password" />
      <button type="submit">Sign in</button>
    </form>
    <script>
      document.getElementById('reveal').addEventListener('click', () => {
        document.getElementById('login-form').style.display = 'block';
        window.__revealed = true;
      });
      document.getElementById('login-form').addEventListener('submit', (event) => {
        event.preventDefault();
        window.__submitted = true;
      });
    </script>
  </body>
</html>"#;

/// A small React application.
pub const REACT_FIXTURE_HTML: &'static str = r#"<!doctype html>
<html>
  <head><title>React fixture</title></head>
  <body>
    <div id="root"></div>
    <script crossorigin src="https://unpkg.com/react@18/umd/react.production.min.js"></script>
    <script crossorigin src="https://unpkg.com/react-dom@18/umd/react-dom.production.min.js"></script>
    <script>
      const { useState, createElement: h } = React;
      function Counter({ label }) {
        const [n, setN] = useState(0);
        return h("button", { onClick: () => setN(n + 1) }, label + ": " + n);
      }
      function App() {
        return h("div", {}, [
          h("h1", { key: "t" }, "Hello"),
          h(Counter, { key: "c1", label: "A" }),
          h(Counter, { key: "c2", label: "B" }),
        ]);
      }
      ReactDOM.createRoot(document.getElementById("root")).render(h(App));
    </script>
  </body>
</html>
"#;

/// A page with a frame in a frame.
pub const A11Y_TOP: &'static str = r#"<!doctype html><html lang="en"><head><title>Top</title></head>
<body><main aria-label="Top"><h1>Top</h1>
<iframe id="outer" title="Outer" src="http://127.0.0.1:{port}/outer"></iframe>
</main></body></html>"#;

/// The outer frame.
pub const A11Y_OUTER: &'static str = r#"<!doctype html><html lang="en"><head><title>Outer</title></head>
<body><main aria-label="Outer"><h1>Outer</h1><img id="outer-image" src="/missing-outer.png">
<iframe id="inner" title="Inner" src="/inner"></iframe></main></body></html>"#;

/// The inner frame.
pub const A11Y_INNER: &'static str = r#"<!doctype html><html lang="en"><head><title>Inner</title></head>
<body><main aria-label="Inner"><h1>Inner</h1><img id="inner-image" src="/missing-inner.png"></main></body></html>"#;

/// A page with two frames side by side.
pub const A11Y_SIBLINGS: &'static str = r#"<!doctype html><html lang="en"><head><title>Siblings</title></head>
<body><main><h1>Siblings</h1>
<iframe id="first-frame" title="First" src="http://127.0.0.1:{port}/first-frame"></iframe>
<iframe id="second-frame" title="Second" src="http://127.0.0.1:{port}/second-frame"></iframe>
</main></body></html>"#;

/// The first of two frames.
pub const A11Y_FIRST_FRAME: &'static str = r#"<!doctype html><html lang="en"><head><title>First</title></head>
<body><main><h1>First</h1><img id="first-image" src="/missing-first.png"></main></body></html>"#;

/// The second of two frames.
pub const A11Y_SECOND_FRAME: &'static str = r#"<!doctype html><html lang="en"><head><title>Second</title></head>
<body><main><h1>Second</h1><img id="second-image" src="/missing-second.png"></main></body></html>"#;

/// A page for a tab in the background.
pub const A11Y_BACKGROUND: &'static str = r#"<!doctype html><html lang="en"><head><title>Background</title></head>
<body><main><h1>Background</h1>
<iframe id="background-frame" title="Background frame" src="http://127.0.0.1:{port}/background-frame"></iframe>
</main></body></html>"#;

/// The frame in the background.
pub const A11Y_BACKGROUND_FRAME: &'static str = r#"<!doctype html><html lang="en"><head><title>Background frame</title></head>
<body><main><h1>Background frame</h1><img id="background-image" src="/missing-background.png"></main></body></html>"#;

/// The page in every frame of the frame relationships.
pub const RELATIONSHIP_CHILD: &'static str = r#"<!doctype html><body style="margin:0"><button style="position:absolute;inset:0;width:100%;height:100%" onclick="top.postMessage({kind:'click',name:window.name},'*')">Embedded button</button><script>top.postMessage({kind:'ready',name:window.name},'*')</script>"#;

/// Frames inside other controls, and one above another.
pub const RELATIONSHIP_PARENT: &'static str = r#"<!doctype html><body style="margin:0">
<script>
window.hits = {region:0,card:0,custom:0,ad:0,covered:0,overlay:0}; window.ready = new Set();
addEventListener('message', e => {
    const frame = document.querySelector('iframe[name="' + e.data.name + '"]');
    if (!frame || frame.contentWindow !== e.source) return;
    if (e.data.kind === 'ready') ready.add(e.data.name);
    if (e.data.kind === 'click') hits[e.data.name]++;
});
customElements.define('fancy-frame', class FancyFrame extends HTMLIFrameElement {}, {extends:'iframe'});
</script>
<div role="region" aria-label="Embed region" style="position:absolute;left:20px;top:20px;width:200px;height:80px">
<iframe name="region" title="Region frame" src="{child_url}" style="width:100%;height:100%;border:0"></iframe></div>
<div role="button" aria-label="Frame card" tabindex="0" style="position:absolute;left:20px;top:120px;width:200px;height:80px">
<iframe name="card" title="Card frame" src="{child_url}" style="width:100%;height:100%;border:0"></iframe></div>
<iframe is="fancy-frame" name="custom" title="Custom frame" src="{child_url}" style="position:absolute;left:20px;top:220px;width:200px;height:80px;border:0"></iframe>
<button aria-label="Frame covered target" onclick="hits.covered++" style="position:absolute;left:20px;top:320px;width:200px;height:80px">Covered</button>
<iframe id="ad-frame" name="ad" title="Ad frame" src="{child_url}" style="position:absolute;left:20px;top:320px;width:200px;height:80px;border:0"></iframe>
</body>"#;

/// The page around the document that both branches share.
pub const CROSS_ROOT: &'static str = r#"<!doctype html><body style="margin:0"><script>
window.hits = {target:0,overlay:0}; window.ready = {};
addEventListener('message', e => {
    if (!['target','overlay'].includes(e.data.name)) return;
    const common = document.getElementById('common-wrapper').contentWindow;
    const branch = common.frames[e.data.name === 'target' ? 0 : 1];
    const expected = __COUSINS__ ? branch.frames[0] : branch;
    if (e.source !== expected) return;
    if (e.data.kind === 'ready') ready[e.data.name] = e.data;
    if (e.data.kind === 'click') hits[e.data.name]++;
});
</script><iframe id="common-wrapper" title="Common wrapper" src="/common" style="position:absolute;left:40px;top:40px;width:600px;height:240px;border:0"></iframe>"#;

/// The document that both branches share, with a frame for each.
pub const CROSS_COMMON: &'static str = r#"<!doctype html><body style="margin:0">
<iframe id="target-branch" title="Target branch" src="{target_url}" style="position:absolute;left:20px;top:20px;width:240px;height:120px;border:0"></iframe>
<iframe id="covering-branch" title="Covering branch" src="{overlay_url}" style="position:absolute;left:320px;top:20px;width:240px;height:120px;border:0;z-index:10"></iframe>"#;

/// The page at the end of a branch.
pub const CROSS_LEAF: &'static str = r#"<!doctype html><body style="margin:0"><button id="{name}-internal" style="position:absolute;inset:0;width:100%;height:100%" onclick="top.postMessage({kind:'click',name:'{name}'},'*')">{label}</button><script>top.postMessage({kind:'ready',name:'{name}',origin:location.origin,parentAccessible:!!frameElement},'*')</script>"#;

/// A page that holds nothing but the end of its branch.
pub const BRANCH: &'static str = r#"<!doctype html><body style="margin:0"><iframe id="{name}-leaf" title="Nested {name}" src="{leaf_origin}/{name}-leaf" style="position:absolute;inset:0;width:100%;height:100%;border:0"></iframe>"#;

/// Controls inside built-in elements inside components, each with a visual above it and a dialog above that.
pub const BUILTIN_CONTROLS: &'static str = r#"<!doctype html><body style="margin:0"><script>
window.hits = [{target:0,overlay:0},{target:0,overlay:0}];
window.controls = []; window.overlays = [];
const kind = 'BUILTIN_KIND';
for (const [i, mode] of ['open','closed'].entries()) {
    const shell = document.createElement('app-shell');
    shell.style = 'display:block;position:absolute;left:20px;top:' + (20 + i * 120) + 'px;width:240px;height:80px';
    const shellRoot = shell.attachShadow({mode});
    const component = document.createElement('fancy-field');
    component.style = 'display:block;position:absolute;inset:0';
    const root = component.attachShadow({mode});
    const inputHtml = '<input type="checkbox" aria-label="' + mode + ' ' + kind + ' toggle" style="width:40px;height:40px;margin:0">';
    root.innerHTML = (kind === 'details'
        ? '<details open><summary>Question</summary>' + inputHtml + '</details>'
        : '<details><summary>' + inputHtml + '</summary>Body</details>')
        + '<span class="visual" style="position:absolute;inset:0;background:#ddd"></span>';
    const input = root.querySelector('input');
    component.onclick = event => {
        if (event.composedPath()[0] !== input) input.checked = !input.checked;
        hits[i].target++;
    };
    const overlay = document.createElement('cookie-dialog');
    overlay.id = 'builtin-dialog-' + i;
    overlay.style = 'display:block;position:absolute;inset:0;z-index:10';
    overlay.attachShadow({mode:'closed'}).innerHTML = '<div class="panel" style="position:absolute;inset:0;background:#bbb">Consent</div>';
    overlay.onclick = () => hits[i].overlay++;
    controls.push(input); overlays.push(overlay);
    shellRoot.append(component, overlay);
    document.body.append(shell);
}
</script></body>"#;

/// The page around the document with the shared shell.
pub const SHADOW_ROOT: &'static str = r#"<!doctype html><body style="margin:0"><script>
window.hits = {target:0,overlay:0}; window.ready = {};
addEventListener('message', e => {
    if (!e.data || !['target','overlay'].includes(e.data.name)) return;
    const common = document.getElementById('common-wrapper').contentWindow;
    const branch = common.fixtureFrames[e.data.name];
    const expected = common.cousins ? branch.contentWindow.frames[0] : branch.contentWindow;
    if (e.source !== expected) return;
    if (e.data.kind === 'ready') ready[e.data.name] = e.data;
    if (e.data.kind === 'click') hits[e.data.name]++;
});
</script><iframe id="common-wrapper" title="Shared shell document" src="/common" style="position:absolute;left:40px;top:40px;width:560px;height:200px;border:0"></iframe>"#;

/// The document with the shared shell, which holds the target and what covers it.
pub const SHADOW_COMMON: &'static str = r#"<!doctype html><body style="margin:0"><app-shell id="shell" style="display:block;position:absolute;inset:0"></app-shell><script>
window.cousins = {cousins};
window.fixtureRoot = document.getElementById('shell').attachShadow({mode:'{mode}'});
fixtureRoot.innerHTML = '<iframe id="target-frame" title="Target frame" src="{target_url}" style="position:absolute;left:20px;top:20px;width:200px;height:100px;border:0"></iframe>{overlay}';
window.fixtureFrames = {target:fixtureRoot.getElementById('target-frame'),overlay:fixtureRoot.getElementById('chat-frame')};
window.covering = fixtureRoot.getElementById('{overlay_id}');
if (!{frame_overlay}) {
    covering.attachShadow({mode:'closed'}).innerHTML = '<div id="consent-panel" style="position:absolute;inset:0;background:#ddd"></div>';
    covering.onclick = () => top.hits.overlay++;
}
</script>"#;

/// A frame that covers the target.
pub const SHADOW_FRAME_OVERLAY: &'static str = r#"<iframe id="chat-frame" title="Chat frame" src="{overlay_url}" style="position:absolute;left:300px;top:20px;width:200px;height:100px;border:0;z-index:10"></iframe>"#;

/// A dialog that covers the target.
pub const SHADOW_DIALOG_OVERLAY: &'static str = r#"<cookie-dialog id="consent" style="display:block;position:absolute;left:300px;top:20px;width:200px;height:100px;z-index:10"></cookie-dialog>"#;

/// The page at the end of a branch of the shared shell.
pub const SHADOW_LEAF: &'static str = r#"<!doctype html><body style="margin:0"><button id="{name}-internal" style="position:absolute;inset:0;width:100%;height:100%;margin:0;padding:0;border:0" onclick="top.postMessage({kind:'click',name:'{name}'},'*')">{label}</button><script>top.postMessage({kind:'ready',name:'{name}',origin:location.origin,parentAccessible:!!frameElement},'*')</script>"#;

} // verus!
