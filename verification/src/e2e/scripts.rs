//! The scripts that are evaluated in pages.

use vstd::prelude::*;

verus! {

/// Scrolls the page, and says how far and at what scale.
pub const SCROLL_PAGE: &'static str = "document.body.style.height = '2000px'; window.scrollTo(0, 60); [window.scrollY, window.devicePixelRatio]";

/// Scrolls the target's document so that the decoy lies where the target would be without the scrolling.
pub const SCROLL_FRAME: &'static str = "function() { const doc = this.ownerDocument; doc.body.style.height = '2000px'; this.style.top = '400px'; doc.getElementById('decoy').style.top = '200px'; doc.defaultView.scrollTo(0, 200); const rect = this.getBoundingClientRect(); return [doc.defaultView.scrollY, rect.top >= 0 && rect.bottom <= doc.defaultView.innerHeight]; }";

/// Says whether target and decoy are apart, and whether the frame can reach the page around it.
pub const MEASURE_TARGET: &'static str = "function() { const target = this.getBoundingClientRect(); const decoy = this.ownerDocument.getElementById('decoy').getBoundingClientRect(); return {disjoint:target.bottom < decoy.top || decoy.bottom < target.top, parentAccessible:!!this.ownerDocument.defaultView.frameElement}; }";

/// Says what was clicked.
pub const COUNT_CLICKS: &'static str = "new Promise(resolve => setTimeout(() => resolve(window.clicks), 50))";

/// Says which origins the branches have, and which can reach the document around them.
pub const CHECK_ORIGINS: &'static str = "[ready.target.origin === ready.overlay.origin, ready.target.parentAccessible, ready.overlay.parentAccessible]";

/// Says which branch is on top where the target is.
pub const UNCOVERED_BRANCH: &'static str = "document.getElementById('common-wrapper').contentDocument.elementFromPoint(140,80).id";

/// Puts the covering branch above the target, and says which branch is on top there.
pub const COVER_BRANCH: &'static str = "const common = document.getElementById('common-wrapper').contentDocument; common.getElementById('covering-branch').style.left = '20px'; common.elementFromPoint(140,80).id";

/// Says what was hit.
pub const COUNT_HITS: &'static str = "new Promise(resolve => setTimeout(() => resolve({...hits}), 50))";

/// Says which origin the target has, whether it can reach the document around it, and whether the shell can be looked into.
pub const CHECK_SHELL: &'static str = "[ready.target.origin === location.origin, ready.target.parentAccessible, document.getElementById('common-wrapper').contentDocument.getElementById('shell').shadowRoot !== null]";

/// Says which element of the shell is on top where the target is.
pub const UNCOVERED_SHELL: &'static str = "document.getElementById('common-wrapper').contentWindow.fixtureRoot.elementFromPoint(120,70).id";

/// Puts the covering element of the shell above the target, and says which is on top there.
pub const COVER_SHELL: &'static str = "const common = document.getElementById('common-wrapper').contentWindow; common.covering.style.left = '20px'; common.fixtureRoot.elementFromPoint(120,70).id";

/// Says whether every control lies within its visual.
pub const CHECK_CONTROLS: &'static str = "window.controls.every(input => { const r = input.getBoundingClientRect(); const v = input.getRootNode().querySelector('.visual').getBoundingClientRect(); return r.width === 40 && r.height === 40 && r.left >= v.left && r.right <= v.right && r.top >= v.top && r.bottom <= v.bottom && r.top >= 0 && r.bottom < innerHeight; })";

/// Says what was hit, and which controls are checked.
pub const CONTROL_STATE: &'static str = "({hits, checked:controls.map(input => input.checked)})";

/// Removes what covers the controls.
pub const REMOVE_OVERLAYS: &'static str = "window.overlays.forEach(overlay => overlay.remove()); true";

/// Says what the custom frame is made of.
pub const CUSTOM_OWNER: &'static str = "document.querySelector('iframe[is]').constructor.name";

} // verus!
