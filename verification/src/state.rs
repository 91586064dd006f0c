//! What the daemon's loop knows of the browser that it drives.

use vstd::prelude::*;

verus! {

/// The protocol that drives the browser.
#[derive(Clone, Copy, Debug, PartialEq, Eq, Structural)]
pub enum BackendType {
    Cdp,
    WebDriver,
}

/// How the daemon came by its browser.
#[derive(Clone, Copy, Debug, PartialEq, Eq, Structural)]
pub enum BrowserOrigin {
    /// It launched the browser, with or without a window.
    Launched { headed: bool },
    /// The user's own browser, attached to.
    Attached,
    /// A provider's browser, reached over CDP.
    Provider,
}

/// A browser that the daemon drives.
#[derive(Clone, Copy, Debug, PartialEq, Eq, Structural)]
pub struct Browser {
    pub origin: BrowserOrigin,
    /// Whether its process is gone.
    pub process_exited: bool,
}

/// What the daemon's loop knows of the browser that it drives.
#[derive(Clone, Copy, Debug, PartialEq, Eq, Structural)]
pub struct DaemonState {
    pub backend_type: BackendType,
    pub browser: Option<Browser>,
}

impl DaemonState {
    /// No browser yet.
    pub fn new() -> (r: DaemonState)
        ensures
            r == (DaemonState { backend_type: BackendType::Cdp, browser: None }),
    {
        DaemonState { backend_type: BackendType::Cdp, browser: None }
    }

    /// Whether a human may be using the browser in ways that the daemon cannot
    /// observe.
    pub open spec fn in_human_reach(self) -> bool {
        ||| self.backend_type == BackendType::WebDriver
        ||| self.browser matches Some(browser) && (browser.origin == BrowserOrigin::Attached
            || browser.origin == (BrowserOrigin::Launched { headed: true }))
    }

    /// Whether the default idle timeout leaves the daemon alone: it never closes
    /// a headed browser, a WebDriver session or a user-attached browser.
    pub fn blocks_default_idle_shutdown(&self) -> (r: bool)
        ensures
            r == self.in_human_reach(),
    {
        match self.backend_type {
            BackendType::WebDriver => true,
            BackendType::Cdp => match self.browser {
                Some(browser) => match browser.origin {
                    BrowserOrigin::Launched { headed } => headed,
                    BrowserOrigin::Attached => true,
                    BrowserOrigin::Provider => false,
                },
                None => false,
            },
        }
    }
}

/// A human may be at a WebDriver session, at the user's own browser and at one
/// with a window; at no other browser, and at none where there is none.
pub proof fn who_may_be_at_the_browser(state: DaemonState, browser: Browser)
    ensures
        state.backend_type == BackendType::WebDriver ==> state.in_human_reach(),
        state.backend_type == BackendType::Cdp && state.browser is None ==> !state.in_human_reach(),
        state.backend_type == BackendType::Cdp && state.browser == Some(browser) ==> (
        state.in_human_reach() <==> match browser.origin {
            BrowserOrigin::Launched { headed } => headed,
            BrowserOrigin::Attached => true,
            BrowserOrigin::Provider => false,
        }),
{
}

} // verus!
