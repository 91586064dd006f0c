//! When the daemon may stop for want of work.
//!
//! Moments and spans are whole nanoseconds: a moment counts from any fixed
//! start that the caller keeps to.

use crate::text::{
    all_white, decimal, decimal_reads_back, opt_view, other_characters_are_no_number, parse_decimal,
    parsed_decimal, trim, trim_ignores_padding, trimmed, trimming_gives_the_core,
};
use vstd::prelude::*;

verus! {

/// Idle timeout applied when AGENT_BROWSER_IDLE_TIMEOUT_MS is unset, so that an
/// integration that dies without calling `close` cannot leak the daemon and
/// its Chrome tree indefinitely. Socket commands and dashboard input reset the
/// timer. Unlike an explicit timeout, the default never closes a headed browser
/// (Safari and iOS WebDriver sessions among them) or a user-attached browser:
/// those may be in direct human use that the daemon cannot observe.
/// Provider-owned CDP browsers remain eligible for cleanup.
pub const DEFAULT_IDLE_TIMEOUT_MS: u64 = 60 * 60 * 1000;

/// Nanoseconds in a millisecond.
pub const NANOS_PER_MS: u128 = 1_000_000;

/// How long the daemon waits for work.
#[derive(Clone, Copy, Debug, PartialEq, Eq, Structural)]
pub struct IdleTimeout {
    pub ms: u64,
    /// True when the value is `DEFAULT_IDLE_TIMEOUT_MS` for want of an explicit
    /// AGENT_BROWSER_IDLE_TIMEOUT_MS. Only the default exempts headed and
    /// user-attached browsers from shutdown.
    pub is_default: bool,
}

/// The timeout for want of an explicit one.
pub open spec fn default_idle_timeout() -> IdleTimeout {
    IdleTimeout { ms: DEFAULT_IDLE_TIMEOUT_MS, is_default: true }
}

/// The timeout that the text of AGENT_BROWSER_IDLE_TIMEOUT_MS asks for.
pub open spec fn idle_timeout_for(raw: Option<Seq<char>>) -> Option<IdleTimeout> {
    match raw {
        None => Some(default_idle_timeout()),
        Some(text) => match parsed_decimal(trimmed(text), u64::MAX as nat) {
            None => Some(default_idle_timeout()),
            Some(ms) => if ms == 0 {
                None
            } else {
                Some(IdleTimeout { ms: ms as u64, is_default: false })
            },
        },
    }
}

/// Resolves AGENT_BROWSER_IDLE_TIMEOUT_MS into an effective idle timeout:
/// unset or unparseable gives the default, an explicit 0 disables it, any other
/// value is that many milliseconds. White space around the number is ignored.
pub fn resolve_idle_timeout(raw: Option<String>) -> (r: Option<IdleTimeout>)
    ensures
        r == idle_timeout_for(opt_view(raw)),
{
    let fallback = IdleTimeout { ms: DEFAULT_IDLE_TIMEOUT_MS, is_default: true };
    match raw {
        None => Some(fallback),
        Some(text) => match parse_decimal(trim(text.as_str()), u64::MAX) {
            // Falling back to the default keeps the leak backstop in place
            // where the value cannot be read, rather than silently disabling it.
            None => Some(fallback),
            Some(ms) => if ms == 0 {
                None
            } else {
                Some(IdleTimeout { ms, is_default: false })
            },
        },
    }
}

/// The length of a timeout, in nanoseconds.
pub open spec fn timeout_nanos(timeout_ms: u64) -> nat {
    (timeout_ms * NANOS_PER_MS) as nat
}

/// The length of a timeout, in nanoseconds.
pub fn nanos_of_ms(timeout_ms: u64) -> (r: u128)
    ensures
        r == timeout_nanos(timeout_ms),
{
    timeout_ms as u128 * NANOS_PER_MS
}

/// When the daemon last had work, and whether the idle loop has yet to hear of
/// it.
#[derive(Clone, Copy, Debug, PartialEq, Eq, Structural)]
pub struct IdleActivity {
    pub last_mark: u128,
    pub pending: bool,
}

impl IdleActivity {
    /// The clock starts at `now`, with nothing to report.
    pub fn new(now: u128) -> (r: IdleActivity)
        ensures
            r == (IdleActivity { last_mark: now, pending: false }),
    {
        IdleActivity { last_mark: now, pending: false }
    }

    /// The clock after work at `now`.
    pub open spec fn marked(self, now: u128) -> IdleActivity {
        IdleActivity { last_mark: now, pending: true }
    }

    /// The clock once the idle loop has heard of the work.
    pub open spec fn heard(self) -> IdleActivity {
        IdleActivity { last_mark: self.last_mark, pending: false }
    }

    /// There was work at `now`: the clock starts anew, and the idle loop is to
    /// hear of it.
    pub fn mark(&mut self, now: u128)
        ensures
            *final(self) == (IdleActivity { last_mark: now, pending: true }),
            *final(self) == old(self).marked(now),
    {
        self.last_mark = now;
        self.pending = true;
    }

    /// The time since the last work, none if that lies ahead of `now`.
    pub open spec fn spec_elapsed(&self, now: u128) -> nat {
        if self.last_mark <= now {
            (now - self.last_mark) as nat
        } else {
            0
        }
    }

    /// The time since the last work, none if that lies ahead of `now`.
    pub fn elapsed(&self, now: u128) -> (r: u128)
        ensures
            r == self.spec_elapsed(now),
    {
        now.saturating_sub(self.last_mark)
    }

    /// Tells the idle loop, once, that there was work since it last asked.
    pub fn take_notification(&mut self) -> (r: bool)
        ensures
            r == old(self).pending,
            *final(self) == (IdleActivity { last_mark: old(self).last_mark, pending: false }),
            *final(self) == old(self).heard(),
    {
        let pending = self.pending;
        self.pending = false;
        pending
    }
}

/// What is left of a timeout after a span without work, if it has not passed.
pub open spec fn idle_time_left(elapsed: nat, timeout_ms: u64) -> Option<nat> {
    if elapsed <= timeout_nanos(timeout_ms) {
        Some((timeout_nanos(timeout_ms) - elapsed) as nat)
    } else {
        None
    }
}

/// What is left at `now` of an idle timeout, if it has not passed.
pub fn remaining_idle_timeout(activity: &IdleActivity, now: u128, timeout_ms: u64) -> (r: Option<
    u128,
>)
    ensures
        match r {
            Some(left) => idle_time_left(activity.spec_elapsed(now), timeout_ms) == Some(left as nat),
            None => idle_time_left(activity.spec_elapsed(now), timeout_ms) is None,
        },
{
    let elapsed: u128 = activity.elapsed(now);
    nanos_of_ms(timeout_ms).checked_sub(elapsed)
}

/// White space around the text makes no difference.
pub proof fn idle_timeout_ignores_padding(before: Seq<char>, s: Seq<char>, after: Seq<char>)
    requires
        all_white(before),
        all_white(after),
    ensures
        idle_timeout_for(Some(before + s + after)) == idle_timeout_for(Some(s)),
{
    trim_ignores_padding(before, s, after);
}

/// No timeout lasts no time: zero disables it, and the default is an hour.
pub proof fn idle_timeout_is_never_zero(raw: Option<Seq<char>>)
    ensures
        idle_timeout_for(raw) matches Some(timeout) ==> timeout.ms > 0,
{
}

/// Work makes the idle period start over: right after it, all of the timeout is
/// left, and a span later all but that span.
pub proof fn work_restarts_the_idle_period(marked: u128, span: nat, timeout_ms: u64)
    requires
        marked + span <= u128::MAX,
        span <= timeout_nanos(timeout_ms),
    ensures
        ({
            let activity = IdleActivity { last_mark: marked, pending: true };
            idle_time_left(activity.spec_elapsed((marked + span) as u128), timeout_ms) == Some(
                (timeout_nanos(timeout_ms) - span) as nat,
            )
        }),
{
}

proof fn lemma_decimal_is_its_core(n: nat)
    ensures
        decimal(n).len() > 0,
        trimmed(decimal(n)) == decimal(n),
{
    decimal_reads_back(n, n);
    let s = decimal(n);
    crate::text::only_digits_are_read(s, n, n, n);
    let first = s[0];
    let last = s[s.len() - 1];
    crate::text::ascii_white_space(first);
    crate::text::ascii_white_space(last);
    trimming_gives_the_core(Seq::empty(), s, Seq::empty());
    assert(Seq::<char>::empty() + s + Seq::<char>::empty() =~= s);
}

/// A number that is written down, with or without white space around it, is the
/// timeout: explicit, and of just so many milliseconds, whatever they are. Zero
/// alone asks for none.
pub proof fn explicit_timeouts_are_kept(before: Seq<char>, n: nat, after: Seq<char>)
    requires
        all_white(before),
        all_white(after),
        n <= u64::MAX,
    ensures
        n > 0 ==> (idle_timeout_for(Some(before + decimal(n) + after)) matches Some(timeout)
            && timeout.ms == n && !timeout.is_default),
        n == 0 ==> idle_timeout_for(Some(before + decimal(n) + after)) is None,
{
    decimal_reads_back(n, u64::MAX as nat);
    lemma_decimal_is_its_core(n);
    trim_ignores_padding(before, decimal(n), after);
}

/// However a number is written, it is the timeout that it says.
pub proof fn timeouts_are_what_is_read(text: Seq<char>, n: nat)
    requires
        parsed_decimal(trimmed(text), u64::MAX as nat) == Some(n),
    ensures
        match idle_timeout_for(Some(text)) {
            Some(timeout) => n > 0 && timeout.ms == n && !timeout.is_default,
            None => n == 0,
        },
{
}

/// Without a setting, and with one that is no number or one too large, the
/// default of an hour holds, and is known to be one.
pub proof fn unreadable_timeouts_are_an_hour(text: Seq<char>)
    requires
        parsed_decimal(trimmed(text), u64::MAX as nat) is None,
    ensures
        idle_timeout_for(None) == idle_timeout_for(Some(text)),
        idle_timeout_for(None) matches Some(timeout) && timeout.is_default && timeout.ms == 60
            * 60 * 1000,
{
}

/// Numbers above what can be kept, and texts with a character inside that no
/// number has, are such settings.
pub proof fn odd_settings_are_unreadable(text: Seq<char>, n: nat, i: int)
    ensures
        n > u64::MAX ==> idle_timeout_for(Some(decimal(n))) == idle_timeout_for(None),
        0 <= i < trimmed(text).len() && !('0' <= trimmed(text)[i] <= '9') && trimmed(text)[i] != '+'
            ==> idle_timeout_for(Some(text)) == idle_timeout_for(None),
{
    lemma_decimal_is_its_core(n);
    decimal_reads_back(n, n);
    crate::text::only_digits_are_read(decimal(n), n, n, u64::MAX as nat);
    if 0 <= i < trimmed(text).len() && !('0' <= trimmed(text)[i] <= '9') && trimmed(text)[i] != '+' {
        other_characters_are_no_number(trimmed(text), i, u64::MAX as nat);
    }
}

/// The time that has passed and the time that is left make up the timeout, a
/// million nanoseconds for each of its milliseconds; nothing is left exactly
/// when more than that has passed.
pub proof fn elapsed_and_left_make_the_timeout(elapsed: nat, timeout_ms: u64)
    ensures
        match idle_time_left(elapsed, timeout_ms) {
            Some(left) => elapsed + left == 1_000_000 * timeout_ms,
            None => elapsed > 1_000_000 * timeout_ms,
        },
{
}

/// The clock shows the span between the last work and now, and never less than
/// nothing.
pub proof fn the_clock_shows_the_span(activity: IdleActivity, now: u128)
    ensures
        now >= activity.last_mark ==> activity.last_mark + activity.spec_elapsed(now) == now,
        now < activity.last_mark ==> activity.spec_elapsed(now) == 0,
{
}

/// Whatever came before, work restarts the clock and is there to be heard of, once:
/// hearing of it leaves the clock as it is and nothing more to hear.
pub proof fn work_is_heard_of_once(activity: IdleActivity, now: u128, later: u128)
    requires
        now <= later,
    ensures
        activity.marked(now).pending,
        now + activity.marked(now).spec_elapsed(later) == later,
        !activity.marked(now).heard().pending,
        activity.marked(now).heard().spec_elapsed(later) == activity.marked(now).spec_elapsed(
            later,
        ),
        activity.heard().spec_elapsed(later) == activity.spec_elapsed(later),
{
}

} // verus!
