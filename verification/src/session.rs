//! The cookie-isolation protocol of the shared browser session.
//!
//! `newPageContext` clears *all* cookies on the shared browser before
//! opening its page — a global side effect.  The protocol here serializes
//! that clear against every other context's navigation: a clear is allowed
//! only while no context stands navigated.  The invariant proved of every
//! reachable state is the one a correct engine owes: no page context
//! observes a cookie jar mutated by a concurrent request after its own
//! navigation has begun.  The shell holds the clear-cookies lock exactly
//! as these transitions allow.

use vstd::prelude::*;

verus! {

/// Where one page context stands in its call.
pub enum PagePhase {
    /// Created; its own cookie clear and emulation setup may still run.
    Setup,
    /// Navigation has begun; the context now relies on the cookie jar.
    Navigated,
    /// Closed; it no longer observes anything.
    Closed,
}

/// Ghost state of the shared session: the cookie jar's mutation counter,
/// each context's phase, and the counter value each context saw when its
/// navigation began.
pub struct SessionState {
    pub cookie_epoch: nat,
    pub phases: Map<nat, PagePhase>,
    pub observed: Map<nat, nat>,
}

/// The isolation invariant: every navigated context saw the current cookie
/// jar — no clear has run since its navigation began.
pub open spec fn session_inv(s: SessionState) -> bool {
    forall|c: nat|
        s.phases.dom().contains(c) && (#[trigger] s.phases[c]) is Navigated ==> s.observed.dom()
            .contains(c) && s.observed[c] == s.cookie_epoch
}

/// A fresh context opens in its setup phase.
pub open spec fn open_context(s: SessionState, c: nat) -> SessionState {
    SessionState {
        cookie_epoch: s.cookie_epoch,
        phases: s.phases.insert(c, PagePhase::Setup),
        observed: s.observed,
    }
}

/// The guard the clear-cookies lock enforces: no context is navigated.
pub open spec fn clear_allowed(s: SessionState) -> bool {
    forall|c: nat|
        s.phases.dom().contains(c) ==> !((#[trigger] s.phases[c]) is Navigated)
}

/// Clearing all cookies bumps the jar's epoch.
pub open spec fn clear_cookies(s: SessionState) -> SessionState {
    SessionState {
        cookie_epoch: s.cookie_epoch + 1,
        phases: s.phases,
        observed: s.observed,
    }
}

/// A context's navigation begins: it records the jar it sees.
pub open spec fn begin_navigation(s: SessionState, c: nat) -> SessionState {
    SessionState {
        cookie_epoch: s.cookie_epoch,
        phases: s.phases.insert(c, PagePhase::Navigated),
        observed: s.observed.insert(c, s.cookie_epoch),
    }
}

/// A context closes, unconditionally, at the end of its call.
pub open spec fn close_context(s: SessionState, c: nat) -> SessionState {
    SessionState {
        cookie_epoch: s.cookie_epoch,
        phases: s.phases.insert(c, PagePhase::Closed),
        observed: s.observed,
    }
}

/// Law: opening a context preserves isolation.
pub proof fn lemma_open_preserves(s: SessionState, c: nat)
    requires
        session_inv(s),
        !s.phases.dom().contains(c),
    ensures
        session_inv(open_context(s, c)),
{
}

/// Law: a cookie clear taken under the guard — no context navigated —
/// preserves isolation.  Without the guard the clear would break the
/// invariant for every in-flight navigation; the protocol never allows it.
pub proof fn lemma_clear_preserves(s: SessionState)
    requires
        session_inv(s),
        clear_allowed(s),
    ensures
        session_inv(clear_cookies(s)),
{
}

/// Law: beginning a navigation preserves isolation — the context records
/// exactly the jar it starts with.
pub proof fn lemma_navigate_preserves(s: SessionState, c: nat)
    requires
        session_inv(s),
    ensures
        session_inv(begin_navigation(s, c)),
{
}

/// Law: closing a context preserves isolation.
pub proof fn lemma_close_preserves(s: SessionState, c: nat)
    requires
        session_inv(s),
    ensures
        session_inv(close_context(s, c)),
{
}

/// Law: under the invariant, no navigated context has had the cookie jar
/// mutated under it — the leak the shared-browser design must rule out
/// cannot happen in any reachable state.
pub proof fn lemma_no_cookie_leak(s: SessionState, c: nat)
    requires
        session_inv(s),
        s.phases.dom().contains(c),
        s.phases[c] is Navigated,
    ensures
        s.observed.dom().contains(c),
        s.observed[c] == s.cookie_epoch,
{
}

} // verus!
