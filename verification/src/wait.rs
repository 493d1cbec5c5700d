//! The page-readiness state machine: decides, from a render policy and the
//! events the automation backend reports, when a rendered page is settled
//! enough to extract — or that a `SelectorWait` has timed out.
//!
//! The machine is pure; the shell that owns the live page performs each
//! returned action (await navigation, sleep, probe) and feeds the outcome
//! back as the next event.  Every wait it asks for is bounded, so no run
//! hangs: a missing selector fails with `SelectorTimeout` no later than one
//! poll interval past its configured timeout.

use vstd::prelude::*;
use crate::schema::{RenderPolicy, RenderPolicyView, WaitKind, WaitKindView, EngineError};

verus! {

/// Milliseconds between readiness probes.
pub const POLL_INTERVAL_MS: u64 = 100;

/// Where a wait currently stands.  Elapsed times are in milliseconds since
/// the wait began.
#[derive(Debug, Clone, PartialEq, Eq, Structural)]
pub enum WaitState {
    /// Navigation has been requested and not yet reported complete.
    Navigating,
    /// Polling for the wait selector.
    WaitingSelector { elapsed_ms: u64 },
    /// Polling the mutation-quiescence probe.
    WaitingDomIdle { elapsed_ms: u64, last_mutation_ms: u64 },
    /// Settled, but the configured quiet period is still running.
    QuietWait,
    /// Terminal: the page is ready to extract.
    Settled,
    /// Terminal: the wait selector never resolved within its timeout.
    TimedOut,
}

/// What the backend reported since the last step.
#[derive(Debug, Clone, PartialEq, Eq, Structural)]
pub enum WaitEvent {
    /// The backend reports navigation completion.
    NavigationDone,
    /// A selector probe came back.
    SelectorProbe { found: bool },
    /// A mutation probe came back; `mutated` says whether the DOM changed
    /// since the previous probe.
    IdleProbe { mutated: bool },
    /// A requested sleep finished.
    SleepDone,
}

/// What the shell must do next.
#[derive(Debug, Clone, PartialEq, Eq, Structural)]
pub enum WaitAction {
    /// Keep awaiting the navigation report.
    AwaitNavigation,
    /// Sleep `delay_ms`, then probe again and report the outcome.
    Probe { delay_ms: u64 },
    /// Sleep `delay_ms` once, then report `SleepDone`.
    Sleep { delay_ms: u64 },
    /// The wait is over; extraction may start.
    Done,
    /// The wait failed; abandon the call with this error.
    Fail { error: EngineError },
}

/// Adding one poll interval without overflowing.
pub open spec fn spec_tick(e: u64) -> u64 {
    if e <= u64::MAX - POLL_INTERVAL_MS {
        (e + POLL_INTERVAL_MS) as u64
    } else {
        u64::MAX
    }
}

/// The state and action after `Settled` is reached: a configured quiet
/// period is honoured unconditionally, whatever the wait kind.
pub open spec fn spec_settle(policy: RenderPolicyView) -> (WaitState, WaitAction) {
    if policy.quiet_period_ms > 0 {
        (WaitState::QuietWait, WaitAction::Sleep { delay_ms: policy.quiet_period_ms })
    } else {
        (WaitState::Settled, WaitAction::Done)
    }
}

/// One transition of the readiness machine.
pub open spec fn spec_wait_step(
    policy: RenderPolicyView,
    state: WaitState,
    event: WaitEvent,
) -> (WaitState, WaitAction) {
    match (state, event) {
        (WaitState::Navigating, WaitEvent::NavigationDone) => match policy.wait_kind {
            WaitKindView::Load => spec_settle(policy),
            WaitKindView::DomContentLoaded => spec_settle(policy),
            WaitKindView::SelectorWait { selector, timeout_ms } => (
                WaitState::WaitingSelector { elapsed_ms: 0 },
                WaitAction::Probe { delay_ms: 0 },
            ),
            WaitKindView::DomIdle { idle_threshold_ms, max_wait_ms } => (
                WaitState::WaitingDomIdle { elapsed_ms: 0, last_mutation_ms: 0 },
                WaitAction::Probe { delay_ms: POLL_INTERVAL_MS },
            ),
        },
        (WaitState::Navigating, _) => (WaitState::Navigating, WaitAction::AwaitNavigation),
        (WaitState::WaitingSelector { elapsed_ms }, WaitEvent::SelectorProbe { found }) => {
            if found {
                spec_settle(policy)
            } else if elapsed_ms >= spec_selector_timeout(policy) {
                (WaitState::TimedOut, WaitAction::Fail { error: EngineError::SelectorTimeout })
            } else {
                (
                    WaitState::WaitingSelector { elapsed_ms: spec_tick(elapsed_ms) },
                    WaitAction::Probe { delay_ms: POLL_INTERVAL_MS },
                )
            }
        },
        (WaitState::WaitingSelector { elapsed_ms }, _) => (
            WaitState::WaitingSelector { elapsed_ms },
            WaitAction::Probe { delay_ms: POLL_INTERVAL_MS },
        ),
        (
            WaitState::WaitingDomIdle { elapsed_ms, last_mutation_ms },
            WaitEvent::IdleProbe { mutated },
        ) => {
            let last = if mutated {
                elapsed_ms
            } else {
                last_mutation_ms
            };
            if !mutated && elapsed_ms >= last_mutation_ms && elapsed_ms - last_mutation_ms
                >= spec_idle_threshold(policy) {
                spec_settle(policy)
            } else if elapsed_ms >= spec_max_wait(policy) {
                // force-settle at the deadline: best effort, not an error
                spec_settle(policy)
            } else {
                (
                    WaitState::WaitingDomIdle {
                        elapsed_ms: spec_tick(elapsed_ms),
                        last_mutation_ms: last,
                    },
                    WaitAction::Probe { delay_ms: POLL_INTERVAL_MS },
                )
            }
        },
        (WaitState::WaitingDomIdle { elapsed_ms, last_mutation_ms }, _) => (
            WaitState::WaitingDomIdle { elapsed_ms, last_mutation_ms },
            WaitAction::Probe { delay_ms: POLL_INTERVAL_MS },
        ),
        (WaitState::QuietWait, _) => (WaitState::Settled, WaitAction::Done),
        (WaitState::Settled, _) => (WaitState::Settled, WaitAction::Done),
        (WaitState::TimedOut, _) => (
            WaitState::TimedOut,
            WaitAction::Fail { error: EngineError::SelectorTimeout },
        ),
    }
}

/// The selector timeout the policy carries, `0` for other wait kinds.
pub open spec fn spec_selector_timeout(policy: RenderPolicyView) -> u64 {
    match policy.wait_kind {
        WaitKindView::SelectorWait { timeout_ms, .. } => timeout_ms,
        _ => 0,
    }
}

/// The DOM-idle threshold the policy carries, `0` for other wait kinds.
pub open spec fn spec_idle_threshold(policy: RenderPolicyView) -> u64 {
    match policy.wait_kind {
        WaitKindView::DomIdle { idle_threshold_ms, .. } => idle_threshold_ms,
        _ => 0,
    }
}

/// The DOM-idle deadline the policy carries, `0` for other wait kinds.
pub open spec fn spec_max_wait(policy: RenderPolicyView) -> u64 {
    match policy.wait_kind {
        WaitKindView::DomIdle { max_wait_ms, .. } => max_wait_ms,
        _ => 0,
    }
}

/// One transition of the readiness machine, exactly as the ghost machine
/// has it.  In particular: a selector probe that comes back empty at or
/// past the configured timeout yields `TimedOut` with `SelectorTimeout`,
/// and every non-terminal action is a bounded wait.
pub fn wait_step(policy: &RenderPolicy, state: &WaitState, event: &WaitEvent) -> (r: (
    WaitState,
    WaitAction,
))
    ensures
        r == spec_wait_step(policy@, *state, *event),
{
    match (state, event) {
        (WaitState::Navigating, WaitEvent::NavigationDone) => match &policy.wait_kind {
            WaitKind::Load => settle(policy),
            WaitKind::DomContentLoaded => settle(policy),
            WaitKind::SelectorWait { selector, timeout_ms } => (
                WaitState::WaitingSelector { elapsed_ms: 0 },
                WaitAction::Probe { delay_ms: 0 },
            ),
            WaitKind::DomIdle { idle_threshold_ms, max_wait_ms } => (
                WaitState::WaitingDomIdle { elapsed_ms: 0, last_mutation_ms: 0 },
                WaitAction::Probe { delay_ms: POLL_INTERVAL_MS },
            ),
        },
        (WaitState::Navigating, _) => (WaitState::Navigating, WaitAction::AwaitNavigation),
        (WaitState::WaitingSelector { elapsed_ms }, WaitEvent::SelectorProbe { found }) => {
            let e = *elapsed_ms;
            let timeout = match &policy.wait_kind {
                WaitKind::SelectorWait { selector, timeout_ms } => *timeout_ms,
                _ => 0,
            };
            if *found {
                settle(policy)
            } else if e >= timeout {
                (WaitState::TimedOut, WaitAction::Fail { error: EngineError::SelectorTimeout })
            } else {
                (
                    WaitState::WaitingSelector { elapsed_ms: tick(e) },
                    WaitAction::Probe { delay_ms: POLL_INTERVAL_MS },
                )
            }
        },
        (WaitState::WaitingSelector { elapsed_ms }, _) => (
            WaitState::WaitingSelector { elapsed_ms: *elapsed_ms },
            WaitAction::Probe { delay_ms: POLL_INTERVAL_MS },
        ),
        (
            WaitState::WaitingDomIdle { elapsed_ms, last_mutation_ms },
            WaitEvent::IdleProbe { mutated },
        ) => {
            let e = *elapsed_ms;
            let lm = *last_mutation_ms;
            let (threshold, max_wait) = match &policy.wait_kind {
                WaitKind::DomIdle { idle_threshold_ms, max_wait_ms } => (
                    *idle_threshold_ms,
                    *max_wait_ms,
                ),
                _ => (0, 0),
            };
            let last = if *mutated {
                e
            } else {
                lm
            };
            if !*mutated && e >= lm && e - lm >= threshold {
                settle(policy)
            } else if e >= max_wait {
                settle(policy)
            } else {
                (
                    WaitState::WaitingDomIdle { elapsed_ms: tick(e), last_mutation_ms: last },
                    WaitAction::Probe { delay_ms: POLL_INTERVAL_MS },
                )
            }
        },
        (WaitState::WaitingDomIdle { elapsed_ms, last_mutation_ms }, _) => (
            WaitState::WaitingDomIdle {
                elapsed_ms: *elapsed_ms,
                last_mutation_ms: *last_mutation_ms,
            },
            WaitAction::Probe { delay_ms: POLL_INTERVAL_MS },
        ),
        (WaitState::QuietWait, _) => (WaitState::Settled, WaitAction::Done),
        (WaitState::Settled, _) => (WaitState::Settled, WaitAction::Done),
        (WaitState::TimedOut, _) => (
            WaitState::TimedOut,
            WaitAction::Fail { error: EngineError::SelectorTimeout },
        ),
    }
}

/// Saturating advance by one poll interval.
fn tick(e: u64) -> (r: u64)
    ensures
        r == spec_tick(e),
{
    if e <= u64::MAX - POLL_INTERVAL_MS {
        e + POLL_INTERVAL_MS
    } else {
        u64::MAX
    }
}

/// The post-settle decision, honouring the quiet period.
fn settle(policy: &RenderPolicy) -> (r: (WaitState, WaitAction))
    ensures
        r == spec_settle(policy@),
{
    if policy.quiet_period_ms > 0 {
        (WaitState::QuietWait, WaitAction::Sleep { delay_ms: policy.quiet_period_ms })
    } else {
        (WaitState::Settled, WaitAction::Done)
    }
}

/// The state after `fuel` selector probes that all come back empty.
pub open spec fn run_selector_absent(policy: RenderPolicyView, state: WaitState, fuel: nat)
    -> WaitState
    decreases fuel,
{
    if fuel == 0 {
        state
    } else {
        run_selector_absent(
            policy,
            spec_wait_step(policy, state, WaitEvent::SelectorProbe { found: false }).0,
            (fuel - 1) as nat,
        )
    }
}

proof fn lemma_selector_absent_aux(policy: RenderPolicyView, e: u64, fuel: nat)
    requires
        fuel >= 1,
        (fuel - 1) * POLL_INTERVAL_MS + e >= spec_selector_timeout(policy),
    ensures
        run_selector_absent(policy, WaitState::WaitingSelector { elapsed_ms: e }, fuel)
            == WaitState::TimedOut,
    decreases fuel,
{
    let timeout = spec_selector_timeout(policy);
    let next = spec_wait_step(
        policy,
        WaitState::WaitingSelector { elapsed_ms: e },
        WaitEvent::SelectorProbe { found: false },
    ).0;
    if e >= timeout {
        assert(next == WaitState::TimedOut);
        lemma_timed_out_stays(policy, (fuel - 1) as nat);
    } else {
        assert(next == WaitState::WaitingSelector { elapsed_ms: spec_tick(e) });
        assert(fuel - 1 >= 1) by {
            if fuel == 1 {
                assert(e >= timeout);
            }
        }
        assert((fuel - 2) * POLL_INTERVAL_MS + spec_tick(e) >= timeout) by {
            assert((fuel - 1) * POLL_INTERVAL_MS == (fuel - 2) * POLL_INTERVAL_MS
                + POLL_INTERVAL_MS);
            if e <= u64::MAX - POLL_INTERVAL_MS {
                assert(spec_tick(e) == e + POLL_INTERVAL_MS);
            } else {
                assert(spec_tick(e) == u64::MAX);
                assert(timeout <= u64::MAX);
                assert(fuel - 2 >= 0);
                assert((fuel - 2) * POLL_INTERVAL_MS >= 0);
            }
        }
        lemma_selector_absent_aux(policy, spec_tick(e), (fuel - 1) as nat);
    }
}

proof fn lemma_timed_out_stays(policy: RenderPolicyView, fuel: nat)
    ensures
        run_selector_absent(policy, WaitState::TimedOut, fuel) == WaitState::TimedOut,
    decreases fuel,
{
    if fuel > 0 {
        lemma_timed_out_stays(policy, (fuel - 1) as nat);
    }
}

/// Law: a `SelectorWait` whose selector never appears cannot hang.  From
/// the start of the wait, once enough empty probes have come back to cover
/// the configured timeout plus one poll interval, the machine stands in
/// `TimedOut` — and the step that put it there carried `SelectorTimeout`.
pub proof fn lemma_selector_wait_bounded(policy: RenderPolicyView, fuel: nat)
    requires
        fuel * POLL_INTERVAL_MS >= spec_selector_timeout(policy) + POLL_INTERVAL_MS,
    ensures
        run_selector_absent(policy, WaitState::WaitingSelector { elapsed_ms: 0 }, fuel)
            == WaitState::TimedOut,
{
    assert(fuel >= 1) by {
        if fuel == 0 {
            assert(fuel * POLL_INTERVAL_MS == 0);
        }
    }
    assert((fuel - 1) * POLL_INTERVAL_MS + 0 >= spec_selector_timeout(policy)) by {
        assert(fuel * POLL_INTERVAL_MS == (fuel - 1) * POLL_INTERVAL_MS + POLL_INTERVAL_MS);
    }
    lemma_selector_absent_aux(policy, 0, fuel);
}

/// Law: the machine never lets an empty probe past the timeout go on
/// waiting — at or past `timeout_ms` the step fails with `SelectorTimeout`.
pub proof fn lemma_selector_timeout_immediate(policy: RenderPolicyView, e: u64)
    requires
        e >= spec_selector_timeout(policy),
    ensures
        spec_wait_step(
            policy,
            WaitState::WaitingSelector { elapsed_ms: e },
            WaitEvent::SelectorProbe { found: false },
        ) == (WaitState::TimedOut, WaitAction::Fail { error: EngineError::SelectorTimeout }),
{
}

} // verus!
