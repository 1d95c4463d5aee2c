//! The full-screen red filter's state.
//!
//! The filter is applied by the Windows Magnification API, which transforms
//! every displayed pixel by a colour matrix. This module decides which colour
//! effect to request and keeps track of what the API reported; the program
//! makes the API calls and reports their outcome back.

use vstd::prelude::*;

verus! {

/// The colour effects the filter requests.
#[derive(Clone, Copy, Debug, PartialEq, Eq, Structural)]
pub enum ColorEffect {
    /// Keep only the red channel: green and blue light are removed, alpha
    /// passes through.
    RedOnly,
    /// The identity transform: the normal, unfiltered screen.
    Identity,
}

/// What the filter knows: whether the Magnification API is initialised, and
/// whether the red effect was last applied successfully.
pub struct FilterView {
    pub initialized: bool,
    pub active: bool,
}

/// The red filter.
pub struct RedFilter {
    initialized: bool,
    active: bool,
}

/// The effect that turning the filter on or off requests, if any: none once
/// the API is not initialised.
pub open spec fn requested_effect(v: FilterView, on: bool) -> Option<ColorEffect> {
    if !v.initialized {
        None
    } else if on {
        Some(ColorEffect::RedOnly)
    } else {
        Some(ColorEffect::Identity)
    }
}

/// The state after turning the filter on or off, where `applied` tells whether
/// the API accepted the requested effect: the state follows `on` only when the
/// effect was requested and applied.
pub open spec fn after_set(v: FilterView, on: bool, applied: bool) -> FilterView {
    if v.initialized && applied {
        FilterView { initialized: true, active: on }
    } else {
        v
    }
}

/// The state after shutting down, where `restored` tells whether the API
/// accepted the identity effect requested first: the API is released, and
/// the filter counts as off only if the normal screen was restored.
pub open spec fn after_shutdown(v: FilterView, restored: bool) -> FilterView {
    FilterView { initialized: false, active: after_set(v, false, restored).active }
}

impl View for RedFilter {
    type V = FilterView;

    closed spec fn view(&self) -> FilterView {
        FilterView { initialized: self.initialized, active: self.active }
    }
}

impl RedFilter {
    /// A filter, given whether initialising the Magnification API succeeded.
    /// It starts off.
    pub fn new(initialized: bool) -> (f: RedFilter)
        ensures
            f@ == (FilterView { initialized, active: false }),
            f@.initialized == initialized,
            !f@.active,
    {
        RedFilter { initialized, active: false }
    }

    /// Whether the red effect is on.
    pub fn is_active(&self) -> (on: bool)
        ensures
            on == self@.active,
    {
        self.active
    }

    /// Whether the Magnification API is initialised.
    pub fn is_initialized(&self) -> (init: bool)
        ensures
            init == self@.initialized,
    {
        self.initialized
    }

    /// The effect to hand to the API to turn the filter on or off; `None`
    /// when the API is not initialised and nothing is to be done.
    pub fn effect_for(&self, on: bool) -> (effect: Option<ColorEffect>)
        ensures
            effect == requested_effect(self@, on),
            self@.initialized && on ==> effect == Some(ColorEffect::RedOnly),
            self@.initialized && !on ==> effect == Some(ColorEffect::Identity),
            !self@.initialized ==> effect is None,
    {
        if !self.initialized {
            None
        } else if on {
            Some(ColorEffect::RedOnly)
        } else {
            Some(ColorEffect::Identity)
        }
    }

    /// Records the outcome of turning the filter on or off: `applied` is
    /// whether the API accepted the effect that `effect_for(on)` requested.
    pub fn set(&mut self, on: bool, applied: bool)
        ensures
            final(self)@ == after_set(old(self)@, on, applied),
            final(self)@.initialized == old(self)@.initialized,
            old(self)@.initialized && applied ==> final(self)@.active == on,
            !(old(self)@.initialized && applied) ==> final(self)@.active == old(self)@.active,
    {
        if !self.initialized {
            return;
        }
        if applied {
            self.active = on;
        }
    }

    /// Shuts the filter down, given whether the identity effect that
    /// `effect_for(false)` requested was applied. Returns whether the
    /// Magnification API must now be released.
    pub fn shutdown(&mut self, restored: bool) -> (release: bool)
        ensures
            release == old(self)@.initialized,
            final(self)@ == after_shutdown(old(self)@, restored),
            !final(self)@.initialized,
            old(self)@.initialized && restored ==> !final(self)@.active,
            !(old(self)@.initialized && restored) ==> final(self)@.active == old(self)@.active,
    {
        if self.initialized {
            self.set(false, restored);
            self.initialized = false;
            true
        } else {
            false
        }
    }
}

/// With the API initialised, the effect requested depends on the state asked
/// for alone, not on the filter's current state: on asks for the red-only
/// matrix and off for the identity, so turning an active filter off restores
/// the normal screen. Without the API nothing is requested.
pub proof fn lemma_effect_follows_request(v: FilterView, w: FilterView, on: bool)
    ensures
        v.initialized ==> requested_effect(v, true) == Some(ColorEffect::RedOnly),
        v.initialized ==> requested_effect(v, false) == Some(ColorEffect::Identity),
        !v.initialized ==> requested_effect(v, on) is None,
        v.initialized == w.initialized ==> requested_effect(v, on) == requested_effect(w, on),
{
}

/// A successful request leaves the filter exactly as asked: on after turning
/// it on, off after turning it off.
pub proof fn lemma_applied_set_takes_effect(v: FilterView, on: bool)
    requires
        v.initialized,
    ensures
        requested_effect(v, on) is Some,
        after_set(v, on, true).active == on,
        after_set(v, on, true).initialized,
{
}

/// Turning the filter on or off twice in a row is the same as doing it once.
pub proof fn lemma_set_idempotent(v: FilterView, on: bool, first: bool, second: bool)
    requires
        first,
    ensures
        after_set(after_set(v, on, first), on, second) == after_set(v, on, first),
{
}

/// Shutting down is final: afterwards no colour effect is ever requested
/// again, turning the filter on or off changes nothing, and shutting down
/// again releases nothing.
pub proof fn lemma_shutdown_is_final(v: FilterView, restored: bool, on: bool, applied: bool)
    ensures
        requested_effect(after_shutdown(v, restored), on) is None,
        after_set(after_shutdown(v, restored), on, applied) == after_shutdown(v, restored),
        !after_shutdown(v, restored).initialized,
{
}

/// A filter whose API could not be initialised requests nothing and never
/// turns on.
pub proof fn lemma_uninitialized_stays_off(on: bool, applied: bool)
    ensures
        requested_effect(FilterView { initialized: false, active: false }, on) is None,
        !after_set(FilterView { initialized: false, active: false }, on, applied).active,
{
}

/// One recorded operation on the filter: turning it on or off with the API's
/// answer, or shutting it down with the answer to the restoring request.
pub enum FilterOp {
    Turn { on: bool, applied: bool },
    Shutdown { restored: bool },
}

/// The state after one operation.
pub open spec fn after_op(v: FilterView, op: FilterOp) -> FilterView {
    match op {
        FilterOp::Turn { on, applied } => after_set(v, on, applied),
        FilterOp::Shutdown { restored } => after_shutdown(v, restored),
    }
}

/// The state after a run of operations, applied in order.
pub open spec fn after_ops(v: FilterView, ops: Seq<FilterOp>) -> FilterView
    decreases ops.len(),
{
    if ops.len() == 0 {
        v
    } else {
        after_op(after_ops(v, ops.drop_last()), ops.last())
    }
}

/// The filter state an operation asks for: a shutdown asks for off.
pub open spec fn op_on(op: FilterOp) -> bool {
    match op {
        FilterOp::Turn { on, .. } => on,
        FilterOp::Shutdown { .. } => false,
    }
}

/// Whether the API accepted the effect the operation requested.
pub open spec fn op_applied(op: FilterOp) -> bool {
    match op {
        FilterOp::Turn { applied, .. } => applied,
        FilterOp::Shutdown { restored } => restored,
    }
}

/// The API is still initialised when operation `k` runs: it was at the start
/// and no earlier operation shut the filter down.
pub open spec fn initialized_before(init: bool, ops: Seq<FilterOp>, k: int) -> bool {
    init && forall|i: int| 0 <= i < k ==> !(#[trigger] ops[i] is Shutdown)
}

/// Operation `k` changed the filter: it ran while the API was initialised and
/// the API accepted its effect.
pub open spec fn takes_effect(init: bool, ops: Seq<FilterOp>, k: int) -> bool {
    initialized_before(init, ops, k) && op_applied(ops[k])
}

/// Dropping the last operation changes nothing about the earlier ones:
/// whether the API was initialised before each and whether each took effect.
proof fn lemma_prefix_agrees(init: bool, ops: Seq<FilterOp>)
    requires
        ops.len() > 0,
    ensures
        forall|k: int|
            0 <= k <= ops.len() - 1 ==> #[trigger] initialized_before(init, ops, k)
                == initialized_before(init, ops.drop_last(), k),
        forall|k: int|
            0 <= k < ops.len() - 1 ==> #[trigger] takes_effect(init, ops, k) == takes_effect(
                init,
                ops.drop_last(),
                k,
            ),
        initialized_before(init, ops, ops.len() as int) == (initialized_before(
            init,
            ops,
            ops.len() - 1,
        ) && !(ops.last() is Shutdown)),
{
    let p = ops.drop_last();
    let n = p.len() as int;
    assert forall|k: int| 0 <= k <= n implies initialized_before(init, ops, k)
        == initialized_before(init, p, k) by {
        assert forall|i: int| 0 <= i < k implies ops[i] == p[i] by {}
    }
    assert forall|k: int| 0 <= k < n implies takes_effect(init, ops, k) == takes_effect(
        init,
        p,
        k,
    ) by {
        assert(ops[k] == p[k]);
    }
    assert(ops.last() == ops[n]);
    if initialized_before(init, ops, n) && !(ops[n] is Shutdown) {
        assert forall|i: int| 0 <= i < n + 1 implies !(#[trigger] ops[i] is Shutdown) by {
            if i < n {
                assert(!(ops[i] is Shutdown));
            }
        }
    }
}

/// After `new` and any run of recorded operations, the filter is on exactly
/// when the last operation that took effect asked for on (a shutdown asking
/// for off), and off when none took effect; it stays initialised until the
/// first shutdown.
#[verifier::spinoff_prover]
pub proof fn lemma_active_is_last_effective_request(init: bool, ops: Seq<FilterOp>)
    ensures
        after_ops(FilterView { initialized: init, active: false }, ops).initialized
            == initialized_before(init, ops, ops.len() as int),
        (forall|k: int| 0 <= k < ops.len() ==> !#[trigger] takes_effect(init, ops, k)) ==> !after_ops(
            FilterView { initialized: init, active: false },
            ops,
        ).active,
        forall|k: int|
            0 <= k < ops.len() && #[trigger] takes_effect(init, ops, k) && (forall|j: int|
                k < j < ops.len() ==> !takes_effect(init, ops, j)) ==> after_ops(
                FilterView { initialized: init, active: false },
                ops,
            ).active == op_on(ops[k]),
    decreases ops.len(),
{
    let start = FilterView { initialized: init, active: false };
    if ops.len() > 0 {
        let p = ops.drop_last();
        let n = p.len() as int;
        lemma_active_is_last_effective_request(init, p);
        lemma_prefix_agrees(init, ops);
        let prev = after_ops(start, p);
        assert(after_ops(start, ops) == after_op(prev, ops.last()));
        assert(ops.last() == ops[n]);
        assert(initialized_before(init, ops, n) == initialized_before(init, p, n));
        if forall|k: int| 0 <= k < ops.len() ==> !#[trigger] takes_effect(init, ops, k) {
            assert forall|k: int| 0 <= k < n implies !#[trigger] takes_effect(init, p, k) by {
                assert(!takes_effect(init, ops, k));
            }
        }
        if takes_effect(init, ops, n) {
            assert(prev.initialized);
        } else {
            assert forall|k: int|
                0 <= k < ops.len() && #[trigger] takes_effect(init, ops, k) && (forall|j: int|
                    k < j < ops.len() ==> !takes_effect(init, ops, j)) implies after_ops(
                start,
                ops,
            ).active == op_on(ops[k]) by {
                assert(k < n);
                assert(takes_effect(init, p, k));
                assert forall|j: int| k < j < n implies !takes_effect(init, p, j) by {
                    assert(!takes_effect(init, ops, j));
                }
            }
        }
    }
}

} // verus!
