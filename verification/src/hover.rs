//! The hover-to-expand behaviour of the capsules that grow on hover
//! (volume, brightness): entering starts a short timer that expands the
//! capsule if the pointer is still there; leaving starts a longer one that
//! collapses it if the pointer has not come back.

use vstd::prelude::*;

verus! {

/// Delay before a hovered capsule expands.
pub const EXPAND_DELAY_MS: u64 = 150;

/// Delay before a capsule the pointer left collapses.
pub const COLLAPSE_DELAY_MS: u64 = 300;

#[derive(Clone, Copy, Debug, PartialEq, Eq, Structural)]
pub struct HoverExpand {
    pub hovered: bool,
    pub show_expanded: bool,
    /// Set on the first expansion; until then the capsule's width does not
    /// animate.
    pub ever_expanded: bool,
}

#[derive(Clone, Copy, Debug, PartialEq, Eq, Structural)]
pub enum HoverEvent {
    /// The pointer entered the capsule.
    Enter,
    /// The pointer left the capsule.
    Leave,
    /// The expand timer fired.
    ExpandTimer,
    /// The collapse timer fired.
    CollapseTimer,
}

#[derive(Clone, Copy, Debug, PartialEq, Eq, Structural)]
pub enum HoverAction {
    Nothing,
    /// Start the expand timer (`EXPAND_DELAY_MS`).
    StartExpandTimer,
    /// Start the collapse timer (`COLLAPSE_DELAY_MS`).
    StartCollapseTimer,
    /// Redraw the capsule.
    Redraw,
}

pub open spec fn hover_valid(s: HoverExpand) -> bool {
    s.show_expanded ==> s.ever_expanded
}

pub open spec fn hover_next(s: HoverExpand, e: HoverEvent) -> (HoverExpand, HoverAction) {
    match e {
        HoverEvent::Enter => (HoverExpand { hovered: true, ..s }, HoverAction::StartExpandTimer),
        HoverEvent::Leave => (HoverExpand { hovered: false, ..s }, HoverAction::StartCollapseTimer),
        HoverEvent::ExpandTimer => if s.hovered {
            (HoverExpand { hovered: true, show_expanded: true, ever_expanded: true }, HoverAction::Redraw)
        } else {
            (s, HoverAction::Nothing)
        },
        HoverEvent::CollapseTimer => if !s.hovered {
            (HoverExpand { show_expanded: false, ..s }, HoverAction::Redraw)
        } else {
            (s, HoverAction::Nothing)
        },
    }
}

impl HoverExpand {
    /// Not hovered, collapsed, never expanded.
    pub fn new() -> (r: Self)
        ensures
            !r.hovered && !r.show_expanded && !r.ever_expanded,
    {
        HoverExpand { hovered: false, show_expanded: false, ever_expanded: false }
    }

    /// Applies an event; returns what the widget must do.
    pub fn step(&mut self, e: HoverEvent) -> (a: HoverAction)
        ensures
            (*final(self), a) == hover_next(*old(self), e),
    {
        match e {
            HoverEvent::Enter => {
                self.hovered = true;
                HoverAction::StartExpandTimer
            },
            HoverEvent::Leave => {
                self.hovered = false;
                HoverAction::StartCollapseTimer
            },
            HoverEvent::ExpandTimer => {
                if self.hovered {
                    self.show_expanded = true;
                    self.ever_expanded = true;
                    HoverAction::Redraw
                } else {
                    HoverAction::Nothing
                }
            },
            HoverEvent::CollapseTimer => {
                if !self.hovered {
                    self.show_expanded = false;
                    HoverAction::Redraw
                } else {
                    HoverAction::Nothing
                }
            },
        }
    }
}

/// Every step keeps the capsule expanded only after it has expanded once,
/// and never forgets that it has.
pub proof fn law_hover_step_keeps_valid(s: HoverExpand, e: HoverEvent)
    requires
        hover_valid(s),
    ensures
        hover_valid(hover_next(s, e).0),
        s.ever_expanded ==> hover_next(s, e).0.ever_expanded,
{
}

/// Entering and then the expand timer firing leaves the capsule expanded;
/// leaving and then the collapse timer firing leaves it collapsed.
pub proof fn law_hover_settles(s: HoverExpand)
    ensures
        hover_next(hover_next(s, HoverEvent::Enter).0, HoverEvent::ExpandTimer).0.show_expanded,
        !hover_next(hover_next(s, HoverEvent::Leave).0, HoverEvent::CollapseTimer).0.show_expanded,
{
}

/// A collapse timer from an earlier leave does nothing once the pointer is
/// back, and an expand timer does nothing once the pointer has left.
pub proof fn law_stale_timer_ignored(s: HoverExpand)
    ensures
        hover_next(hover_next(s, HoverEvent::Enter).0, HoverEvent::CollapseTimer) == (
            hover_next(s, HoverEvent::Enter).0,
            HoverAction::Nothing,
        ),
        hover_next(hover_next(s, HoverEvent::Leave).0, HoverEvent::ExpandTimer) == (
            hover_next(s, HoverEvent::Leave).0,
            HoverAction::Nothing,
        ),
{
}

/// The delays after which a popover's sections slide in, one `stagger_ms`
/// apart: the `i`-th after `i * stagger_ms` (the first at once).
pub fn reveal_delays(n: usize, stagger_ms: u64) -> (r: Vec<u64>)
    requires
        n * stagger_ms <= u64::MAX,
    ensures
        r@.len() == n,
        forall|i: int| 0 <= i < n ==> #[trigger] r@[i] == i * stagger_ms,
{
    let mut v: Vec<u64> = Vec::new();
    for i in 0..n
        invariant
            n * stagger_ms <= u64::MAX,
            v@.len() == i,
            forall|k: int| 0 <= k < i ==> #[trigger] v@[k] == k * stagger_ms,
    {
        proof {
            assert(i * stagger_ms <= n * stagger_ms) by (nonlinear_arith)
                requires
                    i < n,
            ;
        }
        v.push(i as u64 * stagger_ms);
    }
    v
}

} // verus!
