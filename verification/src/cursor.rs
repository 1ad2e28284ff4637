//! Local cursor lifecycle during remote forwarding sessions.
//!
//! Entering forwarding hides the local cursor and remembers where it was;
//! leaving forwarding puts it back there and shows it. The position type is
//! whatever the platform uses for a screen point.
use vstd::prelude::*;

verus! {

/// What to do with the local cursor after a forwarding change.
#[derive(Debug, PartialEq)]
pub enum CursorAction<P> {
    /// Nothing changed.
    Unchanged,
    /// Forwarding started: hide the cursor.
    Hide,
    /// Forwarding stopped: move the cursor back to the saved point and show it.
    RestoreAndShow(P),
    /// Forwarding stopped with no saved point: show the cursor.
    Show,
}

/// Forwarding state and the point to restore when forwarding stops.
#[derive(Debug)]
pub struct CursorSession<P> {
    /// Whether input is currently forwarded to a remote device.
    pub forwarding: bool,
    /// Local cursor position saved when forwarding started.
    pub restore_point: Option<P>,
}

/// Session and action after a request to set forwarding to `next_forwarding`,
/// with the current cursor position if known.
pub open spec fn transition_step<P>(
    s: CursorSession<P>,
    next_forwarding: bool,
    current_position: Option<P>,
) -> (CursorSession<P>, CursorAction<P>) {
    if s.forwarding == next_forwarding {
        (s, CursorAction::Unchanged)
    } else if next_forwarding {
        (
            CursorSession {
                forwarding: true,
                restore_point: if s.restore_point is None {
                    current_position
                } else {
                    s.restore_point
                },
            },
            CursorAction::Hide,
        )
    } else {
        (
            CursorSession { forwarding: false, restore_point: None },
            match s.restore_point {
                Some(p) => CursorAction::RestoreAndShow(p),
                None => CursorAction::Show,
            },
        )
    }
}

impl<P> CursorSession<P> {
    /// A session that is not forwarding and has no saved point.
    pub fn new() -> (s: CursorSession<P>)
        ensures
            !s.forwarding,
            s.restore_point is None,
    {
        CursorSession { forwarding: false, restore_point: None }
    }

    /// Apply a forwarding change and say what to do with the local cursor.
    pub fn transition(&mut self, next_forwarding: bool, current_position: Option<P>) -> (action:
        CursorAction<P>)
        ensures
            (*final(self), action) == transition_step(*old(self), next_forwarding, current_position),
    {
        if self.forwarding == next_forwarding {
            return CursorAction::Unchanged;
        }
        self.forwarding = next_forwarding;
        if next_forwarding {
            if self.restore_point.is_none() {
                self.restore_point = current_position;
            }
            return CursorAction::Hide;
        }
        match self.restore_point.take() {
            Some(p) => CursorAction::RestoreAndShow(p),
            None => CursorAction::Show,
        }
    }
}

impl<P> Default for CursorSession<P> {
    fn default() -> (s: CursorSession<P>)
        ensures
            !s.forwarding,
            s.restore_point is None,
    {
        CursorSession { forwarding: false, restore_point: None }
    }
}

/// Going remote at `p`, switching between remote targets, then coming back
/// restores the cursor to `p` exactly once.
pub proof fn lemma_round_trip_restores_once<P>(p: P, q: Option<P>)
    ensures
        ({
            let s0 = CursorSession::<P> { forwarding: false, restore_point: None };
            let (s1, a1) = transition_step(s0, true, Some(p));
            let (s2, a2) = transition_step(s1, true, q);
            let (s3, a3) = transition_step(s2, false, None);
            let (s4, a4) = transition_step(s3, false, None);
            &&& a1 == CursorAction::<P>::Hide
            &&& a2 == CursorAction::<P>::Unchanged
            &&& a3 == CursorAction::RestoreAndShow(p)
            &&& s3.restore_point is None
            &&& a4 == CursorAction::<P>::Unchanged
        }),
{
}

/// Asking for the current forwarding mode again does nothing.
pub proof fn lemma_same_mode_is_noop<P>(s: CursorSession<P>, position: Option<P>)
    ensures
        transition_step(s, s.forwarding, position) == (s, CursorAction::<P>::Unchanged),
{
}

/// A saved restore point is never replaced while forwarding.
pub proof fn lemma_restore_point_kept_while_forwarding<P>(s: CursorSession<P>, next: bool, position: Option<P>)
    requires
        s.restore_point is Some,
        next,
    ensures
        transition_step(s, next, position).0.restore_point == s.restore_point,
{
}

} // verus!
