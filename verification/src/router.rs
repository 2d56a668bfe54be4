//! Input routing.
//!
//! The router turns raw, level-valued input reports into at most one
//! navigation per discrete event. It remembers the previous level of every
//! button and key it watches, so a held button or key triggers exactly once,
//! on its rising edge. A mouse navigation additionally needs a pick point;
//! when the pointer has left the surface the event is a no-op: the store is
//! not touched and nothing fails.
//!
//! The router is a two-state machine, [`RouterState::Idle`] and
//! [`RouterState::Navigating`]. A navigation is logically instantaneous: the
//! router enters `Navigating`, performs exactly one store update, and is
//! `Idle` again when the handler returns, so input handling is never
//! reentrant in the middle of a transform.

use vstd::prelude::*;
use vstd::arithmetic::div_mod::{lemma_div_is_ordered, lemma_div_nonincreasing};
use crate::navigation::{
    recompute, spec_recompute, spec_viewport_center, NavigationRequest, PickPoint, ZoomDirection,
};
use crate::rational::{
    lemma_gcd_divides, lemma_norm_fraction_props, norm_fraction, normalize_fraction, COORD_BOUND,
};
use crate::rect::ComplexRect;
use crate::store::ViewportStore;

verus! {

/// Whether the router is between events or inside a navigation.
#[derive(Clone, Copy, PartialEq, Eq, Structural, Debug)]
pub enum RouterState {
    Idle,
    Navigating,
}

/// One raw input report: the current level of a watched button or key, for
/// the mouse button together with the normalized pick point if the pointer
/// is on the surface.
#[derive(Clone, Copy, Debug)]
pub enum InputEvent {
    MouseLeft { pressed: bool, pick: Option<PickPoint> },
    ZoomInKey { pressed: bool },
    ZoomOutKey { pressed: bool },
}

/// Maps raw input events into navigations against the store.
#[derive(Clone, Copy, PartialEq, Eq, Structural, Debug)]
pub struct InputRouter {
    pub state: RouterState,
    pub mouse_left_down: bool,
    pub zoom_in_down: bool,
    pub zoom_out_down: bool,
}

/// The rectangle after applying one navigation request: the recomputed
/// rectangle, or the old one unchanged when the result would leave the
/// representable range.
pub open spec fn navigated_rect(rect: ComplexRect, request: NavigationRequest) -> ComplexRect {
    match spec_recompute(rect, request.pick, request.direction) {
        Some(next) => next,
        None => rect,
    }
}

impl InputRouter {
    /// The router rests between events.
    pub open spec fn wf(self) -> bool {
        self.state == RouterState::Idle
    }

    /// A pick point carried by an event is well-formed.
    pub open spec fn valid_event(event: InputEvent) -> bool {
        match event {
            InputEvent::MouseLeft { pick, .. } => pick matches Some(p) ==> p.wf(),
            _ => true,
        }
    }

    /// The event is a rising edge of its button or key, with a pick point
    /// where one is needed: exactly then one navigation is performed.
    pub open spec fn triggers(self, event: InputEvent) -> bool {
        match event {
            InputEvent::MouseLeft { pressed, pick } => pressed && !self.mouse_left_down
                && pick is Some,
            InputEvent::ZoomInKey { pressed } => pressed && !self.zoom_in_down,
            InputEvent::ZoomOutKey { pressed } => pressed && !self.zoom_out_down,
        }
    }

    /// The navigation request of a triggering event: a click recenters on the
    /// picked point and zooms in; the keys zoom on the viewport center.
    pub open spec fn request_of(event: InputEvent) -> NavigationRequest {
        match event {
            InputEvent::MouseLeft { pick, .. } => NavigationRequest {
                pick: pick->Some_0,
                direction: ZoomDirection::In,
            },
            InputEvent::ZoomInKey { .. } => NavigationRequest {
                pick: spec_viewport_center(),
                direction: ZoomDirection::In,
            },
            InputEvent::ZoomOutKey { .. } => NavigationRequest {
                pick: spec_viewport_center(),
                direction: ZoomDirection::Out,
            },
        }
    }

    /// The router state after an event: the level of the reported button or
    /// key is remembered for edge detection.
    pub open spec fn after_event(self, event: InputEvent) -> InputRouter {
        match event {
            InputEvent::MouseLeft { pressed, .. } => InputRouter {
                mouse_left_down: pressed,
                ..self
            },
            InputEvent::ZoomInKey { pressed } => InputRouter { zoom_in_down: pressed, ..self },
            InputEvent::ZoomOutKey { pressed } => InputRouter { zoom_out_down: pressed, ..self },
        }
    }

    /// A fresh router: idle, with nothing held down.
    pub fn new() -> (r: InputRouter)
        ensures
            r == (InputRouter {
                state: RouterState::Idle,
                mouse_left_down: false,
                zoom_in_down: false,
                zoom_out_down: false,
            }),
    {
        InputRouter {
            state: RouterState::Idle,
            mouse_left_down: false,
            zoom_in_down: false,
            zoom_out_down: false,
        }
    }

    /// Routes one event: performs exactly one store update when the event
    /// triggers, none otherwise, and remembers the reported level. An event
    /// without a pick point where one is needed leaves the store untouched.
    pub fn handle_event(&mut self, event: InputEvent, store: &mut ViewportStore) -> (navigated:
        bool)
        requires
            old(self).wf(),
            old(store).wf(),
            InputRouter::valid_event(event),
        ensures
            *final (self) == old(self).after_event(event),
            final (self).wf(),
            navigated == old(self).triggers(event),
            final (store).rect == if old(self).triggers(event) {
                navigated_rect(old(store).rect, InputRouter::request_of(event))
            } else {
                old(store).rect
            },
            final (store).wf(),
    {
        match event {
            InputEvent::MouseLeft { pressed, pick } => {
                let mut navigated = false;
                if pressed && !self.mouse_left_down {
                    if let Some(p) = pick {
                        self.state = RouterState::Navigating;
                        self.navigate(p, ZoomDirection::In, store);
                        self.state = RouterState::Idle;
                        navigated = true;
                    }
                }
                self.mouse_left_down = pressed;
                navigated
            },
            InputEvent::ZoomInKey { pressed } => {
                let mut navigated = false;
                if pressed && !self.zoom_in_down {
                    self.state = RouterState::Navigating;
                    self.navigate(PickPoint::viewport_center(), ZoomDirection::In, store);
                    self.state = RouterState::Idle;
                    navigated = true;
                }
                self.zoom_in_down = pressed;
                navigated
            },
            InputEvent::ZoomOutKey { pressed } => {
                let mut navigated = false;
                if pressed && !self.zoom_out_down {
                    self.state = RouterState::Navigating;
                    self.navigate(PickPoint::viewport_center(), ZoomDirection::Out, store);
                    self.state = RouterState::Idle;
                    navigated = true;
                }
                self.zoom_out_down = pressed;
                navigated
            },
        }
    }

    /// The one store update of a triggering event.
    fn navigate(&self, pick: PickPoint, direction: ZoomDirection, store: &mut ViewportStore)
        requires
            old(store).wf(),
            pick.wf(),
        ensures
            final (store).rect == navigated_rect(
                old(store).rect,
                NavigationRequest { pick, direction },
            ),
            final (store).wf(),
    {
        let current = store.get();
        match recompute(&current, pick, direction) {
            Some(next) => store.update(next),
            None => (),
        }
    }
}

/// Normalizes a pointer position in surface pixels into a pick point, the
/// position as a fraction of the surface width and height. `None` when the
/// surface size is zero or beyond the representable range, or the position
/// lies outside the surface.
pub fn normalize_cursor(x: u64, y: u64, width: u64, height: u64) -> (r: Option<PickPoint>)
    ensures
        r == spec_normalize_cursor(x as int, y as int, width as int, height as int),
        r matches Some(p) ==> p.wf(),
{
    if 1 <= width && width <= COORD_BOUND as u64 && 1 <= height && height <= COORD_BOUND as u64
        && x <= width && y <= height {
        proof {
            lemma_norm_unit_fraction(x as int, width as int);
            lemma_norm_unit_fraction(y as int, height as int);
        }
        let px = normalize_fraction(x as i128, width as i128);
        let py = normalize_fraction(y as i128, height as i128);
        match (px, py) {
            (Some(px), Some(py)) => Some(PickPoint { px, py }),
            _ => None,
        }
    } else {
        None
    }
}

/// The normalized pick point of a pointer position, `None` outside the
/// surface or beyond the representable range.
pub open spec fn spec_normalize_cursor(x: int, y: int, width: int, height: int) -> Option<
    PickPoint,
> {
    if 1 <= width <= COORD_BOUND && 1 <= height <= COORD_BOUND && 0 <= x <= width && 0 <= y
        <= height {
        Some(
            PickPoint {
                px: norm_fraction(x, width)->Some_0,
                py: norm_fraction(y, height)->Some_0,
            },
        )
    } else {
        None
    }
}

/// Reducing a fraction of the unit interval with bounded components always
/// succeeds, and yields a fraction of the unit interval again.
proof fn lemma_norm_unit_fraction(n: int, d: int)
    requires
        0 <= n <= d,
        1 <= d <= COORD_BOUND,
    ensures
        norm_fraction(n, d) matches Some(p) ==> p.wf() && p.in_unit(),
        norm_fraction(n, d) is Some,
{
    lemma_gcd_divides(n as nat, d as nat);
    let g = gcd_of(n, d);
    lemma_div_nonincreasing(n, g);
    lemma_div_nonincreasing(d, g);
    lemma_div_is_ordered(n, d, g);
    vstd::arithmetic::div_mod::lemma_div_pos_is_pos(n, g);
    vstd::arithmetic::div_mod::lemma_div_pos_is_pos(d, g);
    lemma_norm_fraction_props(n, d);
}

/// The greatest common divisor of a nonnegative fraction's components.
spec fn gcd_of(n: int, d: int) -> int {
    crate::rational::gcd(crate::rational::int_abs(n), d as nat) as int
}

} // verus!
