//! The assembled viewer core: store, router and bridge wired together.
//!
//! One frame step is: the router reads the store, computes the navigation and
//! writes the result back, then the bridge rereads the store and republishes
//! it. The well-formedness invariant ties the pieces together: the published
//! uniform block always shows the rectangle of the most recently completed
//! navigation, and exactly one drawable is live after any sequence of events.

use vstd::prelude::*;
use crate::bridge::RenderBridge;
use crate::navigation::PickPoint;
use crate::rect::{spec_initial_view, ComplexRect};
use crate::router::{InputEvent, InputRouter};
use crate::store::ViewportStore;

verus! {

/// The viewer: the single shared rectangle, the input router and the render
/// bridge.
#[derive(Debug)]
pub struct FractalViewer {
    pub store: ViewportStore,
    pub router: InputRouter,
    pub bridge: RenderBridge,
}

impl FractalViewer {
    /// The rectangle is well-formed, the router is idle, and the single live
    /// drawable publishes the current rectangle.
    pub open spec fn wf(self) -> bool {
        &&& self.store.wf()
        &&& self.router.wf()
        &&& self.bridge.shows(self.store.rect)
    }

    /// Boots the viewer: the default viewing window in the store, a fresh
    /// router, and the initial drawable already published.
    pub fn setup() -> (v: FractalViewer)
        ensures
            v.wf(),
            v.store.rect == spec_initial_view(),
    {
        let store = ViewportStore::new(ComplexRect::default());
        let router = InputRouter::new();
        let bridge = RenderBridge::new(&store);
        FractalViewer { store, router, bridge }
    }

    /// Routes one event and, when it navigated, redraws. The returned flag
    /// says whether a navigation happened; the published uniform block shows
    /// the current rectangle either way.
    pub fn process_event(&mut self, event: InputEvent) -> (navigated: bool)
        requires
            old(self).wf(),
            InputRouter::valid_event(event),
        ensures
            final (self).wf(),
            navigated == old(self).router.triggers(event),
            final (self).router == old(self).router.after_event(event),
            final (self).store.rect == if old(self).router.triggers(event) {
                crate::router::navigated_rect(
                    old(self).store.rect,
                    InputRouter::request_of(event),
                )
            } else {
                old(self).store.rect
            },
    {
        let navigated = self.router.handle_event(event, &mut self.store);
        if navigated {
            self.bridge.redraw(&self.store);
        }
        navigated
    }

    /// A left-button report; a press edge with a pick point navigates there
    /// and zooms in, a press edge without one is a no-op.
    pub fn mouse_navigation(&mut self, pressed: bool, pick: Option<PickPoint>) -> (navigated:
        bool)
        requires
            old(self).wf(),
            pick matches Some(p) ==> p.wf(),
        ensures
            final (self).wf(),
            navigated == old(self).router.triggers(InputEvent::MouseLeft { pressed, pick }),
            final (self).store.rect == if old(self).router.triggers(
                InputEvent::MouseLeft { pressed, pick },
            ) {
                crate::router::navigated_rect(
                    old(self).store.rect,
                    InputRouter::request_of(InputEvent::MouseLeft { pressed, pick }),
                )
            } else {
                old(self).store.rect
            },
    {
        self.process_event(InputEvent::MouseLeft { pressed, pick })
    }

    /// A zoom-in key report; a press edge zooms in on the viewport center.
    pub fn keyboard_navigation_zoom_in(&mut self, pressed: bool) -> (navigated: bool)
        requires
            old(self).wf(),
        ensures
            final (self).wf(),
            navigated == old(self).router.triggers(InputEvent::ZoomInKey { pressed }),
            final (self).store.rect == if old(self).router.triggers(
                InputEvent::ZoomInKey { pressed },
            ) {
                crate::router::navigated_rect(
                    old(self).store.rect,
                    InputRouter::request_of(InputEvent::ZoomInKey { pressed }),
                )
            } else {
                old(self).store.rect
            },
    {
        self.process_event(InputEvent::ZoomInKey { pressed })
    }

    /// A zoom-out key report; a press edge zooms out from the viewport
    /// center.
    pub fn keyboard_navigation_zoom_out(&mut self, pressed: bool) -> (navigated: bool)
        requires
            old(self).wf(),
        ensures
            final (self).wf(),
            navigated == old(self).router.triggers(InputEvent::ZoomOutKey { pressed }),
            final (self).store.rect == if old(self).router.triggers(
                InputEvent::ZoomOutKey { pressed },
            ) {
                crate::router::navigated_rect(
                    old(self).store.rect,
                    InputRouter::request_of(InputEvent::ZoomOutKey { pressed }),
                )
            } else {
                old(self).store.rect
            },
    {
        self.process_event(InputEvent::ZoomOutKey { pressed })
    }
}

} // verus!
