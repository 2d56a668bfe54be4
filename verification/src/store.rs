//! The single source of truth for what is currently visible.
//!
//! One [`ViewportStore`] exists for the lifetime of the application. It is
//! initialized once to the default viewing window, mutated only by the input
//! path and read only by the render path. Exclusive access is enforced by
//! ownership: a writer holds `&mut` for the duration of its whole-value
//! update, and a reader receives a complete copy of the rectangle, never a
//! live reference, so no torn read can occur and no lock can be poisoned.

use vstd::prelude::*;
use crate::rect::ComplexRect;

verus! {

/// Holder of the current visible rectangle.
#[derive(Debug)]
pub struct ViewportStore {
    pub rect: ComplexRect,
}

impl ViewportStore {
    /// The held rectangle is well-formed.
    pub open spec fn wf(self) -> bool {
        self.rect.wf()
    }

    /// Starts the store on a well-formed rectangle.
    pub fn new(initial: ComplexRect) -> (s: ViewportStore)
        requires
            initial.wf(),
        ensures
            s.rect == initial,
            s.wf(),
    {
        ViewportStore { rect: initial }
    }

    /// A consistent snapshot of the current rectangle, not a live reference.
    pub fn get(&self) -> (r: ComplexRect)
        ensures
            r == self.rect,
    {
        self.rect
    }

    /// Replaces the rectangle atomically: the store never holds a partially
    /// updated value, because the whole rectangle is written in one step
    /// under exclusive access.
    pub fn update(&mut self, rect: ComplexRect)
        requires
            rect.wf(),
        ensures
            final (self).rect == rect,
            final (self).wf(),
    {
        self.rect = rect;
    }
}

} // verus!
