//! The render bridge.
//!
//! On each requested redraw the bridge reads the current rectangle snapshot
//! and publishes its four scalar components as the uniform parameters of
//! exactly one full-surface drawable. The previous drawable is fully retired
//! before the new one is spawned, so there are never two overlapping
//! drawables and never zero in a steady state. The fractal program consuming
//! the uniform block is an opaque external collaborator; its only contract
//! with the bridge is the uniform layout.

use vstd::prelude::*;
use crate::rational::Rat;
use crate::rect::ComplexRect;
use crate::store::ViewportStore;

verus! {

/// The shader-visible uniform block: the four scalar components of the
/// rectangle, in the fixed order upper-left real, upper-left imaginary,
/// lower-right real, lower-right imaginary.
#[derive(Clone, Copy, PartialEq, Eq, Structural, Debug)]
pub struct UniformBlock {
    pub ul_re: Rat,
    pub ul_im: Rat,
    pub lr_re: Rat,
    pub lr_im: Rat,
}

/// The uniform block publishing a rectangle.
pub open spec fn uniform_of(rect: ComplexRect) -> UniformBlock {
    UniformBlock {
        ul_re: rect.upper_left.re,
        ul_im: rect.upper_left.im,
        lr_re: rect.lower_right.re,
        lr_im: rect.lower_right.im,
    }
}

/// One renderable object: the full-surface quad with its uniform bundle.
#[derive(Clone, Copy, PartialEq, Eq, Structural, Debug)]
pub struct Drawable {
    pub uniform: UniformBlock,
}

/// Owns the live drawables of the fractal surface.
#[derive(Debug)]
pub struct RenderBridge {
    pub drawables: Vec<Drawable>,
}

impl RenderBridge {
    /// Exactly one drawable is live.
    pub open spec fn wf(self) -> bool {
        self.drawables@.len() == 1
    }

    /// Exactly one drawable is live and it publishes `rect`.
    pub open spec fn shows(self, rect: ComplexRect) -> bool {
        &&& self.wf()
        &&& self.drawables@[0].uniform == uniform_of(rect)
    }

    /// Spawns the initial drawable from the current store snapshot.
    pub fn new(store: &ViewportStore) -> (b: RenderBridge)
        ensures
            b.shows(store.rect),
    {
        let mut b = RenderBridge { drawables: Vec::new() };
        b.redraw(store);
        b
    }

    /// One redraw: fully retires the previous drawable, then spawns one new
    /// drawable publishing the current store snapshot. Exactly one drawable
    /// is live afterwards, whatever was live before.
    pub fn redraw(&mut self, store: &ViewportStore)
        ensures
            final (self).shows(store.rect),
    {
        self.drawables.clear();
        let snapshot = store.get();
        let uniform = UniformBlock {
            ul_re: snapshot.upper_left.re,
            ul_im: snapshot.upper_left.im,
            lr_re: snapshot.lower_right.re,
            lr_im: snapshot.lower_right.im,
        };
        self.drawables.push(Drawable { uniform });
    }

    /// How many drawables are live.
    pub fn drawable_count(&self) -> (n: usize)
        ensures
            n == self.drawables@.len(),
    {
        self.drawables.len()
    }

    /// The uniform block of the single live drawable.
    pub fn current_uniform(&self) -> (u: UniformBlock)
        requires
            self.wf(),
        ensures
            u == self.drawables@[0].uniform,
    {
        self.drawables[0].uniform
    }
}

} // verus!
