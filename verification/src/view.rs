//! What every view of the interface carries: the size it asks for, the
//! rectangle it was given, and whether it has to be drawn again.

use crate::layout::Rect;
use vstd::prelude::*;

verus! {

/// The size that a view asks for along one axis.
#[derive(Clone, Copy, Debug, PartialEq, Eq, Structural)]
pub enum Dimension {
    /// As much as the parent has left.
    MatchParent,
    /// As much as the content needs.
    WrapContent,
    /// This many cells.
    Absolute(u16),
}

/// A view: its geometry and state, around what it shows.
pub struct View<C> {
    pub width: Dimension,
    pub height: Dimension,
    pub x: u16,
    pub y: u16,
    pub w: Option<u16>,
    pub h: Option<u16>,
    pub dirty: bool,
    pub visible: bool,
    pub content: C,
}

/// What a view holds: its geometry and state, around what its content
/// holds.
pub struct Placed<M> {
    pub width: Dimension,
    pub height: Dimension,
    pub x: u16,
    pub y: u16,
    pub w: Option<u16>,
    pub h: Option<u16>,
    pub dirty: bool,
    pub visible: bool,
    pub content: M,
}

impl<M> Placed<M> {
    /// The view has been measured and laid out, so that it can be drawn:
    /// it has a width, and a position on the one-based screen.
    pub open spec fn placed(self) -> bool {
        self.w is Some && (self.x != 0 || self.y != 0)
    }

    /// The rectangle of the view; empty as far as the view is not
    /// measured.
    pub open spec fn rect(self) -> Rect {
        Rect {
            x: self.x,
            y: self.y,
            w: match self.w {
                Some(w) => w,
                None => 0,
            },
            h: match self.h {
                Some(h) => h,
                None => 0,
            },
        }
    }

    /// The view has been measured and laid out on the screen, whose cells
    /// are counted from one in sixteen bits.
    pub open spec fn on_screen(self) -> bool {
        &&& self.w is Some
        &&& self.h is Some
        &&& self.x >= 1
        &&& self.y >= 1
        &&& self.x + self.rect().w <= u16::MAX
        &&& self.y + self.rect().h <= u16::MAX
    }

    /// The rows that the view has; none while it is not measured.
    pub open spec fn rows(self) -> int {
        match self.h {
            Some(h) => h as int,
            None => 0,
        }
    }

    /// The view with other content, to be drawn again.
    pub open spec fn changed(self, content: M) -> Placed<M> {
        Placed { content, dirty: true, ..self }
    }

    /// The view with other content, drawn.
    pub open spec fn drawn(self, content: M) -> Placed<M> {
        Placed { content, dirty: false, ..self }
    }

    /// The view in the rectangle `(x, y, w, h)`.
    pub open spec fn at(self, x: u16, y: u16, w: u16, h: u16) -> Placed<M> {
        Placed { x, y, w: Some(w), h: Some(h), ..self }
    }

    /// A view that was just made, with the size it asks for: nowhere yet,
    /// to be drawn, and visible.
    pub open spec fn made(width: Dimension, height: Dimension, content: M) -> Placed<M> {
        Placed { width, height, x: 0, y: 0, w: None, h: None, dirty: true, visible: true, content }
    }
}

impl<C: vstd::view::View> vstd::view::View for View<C> {
    type V = Placed<C::V>;

    open spec fn view(&self) -> Placed<C::V> {
        Placed {
            width: self.width,
            height: self.height,
            x: self.x,
            y: self.y,
            w: self.w,
            h: self.h,
            dirty: self.dirty,
            visible: self.visible,
            content: self.content.view(),
        }
    }
}

impl<C> View<C> {
    /// The view has been measured and laid out, so that it can be drawn:
    /// it has a width, and a position on the one-based screen.
    pub open spec fn placed(&self) -> bool {
        self.w is Some && (self.x != 0 || self.y != 0)
    }

    /// Whether the view has to be drawn again.
    pub fn is_dirty(&self) -> (dirty: bool)
        ensures
            dirty == self.dirty,
    {
        self.dirty
    }

    /// Gives the view its rectangle.
    pub fn place(&mut self, x: u16, y: u16, w: u16, h: u16)
        ensures
            final(self).content == old(self).content,
            final(self).width == old(self).width,
            final(self).height == old(self).height,
            final(self).dirty == old(self).dirty,
            final(self).visible == old(self).visible,
            final(self).x == x,
            final(self).y == y,
            final(self).w == Some(w),
            final(self).h == Some(h),
    {
        self.x = x;
        self.y = y;
        self.w = Some(w);
        self.h = Some(h);
    }
}

} // verus!
