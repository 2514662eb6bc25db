use vstd::prelude::*;

use crate::datatypes::{Coords, Region};

verus! {

/// How a view follows the content.
#[derive(Clone, Copy, PartialEq, Eq, Structural, Debug)]
pub enum Flow {
    /// A window of fixed size that slides over the grid.
    Moveable,
    /// Rewraps long lines to the view's width; not supported yet.
    Reflowable,
}

/// The state a reflowing view would keep; no operation takes it yet.
#[derive(PartialEq, Eq, Debug)]
pub struct ReflowableView {
    pub point: Coords,
    pub width: u32,
    pub height: u32,
    pub line_wraps: Vec<u32>,
}

/// The part of the grid that is shown.
#[derive(PartialEq, Eq, Debug)]
pub enum View {
    Moveable(Region),
    Reflowable(ReflowableView),
}

/// Where a view over `r` goes to keep `p` in sight: moved by the least
/// distance that makes it contain `p`, or left where it is if it is empty or
/// cannot move that far.
pub open spec fn kept_within(r: Region, p: Coords) -> Region {
    if r.left < r.right && r.top < r.bottom && p.x < u32::MAX && p.y < u32::MAX && p.x + (r.right
        - r.left) <= u32::MAX && p.y + (r.bottom - r.top) <= u32::MAX {
        r.moved_to_contain(p)
    } else {
        r
    }
}

impl View {
    pub open spec fn wf(&self) -> bool {
        self matches View::Moveable(r) && r.wf()
    }

    pub open spec fn region(&self) -> Region {
        match self {
            View::Moveable(r) => *r,
            View::Reflowable(v) => Region { left: 0, top: 0, right: 0, bottom: 0 },
        }
    }

    /// A view of `width` by `height` cells from `point`. Only moveable views
    /// are supported.
    pub fn new(point: Coords, width: u32, height: u32, flow: Flow) -> (r: View)
        requires
            flow == Flow::Moveable,
            point.x + width <= u32::MAX,
            point.y + height <= u32::MAX,
        ensures
            r.wf(),
            r.region() == (Region {
                left: point.x,
                top: point.y,
                right: (point.x + width) as u32,
                bottom: (point.y + height) as u32,
            }),
    {
        View::Moveable(Region::new(point.x, point.y, point.x + width, point.y + height))
    }

    /// The grid cell shown at the view's own coordinates `c`.
    pub fn translate(&self, c: Coords) -> (r: Coords)
        requires
            self.wf(),
            c.x < self.region().right - self.region().left,
            c.y < self.region().bottom - self.region().top,
        ensures
            r == (Coords { x: (self.region().left + c.x) as u32, y: (self.region().top + c.y) as u32 }),
            self.region().contains_spec(r),
    {
        match self {
            View::Moveable(r) => Coords { x: c.x + r.left, y: c.y + r.top },
            View::Reflowable(_) => c,
        }
    }

    pub fn width(&self) -> (r: u32)
        requires
            self.wf(),
        ensures
            r == self.region().right - self.region().left,
    {
        match self {
            View::Moveable(r) => r.width(),
            View::Reflowable(_) => 0,
        }
    }

    pub fn height(&self) -> (r: u32)
        requires
            self.wf(),
        ensures
            r == self.region().bottom - self.region().top,
    {
        match self {
            View::Moveable(r) => r.height(),
            View::Reflowable(_) => 0,
        }
    }

    pub fn bounds(&self) -> (r: Region)
        requires
            self.wf(),
        ensures
            r == self.region(),
            r.wf(),
    {
        match self {
            View::Moveable(r) => *r,
            View::Reflowable(_) => Region { left: 0, top: 0, right: 0, bottom: 0 },
        }
    }

    /// Make the view `width` columns wide, keeping its top left cell.
    pub fn resize_width(&mut self, width: u32)
        requires
            old(self).wf(),
            old(self).region().left + width <= u32::MAX,
        ensures
            final(self).wf(),
            final(self).region() == (Region { right: (old(self).region().left + width) as u32, ..old(self).region() }),
    {
        if let View::Moveable(r) = self {
            r.right = r.left + width;
        }
    }

    /// Make the view `height` rows high, keeping its top left cell.
    pub fn resize_height(&mut self, height: u32)
        requires
            old(self).wf(),
            old(self).region().top + height <= u32::MAX,
        ensures
            final(self).wf(),
            final(self).region() == (Region { bottom: (old(self).region().top + height) as u32, ..old(self).region() }),
    {
        if let View::Moveable(r) = self {
            r.bottom = r.top + height;
        }
    }

    /// Move the view by the least distance that brings `c` into sight.
    pub fn keep_cursor_within(&mut self, c: Coords)
        requires
            old(self).wf(),
        ensures
            final(self).wf(),
            final(self).region() == kept_within(old(self).region(), c),
    {
        if let View::Moveable(r) = self {
            let w = r.right - r.left;
            let h = r.bottom - r.top;
            if r.left < r.right && r.top < r.bottom && c.x < u32::MAX && c.y < u32::MAX
                && w <= u32::MAX - c.x && h <= u32::MAX - c.y {
                *r = r.move_to_contain(c);
            }
        }
    }
}

} // verus!
