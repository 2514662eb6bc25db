use vstd::prelude::*;

use crate::datatypes::{Coords, Direction, Region};

verus! {

/// A value that a grid can hold, with the blank value that fills new space.
pub trait GridCell: Sized {
    spec fn blank_spec() -> Self;

    fn blank() -> (r: Self)
        ensures
            r == Self::blank_spec(),
    ;
}

/// `n` blank cells.
pub open spec fn blank_line<T: GridCell>(n: nat) -> Seq<T> {
    Seq::new(n, |i: int| T::blank_spec())
}

/// `n` rows of `width` blank cells.
pub open spec fn blank_lines<T: GridCell>(n: nat, width: nat) -> Seq<Seq<T>> {
    Seq::new(n, |i: int| blank_line::<T>(width))
}

pub open spec fn min_nat(a: nat, b: nat) -> nat {
    if a < b { a } else { b }
}

pub open spec fn sat_sub(a: nat, b: nat) -> nat {
    if a < b { 0 } else { (a - b) as nat }
}

pub open spec fn max_nat(a: nat, b: nat) -> nat {
    if a < b { b } else { a }
}

/// Sizes are limited to what a `u32` coordinate can address.
pub open spec fn size_limit() -> nat {
    u32::MAX as nat
}

/// The abstract state of a grid: its rows of cells, and how far each axis may
/// still grow (`None`: without limit).
pub ghost struct GridModel<T> {
    pub width: nat,
    pub height: nat,
    pub rows: Seq<Seq<T>>,
    pub rem_x: Option<nat>,
    pub rem_y: Option<nat>,
}

impl<T> GridModel<T> {
    pub open spec fn wf(self) -> bool {
        &&& self.rows.len() == self.height
        &&& forall|y: int| 0 <= y < self.height ==> (#[trigger] self.rows[y]).len() == self.width
        &&& self.width <= size_limit()
        &&& self.height <= size_limit()
        &&& (self.rem_x matches Some(r) ==> r + self.width <= size_limit())
        &&& (self.rem_y matches Some(r) ==> r + self.height <= size_limit())
    }

    pub open spec fn in_bounds(self, c: Coords) -> bool {
        c.x < self.width && c.y < self.height
    }

    pub open spec fn cell(self, c: Coords) -> T {
        self.rows[c.y as int][c.x as int]
    }

    pub open spec fn max_width(self) -> Option<nat> {
        match self.rem_x {
            Some(r) => Some(r + self.width),
            None => None,
        }
    }

    pub open spec fn max_height(self) -> Option<nat> {
        match self.rem_y {
            Some(r) => Some(r + self.height),
            None => None,
        }
    }

    /// How many columns the grid may still gain.
    pub open spec fn room_x(self) -> nat {
        match self.rem_x {
            Some(r) => r,
            None => (size_limit() - self.width) as nat,
        }
    }

    /// How many rows the grid may still gain.
    pub open spec fn room_y(self) -> nat {
        match self.rem_y {
            Some(r) => r,
            None => (size_limit() - self.height) as nat,
        }
    }

    pub open spec fn set(self, c: Coords, v: T) -> GridModel<T> {
        if self.in_bounds(c) {
            GridModel {
                rows: self.rows.update(c.y as int, self.rows[c.y as int].update(c.x as int, v)),
                ..self
            }
        } else {
            self
        }
    }

    /// The grid with the cells of `r` that lie inside it overwritten: `head`
    /// at the top left cell of `r`, `rest` at the others.
    pub open spec fn with_item(self, r: Region, head: T, rest: T) -> GridModel<T> {
        GridModel {
            rows: Seq::new(
                self.height,
                |y: int|
                    Seq::new(
                        self.width,
                        |x: int|
                            if r.left <= x < r.right && r.top <= y < r.bottom {
                                if x == r.left && y == r.top {
                                    head
                                } else {
                                    rest
                                }
                            } else {
                                self.rows[y][x]
                            },
                    ),
            ),
            ..self
        }
    }

    /// The maximum width raised to at least `w` (a grid without one keeps
    /// none); the current size is untouched.
    pub open spec fn width_guaranteed(self, w: nat) -> GridModel<T> {
        match self.rem_x {
            Some(r) => GridModel {
                rem_x: Some(max_nat(r, sat_sub(min_nat(w, size_limit()), self.width))),
                ..self
            },
            None => self,
        }
    }

    pub open spec fn height_guaranteed(self, h: nat) -> GridModel<T> {
        match self.rem_y {
            Some(r) => GridModel {
                rem_y: Some(max_nat(r, sat_sub(min_nat(h, size_limit()), self.height))),
                ..self
            },
            None => self,
        }
    }
}

impl<T: GridCell> GridModel<T> {
    /// Scroll by `n` towards `dir`: the grid first grows on the `dir` side by
    /// as much of `n` as it may, and what is left of `n` shifts the content
    /// away from that side, losing what falls off the far side. Blank cells
    /// fill the space opened on the `dir` side.
    pub open spec fn scrolled(self, n: nat, dir: Direction) -> GridModel<T> {
        match dir {
            Direction::Up | Direction::Down => {
                let g = min_nat(n, self.room_y());
                let h = self.height + g;
                let k = min_nat(n, h);
                let rows = if dir == Direction::Up {
                    blank_lines::<T>(k, self.width) + self.rows.subrange(0, h - k)
                } else {
                    self.rows.subrange(self.height + k - h, self.height as int) + blank_lines::<T>(
                        k,
                        self.width,
                    )
                };
                GridModel {
                    height: h,
                    rows,
                    rem_y: match self.rem_y {
                        Some(r) => Some((r - g) as nat),
                        None => None,
                    },
                    ..self
                }
            },
            Direction::Left | Direction::Right => {
                let g = min_nat(n, self.room_x());
                let w = self.width + g;
                let k = min_nat(n, w);
                let rows = if dir == Direction::Left {
                    Seq::new(
                        self.height,
                        |y: int| blank_line::<T>(k) + self.rows[y].subrange(0, w - k),
                    )
                } else {
                    Seq::new(
                        self.height,
                        |y: int|
                            self.rows[y].subrange(self.width + k - w, self.width as int)
                                + blank_line::<T>(k),
                    )
                };
                GridModel {
                    width: w,
                    rows,
                    rem_x: match self.rem_x {
                        Some(r) => Some((r - g) as nat),
                        None => None,
                    },
                    ..self
                }
            },
        }
    }

    /// `dx` blank columns added on the right, then `dy` blank rows below.
    pub open spec fn extended(self, dx: nat, dy: nat) -> GridModel<T> {
        let w = self.width + dx;
        GridModel {
            width: w,
            height: self.height + dy,
            rows: Seq::new(self.height, |y: int| self.rows[y] + blank_line::<T>(dx))
                + blank_lines::<T>(dy, w),
            rem_x: match self.rem_x {
                Some(r) => Some((r - dx) as nat),
                None => None,
            },
            rem_y: match self.rem_y {
                Some(r) => Some((r - dy) as nat),
                None => None,
            },
        }
    }

    /// The grid grown right and down, as far as its limits allow, until `c`
    /// lies inside it.
    pub open spec fn filled_to(self, c: Coords) -> GridModel<T> {
        let dx = if c.x >= self.width {
            min_nat((c.x + 1 - self.width) as nat, self.room_x())
        } else {
            0
        };
        let dy = if c.y >= self.height {
            min_nat((c.y + 1 - self.height) as nat, self.room_y())
        } else {
            0
        };
        self.extended(dx, dy)
    }
}

/// A resizable two-dimensional container of cells, stored as rows.
pub struct Grid<T> {
    width: usize,
    height: usize,
    rows: Vec<Vec<T>>,
    rem_x: Option<usize>,
    rem_y: Option<usize>,
}

/// The contents of rows of cells.
pub open spec fn rows_view<T>(v: Seq<Vec<T>>) -> Seq<Seq<T>> {
    Seq::new(v.len(), |i: int| v[i]@)
}

pub open spec fn opt_nat(o: Option<usize>) -> Option<nat> {
    match o {
        Some(v) => Some(v as nat),
        None => None,
    }
}

impl<T> View for Grid<T> {
    type V = GridModel<T>;

    closed spec fn view(&self) -> GridModel<T> {
        GridModel {
            width: self.width as nat,
            height: self.height as nat,
            rows: rows_view(self.rows@),
            rem_x: opt_nat(self.rem_x),
            rem_y: opt_nat(self.rem_y),
        }
    }
}

fn cap_to_limit(v: usize) -> (r: usize)
    ensures
        r == min_nat(v as nat, size_limit()),
{
    if v < u32::MAX as usize {
        v
    } else {
        u32::MAX as usize
    }
}

fn blank_row<T: GridCell>(n: usize) -> (r: Vec<T>)
    ensures
        r@ == blank_line::<T>(n as nat),
{
    let mut v: Vec<T> = Vec::new();
    let mut i: usize = 0;
    while i < n
        invariant
            i <= n,
            v@ == blank_line::<T>(i as nat),
        decreases n - i,
    {
        v.push(T::blank());
        i = i + 1;
        assert(v@ =~= blank_line::<T>(i as nat));
    }
    v
}

fn blank_rows<T: GridCell>(n: usize, width: usize) -> (r: Vec<Vec<T>>)
    ensures
        rows_view(r@) == blank_lines::<T>(n as nat, width as nat),
{
    let mut v: Vec<Vec<T>> = Vec::new();
    let mut i: usize = 0;
    while i < n
        invariant
            i <= n,
            rows_view(v@) == blank_lines::<T>(i as nat, width as nat),
        decreases n - i,
    {
        let ghost prev = v@;
        let row = blank_row::<T>(width);
        v.push(row);
        i = i + 1;
        assert(rows_view(prev).len() == prev.len());
        assert(prev.len() == i - 1);
        assert(v@.len() == i);
        assert forall|j: int| 0 <= j < i implies rows_view(v@)[j] == blank_lines::<T>(
            i as nat,
            width as nat,
        )[j] by {
            if j < i - 1 {
                assert(rows_view(prev)[j] == blank_lines::<T>((i - 1) as nat, width as nat)[j]);
            }
        }
        assert(rows_view(v@) =~= blank_lines::<T>(i as nat, width as nat));
    }
    v
}

impl<T> Grid<T> {
    fn new(max_x: Option<usize>, max_y: Option<usize>) -> (r: Grid<T>)
        ensures
            r@.wf(),
            r@ == (GridModel::<T> {
                width: 0,
                height: 0,
                rows: Seq::empty(),
                rem_x: match max_x {
                    Some(m) => Some(min_nat(m as nat, size_limit())),
                    None => None,
                },
                rem_y: match max_y {
                    Some(m) => Some(min_nat(m as nat, size_limit())),
                    None => None,
                },
            }),
    {
        let rem_x = match max_x {
            Some(m) => Some(cap_to_limit(m)),
            None => None,
        };
        let rem_y = match max_y {
            Some(m) => Some(cap_to_limit(m)),
            None => None,
        };
        let g = Grid { width: 0, height: 0, rows: Vec::new(), rem_x, rem_y };
        assert(g@.rows =~= Seq::empty());
        g
    }

    /// An empty grid that may grow to `max_x` columns and any number of rows.
    pub fn with_x_cap(max_x: usize) -> (r: Grid<T>)
        ensures
            r@.wf(),
            r@.width == 0 && r@.height == 0,
            r@.rem_x == Some(min_nat(max_x as nat, size_limit())),
            r@.rem_y == None::<nat>,
    {
        Grid::new(Some(max_x), None)
    }

    /// An empty grid that may grow to `max_y` rows and any number of columns.
    pub fn with_y_cap(max_y: usize) -> (r: Grid<T>)
        ensures
            r@.wf(),
            r@.width == 0 && r@.height == 0,
            r@.rem_x == None::<nat>,
            r@.rem_y == Some(min_nat(max_y as nat, size_limit())),
    {
        Grid::new(None, Some(max_y))
    }

    /// An empty grid that may grow to `max_x` by `max_y` cells.
    pub fn with_x_y_caps(max_x: usize, max_y: usize) -> (r: Grid<T>)
        ensures
            r@.wf(),
            r@.width == 0 && r@.height == 0,
            r@.rem_x == Some(min_nat(max_x as nat, size_limit())),
            r@.rem_y == Some(min_nat(max_y as nat, size_limit())),
    {
        Grid::new(Some(max_x), Some(max_y))
    }

    /// An empty grid that may grow without limit in both directions.
    pub fn with_infinite_scroll() -> (r: Grid<T>)
        ensures
            r@.wf(),
            r@.width == 0 && r@.height == 0,
            r@.rem_x == None::<nat>,
            r@.rem_y == None::<nat>,
    {
        Grid::new(None, None)
    }

    pub fn width(&self) -> (r: usize)
        ensures
            r == self@.width,
    {
        self.width
    }

    pub fn height(&self) -> (r: usize)
        ensures
            r == self@.height,
    {
        self.height
    }

    pub fn max_width(&self) -> (r: Option<usize>)
        requires
            self@.wf(),
        ensures
            opt_nat(r) == self@.max_width(),
    {
        match self.rem_x {
            Some(x) => Some(x + self.width),
            None => None,
        }
    }

    pub fn max_height(&self) -> (r: Option<usize>)
        requires
            self@.wf(),
        ensures
            opt_nat(r) == self@.max_height(),
    {
        match self.rem_y {
            Some(y) => Some(y + self.height),
            None => None,
        }
    }

    /// The region the grid covers, or `None` when it holds no cells.
    pub fn bounds(&self) -> (r: Option<Region>)
        requires
            self@.wf(),
        ensures
            self@.width > 0 && self@.height > 0 ==> r == Some(
                Region { left: 0, top: 0, right: self@.width as u32, bottom: self@.height as u32 },
            ),
            !(self@.width > 0 && self@.height > 0) ==> r.is_none(),
    {
        if self.width > 0 && self.height > 0 {
            Some(Region { left: 0, top: 0, right: self.width as u32, bottom: self.height as u32 })
        } else {
            None
        }
    }

    /// Make sure that the grid may grow to `width` columns. It never shrinks
    /// the maximum, nor changes the current size.
    pub fn guarantee_width(&mut self, width: usize)
        requires
            old(self)@.wf(),
        ensures
            final(self)@ == old(self)@.width_guaranteed(width as nat),
            final(self)@.wf(),
    {
        let w = cap_to_limit(width);
        let new_rem = w.saturating_sub(self.width);
        if let Some(rem) = self.rem_x {
            self.rem_x = Some(if rem < new_rem { new_rem } else { rem });
        }
    }

    /// Make sure that the grid may grow to `height` rows.
    pub fn guarantee_height(&mut self, height: usize)
        requires
            old(self)@.wf(),
        ensures
            final(self)@ == old(self)@.height_guaranteed(height as nat),
            final(self)@.wf(),
    {
        let h = cap_to_limit(height);
        let new_rem = h.saturating_sub(self.height);
        if let Some(rem) = self.rem_y {
            self.rem_y = Some(if rem < new_rem { new_rem } else { rem });
        }
    }

    /// The cell at `c`, if `c` lies inside the grid.
    pub fn get(&self, c: Coords) -> (r: Option<&T>)
        requires
            self@.wf(),
        ensures
            self@.in_bounds(c) ==> r == Some(&self@.cell(c)),
            !self@.in_bounds(c) ==> r.is_none(),
    {
        if (c.x as usize) < self.width && (c.y as usize) < self.height {
            assert(self@.rows[c.y as int].len() == self.width);
            let row = &self.rows[c.y as usize];
            Some(&row[c.x as usize])
        } else {
            None
        }
    }

    /// Row `y` of the grid, left to right.
    pub fn row(&self, y: usize) -> (r: Option<&Vec<T>>)
        requires
            self@.wf(),
        ensures
            y < self@.height ==> (r matches Some(v) && v@ == self@.rows[y as int]),
            y >= self@.height ==> r.is_none(),
    {
        if y < self.height {
            Some(&self.rows[y])
        } else {
            None
        }
    }

    /// Put `v` at `c`; nothing happens if `c` lies outside the grid.
    pub fn set(&mut self, c: Coords, v: T)
        requires
            old(self)@.wf(),
        ensures
            final(self)@ == old(self)@.set(c, v),
            final(self)@.wf(),
    {
        if (c.x as usize) < self.width && (c.y as usize) < self.height {
            let ghost old_rows = self.rows@;
            self.rows[c.y as usize].set(c.x as usize, v);
            proof {
                assert(self@.rows =~= old(self)@.rows.update(
                    c.y as int,
                    old(self)@.rows[c.y as int].update(c.x as int, v),
                ));
            }
        }
    }

    /// Swap `v` with the cell at `c` and return the cell's old value; `v`
    /// comes back when `c` lies outside the grid.
    pub fn replace(&mut self, c: Coords, v: T) -> (r: T)
        requires
            old(self)@.wf(),
        ensures
            final(self)@ == old(self)@.set(c, v),
            final(self)@.wf(),
            old(self)@.in_bounds(c) ==> r == old(self)@.cell(c),
            !old(self)@.in_bounds(c) ==> r == v,
    {
        let mut v = v;
        if (c.x as usize) < self.width && (c.y as usize) < self.height {
            let row = &mut self.rows[c.y as usize];
            let cell = &mut row[c.x as usize];
            std::mem::swap(cell, &mut v);
            proof {
                assert(self@.rows =~= old(self)@.rows.update(
                    c.y as int,
                    old(self)@.rows[c.y as int].update(c.x as int, self@.cell(c)),
                ));
            }
        }
        v
    }
}


proof fn lemma_rows_view_add<T>(a: Seq<Vec<T>>, b: Seq<Vec<T>>)
    ensures
        rows_view(a + b) == rows_view(a) + rows_view(b),
{
    assert(rows_view(a + b) =~= rows_view(a) + rows_view(b));
}

proof fn lemma_rows_view_subrange<T>(a: Seq<Vec<T>>, i: int, j: int)
    requires
        0 <= i <= j <= a.len(),
    ensures
        rows_view(a.subrange(i, j)) == rows_view(a).subrange(i, j),
{
    assert(rows_view(a.subrange(i, j)) =~= rows_view(a).subrange(i, j));
}

impl<T: GridCell> Grid<T> {
    fn room_x(&self) -> (r: usize)
        requires
            self@.wf(),
        ensures
            r == self@.room_x(),
    {
        match self.rem_x {
            Some(r) => r,
            None => u32::MAX as usize - self.width,
        }
    }

    fn room_y(&self) -> (r: usize)
        requires
            self@.wf(),
        ensures
            r == self@.room_y(),
    {
        match self.rem_y {
            Some(r) => r,
            None => u32::MAX as usize - self.height,
        }
    }

    /// Scroll the content by `n` cells towards `dir`: grow on that side as
    /// far as the grid may, then shift what remains, dropping what falls off
    /// the far side. Blank cells fill the space opened on the `dir` side.
    pub fn scroll(&mut self, n: usize, dir: Direction)
        requires
            old(self)@.wf(),
        ensures
            final(self)@ == old(self)@.scrolled(n as nat, dir),
            final(self)@.wf(),
    {
        match dir {
            Direction::Up => self.scroll_vertically(n, true),
            Direction::Down => self.scroll_vertically(n, false),
            Direction::Left => self.scroll_horizontally(n, true),
            Direction::Right => self.scroll_horizontally(n, false),
        }
    }

    fn scroll_vertically(&mut self, n: usize, up: bool)
        requires
            old(self)@.wf(),
        ensures
            final(self)@ == old(self)@.scrolled(
                n as nat,
                if up { Direction::Up } else { Direction::Down },
            ),
            final(self)@.wf(),
    {
        let ghost dir = if up { Direction::Up } else { Direction::Down };
        let ghost old_rows = self.rows@;
        let room = self.room_y();
        let g = if n < room { n } else { room };
        let h = self.height + g;
        let k = if n < h { n } else { h };
        if up {
            self.rows.truncate(h - k);
            let mut out = blank_rows::<T>(k, self.width);
            let ghost blanks = out@;
            let ghost kept = self.rows@;
            out.append(&mut self.rows);
            self.rows = out;
            proof {
                lemma_rows_view_add(blanks, kept);
                lemma_rows_view_subrange(old_rows, 0, h - k);
            }
        } else {
            let tail = self.rows.split_off(self.height - (h - k));
            self.rows = tail;
            let ghost kept = self.rows@;
            let mut extra = blank_rows::<T>(k, self.width);
            let ghost blanks = extra@;
            self.rows.append(&mut extra);
            proof {
                lemma_rows_view_add(kept, blanks);
                lemma_rows_view_subrange(old_rows, self.height + k - h, self.height as int);
            }
        }
        self.height = h;
        self.rem_y = match self.rem_y {
            Some(r) => Some(r - g),
            None => None,
        };
        proof {
            let m = old(self)@.scrolled(n as nat, dir);
            assert(self@.rows =~= m.rows);
            assert forall|y: int| 0 <= y < self@.height implies (#[trigger] self@.rows[y]).len()
                == self@.width by {
                if up {
                    if y >= k {
                        assert(self@.rows[y] == old(self)@.rows[y - k]);
                    }
                } else {
                    if y < h - k {
                        assert(self@.rows[y] == old(self)@.rows[y + (old(self)@.height + k - h)]);
                    }
                }
            }
        }
    }

    fn scroll_horizontally(&mut self, n: usize, left: bool)
        requires
            old(self)@.wf(),
        ensures
            final(self)@ == old(self)@.scrolled(
                n as nat,
                if left { Direction::Left } else { Direction::Right },
            ),
            final(self)@.wf(),
    {
        let ghost dir = if left { Direction::Left } else { Direction::Right };
        let room = self.room_x();
        let g = if n < room { n } else { room };
        let w = self.width + g;
        let k = if n < w { n } else { w };
        let ghost m = old(self)@.scrolled(n as nat, dir);
        let mut i: usize = 0;
        while i < self.height
            invariant
                old(self)@.wf(),
                m == old(self)@.scrolled(n as nat, dir),
                dir == (if left { Direction::Left } else { Direction::Right }),
                self.width == old(self).width,
                self.height == old(self).height,
                self.rem_x == old(self).rem_x,
                self.rem_y == old(self).rem_y,
                g == min_nat(n as nat, old(self)@.room_x()),
                w == self.width + g,
                k == min_nat(n as nat, w as nat),
                i <= self.height,
                self.rows@.len() == self.height,
                forall|j: int| 0 <= j < i ==> (#[trigger] self.rows@[j])@ == m.rows[j],
                forall|j: int| i <= j < self.height ==> (#[trigger] self.rows@[j])@
                    == old(self)@.rows[j],
            decreases self.height - i,
        {
            assert(self.rows@[i as int]@ == old(self)@.rows[i as int]);
            assert(old(self)@.rows[i as int].len() == self.width);
            if left {
                self.rows[i].truncate(w - k);
                let mut line = blank_row::<T>(k);
                line.append(&mut self.rows[i]);
                std::mem::swap(&mut self.rows[i], &mut line);
                assert(m.rows[i as int] == blank_line::<T>(k as nat) + old(self)@.rows[i as int].subrange(
                    0,
                    w - k,
                ));
            } else {
                let mut line = self.rows[i].split_off(self.width - (w - k));
                let mut extra = blank_row::<T>(k);
                line.append(&mut extra);
                std::mem::swap(&mut self.rows[i], &mut line);
                assert(m.rows[i as int] == old(self)@.rows[i as int].subrange(
                    self.width - (w - k),
                    self.width as int,
                ) + blank_line::<T>(k as nat));
            }
            assert(self.rows@[i as int]@ =~= m.rows[i as int]);
            i = i + 1;
        }
        self.width = w;
        self.rem_x = match self.rem_x {
            Some(r) => Some(r - g),
            None => None,
        };
        proof {
            assert(self@.rows =~= m.rows);
        }
    }

    /// Grow the grid by `dx` columns on the right and `dy` rows below.
    fn extend(&mut self, dx: usize, dy: usize)
        requires
            old(self)@.wf(),
            dx <= old(self)@.room_x(),
            dy <= old(self)@.room_y(),
        ensures
            final(self)@ == old(self)@.extended(dx as nat, dy as nat),
            final(self)@.wf(),
    {
        let ghost m = old(self)@.extended(dx as nat, dy as nat);
        let mut i: usize = 0;
        while i < self.height
            invariant
                old(self)@.wf(),
                m == old(self)@.extended(dx as nat, dy as nat),
                self.width == old(self).width,
                self.height == old(self).height,
                self.rem_x == old(self).rem_x,
                self.rem_y == old(self).rem_y,
                i <= self.height,
                self.rows@.len() == self.height,
                forall|j: int| 0 <= j < i ==> (#[trigger] self.rows@[j])@ == m.rows[j],
                forall|j: int| i <= j < self.height ==> (#[trigger] self.rows@[j])@
                    == old(self)@.rows[j],
            decreases self.height - i,
        {
            let mut extra = blank_row::<T>(dx);
            self.rows[i].append(&mut extra);
            assert(self.rows@[i as int]@ =~= m.rows[i as int]);
            i = i + 1;
        }
        let w = self.width + dx;
        let ghost widened = self.rows@;
        let mut below = blank_rows::<T>(dy, w);
        let ghost blanks = below@;
        self.rows.append(&mut below);
        self.width = w;
        self.height = self.height + dy;
        self.rem_x = match self.rem_x {
            Some(r) => Some(r - dx),
            None => None,
        };
        self.rem_y = match self.rem_y {
            Some(r) => Some(r - dy),
            None => None,
        };
        proof {
            lemma_rows_view_add(widened, blanks);
            assert(rows_view(widened) =~= m.rows.subrange(0, old(self)@.height as int));
            assert(self@.rows =~= m.rows);
        }
    }

    /// Grow the grid right and down, as far as its limits allow, until `c`
    /// lies inside it.
    pub fn fill_to(&mut self, c: Coords)
        requires
            old(self)@.wf(),
        ensures
            final(self)@ == old(self)@.filled_to(c),
            final(self)@.wf(),
    {
        let dx = if c.x as usize >= self.width {
            let d = c.x as usize - self.width;
            let room = self.room_x();
            if d < room { d + 1 } else { room }
        } else {
            0
        };
        let dy = if c.y as usize >= self.height {
            let d = c.y as usize - self.height;
            let room = self.room_y();
            if d < room { d + 1 } else { room }
        } else {
            0
        };
        self.extend(dx, dy);
    }
}


/// Scrolling towards a side the grid can still grow on by `n` grows it by
/// exactly `n` there and keeps every cell in place next to its neighbours:
/// the new blank rows or columns come before (up, left) or after (down,
/// right) the old content, which is whole.
pub proof fn lemma_scroll_with_room<T: GridCell>(m: GridModel<T>, n: nat, dir: Direction)
    requires
        m.wf(),
        (dir == Direction::Up || dir == Direction::Down) ==> n <= m.room_y(),
        (dir == Direction::Left || dir == Direction::Right) ==> n <= m.room_x(),
    ensures
        dir == Direction::Up ==> m.scrolled(n, dir).height == m.height + n && m.scrolled(n, dir).rows
            == blank_lines::<T>(n, m.width) + m.rows,
        dir == Direction::Down ==> m.scrolled(n, dir).height == m.height + n && m.scrolled(n, dir).rows
            == m.rows + blank_lines::<T>(n, m.width),
        dir == Direction::Left ==> m.scrolled(n, dir).width == m.width + n && forall|y: int|
            0 <= y < m.height ==> #[trigger] m.scrolled(n, dir).rows[y] == blank_line::<T>(n)
                + m.rows[y],
        dir == Direction::Right ==> m.scrolled(n, dir).width == m.width + n && forall|y: int|
            0 <= y < m.height ==> #[trigger] m.scrolled(n, dir).rows[y] == m.rows[y]
                + blank_line::<T>(n),
{
    let s = m.scrolled(n, dir);
    if dir == Direction::Up {
        assert(m.rows.subrange(0, m.height as int) =~= m.rows);
    } else if dir == Direction::Down {
        assert(m.rows.subrange(0, m.height as int) =~= m.rows);
    } else if dir == Direction::Left {
        assert forall|y: int| 0 <= y < m.height implies #[trigger] s.rows[y] == blank_line::<T>(n)
            + m.rows[y] by {
            assert(m.rows[y].subrange(0, m.width as int) =~= m.rows[y]);
        }
    } else {
        assert forall|y: int| 0 <= y < m.height implies #[trigger] s.rows[y] == m.rows[y]
            + blank_line::<T>(n) by {
            assert(m.rows[y].subrange(0, m.width as int) =~= m.rows[y]);
        }
    }
}

/// Scrolling towards a side the grid can no longer grow on keeps its size
/// and shifts the content by `n` away from that side: the `n` rows or
/// columns on that side become blank and the rest is the old content moved
/// along, what passed the far edge being lost. With `n` at least the extent,
/// everything becomes blank.
pub proof fn lemma_scroll_without_room<T: GridCell>(m: GridModel<T>, n: nat, dir: Direction)
    requires
        m.wf(),
        (dir == Direction::Up || dir == Direction::Down) ==> m.room_y() == 0,
        (dir == Direction::Left || dir == Direction::Right) ==> m.room_x() == 0,
    ensures
        m.scrolled(n, dir).width == m.width,
        m.scrolled(n, dir).height == m.height,
        dir == Direction::Up && n < m.height ==> m.scrolled(n, dir).rows == blank_lines::<T>(
            n,
            m.width,
        ) + m.rows.subrange(0, m.height - n),
        dir == Direction::Down && n < m.height ==> m.scrolled(n, dir).rows == m.rows.subrange(
            n as int,
            m.height as int,
        ) + blank_lines::<T>(n, m.width),
        dir == Direction::Left && n < m.width ==> forall|y: int|
            0 <= y < m.height ==> #[trigger] m.scrolled(n, dir).rows[y] == blank_line::<T>(n)
                + m.rows[y].subrange(0, m.width - n),
        dir == Direction::Right && n < m.width ==> forall|y: int|
            0 <= y < m.height ==> #[trigger] m.scrolled(n, dir).rows[y] == m.rows[y].subrange(
                n as int,
                m.width as int,
            ) + blank_line::<T>(n),
        (dir == Direction::Up || dir == Direction::Down) && n >= m.height ==> m.scrolled(n, dir).rows
            == blank_lines::<T>(m.height, m.width),
        (dir == Direction::Left || dir == Direction::Right) && n >= m.width ==> forall|y: int|
            0 <= y < m.height ==> #[trigger] m.scrolled(n, dir).rows[y] == blank_line::<T>(m.width),
{
    let s = m.scrolled(n, dir);
    if (dir == Direction::Up || dir == Direction::Down) && n >= m.height {
        assert(s.rows =~= blank_lines::<T>(m.height, m.width));
    }
    if (dir == Direction::Left || dir == Direction::Right) && n >= m.width {
        assert forall|y: int| 0 <= y < m.height implies #[trigger] s.rows[y] == blank_line::<T>(
            m.width,
        ) by {
            assert(s.rows[y] =~= blank_line::<T>(m.width));
        }
    }
}

/// Guaranteeing a width twice is guaranteeing it once.
pub proof fn lemma_guarantee_width_idempotent<T>(m: GridModel<T>, w: nat)
    ensures
        m.width_guaranteed(w).width_guaranteed(w) == m.width_guaranteed(w),
{
}

/// A smaller guarantee after a larger one changes nothing: the maximum width
/// stays where the larger one put it.
pub proof fn lemma_guarantee_width_monotone<T>(m: GridModel<T>, w1: nat, w2: nat)
    requires
        w2 <= w1,
    ensures
        m.width_guaranteed(w1).width_guaranteed(w2) == m.width_guaranteed(w1),
        m.width_guaranteed(w1).width_guaranteed(w2).max_width() == m.width_guaranteed(w1).max_width(),
{
}

/// Guaranteeing a height twice is guaranteeing it once; a smaller guarantee
/// after a larger one changes nothing.
pub proof fn lemma_guarantee_height_idempotent_monotone<T>(m: GridModel<T>, h1: nat, h2: nat)
    requires
        h2 <= h1,
    ensures
        m.height_guaranteed(h1).height_guaranteed(h1) == m.height_guaranteed(h1),
        m.height_guaranteed(h1).height_guaranteed(h2) == m.height_guaranteed(h1),
{
}
} // verus!
