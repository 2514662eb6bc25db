use vstd::prelude::*;

verus! {

/// A cell position: column `x`, row `y`, with `(0, 0)` at the top left.
#[derive(Clone, Copy, PartialEq, Eq, Structural, Debug, Hash)]
pub struct Coords {
    pub x: u32,
    pub y: u32,
}

/// A half-open rectangle `[left, right) x [top, bottom)`.
#[derive(Clone, Copy, PartialEq, Eq, Structural, Debug, Hash)]
pub struct Region {
    pub left: u32,
    pub top: u32,
    pub right: u32,
    pub bottom: u32,
}

#[derive(Clone, Copy, PartialEq, Eq, Structural, Debug, Hash)]
pub enum Direction {
    Up,
    Down,
    Left,
    Right,
}

#[derive(Clone, Copy, PartialEq, Eq, Structural, Debug, Hash)]
pub enum MediaAlignment {
    LeftTop,
    Center,
    RightBottom,
}

/// How an image is laid out in the cells it covers.
#[derive(Clone, Copy, PartialEq, Eq, Structural, Debug, Hash)]
pub enum MediaPosition {
    Display(MediaAlignment, MediaAlignment),
    Fill,
    Fit,
    Stretch,
    Tile,
}

impl Region {
    /// Sides are ordered: the rectangle may be empty but never inverted.
    pub open spec fn wf(self) -> bool {
        self.left <= self.right && self.top <= self.bottom
    }

    pub open spec fn contains_spec(self, c: Coords) -> bool {
        self.left <= c.x < self.right && self.top <= c.y < self.bottom
    }

    pub open spec fn is_empty_spec(self) -> bool {
        self.left >= self.right || self.top >= self.bottom
    }

    pub fn new(left: u32, top: u32, right: u32, bottom: u32) -> (r: Region)
        requires
            left <= right,
            top <= bottom,
        ensures
            r == (Region { left, top, right, bottom }),
            r.wf(),
    {
        Region { left, top, right, bottom }
    }

    pub fn contains(&self, c: Coords) -> (r: bool)
        ensures
            r == self.contains_spec(c),
    {
        self.left <= c.x && c.x < self.right && self.top <= c.y && c.y < self.bottom
    }

    pub fn width(&self) -> (r: u32)
        requires
            self.wf(),
        ensures
            r == self.right - self.left,
    {
        self.right - self.left
    }

    pub fn height(&self) -> (r: u32)
        requires
            self.wf(),
        ensures
            r == self.bottom - self.top,
    {
        self.bottom - self.top
    }

    /// The region moved by the least distance that makes it contain `p`.
    pub open spec fn moved_to_contain(self, p: Coords) -> Region {
        let (left, right) = if p.x < self.left {
            (p.x as int, p.x + (self.right - self.left))
        } else if p.x >= self.right {
            (p.x + 1 - (self.right - self.left), p.x + 1)
        } else {
            (self.left as int, self.right as int)
        };
        let (top, bottom) = if p.y < self.top {
            (p.y as int, p.y + (self.bottom - self.top))
        } else if p.y >= self.bottom {
            (p.y + 1 - (self.bottom - self.top), p.y + 1)
        } else {
            (self.top as int, self.bottom as int)
        };
        Region { left: left as u32, top: top as u32, right: right as u32, bottom: bottom as u32 }
    }

    /// Smallest translation of `self` that contains `p`; `self` when it
    /// already does.
    pub fn move_to_contain(&self, p: Coords) -> (r: Region)
        requires
            self.wf(),
            self.left < self.right,
            self.top < self.bottom,
            p.x < u32::MAX,
            p.y < u32::MAX,
            p.x as int + (self.right - self.left) <= u32::MAX,
            p.y as int + (self.bottom - self.top) <= u32::MAX,
        ensures
            r == self.moved_to_contain(p),
            r.wf(),
            r.contains_spec(p),
            r.right - r.left == self.right - self.left,
            r.bottom - r.top == self.bottom - self.top,
            self.contains_spec(p) ==> r == *self,
    {
        let w = self.right - self.left;
        let h = self.bottom - self.top;
        let (left, right) = if p.x < self.left {
            (p.x, p.x + w)
        } else if p.x >= self.right {
            (p.x + 1 - w, p.x + 1)
        } else {
            (self.left, self.right)
        };
        let (top, bottom) = if p.y < self.top {
            (p.y, p.y + h)
        } else if p.y >= self.bottom {
            (p.y + 1 - h, p.y + 1)
        } else {
            (self.top, self.bottom)
        };
        Region { left, top, right, bottom }
    }
}

/// The `width x height` rectangle whose top left cell is `c`.
pub fn region_at(c: Coords, width: u32, height: u32) -> (r: Region)
    requires
        c.x + width <= u32::MAX,
        c.y + height <= u32::MAX,
    ensures
        r == (Region { left: c.x, top: c.y, right: (c.x + width) as u32, bottom: (c.y + height) as u32 }),
        r.wf(),
{
    Region { left: c.x, top: c.y, right: c.x + width, bottom: c.y + height }
}

/// The cell before `c` in row-major order on a grid `width` cells wide;
/// `(0, 0)` has none and is its own answer.
pub open spec fn coords_before_spec(c: Coords, width: u32) -> Coords {
    if c.x == 0 && c.y == 0 {
        c
    } else if c.x == 0 {
        Coords { x: (width - 1) as u32, y: (c.y - 1) as u32 }
    } else {
        Coords { x: (c.x - 1) as u32, y: c.y }
    }
}

pub fn coords_before(c: Coords, width: u32) -> (r: Coords)
    requires
        c.x == 0 && c.y > 0 ==> width > 0,
    ensures
        r == coords_before_spec(c, width),
{
    if c.x == 0 && c.y == 0 {
        c
    } else if c.x == 0 {
        Coords { x: width - 1, y: c.y - 1 }
    } else {
        Coords { x: c.x - 1, y: c.y }
    }
}


/// A displacement of the cursor. `Position`, `Column` and `Row` count from
/// the top left cell of the region moved in; a `true` flag on `To` lets a
/// horizontal move wrap across rows.
#[derive(Clone, Copy, PartialEq, Eq, Structural, Debug, Hash)]
pub enum Movement {
    Position(Coords),
    To(Direction, u32, bool),
    ToEdge(Direction),
    Tab(Direction, u32, bool),
    NextLine(u32),
    PreviousLine(u32),
    Column(u32),
    Row(u32),
    ToBeginning,
    ToEnd,
}

/// A set of cells, described relative to the cursor and the view.
#[derive(Clone, Copy, PartialEq, Eq, Structural, Debug, Hash)]
pub enum Area {
    CursorCell,
    CursorRow,
    CursorColumn,
    /// From the cursor to where a movement would take it.
    CursorTo(Movement),
    /// The rectangle with the cursor as one corner (included) and the given
    /// cell as the opposite one (excluded).
    CursorBound(Coords),
    WholeScreen,
    Bound(Region),
    /// Rows from the first (included) to the second (excluded).
    Rows(u32, u32),
    /// Columns from the first (included) to the second (excluded).
    Columns(u32, u32),
    /// The rows below the cursor, with the cursor's own row if the flag is set.
    BelowCursor(bool),
}

/// `v` brought into `[lo, hi)`; requires `lo < hi`.
pub open spec fn clamp(v: int, lo: int, hi: int) -> int {
    if v < lo {
        lo
    } else if v >= hi {
        hi - 1
    } else {
        v
    }
}

pub open spec fn max_int(a: int, b: int) -> int {
    if a < b { b } else { a }
}

pub open spec fn min_int(a: int, b: int) -> int {
    if a < b { a } else { b }
}

impl Region {
    pub open spec fn clamp_x(self, x: int) -> int {
        clamp(x, self.left as int, self.right as int)
    }

    pub open spec fn clamp_y(self, y: int) -> int {
        clamp(y, self.top as int, self.bottom as int)
    }

    /// The cell of the region `n` cells before (negative) or after `c` in
    /// row-major order, stopping at the region's first and last cells.
    pub open spec fn step_spec(self, c: Coords, n: int) -> Coords {
        let w = self.right - self.left;
        let h = self.bottom - self.top;
        let pos = (self.clamp_y(c.y as int) - self.top) * w + (self.clamp_x(c.x as int) - self.left);
        let p = clamp(pos + n, 0, w * h);
        Coords { x: (self.left + p % w) as u32, y: (self.top + p / w) as u32 }
    }
}

pub open spec fn at(x: int, y: int) -> Coords {
    Coords { x: x as u32, y: y as u32 }
}

/// The `n`-th tab stop after (`forward`) or before column `x`.
pub open spec fn tab_target(x: int, n: int, forward: bool, tab: int) -> int {
    if forward {
        (x / tab + n) * tab
    } else {
        max_int(0, ((x + tab - 1) / tab - n) * tab)
    }
}

/// Where `movement` takes the cursor from `c` inside the non-empty region
/// `b`, with tab stops every `tab` columns (at least one).
pub open spec fn move_within_spec(c: Coords, movement: Movement, b: Region, tab: u32) -> Coords {
    let x = b.clamp_x(c.x as int);
    let y = b.clamp_y(c.y as int);
    let t = if tab == 0 { 1int } else { tab as int };
    match movement {
        Movement::Position(p) => at(b.clamp_x(b.left + p.x), b.clamp_y(b.top + p.y)),
        Movement::To(Direction::Up, n, _) => at(x, b.clamp_y(y - n)),
        Movement::To(Direction::Down, n, _) => at(x, b.clamp_y(y + n)),
        Movement::To(Direction::Left, n, false) => at(b.clamp_x(x - n), y),
        Movement::To(Direction::Right, n, false) => at(b.clamp_x(x + n), y),
        Movement::To(Direction::Left, n, true) => b.step_spec(c, -n),
        Movement::To(Direction::Right, n, true) => b.step_spec(c, n as int),
        Movement::ToEdge(Direction::Up) => at(x, b.top as int),
        Movement::ToEdge(Direction::Down) => at(x, b.bottom - 1),
        Movement::ToEdge(Direction::Left) => at(b.left as int, y),
        Movement::ToEdge(Direction::Right) => at(b.right - 1, y),
        Movement::Tab(Direction::Up, n, _) => at(x, b.clamp_y(y - n)),
        Movement::Tab(Direction::Down, n, _) => at(x, b.clamp_y(y + n)),
        Movement::Tab(Direction::Left, n, _) => at(b.clamp_x(tab_target(x, n as int, false, t)), y),
        Movement::Tab(Direction::Right, n, _) => at(b.clamp_x(tab_target(x, n as int, true, t)), y),
        Movement::NextLine(n) => at(b.left as int, b.clamp_y(y + n)),
        Movement::PreviousLine(n) => at(b.left as int, b.clamp_y(y - n)),
        Movement::Column(n) => at(b.clamp_x(b.left + n), y),
        Movement::Row(n) => at(x, b.clamp_y(b.top + n)),
        Movement::ToBeginning => at(b.left as int, b.top as int),
        Movement::ToEnd => at(b.right - 1, b.bottom - 1),
    }
}

impl Movement {
    /// The way the movement goes from `origin`; a move to a cell goes right
    /// when the cell comes later in row-major order, left otherwise.
    pub open spec fn direction_spec(self, origin: Coords) -> Direction {
        match self {
            Movement::To(d, _, _) | Movement::ToEdge(d) | Movement::Tab(d, _, _) => d,
            Movement::NextLine(_) => Direction::Down,
            Movement::PreviousLine(_) => Direction::Up,
            Movement::ToBeginning => Direction::Left,
            Movement::ToEnd => Direction::Right,
            Movement::Position(p) => if p.y > origin.y || (p.y == origin.y && p.x >= origin.x) {
                Direction::Right
            } else {
                Direction::Left
            },
            Movement::Column(n) => if n >= origin.x {
                Direction::Right
            } else {
                Direction::Left
            },
            Movement::Row(n) => if n >= origin.y {
                Direction::Down
            } else {
                Direction::Up
            },
        }
    }

    pub fn direction(&self, origin: Coords) -> (r: Direction)
        ensures
            r == self.direction_spec(origin),
    {
        match *self {
            Movement::To(d, _, _) | Movement::ToEdge(d) | Movement::Tab(d, _, _) => d,
            Movement::NextLine(_) => Direction::Down,
            Movement::PreviousLine(_) => Direction::Up,
            Movement::ToBeginning => Direction::Left,
            Movement::ToEnd => Direction::Right,
            Movement::Position(p) => if p.y > origin.y || (p.y == origin.y && p.x >= origin.x) {
                Direction::Right
            } else {
                Direction::Left
            },
            Movement::Column(n) => if n >= origin.x {
                Direction::Right
            } else {
                Direction::Left
            },
            Movement::Row(n) => if n >= origin.y {
                Direction::Down
            } else {
                Direction::Up
            },
        }
    }
}

fn clamp_exec(v: i64, lo: u32, hi: u32) -> (r: u32)
    requires
        lo < hi,
    ensures
        r == clamp(v as int, lo as int, hi as int),
{
    if v < lo as i64 {
        lo
    } else if v >= hi as i64 {
        hi - 1
    } else {
        v as u32
    }
}

fn step_within(c: Coords, n: i64, b: Region) -> (r: Coords)
    requires
        b.wf(),
        b.left < b.right,
        b.top < b.bottom,
        -(u32::MAX as int) <= n <= u32::MAX,
    ensures
        r == b.step_spec(c, n as int),
        b.contains_spec(r),
{
    let w = (b.right - b.left) as u64;
    let h = (b.bottom - b.top) as u64;
    let x = clamp_exec(c.x as i64, b.left, b.right);
    let y = clamp_exec(c.y as i64, b.top, b.bottom);
    let dy = (y - b.top) as u64;
    let dx = (x - b.left) as u64;
    assert(dy * w + dx < w * h) by (nonlinear_arith)
        requires
            dy < h,
            dx < w,
    ;
    assert(w * h <= (u32::MAX as int) * (u32::MAX as int)) by (nonlinear_arith)
        requires
            w <= u32::MAX,
            h <= u32::MAX,
    ;
    let pos = (dy * w + dx) as i128;
    let total = (w * h) as i128;
    let moved = pos + n as i128;
    let p: u64 = if moved < 0 {
        0
    } else if moved >= total {
        (total - 1) as u64
    } else {
        moved as u64
    };
    assert(p / w < h && p % w < w) by (nonlinear_arith)
        requires
            p < w * h,
            w > 0,
    ;
    Coords { x: b.left + (p % w) as u32, y: b.top + (p / w) as u32 }
}

fn tab_exec(x: u32, n: u32, forward: bool, t: u32) -> (r: i128)
    requires
        t >= 1,
    ensures
        r == tab_target(x as int, n as int, forward, t as int),
{
    let xi = x as i128;
    let ti = t as i128;
    let ni = n as i128;
    if forward {
        let q = xi / ti;
        assert(0 <= q <= u32::MAX) by (nonlinear_arith)
            requires
                q == xi / ti,
                0 <= xi <= u32::MAX,
                1 <= ti,
        ;
        assert(0 <= (q + ni) * ti <= (u32::MAX as int + u32::MAX as int) * u32::MAX) by (nonlinear_arith)
            requires
                0 <= q <= u32::MAX,
                1 <= ti <= u32::MAX,
                0 <= ni <= u32::MAX,
        ;
        (q + ni) * ti
    } else {
        let q = (xi + ti - 1) / ti;
        assert(0 <= q <= u32::MAX + u32::MAX) by (nonlinear_arith)
            requires
                q == (xi + ti - 1) as int / ti as int,
                0 <= xi <= u32::MAX,
                1 <= ti <= u32::MAX,
        ;
        let k = q - ni;
        if k <= 0 {
            assert(k * ti <= 0) by (nonlinear_arith)
                requires
                    k <= 0,
                    ti >= 1,
            ;
            0
        } else {
            assert(k * ti <= (u32::MAX as int + u32::MAX as int) * u32::MAX) by (nonlinear_arith)
                requires
                    0 < k <= u32::MAX + u32::MAX,
                    1 <= ti <= u32::MAX,
            ;
            k * ti
        }
    }
}

fn clamp_wide(v: i128, lo: u32, hi: u32) -> (r: u32)
    requires
        lo < hi,
    ensures
        r == clamp(v as int, lo as int, hi as int),
{
    if v < lo as i128 {
        lo
    } else if v >= hi as i128 {
        hi - 1
    } else {
        v as u32
    }
}

/// Where `movement` takes the cursor from `c` inside the region `b`.
pub fn move_within(c: Coords, movement: Movement, b: Region, tab: u32) -> (r: Coords)
    requires
        b.wf(),
        b.left < b.right,
        b.top < b.bottom,
    ensures
        r == move_within_spec(c, movement, b, tab),
        b.contains_spec(r),
{
    let x = clamp_exec(c.x as i64, b.left, b.right);
    let y = clamp_exec(c.y as i64, b.top, b.bottom);
    let t: u32 = if tab == 0 { 1 } else { tab };
    let (l, tp, rt, bt) = (b.left, b.top, b.right, b.bottom);
    match movement {
        Movement::Position(p) => Coords {
            x: clamp_exec(l as i64 + p.x as i64, l, rt),
            y: clamp_exec(tp as i64 + p.y as i64, tp, bt),
        },
        Movement::To(Direction::Up, n, _) | Movement::Tab(Direction::Up, n, _) => Coords {
            x,
            y: clamp_exec(y as i64 - n as i64, tp, bt),
        },
        Movement::To(Direction::Down, n, _) | Movement::Tab(Direction::Down, n, _) => Coords {
            x,
            y: clamp_exec(y as i64 + n as i64, tp, bt),
        },
        Movement::To(Direction::Left, n, false) => Coords { x: clamp_exec(x as i64 - n as i64, l, rt), y },
        Movement::To(Direction::Right, n, false) => Coords {
            x: clamp_exec(x as i64 + n as i64, l, rt),
            y,
        },
        Movement::To(Direction::Left, n, true) => step_within(c, -(n as i64), b),
        Movement::To(Direction::Right, n, true) => step_within(c, n as i64, b),
        Movement::ToEdge(Direction::Up) => Coords { x, y: tp },
        Movement::ToEdge(Direction::Down) => Coords { x, y: bt - 1 },
        Movement::ToEdge(Direction::Left) => Coords { x: l, y },
        Movement::ToEdge(Direction::Right) => Coords { x: rt - 1, y },
        Movement::Tab(Direction::Left, n, _) => Coords { x: clamp_wide(tab_exec(x, n, false, t), l, rt), y },
        Movement::Tab(Direction::Right, n, _) => Coords { x: clamp_wide(tab_exec(x, n, true, t), l, rt), y },
        Movement::NextLine(n) => Coords { x: l, y: clamp_exec(y as i64 + n as i64, tp, bt) },
        Movement::PreviousLine(n) => Coords { x: l, y: clamp_exec(y as i64 - n as i64, tp, bt) },
        Movement::Column(n) => Coords { x: clamp_exec(l as i64 + n as i64, l, rt), y },
        Movement::Row(n) => Coords { x, y: clamp_exec(tp as i64 + n as i64, tp, bt) },
        Movement::ToBeginning => Coords { x: l, y: tp },
        Movement::ToEnd => Coords { x: rt - 1, y: bt - 1 },
    }
}

/// The cells `(x, y)` for `a <= x < b`, left to right.
pub open spec fn row_piece(y: int, a: int, b: int) -> Seq<Coords> {
    if a < b {
        Seq::new((b - a) as nat, |i: int| at(a + i, y))
    } else {
        Seq::empty()
    }
}

/// The cells of the rectangle `[left, right) x [top, bottom)` in row-major
/// order; nothing when it is empty.
pub open spec fn rows_of(left: int, right: int, top: int, bottom: int) -> Seq<Coords>
    decreases bottom - top,
{
    if bottom <= top {
        Seq::empty()
    } else {
        rows_of(left, right, top, bottom - 1) + row_piece(bottom - 1, left, right)
    }
}

/// The cells of the rectangle `[l, r) x [t, bo)` that lie in `b`.
pub open spec fn rect_in(l: int, t: int, r: int, bo: int, b: Region) -> Seq<Coords> {
    rows_of(max_int(l, b.left as int), min_int(r, b.right as int), max_int(t, b.top as int), min_int(bo, b.bottom as int))
}

/// The cells of `b` in row-major order from `(sx, sy)` (included) to
/// `(ex, ey)` (excluded), for `sy <= ey`, where both lie in `b`'s rows.
pub open spec fn run_seq(b: Region, sy: int, sx: int, ey: int, ex: int) -> Seq<Coords> {
    let l = b.left as int;
    let r = b.right as int;
    if sy == ey {
        row_piece(sy, max_int(sx, l), min_int(ex, r))
    } else {
        row_piece(sy, max_int(sx, l), r) + rows_of(l, r, sy + 1, ey) + row_piece(ey, l, min_int(ex, r))
    }
}

/// The cells of `area`, for the cursor at `c` and the view `b`, in the
/// order they are visited: row-major, and never outside `b`.
pub open spec fn area_seq(area: Area, c: Coords, b: Region, tab: u32) -> Seq<Coords> {
    let x = c.x as int;
    let y = c.y as int;
    match area {
        Area::CursorCell => rect_in(x, y, x + 1, y + 1, b),
        Area::CursorRow => rect_in(b.left as int, y, b.right as int, y + 1, b),
        Area::CursorColumn => rect_in(x, b.top as int, x + 1, b.bottom as int, b),
        Area::CursorTo(m) => if b.left < b.right && b.top < b.bottom {
            let s = at(b.clamp_x(x), b.clamp_y(y));
            let t = move_within_spec(c, m, b, tab);
            if t.y > s.y || (t.y == s.y && t.x > s.x) {
                run_seq(b, s.y as int, s.x + 1, t.y as int, t.x + 1)
            } else {
                run_seq(b, t.y as int, t.x as int, s.y as int, s.x as int)
            }
        } else {
            Seq::empty()
        },
        Area::CursorBound(p) => rect_in(
            min_int(x, p.x as int),
            min_int(y, p.y as int),
            max_int(x, p.x as int),
            max_int(y, p.y as int),
            b,
        ),
        Area::WholeScreen => rect_in(b.left as int, b.top as int, b.right as int, b.bottom as int, b),
        Area::Bound(r) => rect_in(r.left as int, r.top as int, r.right as int, r.bottom as int, b),
        Area::Rows(t, bo) => rect_in(b.left as int, t as int, b.right as int, bo as int, b),
        Area::Columns(l, r) => rect_in(l as int, b.top as int, r as int, b.bottom as int, b),
        Area::BelowCursor(with_current) => rect_in(
            b.left as int,
            if with_current { y } else { y + 1 },
            b.right as int,
            b.bottom as int,
            b,
        ),
    }
}

fn push_piece(v: &mut Vec<Coords>, y: u32, a: u32, b: u32)
    ensures
        final(v)@ == old(v)@ + row_piece(y as int, a as int, b as int),
{
    let ghost start = v@;
    if a < b {
        let mut x = a;
        while x < b
            invariant
                a <= x <= b,
                v@ == start + Seq::new((x - a) as nat, |i: int| at(a + i, y as int)),
            decreases b - x,
        {
            v.push(Coords { x, y });
            x = x + 1;
            assert(v@ =~= start + Seq::new((x - a) as nat, |i: int| at(a + i, y as int)));
        }
    } else {
        assert(v@ =~= start + row_piece(y as int, a as int, b as int));
    }
}

fn push_rows(v: &mut Vec<Coords>, left: u32, right: u32, top: u32, bottom: u32)
    ensures
        final(v)@ == old(v)@ + rows_of(left as int, right as int, top as int, bottom as int),
{
    let ghost start = v@;
    if top < bottom {
        let mut y = top;
        assert(rows_of(left as int, right as int, top as int, top as int) =~= Seq::empty());
        assert(v@ =~= start + rows_of(left as int, right as int, top as int, y as int));
        while y < bottom
            invariant
                top <= y <= bottom,
                v@ == start + rows_of(left as int, right as int, top as int, y as int),
            decreases bottom - y,
        {
            push_piece(v, y, left, right);
            y = y + 1;
            assert(v@ =~= start + rows_of(left as int, right as int, top as int, y as int));
        }
    } else {
        assert(v@ =~= start + rows_of(left as int, right as int, top as int, bottom as int));
    }
}

fn max_u64(a: u64, b: u64) -> (r: u64)
    ensures
        r == max_int(a as int, b as int),
{
    if a < b { b } else { a }
}

fn min_u64(a: u64, b: u64) -> (r: u64)
    ensures
        r == min_int(a as int, b as int),
{
    if a < b { a } else { b }
}

fn push_rect_in(v: &mut Vec<Coords>, l: u64, t: u64, r: u64, bo: u64, b: Region)
    ensures
        final(v)@ == old(v)@ + rect_in(l as int, t as int, r as int, bo as int, b),
{
    let l2 = max_u64(l, b.left as u64);
    let r2 = min_u64(r, b.right as u64);
    let t2 = max_u64(t, b.top as u64);
    let b2 = min_u64(bo, b.bottom as u64);
    if l2 < r2 && t2 < b2 {
        push_rows(v, l2 as u32, r2 as u32, t2 as u32, b2 as u32);
    } else if t2 < b2 {
        proof {
            lemma_rows_of_thin(l2 as int, r2 as int, t2 as int, b2 as int);
        }
        assert(v@ =~= old(v)@ + rect_in(l as int, t as int, r as int, bo as int, b));
    } else {
        assert(v@ =~= old(v)@ + rect_in(l as int, t as int, r as int, bo as int, b));
    }
}

proof fn lemma_rows_of_thin(left: int, right: int, top: int, bottom: int)
    requires
        right <= left,
    ensures
        rows_of(left, right, top, bottom) == Seq::<Coords>::empty(),
    decreases bottom - top,
{
    if bottom > top {
        lemma_rows_of_thin(left, right, top, bottom - 1);
        assert(rows_of(left, right, top, bottom) =~= Seq::<Coords>::empty());
    }
}

/// Push the cells of `b` from `(sx, sy)` (included) to `(ex, ey)`
/// (excluded) in row-major order.
fn push_run(v: &mut Vec<Coords>, b: Region, sy: u32, sx: u64, ey: u32, ex: u64)
    requires
        b.wf(),
        sy <= ey,
    ensures
        final(v)@ == old(v)@ + run_seq(b, sy as int, sx as int, ey as int, ex as int),
{
    let ghost start = v@;
    if sy == ey {
        let a = max_u64(sx, b.left as u64);
        let e = min_u64(ex, b.right as u64);
        if a < e {
            push_piece(v, sy, a as u32, e as u32);
        } else {
            assert(v@ =~= start + run_seq(b, sy as int, sx as int, ey as int, ex as int));
        }
    } else {
        let a = max_u64(sx, b.left as u64);
        let ghost s0 = v@;
        if a < b.right as u64 {
            push_piece(v, sy, a as u32, b.right);
        } else {
            assert(v@ =~= s0 + row_piece(sy as int, a as int, b.right as int));
        }
        push_rows(v, b.left, b.right, sy + 1, ey);
        let e = min_u64(ex, b.right as u64);
        let ghost s2 = v@;
        if (b.left as u64) < e {
            push_piece(v, ey, b.left, e as u32);
        } else {
            assert(v@ =~= s2 + row_piece(ey as int, b.left as int, e as int));
        }
        assert(v@ =~= start + run_seq(b, sy as int, sx as int, ey as int, ex as int));
    }
}

/// The cells of `area` for the cursor at `c` in the view `b`, in row-major
/// order; with `tab` as the tab stop for the movement of `CursorTo`.
pub fn coords_in_area(area: Area, c: Coords, b: Region, tab: u32) -> (r: Vec<Coords>)
    requires
        b.wf(),
    ensures
        r@ == area_seq(area, c, b, tab),
{
    let mut v: Vec<Coords> = Vec::new();
    let x = c.x as u64;
    let y = c.y as u64;
    let (l, t, rt, bo) = (b.left as u64, b.top as u64, b.right as u64, b.bottom as u64);
    match area {
        Area::CursorCell => push_rect_in(&mut v, x, y, x + 1, y + 1, b),
        Area::CursorRow => push_rect_in(&mut v, l, y, rt, y + 1, b),
        Area::CursorColumn => push_rect_in(&mut v, x, t, x + 1, bo, b),
        Area::CursorTo(m) => {
            if b.left < b.right && b.top < b.bottom {
                let s = Coords { x: clamp_exec(c.x as i64, b.left, b.right), y: clamp_exec(c.y as i64, b.top, b.bottom) };
                let e = move_within(c, m, b, tab);
                if e.y > s.y || (e.y == s.y && e.x > s.x) {
                    push_run(&mut v, b, s.y, s.x as u64 + 1, e.y, e.x as u64 + 1);
                } else {
                    push_run(&mut v, b, e.y, e.x as u64, s.y, s.x as u64);
                }
            }
        },
        Area::CursorBound(p) => push_rect_in(
            &mut v,
            min_u64(x, p.x as u64),
            min_u64(y, p.y as u64),
            max_u64(x, p.x as u64),
            max_u64(y, p.y as u64),
            b,
        ),
        Area::WholeScreen => push_rect_in(&mut v, l, t, rt, bo, b),
        Area::Bound(r) => push_rect_in(&mut v, r.left as u64, r.top as u64, r.right as u64, r.bottom as u64, b),
        Area::Rows(top, bottom) => push_rect_in(&mut v, l, top as u64, rt, bottom as u64, b),
        Area::Columns(left, right) => push_rect_in(&mut v, left as u64, t, right as u64, bo, b),
        Area::BelowCursor(with_current) => push_rect_in(
            &mut v,
            l,
            if with_current { y } else { y + 1 },
            rt,
            bo,
            b,
        ),
    }
    proof {
        assert(v@ =~= area_seq(area, c, b, tab));
    }
    v
}
} // verus!
