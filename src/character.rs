use std::sync::Arc;

use vstd::prelude::*;

use crate::cell::{CellData, CharCell, ImageData};
use crate::datatypes::{coords_before, coords_before_spec, region_at, Coords, MediaPosition, Region};
use crate::grid::{sat_sub, size_limit, Grid, GridModel};
use crate::styles::UseStyles;

verus! {

/// Where the top left cell of `r` goes so that `r` fits the grid's maximum
/// size: moved left and up by just as much as `r` overhangs it.
pub open spec fn best_fit_spec(m: GridModel<CharCell>, r: Region) -> Coords {
    let dx: nat = match m.max_width() {
        Some(w) => sat_sub(r.right as nat, w),
        None => 0,
    };
    let dy: nat = match m.max_height() {
        Some(h) => sat_sub(r.bottom as nat, h),
        None => 0,
    };
    Coords { x: sat_sub(r.left as nat, dx) as u32, y: sat_sub(r.top as nat, dy) as u32 }
}

/// Starting at `c`, follow extension cells back to their anchors, at most
/// `fuel` times, until a cell that can take a combining mark is found.
pub open spec fn extend_target(m: GridModel<CharCell>, c: Coords, fuel: nat) -> Option<Coords>
    decreases fuel,
{
    if fuel == 0 || !m.in_bounds(c) {
        None
    } else if m.cell(c).content.is_extendable_spec() {
        Some(c)
    } else if let CellData::Extension(a) = m.cell(c).content {
        extend_target(m, a, (fuel - 1) as nat)
    } else {
        None
    }
}

/// A chain of back-links can visit each cell at most once before it cycles.
pub open spec fn hop_limit(m: GridModel<CharCell>) -> nat {
    m.width * m.height + 1
}

/// The cell that a combining mark written at `c` attaches to: the nearest
/// extendable cell behind `c`, reached across extension back-links.
pub open spec fn find_cell_to_extend_spec(m: GridModel<CharCell>, c: Coords) -> Option<Coords> {
    if c.x == 0 && c.y > 0 && m.width == 0 {
        None
    } else {
        extend_target(m, coords_before_spec(c, m.width as u32), hop_limit(m))
    }
}

/// The last cell of `r`.
pub open spec fn corner_of(r: Region) -> Coords {
    Coords { x: (r.right - 1) as u32, y: (r.bottom - 1) as u32 }
}

/// Whether the maximum size leaves room for an item `w` by `h` cells.
pub open spec fn fits(m: GridModel<CharCell>, w: nat, h: nat) -> bool {
    (m.max_width() matches Some(mw) ==> w <= mw) && (m.max_height() matches Some(mh) ==> h <= mh)
}

/// The grid after an item covering `r` has been written: the grid grown to
/// reach the item's last cell, then `head` at its top left cell and `rest`
/// at its other cells, where they lie inside the grid.
pub open spec fn item_written(
    m: GridModel<CharCell>,
    r: Region,
    head: CharCell,
    rest: CharCell,
) -> GridModel<CharCell> {
    m.filled_to(corner_of(r)).with_item(r, head, rest)
}

spec fn in_part(r: Region, rows_done: int, cols_done: int, x: int, y: int) -> bool {
    r.left <= x < r.right && ((r.top <= y < r.top + rows_done) || (y == r.top + rows_done && x
        < r.left + cols_done))
}

/// The item of `r` written up to `cols_done` cells of row `rows_done`.
spec fn painted(
    m: GridModel<CharCell>,
    r: Region,
    rows_done: int,
    cols_done: int,
    head: CharCell,
    rest: CharCell,
) -> GridModel<CharCell> {
    GridModel {
        rows: Seq::new(
            m.height,
            |y: int|
                Seq::new(
                    m.width,
                    |x: int|
                        if in_part(r, rows_done, cols_done, x, y) {
                            if x == r.left && y == r.top {
                                head
                            } else {
                                rest
                            }
                        } else {
                            m.rows[y][x]
                        },
                ),
        ),
        ..m
    }
}

proof fn lemma_paint_step(
    m: GridModel<CharCell>,
    r: Region,
    j: int,
    i: int,
    head: CharCell,
    rest: CharCell,
    v: CharCell,
)
    requires
        m.wf(),
        r.wf(),
        0 <= j < r.bottom - r.top,
        0 <= i < r.right - r.left,
        v == (if i == 0 && j == 0 { head } else { rest }),
    ensures
        painted(m, r, j, i, head, rest).set(
            Coords { x: (r.left + i) as u32, y: (r.top + j) as u32 },
            v,
        ) == painted(m, r, j, i + 1, head, rest),
        painted(m, r, j, i + 1, head, rest).wf(),
{
    let p = painted(m, r, j, i, head, rest);
    let q = painted(m, r, j, i + 1, head, rest);
    let c = Coords { x: (r.left + i) as u32, y: (r.top + j) as u32 };
    if p.in_bounds(c) {
        assert forall|y: int| 0 <= y < m.height implies #[trigger] p.set(c, v).rows[y] =~= q.rows[y] by {}
        assert(p.set(c, v).rows =~= q.rows);
    } else {
        assert forall|y: int| 0 <= y < m.height implies #[trigger] p.rows[y] =~= q.rows[y] by {}
        assert(p.rows =~= q.rows);
    }
}

proof fn lemma_paint_row_done(
    m: GridModel<CharCell>,
    r: Region,
    j: int,
    head: CharCell,
    rest: CharCell,
)
    requires
        r.wf(),
        0 <= j,
    ensures
        painted(m, r, j, r.right - r.left, head, rest) == painted(m, r, j + 1, 0, head, rest),
{
    let p = painted(m, r, j, r.right - r.left, head, rest);
    let q = painted(m, r, j + 1, 0, head, rest);
    assert forall|y: int| 0 <= y < m.height implies #[trigger] p.rows[y] =~= q.rows[y] by {}
    assert(p.rows =~= q.rows);
}

proof fn lemma_paint_start(m: GridModel<CharCell>, r: Region, head: CharCell, rest: CharCell)
    requires
        m.wf(),
    ensures
        painted(m, r, 0, 0, head, rest) == m,
{
    let p = painted(m, r, 0, 0, head, rest);
    assert forall|y: int| 0 <= y < m.height implies #[trigger] p.rows[y] =~= m.rows[y] by {}
    assert(p.rows =~= m.rows);
}

proof fn lemma_paint_all(m: GridModel<CharCell>, r: Region, head: CharCell, rest: CharCell)
    requires
        r.wf(),
    ensures
        painted(m, r, r.bottom - r.top, 0, head, rest) == m.with_item(r, head, rest),
{
    let p = painted(m, r, r.bottom - r.top, 0, head, rest);
    let q = m.with_item(r, head, rest);
    assert forall|y: int| 0 <= y < m.height implies #[trigger] p.rows[y] =~= q.rows[y] by {}
    assert(p.rows =~= q.rows);
}

proof fn lemma_fill_reaches(m: GridModel<CharCell>, c: Coords)
    requires
        m.wf(),
        m.max_width() matches Some(w) ==> c.x < w,
        m.max_height() matches Some(h) ==> c.y < h,
        c.x < size_limit(),
        c.y < size_limit(),
    ensures
        m.filled_to(c).in_bounds(c),
{
}

impl Grid<CharCell> {
    /// Where to put the top left cell of `region` so that the whole of it
    /// fits the grid's maximum size (unchanged on an axis without one).
    pub fn best_fit_for_region(&self, region: Region) -> (r: Coords)
        requires
            self@.wf(),
        ensures
            r == best_fit_spec(self@, region),
    {
        let dx: u32 = match self.max_width() {
            Some(w) => if (region.right as usize) > w { (region.right as usize - w) as u32 } else { 0 },
            None => 0,
        };
        let dy: u32 = match self.max_height() {
            Some(h) => if (region.bottom as usize) > h { (region.bottom as usize - h) as u32 } else { 0 },
            None => 0,
        };
        Coords { x: region.left.saturating_sub(dx), y: region.top.saturating_sub(dy) }
    }

    /// The cell that a combining mark written at `c` should join, if any.
    pub fn find_cell_to_extend(&self, c: Coords) -> (r: Option<Coords>)
        requires
            self@.wf(),
        ensures
            r == find_cell_to_extend_spec(self@, c),
    {
        if c.x == 0 && c.y > 0 && self.width() == 0 {
            None
        } else {
            cell_to_extend(self, coords_before(c, self.width() as u32))
        }
    }

    /// Grow the grid to reach `c`, then write a cell there.
    pub fn write_at(&mut self, c: Coords, content: CellData, styles: UseStyles)
        requires
            old(self)@.wf(),
        ensures
            final(self)@ == old(self)@.filled_to(c).set(c, CharCell { styles, content }),
            final(self)@.wf(),
    {
        self.fill_to(c);
        self.set(c, CharCell { styles, content });
    }

    /// Add the combining mark `ch` to the cell at `c`.
    pub fn extend_at(&mut self, c: Coords, ch: char, styles: UseStyles)
        requires
            old(self)@.wf(),
            old(self)@.in_bounds(c),
        ensures
            final(self)@.wf(),
            exists|v: CharCell|
                final(self)@ == old(self)@.set(c, v) && #[trigger] v.extends(old(self)@.cell(c), ch, styles),
    {
        let mut cell = self.replace(c, CharCell::empty());
        cell.extend(ch, styles);
        self.set(c, cell);
        proof {
            assert(self@.rows[c.y as int] =~= old(self)@.set(c, cell).rows[c.y as int]);
            assert(self@.rows =~= old(self)@.set(c, cell).rows);
        }
    }

    /// Write an item covering `r`: `head` at its top left cell and an
    /// extension back to that cell at every other one.
    pub(crate) fn write_item(&mut self, r: Region, head: CharCell, styles: UseStyles)
        requires
            old(self)@.wf(),
            r.wf(),
            r.left < r.right,
            r.top < r.bottom,
        ensures
            final(self)@ == item_written(
                old(self)@,
                r,
                head,
                CharCell { styles, content: CellData::Extension(Coords { x: r.left, y: r.top }) },
            ),
            final(self)@.wf(),
    {
        let anchor = Coords { x: r.left, y: r.top };
        let ghost rest = CharCell { styles, content: CellData::Extension(anchor) };
        self.fill_to(Coords { x: r.right - 1, y: r.bottom - 1 });
        let ghost m = self@;
        proof {
            lemma_paint_start(m, r, head, rest);
            lemma_paint_step(m, r, 0, 0, head, rest, head);
        }
        self.set(anchor, head);
        let w = r.right - r.left;
        let h = r.bottom - r.top;
        let mut j: u32 = 0;
        let mut i: u32 = 1;
        while j < h
            invariant
                m.wf(),
                r.wf(),
                w == r.right - r.left,
                h == r.bottom - r.top,
                anchor == (Coords { x: r.left, y: r.top }),
                rest == (CharCell { styles, content: CellData::Extension(anchor) }),
                j <= h,
                i <= w,
                j == h ==> i == 0,
                j > 0 ==> i == 0,
                j == 0 ==> i >= 1,
                self@ == painted(m, r, j as int, i as int, head, rest),
                self@.wf(),
            decreases h - j,
        {
            while i < w
                invariant
                    m.wf(),
                    r.wf(),
                    w == r.right - r.left,
                    h == r.bottom - r.top,
                    anchor == (Coords { x: r.left, y: r.top }),
                    rest == (CharCell { styles, content: CellData::Extension(anchor) }),
                    j < h,
                    i <= w,
                    j == 0 ==> i >= 1,
                    self@ == painted(m, r, j as int, i as int, head, rest),
                    self@.wf(),
                decreases w - i,
            {
                let cell = CharCell { styles, content: CellData::Extension(anchor) };
                proof {
                    lemma_paint_step(m, r, j as int, i as int, head, rest, cell);
                }
                self.set(Coords { x: r.left + i, y: r.top + j }, cell);
                i = i + 1;
            }
            proof {
                lemma_paint_row_done(m, r, j as int, head, rest);
            }
            j = j + 1;
            i = 0;
        }
        proof {
            lemma_paint_all(m, r, head, rest);
        }
    }
}

/// Follow back-links from `c` to the nearest cell that can take a
/// combining mark.
pub fn cell_to_extend(grid: &Grid<CharCell>, c: Coords) -> (r: Option<Coords>)
    requires
        grid@.wf(),
    ensures
        r == extend_target(grid@, c, hop_limit(grid@)),
{
    let w = grid.width() as u64;
    let h = grid.height() as u64;
    assert(w * h < u64::MAX) by (nonlinear_arith)
        requires
            w <= u32::MAX,
            h <= u32::MAX,
    ;
    let fuel: u64 = w * h + 1;
    let mut left: u64 = fuel;
    let mut cur = c;
    while left > 0
        invariant
            grid@.wf(),
            left <= fuel,
            fuel == hop_limit(grid@),
            extend_target(grid@, cur, left as nat) == extend_target(grid@, c, fuel as nat),
        decreases left,
    {
        match grid.get(cur) {
            None => {
                return None;
            },
            Some(cell) => {
                if cell.is_extendable() {
                    return Some(cur);
                }
                match cell.is_extension_of() {
                    Some(a) => {
                        cur = a;
                        left = left - 1;
                    },
                    None => {
                        return None;
                    },
                }
            },
        }
    }
    None
}

/// A character that covers `width` cells of one row.
pub struct WideChar(pub char, pub u32);

/// A combining mark, joined to the character before it.
pub struct CharExtender(pub char);

/// An image covering `width` by `height` cells.
pub struct Image {
    pub data: Vec<u8>,
    pub mime: mime::Mime,
    pub pos: MediaPosition,
    pub width: u32,
    pub height: u32,
}

impl WideChar {
    pub fn new(ch: char, width: u32) -> (r: WideChar)
        ensures
            r.0 == ch,
            r.1 == width,
    {
        WideChar(ch, width)
    }

    /// Write the character at the best fit for its cells from `c`: the
    /// character at the anchor and extensions to its right. Returns the
    /// last cell covered.
    pub fn write(self, c: Coords, styles: UseStyles, grid: &mut Grid<CharCell>) -> (r: Coords)
        requires
            old(grid)@.wf(),
            self.1 >= 1,
            c.x + self.1 <= u32::MAX,
            c.y < u32::MAX,
        ensures
            ({
                let a = best_fit_spec(old(grid)@, region_at_spec(c, self.1 as nat, 1));
                &&& r == (Coords { x: (a.x + self.1 - 1) as u32, y: a.y })
                &&& final(grid)@ == item_written(
                    old(grid)@,
                    region_at_spec(a, self.1 as nat, 1),
                    CharCell { styles, content: CellData::Char(self.0) },
                    CharCell { styles, content: CellData::Extension(a) },
                )
                &&& fits(old(grid)@, self.1 as nat, 1) ==> {
                    &&& final(grid)@.in_bounds(a)
                    &&& final(grid)@.in_bounds(r)
                    &&& final(grid)@.cell(a).content == CellData::Char(self.0)
                    &&& forall|i: int|
                        1 <= i < self.1 ==> #[trigger] final(grid)@.cell(
                            Coords { x: (a.x + i) as u32, y: a.y },
                        ).content == CellData::Extension(a)
                }
            }),
            final(grid)@.wf(),
    {
        let a = grid.best_fit_for_region(region_at(c, self.1, 1));
        let r = region_at(a, self.1, 1);
        proof {
            if fits(old(grid)@, self.1 as nat, 1) {
                lemma_fill_reaches(old(grid)@, corner_of(r));
            }
        }
        grid.write_item(r, CharCell { styles, content: CellData::Char(self.0) }, styles);
        proof {
            if fits(old(grid)@, self.1 as nat, 1) {
                assert forall|i: int| 1 <= i < self.1 implies #[trigger] grid@.cell(
                    Coords { x: (a.x + i) as u32, y: a.y },
                ).content == CellData::Extension(a) by {
                    let c = Coords { x: (a.x + i) as u32, y: a.y };
                    assert(grid@.in_bounds(c));
                }
            }
        }
        Coords { x: a.x + self.1 - 1, y: a.y }
    }
}

impl CharExtender {
    pub fn new(ch: char) -> (r: CharExtender)
        ensures
            r.0 == ch,
    {
        CharExtender(ch)
    }

    /// Join the mark to the character before `c` and return that
    /// character's cell; where there is none, write the mark at `c` as a
    /// character of its own and return `c`.
    pub fn write(self, c: Coords, styles: UseStyles, grid: &mut Grid<CharCell>) -> (r: Coords)
        requires
            old(grid)@.wf(),
        ensures
            final(grid)@.wf(),
            match find_cell_to_extend_spec(old(grid)@, c) {
                Some(t) => {
                    &&& r == t
                    &&& exists|v: CharCell|
                        final(grid)@ == old(grid)@.set(t, v) && #[trigger] v.extends(
                            old(grid)@.cell(t),
                            self.0,
                            styles,
                        )
                },
                None => {
                    &&& r == c
                    &&& final(grid)@ == old(grid)@.filled_to(c).set(
                        c,
                        CharCell { styles, content: CellData::Char(self.0) },
                    )
                },
            },
    {
        match grid.find_cell_to_extend(c) {
            Some(t) => {
                proof {
                    lemma_extend_target_in_bounds(
                        old(grid)@,
                        coords_before_spec(c, old(grid)@.width as u32),
                        hop_limit(old(grid)@),
                    );
                }
                grid.extend_at(t, self.0, styles);
                t
            },
            None => {
                grid.write_at(c, CellData::Char(self.0), styles);
                c
            },
        }
    }
}

proof fn lemma_extend_target_in_bounds(m: GridModel<CharCell>, c: Coords, fuel: nat)
    ensures
        extend_target(m, c, fuel) matches Some(t) ==> m.in_bounds(t),
    decreases fuel,
{
    if fuel > 0 && m.in_bounds(c) && !m.cell(c).content.is_extendable_spec() {
        if let CellData::Extension(a) = m.cell(c).content {
            lemma_extend_target_in_bounds(m, a, (fuel - 1) as nat);
        }
    }
}

pub open spec fn region_at_spec(c: Coords, w: nat, h: nat) -> Region {
    Region { left: c.x, top: c.y, right: (c.x + w) as u32, bottom: (c.y + h) as u32 }
}

impl Image {
    pub open spec fn new_spec(
        data: Vec<u8>,
        mime: mime::Mime,
        pos: MediaPosition,
        width: u32,
        height: u32,
    ) -> Image {
        Image { data, mime, pos, width, height }
    }

    pub fn new(data: Vec<u8>, mime: mime::Mime, pos: MediaPosition, w: u32, h: u32) -> (r: Image)
        ensures
            r == Image::new_spec(data, mime, pos, w, h),
    {
        Image { data, mime, pos, width: w, height: h }
    }

    /// `cell` holds this image, placed with its top left cell at `a`.
    pub open spec fn is_cell(self, cell: CharCell, a: Coords, styles: UseStyles) -> bool {
        &&& cell.styles == styles
        &&& cell.content matches CellData::Image { data, mime, pos, width, height } && data.data
            == self.data && data.coords == a && mime == self.mime && pos == self.pos && width
            == self.width && height == self.height
    }

    /// Write the image at the best fit for its cells from `c`: the image at
    /// the anchor, extensions in the rest of its rectangle. Returns the last
    /// cell of the anchor's row that the image covers.
    pub fn write(self, c: Coords, styles: UseStyles, grid: &mut Grid<CharCell>) -> (r: Coords)
        requires
            old(grid)@.wf(),
            self.width >= 1,
            self.height >= 1,
            c.x + self.width <= u32::MAX,
            c.y + self.height <= u32::MAX,
        ensures
            ({
                let a = best_fit_spec(
                    old(grid)@,
                    region_at_spec(c, self.width as nat, self.height as nat),
                );
                let reg = region_at_spec(a, self.width as nat, self.height as nat);
                &&& r == (Coords { x: (a.x + self.width - 1) as u32, y: a.y })
                &&& exists|head: CharCell|
                    final(grid)@ == old(grid)@.filled_to(corner_of(reg)).with_item(
                        reg,
                        head,
                        CharCell { styles, content: CellData::Extension(a) },
                    ) && #[trigger] self.is_cell(head, a, styles)
                &&& fits(old(grid)@, self.width as nat, self.height as nat) ==> {
                    &&& final(grid)@.in_bounds(a)
                    &&& final(grid)@.in_bounds(corner_of(reg))
                    &&& final(grid)@.cell(a).content is Image
                    &&& forall|x: int, y: int|
                        a.x <= x < a.x + self.width && a.y <= y < a.y + self.height && !(x == a.x
                            && y == a.y) ==> #[trigger] final(grid)@.cell(
                            Coords { x: x as u32, y: y as u32 },
                        ).content == CellData::Extension(a)
                }
            }),
            final(grid)@.wf(),
    {
        let a = grid.best_fit_for_region(region_at(c, self.width, self.height));
        let r = region_at(a, self.width, self.height);
        proof {
            if fits(old(grid)@, self.width as nat, self.height as nat) {
                lemma_fill_reaches(old(grid)@, corner_of(r));
            }
        }
        let head = CharCell {
            styles,
            content: CellData::Image {
                data: Arc::new(ImageData { data: self.data, coords: a }),
                mime: self.mime,
                pos: self.pos,
                width: self.width,
                height: self.height,
            },
        };
        let ghost h = head;
        grid.write_item(r, head, styles);
        proof {
            if fits(old(grid)@, self.width as nat, self.height as nat) {
                assert forall|x: int, y: int|
                    a.x <= x < a.x + self.width && a.y <= y < a.y + self.height && !(x == a.x && y
                        == a.y) implies #[trigger] grid@.cell(
                    Coords { x: x as u32, y: y as u32 },
                ).content == CellData::Extension(a) by {
                    assert(grid@.in_bounds(Coords { x: x as u32, y: y as u32 }));
                }
            }
            assert(self.is_cell(h, a, styles));
            assert(grid@ == old(grid)@.filled_to(corner_of(r)).with_item(
                r,
                h,
                CharCell { styles, content: CellData::Extension(a) },
            ));
        }
        Coords { x: a.x + self.width - 1, y: a.y }
    }
}

} // verus!
