use std::collections::HashMap;

use vstd::prelude::*;

use crate::cell::{CellData, CharCell};
use crate::character::{
    best_fit_spec, corner_of, find_cell_to_extend_spec, fits, item_written, region_at_spec, CharExtender,
    Image, WideChar,
};
use crate::datatypes::{Coords, Direction, MediaPosition};
use crate::grid::{Grid, GridModel};
use crate::styles::{Style, UseStyles};

verus! {

broadcast use vstd::std_specs::hash::group_hash_axioms;

/// The display width of a character as `unicode_width` reports it.
pub uninterp spec fn unicode_width_of(c: char) -> Option<usize>;

/// Relies on `unicode_width::UnicodeWidthChar::width`: a function of the
/// character alone, `None` for control characters, one column for
/// printable ASCII.
#[verifier::external_body]
pub(crate) fn char_width(c: char) -> (r: Option<usize>)
    ensures
        r == unicode_width_of(c),
        (' ' <= c && c <= '~') ==> r == Some(1usize),
        (c < ' ') ==> r.is_none(),
{
    unicode_width::UnicodeWidthChar::width(c)
}

/// How many cells a character covers: its display width, and at least one
/// (control and zero-width characters still take a cell).
pub open spec fn cells_for_width(w: Option<usize>) -> nat {
    match w {
        Some(n) => if n >= 1 { n as nat } else { 1 },
        None => 1,
    }
}

/// What a write puts on the screen.
pub enum CharData {
    Char(char),
    /// A combining mark, joined to the character before the cursor.
    ExtensionChar(char),
    Image { data: Vec<u8>, mime: mime::Mime, pos: MediaPosition, width: u32, height: u32 },
}

/// A note attached to a cell.
#[derive(Debug, PartialEq)]
pub enum Tooltip {
    Basic(String),
    Menu { options: Vec<String>, position: Option<usize> },
}

/// The key under which the tooltip of `c` is kept.
pub open spec fn tooltip_key(c: Coords) -> u64 {
    (c.y as u64 * 0x1_0000_0000u64 + c.x as u64) as u64
}

fn key_of(c: Coords) -> (r: u64)
    ensures
        r == tooltip_key(c),
{
    c.y as u64 * 0x1_0000_0000u64 + c.x as u64
}

pub ghost struct CharGridModel {
    pub cells: GridModel<CharCell>,
    pub tooltips: Map<u64, Tooltip>,
    pub empty: CharCell,
}

/// The cells of a terminal window and the tooltips attached to them.
pub struct CharGrid {
    grid: Grid<CharCell>,
    tooltips: HashMap<u64, Tooltip>,
    empty: CharCell,
}

impl View for CharGrid {
    type V = CharGridModel;

    closed spec fn view(&self) -> CharGridModel {
        CharGridModel { cells: self.grid@, tooltips: self.tooltips@, empty: self.empty }
    }
}

/// The grid after the cell at `from` has moved to `to`: `from` becomes
/// blank, the grid grows towards `to` and `to` receives the cell. Nothing
/// happens when `from` lies outside the grid.
pub open spec fn moveover_spec(m: GridModel<CharCell>, from: Coords, to: Coords) -> GridModel<
    CharCell,
> {
    if m.in_bounds(from) {
        m.set(from, CharCell::blank_cell()).filled_to(to).set(to, m.cell(from))
    } else {
        m
    }
}

/// The cell `k` steps from `c` towards `dir`, as unbounded integers.
pub open spec fn ray_x(c: Coords, dir: Direction, k: int) -> int {
    match dir {
        Direction::Left => c.x - k,
        Direction::Right => c.x + k,
        _ => c.x as int,
    }
}

pub open spec fn ray_y(c: Coords, dir: Direction, k: int) -> int {
    match dir {
        Direction::Up => c.y - k,
        Direction::Down => c.y + k,
        _ => c.y as int,
    }
}

pub open spec fn ray(c: Coords, dir: Direction, k: int) -> Coords {
    Coords { x: ray_x(c, dir, k) as u32, y: ray_y(c, dir, k) as u32 }
}

/// The cell `k` steps from `c` towards `dir` lies inside the grid.
pub open spec fn ray_in(m: GridModel<CharCell>, c: Coords, dir: Direction, k: int) -> bool {
    0 <= ray_x(c, dir, k) < m.width && 0 <= ray_y(c, dir, k) < m.height
}

pub open spec fn is_extension_at(m: GridModel<CharCell>, c: Coords) -> bool {
    m.in_bounds(c) && m.cell(c).content is Extension
}

/// `r` is where a walk from `c` towards `dir` stops: every cell before it is
/// an extension inside the grid, and `r` is not an extension, or lies outside
/// the grid, or the next step would leave the grid.
pub open spec fn walked_out_of_extension(
    m: GridModel<CharCell>,
    c: Coords,
    dir: Direction,
    r: Coords,
) -> bool {
    exists|k: nat|
        #![trigger ray(c, dir, k as int)]
        r == ray(c, dir, k as int) && passes_extensions(m, c, dir, k) && (k > 0 ==> ray_in(
            m,
            c,
            dir,
            k as int,
        )) && (!is_extension_at(m, r) || !ray_in(m, c, dir, k + 1int))
}

/// The first `k` cells from `c` towards `dir` are extensions inside the grid.
pub open spec fn passes_extensions(m: GridModel<CharCell>, c: Coords, dir: Direction, k: nat) -> bool
    decreases k,
{
    k == 0 || (passes_extensions(m, c, dir, (k - 1) as nat) && ray_in(m, c, dir, k - 1)
        && is_extension_at(m, ray(c, dir, k - 1)))
}

/// The cell that the screen shows at `c`: blank outside the grid.
pub open spec fn shown(m: GridModel<CharCell>, c: Coords) -> CharCell {
    if m.in_bounds(c) {
        m.cell(c)
    } else {
        CharCell::blank_cell()
    }
}

/// What the payload of a write takes from the grid, before the write.
pub open spec fn write_fits(c: Coords, data: CharData) -> bool {
    match data {
        CharData::Char(ch) => c.x + cells_for_width(unicode_width_of(ch)) <= u32::MAX && c.y
            < u32::MAX,
        CharData::ExtensionChar(_) => true,
        CharData::Image { width, height, .. } => width >= 1 && height >= 1 && c.x + width
            <= u32::MAX && c.y + height <= u32::MAX,
    }
}

/// `m2` and `r` are the grid and the returned cell after `data` is written
/// at `c` with `styles` on the grid `m`.
pub open spec fn write_post(
    m: GridModel<CharCell>,
    c: Coords,
    data: CharData,
    styles: UseStyles,
    m2: GridModel<CharCell>,
    r: Coords,
) -> bool {
    if !write_fits(c, data) {
        r == c && m2 == m
    } else {
        match data {
            CharData::Char(ch) => {
                let w = cells_for_width(unicode_width_of(ch));
                let a = best_fit_spec(m, region_at_spec(c, w, 1));
                &&& r == (Coords { x: (a.x + w - 1) as u32, y: a.y })
                &&& m2 == item_written(
                    m,
                    region_at_spec(a, w, 1),
                    CharCell { styles, content: CellData::Char(ch) },
                    CharCell { styles, content: CellData::Extension(a) },
                )
                &&& fits(m, w, 1) ==> m2.in_bounds(a)
                    && m2.in_bounds(r)
            },
            CharData::ExtensionChar(ch) => match find_cell_to_extend_spec(m, c) {
                Some(t) => {
                    &&& r == t
                    &&& exists|v: CharCell|
                        m2 == m.set(t, v) && #[trigger] v.extends(
                            m.cell(t),
                            ch,
                            styles,
                        )
                },
                None => {
                    &&& r == c
                    &&& m2 == m.filled_to(c).set(
                        c,
                        CharCell { styles, content: CellData::Char(ch) },
                    )
                },
            },
            CharData::Image { data: bytes, mime, pos, width, height } => {
                let a = best_fit_spec(
                    m,
                    region_at_spec(c, width as nat, height as nat),
                );
                let reg = region_at_spec(a, width as nat, height as nat);
                &&& r == (Coords { x: (a.x + width - 1) as u32, y: a.y })
                &&& exists|head: CharCell|
                    m2 == item_written(
                        m,
                        reg,
                        head,
                        CharCell { styles, content: CellData::Extension(a) },
                    ) && #[trigger] Image::new_spec(bytes, mime, pos, width, height).is_cell(
                        head,
                        a,
                        styles,
                    )
                &&& fits(m, width as nat, height as nat) ==> {
                    &&& m2.in_bounds(a)
                    &&& m2.in_bounds(corner_of(reg))
                }
            },
        }
    }
}

impl CharGrid {
    pub open spec fn wf(&self) -> bool {
        self@.cells.wf() && self@.empty == CharCell::blank_cell()
    }

    /// A grid for a `width` by `height` window. Without offscreen state the
    /// grid never outgrows the window; with it, a positive `scrollback`
    /// bounds its height by that many rows (and by the window's height) and
    /// its width by the window's, and any other `scrollback` leaves it
    /// unbounded.
    pub fn new(width: u32, height: u32, retain_offscreen_state: bool, scrollback: isize) -> (r:
        CharGrid)
        ensures
            r.wf(),
            r@.cells.width == 0 && r@.cells.height == 0,
            r@.tooltips == Map::<u64, Tooltip>::empty(),
            !retain_offscreen_state ==> r@.cells.rem_x == Some(width as nat) && r@.cells.rem_y
                == Some(height as nat),
            retain_offscreen_state && scrollback > 0 ==> r@.cells.rem_x == Some(width as nat)
                && r@.cells.rem_y == Some(
                if scrollback < height { scrollback as nat } else { height as nat },
            ),
            retain_offscreen_state && scrollback <= 0 ==> r@.cells.rem_x.is_none()
                && r@.cells.rem_y.is_none(),
    {
        let grid = if !retain_offscreen_state {
            Grid::with_x_y_caps(width as usize, height as usize)
        } else if scrollback > 0 {
            let rows: u32 = if (scrollback as i64) < height as i64 {
                scrollback as u32
            } else {
                height
            };
            Grid::with_x_y_caps(width as usize, rows as usize)
        } else {
            Grid::with_infinite_scroll()
        };
        CharGrid { grid, tooltips: HashMap::new(), empty: CharCell::empty() }
    }

    /// The cell at `c`, or a blank cell where the grid has none.
    pub fn index(&self, c: Coords) -> (r: &CharCell)
        requires
            self.wf(),
        ensures
            *r == shown(self@.cells, c),
    {
        match self.grid.get(c) {
            Some(cell) => cell,
            None => &self.empty,
        }
    }

    /// The shared blank cell.
    pub fn blank(&self) -> (r: &CharCell)
        requires
            self.wf(),
        ensures
            *r == CharCell::blank_cell(),
    {
        &self.empty
    }

    pub fn grid(&self) -> (r: &Grid<CharCell>)
        ensures
            r@ == self@.cells,
    {
        &self.grid
    }

    /// Grow the grid, as far as it may, to reach `c`.
    pub fn fill_cells_to(&mut self, c: Coords)
        requires
            old(self).wf(),
        ensures
            final(self).wf(),
            final(self)@ == (CharGridModel { cells: old(self)@.cells.filled_to(c), ..old(self)@ }),
    {
        self.grid.fill_to(c);
    }

    /// Let the grid grow to `width` columns.
    pub fn resize_width(&mut self, width: u32)
        requires
            old(self).wf(),
        ensures
            final(self).wf(),
            final(self)@ == (CharGridModel {
                cells: old(self)@.cells.width_guaranteed(width as nat),
                ..old(self)@
            }),
    {
        self.grid.guarantee_width(width as usize);
    }

    /// Let the grid grow to `height` rows.
    pub fn resize_height(&mut self, height: u32)
        requires
            old(self).wf(),
        ensures
            final(self).wf(),
            final(self)@ == (CharGridModel {
                cells: old(self)@.cells.height_guaranteed(height as nat),
                ..old(self)@
            }),
    {
        self.grid.guarantee_height(height as usize);
    }

    /// Write `data` at `c` with `styles` and return the last cell written:
    /// a character covers as many cells as its width, a combining mark joins
    /// the character before `c`, an image covers its rectangle. A payload
    /// that would reach past the largest coordinate leaves the grid as it is
    /// and returns `c`.
    pub fn write(&mut self, c: Coords, data: CharData, styles: UseStyles) -> (r: Coords)
        requires
            old(self).wf(),
        ensures
            final(self).wf(),
            final(self)@.tooltips == old(self)@.tooltips,
            final(self)@.empty == old(self)@.empty,
            write_post(old(self)@.cells, c, data, styles, final(self)@.cells, r),
            !write_fits(c, data) ==> final(self)@ == old(self)@,
    {
        match data {
            CharData::Char(ch) => {
                let w = char_width(ch);
                let n: u64 = match w {
                    Some(n) => if n >= 1 { n as u64 } else { 1 },
                    None => 1,
                };
                if c.y < u32::MAX && n <= u32::MAX as u64 - c.x as u64 {
                    WideChar::new(ch, n as u32).write(c, styles, &mut self.grid)
                } else {
                    c
                }
            },
            CharData::ExtensionChar(ch) => CharExtender::new(ch).write(c, styles, &mut self.grid),
            CharData::Image { data, mime, pos, width, height } => {
                if width >= 1 && height >= 1 && c.x as u64 + width as u64 <= u32::MAX as u64
                    && c.y as u64 + height as u64 <= u32::MAX as u64 {
                    Image::new(data, mime, pos, width, height).write(c, styles, &mut self.grid)
                } else {
                    c
                }
            },
        }
    }
}


/// The grid with one decoration of the cell at `c`, if there is one, set.
pub open spec fn restyled_at(m: GridModel<CharCell>, c: Coords, style: Style) -> GridModel<CharCell> {
    m.set(c, restyled(m.cell(c), style))
}

/// The grid with the cell at `c`, if there is one, given default styles.
pub open spec fn unstyled_at(m: GridModel<CharCell>, c: Coords) -> GridModel<CharCell> {
    m.set(c, unstyled(m.cell(c)))
}

pub open spec fn restyled(cell: CharCell, style: Style) -> CharCell {
    CharCell { styles: cell.styles.updated(style), ..cell }
}

pub open spec fn unstyled(cell: CharCell) -> CharCell {
    CharCell { styles: UseStyles::Default, ..cell }
}

/// Growing a grid keeps every cell it had.
pub proof fn lemma_filled_to_keeps(m: GridModel<CharCell>, c: Coords, p: Coords)
    requires
        m.wf(),
        m.in_bounds(p),
    ensures
        m.filled_to(c).in_bounds(p),
        m.filled_to(c).cell(p) == m.cell(p),
        m.filled_to(c).wf(),
{
    let f = m.filled_to(c);
    assert(f.rows[p.y as int] == m.rows[p.y as int] + crate::grid::blank_line::<CharCell>(
        (f.width - m.width) as nat,
    ));
    assert forall|y: int| 0 <= y < f.height implies (#[trigger] f.rows[y]).len() == f.width by {
        if y < m.height {
            assert(f.rows[y] == m.rows[y] + crate::grid::blank_line::<CharCell>((f.width - m.width) as nat));
        }
    }
}

/// Moving a cell over: the source is left blank and the target holds what
/// the source held, wherever the target can be reached.
pub proof fn lemma_moveover(m: GridModel<CharCell>, a: Coords, b: Coords)
    requires
        m.wf(),
        m.in_bounds(a),
        a != b,
        m.filled_to(b).in_bounds(b),
    ensures
        moveover_spec(m, a, b).cell(a) == CharCell::blank_cell(),
        moveover_spec(m, a, b).cell(b) == m.cell(a),
        moveover_spec(m, a, b).in_bounds(a),
        moveover_spec(m, a, b).in_bounds(b),
{
    let m1 = m.set(a, CharCell::blank_cell());
    assert(m1.wf()) by {
        assert forall|y: int| 0 <= y < m1.height implies (#[trigger] m1.rows[y]).len() == m1.width by {
            if y == a.y {
            } else {
                assert(m1.rows[y] == m.rows[y]);
            }
        }
    }
    lemma_filled_to_keeps(m1, b, a);
}

impl CharGrid {
    /// Set one decoration of the cell at `c`.
    pub fn set_style(&mut self, c: Coords, style: Style)
        requires
            old(self).wf(),
        ensures
            final(self).wf(),
            final(self)@ == (CharGridModel { cells: restyled_at(old(self)@.cells, c, style), ..old(self)@ }),
    {
        let mut cell = self.grid.replace(c, CharCell::empty());
        cell.styles.update(style);
        self.grid.set(c, cell);
        proof {
            if old(self)@.cells.in_bounds(c) {
                assert(self@.cells.rows[c.y as int] =~= restyled_at(old(self)@.cells, c, style).rows[c.y as int]);
            }
            assert(self@.cells.rows =~= restyled_at(old(self)@.cells, c, style).rows);
        }
    }

    /// Give the cell at `c` the default decorations.
    pub fn reset_style(&mut self, c: Coords)
        requires
            old(self).wf(),
        ensures
            final(self).wf(),
            final(self)@ == (CharGridModel { cells: unstyled_at(old(self)@.cells, c), ..old(self)@ }),
    {
        let mut cell = self.grid.replace(c, CharCell::empty());
        cell.styles = UseStyles::Default;
        self.grid.set(c, cell);
        proof {
            if old(self)@.cells.in_bounds(c) {
                assert(self@.cells.rows[c.y as int] =~= unstyled_at(old(self)@.cells, c).rows[c.y as int]);
            }
            assert(self@.cells.rows =~= unstyled_at(old(self)@.cells, c).rows);
        }
    }

    /// Make the cell at `c` blank.
    pub fn erase(&mut self, c: Coords)
        requires
            old(self).wf(),
        ensures
            final(self).wf(),
            final(self)@ == (CharGridModel { cells: old(self)@.cells.set(c, CharCell::blank_cell()), ..old(self)@ }),
    {
        self.grid.set(c, CharCell::empty());
    }

    /// Move the cell at `from` to `to`, leaving `from` blank; the grid grows
    /// to reach `to`. Nothing happens when `from` lies outside the grid.
    pub fn moveover(&mut self, from: Coords, to: Coords)
        requires
            old(self).wf(),
        ensures
            final(self).wf(),
            final(self)@ == (CharGridModel { cells: moveover_spec(old(self)@.cells, from, to), ..old(self)@ }),
    {
        if (from.x as usize) < self.grid.width() && (from.y as usize) < self.grid.height() {
            let cell = self.grid.replace(from, CharCell::empty());
            self.grid.fill_to(to);
            self.grid.set(to, cell);
        }
    }

    /// Scroll the content by `n` cells towards `dir`.
    pub fn scroll(&mut self, dir: Direction, n: u32)
        requires
            old(self).wf(),
        ensures
            final(self).wf(),
            final(self)@ == (CharGridModel { cells: old(self)@.cells.scrolled(n as nat, dir), ..old(self)@ }),
    {
        self.grid.scroll(n as usize, dir);
    }

    /// Attach the text `tooltip` to the cell at `c`.
    pub fn add_tooltip(&mut self, c: Coords, tooltip: String)
        requires
            old(self).wf(),
        ensures
            final(self).wf(),
            final(self)@ == (CharGridModel { tooltips: old(self)@.tooltips.insert(tooltip_key(c), Tooltip::Basic(tooltip)), ..old(self)@ }),
    {
        self.tooltips.insert(key_of(c), Tooltip::Basic(tooltip));
    }

    /// Attach a menu of `options`, with none selected, to the cell at `c`.
    pub fn add_drop_down(&mut self, c: Coords, options: Vec<String>)
        requires
            old(self).wf(),
        ensures
            final(self).wf(),
            final(self)@ == (CharGridModel { tooltips: old(self)@.tooltips.insert(tooltip_key(c), Tooltip::Menu { options, position: None }), ..old(self)@ }),
    {
        self.tooltips.insert(key_of(c), Tooltip::Menu { options, position: None });
    }

    pub fn remove_tooltip(&mut self, c: Coords)
        requires
            old(self).wf(),
        ensures
            final(self).wf(),
            final(self)@ == (CharGridModel { tooltips: old(self)@.tooltips.remove(tooltip_key(c)), ..old(self)@ }),
    {
        let _ = self.tooltips.remove(&key_of(c));
    }

    pub fn tooltip_at(&self, c: Coords) -> (r: Option<&Tooltip>)
        requires
            self.wf(),
        ensures
            self@.tooltips.contains_key(tooltip_key(c)) ==> r == Some(&self@.tooltips[tooltip_key(c)]),
            !self@.tooltips.contains_key(tooltip_key(c)) ==> r.is_none(),
    {
        self.tooltips.get(&key_of(c))
    }

    /// From `c`, step towards `dir` while the cell is an extension, without
    /// leaving the grid.
    pub fn move_out_of_extension(&self, c: Coords, dir: Direction) -> (r: Coords)
        requires
            self.wf(),
        ensures
            walked_out_of_extension(self@.cells, c, dir, r),
    {
        let ghost m = self@.cells;
        let mut cur = c;
        let ghost mut k: nat = 0;
        let w = self.grid.width();
        let h = self.grid.height();
        loop
            invariant
                m == self@.cells,
                m.wf(),
                w == m.width,
                h == m.height,
                cur == ray(c, dir, k as int),
                ray_x(c, dir, k as int) == cur.x,
                ray_y(c, dir, k as int) == cur.y,
                passes_extensions(m, c, dir, k),
                k > 0 ==> ray_in(m, c, dir, k as int),
            decreases
                match dir {
                    Direction::Left => cur.x as int,
                    Direction::Right => w - cur.x,
                    Direction::Up => cur.y as int,
                    Direction::Down => h - cur.y,
                },
        {
            let ext = match self.grid.get(cur) {
                Some(cell) => cell.is_extension(),
                None => false,
            };
            if !ext {
                proof {
                    lemma_walk_stops(m, c, dir, cur, k);
                }
                return cur;
            }
            let next = match dir {
                Direction::Left => if cur.x == 0 { None } else { Some(Coords { x: cur.x - 1, y: cur.y }) },
                Direction::Right => if (cur.x as usize) + 1 >= w { None } else { Some(Coords { x: cur.x + 1, y: cur.y }) },
                Direction::Up => if cur.y == 0 { None } else { Some(Coords { x: cur.x, y: cur.y - 1 }) },
                Direction::Down => if (cur.y as usize) + 1 >= h { None } else { Some(Coords { x: cur.x, y: cur.y + 1 }) },
            };
            match next {
                None => {
                    proof {
                        lemma_walk_stops(m, c, dir, cur, k);
                    }
                    return cur;
                },
                Some(n) => {
                    proof {
                        assert(ray_in(m, c, dir, k as int));
                        k = k + 1;
                    }
                    cur = n;
                },
            }
        }
    }
}

proof fn lemma_walk_stops(m: GridModel<CharCell>, c: Coords, dir: Direction, r: Coords, k: nat)
    requires
        r == ray(c, dir, k as int),
        passes_extensions(m, c, dir, k),
        k > 0 ==> ray_in(m, c, dir, k as int),
        !is_extension_at(m, r) || !ray_in(m, c, dir, k + 1int),
    ensures
        walked_out_of_extension(m, c, dir, r),
{
}

/// New cells of a grown grid are blank.
pub proof fn lemma_filled_to_new_blank(m: GridModel<CharCell>, c: Coords, p: Coords)
    requires
        m.wf(),
        !m.in_bounds(p),
        m.filled_to(c).in_bounds(p),
    ensures
        m.filled_to(c).cell(p) == CharCell::blank_cell(),
{
    let f = m.filled_to(c);
    if p.y < m.height {
        assert(f.rows[p.y as int] == m.rows[p.y as int] + crate::grid::blank_line::<CharCell>(
            (f.width - m.width) as nat,
        ));
    }
}

/// After a walk out of extension cells, and the grid grown to reach where
/// it stopped, that cell is no extension unless the walk met the grid's
/// edge.
pub proof fn lemma_walk_leaves_extensions(m: GridModel<CharCell>, c: Coords, dir: Direction, r: Coords)
    requires
        m.wf(),
        walked_out_of_extension(m, c, dir, r),
    ensures
        !is_extension_at(m.filled_to(r), r) || !ray_in(m, r, dir, 1),
{
    let k = choose|k: nat|
        #![trigger ray(c, dir, k as int)]
        r == ray(c, dir, k as int) && passes_extensions(m, c, dir, k) && (k > 0 ==> ray_in(
            m,
            c,
            dir,
            k as int,
        )) && (!is_extension_at(m, r) || !ray_in(m, c, dir, k + 1int));
    if !is_extension_at(m, r) {
        if m.in_bounds(r) {
            lemma_filled_to_keeps(m, r, r);
        } else if m.filled_to(r).in_bounds(r) {
            lemma_filled_to_new_blank(m, r, r);
        }
    } else {
        lemma_filled_to_keeps(m, r, r);
        assert(ray_x(r, dir, 1) == ray_x(c, dir, k + 1int));
        assert(ray_y(r, dir, 1) == ray_y(c, dir, k + 1int));
    }
}

} // verus!
