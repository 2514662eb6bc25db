use vstd::prelude::*;

use crate::cell::CharCell;
use crate::char_grid::{
    cells_for_width, passes_extensions, ray, unicode_width_of, write_fits,
    lemma_walk_leaves_extensions, moveover_spec, ray_in, restyled, unstyled, walked_out_of_extension,
    write_post, shown, tooltip_key, CharData, CharGrid, Tooltip, is_extension_at,
};
use crate::cursor::Cursor;
use crate::character::{best_fit_spec, region_at_spec};
use crate::datatypes::{
    area_seq, coords_in_area, move_within, move_within_spec, Area, Coords, Direction, Movement,
    Region,
};
use crate::grid::GridModel;
use crate::styles::{Style, Styles, UseStyles};
use crate::view::{kept_within, Flow, View as Viewport};

verus! {

/// How a window's grid behaves: its view's flow, whether content that
/// leaves the view is kept, how many rows of it are kept (negative: all),
/// and the distance between tab stops.
pub struct GridSettings {
    pub flow: Flow,
    pub retain_offscreen_state: bool,
    pub scrollback: isize,
    pub tab_stop: u32,
}

/// A grid of cells with a cursor and a view: the surface that terminal
/// commands act on.
pub struct Window {
    grid: CharGrid,
    cursor: Cursor,
    view: Viewport,
    tab_stop: u32,
}

/// Movements that may take the cursor below the view when the grid can grow
/// downwards without limit.
pub open spec fn goes_down(m: Movement) -> bool {
    match m {
        Movement::To(Direction::Down, _, _) | Movement::Tab(Direction::Down, _, _) => true,
        Movement::To(Direction::Right, _, true) => true,
        Movement::NextLine(_) => true,
        _ => false,
    }
}

/// The region a movement is confined to: the view, open below when the grid
/// grows downwards without limit and the movement goes down.
pub open spec fn movement_bounds(view: Region, m: GridModel<CharCell>, mv: Movement) -> Region {
    if m.max_height().is_none() && goes_down(mv) {
        Region { bottom: u32::MAX, ..view }
    } else {
        view
    }
}

/// Where the cursor first lands: `mv` applied within its bounds, or nowhere
/// else when those bounds are empty.
pub open spec fn movement_target(
    view: Region,
    m: GridModel<CharCell>,
    cur: Coords,
    mv: Movement,
    tab: u32,
) -> Coords {
    let b = movement_bounds(view, m, mv);
    if b.left < b.right && b.top < b.bottom {
        move_within_spec(cur, mv, b, tab)
    } else {
        cur
    }
}

/// The state after moving the cursor from `cur` by `mv`: it lands on the
/// movement's target, walks on out of extension cells, the grid grows to
/// reach it and the view slides to show it.
pub open spec fn move_post(
    m: GridModel<CharCell>,
    view: Region,
    cur: Coords,
    mv: Movement,
    tab: u32,
    m2: GridModel<CharCell>,
    view2: Region,
    cur2: Coords,
) -> bool {
    &&& walked_out_of_extension(
        m,
        movement_target(view, m, cur, mv, tab),
        mv.direction_spec(cur),
        cur2,
    )
    &&& m2 == m.filled_to(cur2)
    &&& view2 == kept_within(view, cur2)
}

/// The grid with `f` applied to each of its cells that `s` lists.
pub open spec fn mapped(m: GridModel<CharCell>, s: Seq<Coords>, f: spec_fn(CharCell) -> CharCell) -> GridModel<CharCell> {
    GridModel {
        rows: Seq::new(
            m.height,
            |y: int|
                Seq::new(
                    m.width,
                    |x: int|
                        if s.contains(Coords { x: x as u32, y: y as u32 }) {
                            f(m.rows[y][x])
                        } else {
                            m.rows[y][x]
                        },
                ),
        ),
        ..m
    }
}

pub open spec fn eraser() -> spec_fn(CharCell) -> CharCell {
    |c: CharCell| CharCell::blank_cell()
}

pub open spec fn restyler(style: Style) -> spec_fn(CharCell) -> CharCell {
    |c: CharCell| restyled(c, style)
}

pub open spec fn unstyler() -> spec_fn(CharCell) -> CharCell {
    |c: CharCell| unstyled(c)
}

/// The grid after each `(from, to)` pair, in order, has moved its cell over.
pub open spec fn moves_applied(m: GridModel<CharCell>, pairs: Seq<(Coords, Coords)>) -> GridModel<
    CharCell,
>
    decreases pairs.len(),
{
    if pairs.len() == 0 {
        m
    } else {
        moveover_spec(moves_applied(m, pairs.drop_last()), pairs.last().0, pairs.last().1)
    }
}

/// `c` moved by `(dx, dy)`, or `c` itself where that leaves the coordinates.
pub open spec fn shifted(c: Coords, dx: u32, dy: u32) -> Coords {
    if c.x + dx <= u32::MAX && c.y + dy <= u32::MAX {
        Coords { x: (c.x + dx) as u32, y: (c.y + dy) as u32 }
    } else {
        c
    }
}

/// The moves that open `skip` cells of room at the front of `s`: the others,
/// from last to first, each move by `(dx, dy)`.
pub open spec fn pushes(s: Seq<Coords>, skip: nat, dx: u32, dy: u32) -> Seq<(Coords, Coords)> {
    let k = if skip < s.len() { s.len() - skip } else { 0 };
    Seq::new(k as nat, |j: int| (s[k - 1 - j], shifted(s[k - 1 - j], dx, dy)))
}

/// Whether the cell `(dx, dy)` after `c` still lies before `limit`.
pub open spec fn pull_ok(c: Coords, dx: u32, dy: u32, limit: Region) -> bool {
    c.x + dx < limit.right && c.y + dy < limit.bottom
}

/// How many cells at the front of `s` can take a cell from `(dx, dy)`
/// further on inside `limit`.
pub open spec fn pull_count(s: Seq<Coords>, dx: u32, dy: u32, limit: Region) -> nat
    decreases s.len(),
{
    if s.len() == 0 {
        0
    } else if pull_ok(s[0], dx, dy, limit) {
        1 + pull_count(s.subrange(1, s.len() as int), dx, dy, limit)
    } else {
        0
    }
}

/// The moves that close up `s`: each cell at its front takes the cell
/// `(dx, dy)` further on, first to last.
pub open spec fn pulls(s: Seq<Coords>, dx: u32, dy: u32, limit: Region) -> Seq<(Coords, Coords)> {
    Seq::new(pull_count(s, dx, dy, limit), |j: int| (shifted(s[j], dx, dy), s[j]))
}

pub open spec fn to_right_edge() -> Area {
    Area::CursorTo(Movement::ToEdge(Direction::Right))
}

proof fn lemma_mapped_start(m: GridModel<CharCell>, f: spec_fn(CharCell) -> CharCell)
    requires
        m.wf(),
    ensures
        mapped(m, Seq::empty(), f) == m,
{
    let p = mapped(m, Seq::empty(), f);
    assert forall|y: int| 0 <= y < m.height implies #[trigger] p.rows[y] =~= m.rows[y] by {}
    assert(p.rows =~= m.rows);
}

proof fn lemma_mapped_step(m: GridModel<CharCell>, s: Seq<Coords>, i: int, f: spec_fn(CharCell) -> CharCell)
    requires
        m.wf(),
        0 <= i < s.len(),
        forall|c: CharCell| #[trigger] f(f(c)) == f(c),
    ensures
        mapped(m, s.subrange(0, i), f).set(s[i], f(mapped(m, s.subrange(0, i), f).cell(s[i])))
            == mapped(m, s.subrange(0, i + 1), f),
        mapped(m, s.subrange(0, i + 1), f).wf(),
{
    let p = mapped(m, s.subrange(0, i), f);
    let q = mapped(m, s.subrange(0, i + 1), f);
    let c = s[i];
    assert forall|x: int, y: int|
        0 <= x < m.width && 0 <= y < m.height implies #[trigger] s.subrange(0, i + 1).contains(
        Coords { x: x as u32, y: y as u32 },
    ) == (s.subrange(0, i).contains(Coords { x: x as u32, y: y as u32 }) || Coords {
        x: x as u32,
        y: y as u32,
    } == c) by {
        let d = Coords { x: x as u32, y: y as u32 };
        if s.subrange(0, i + 1).contains(d) {
            let j = choose|j: int| #![trigger s.subrange(0, i + 1)[j]] 0 <= j < i + 1 && s.subrange(0, i + 1)[j] == d;
            if j < i {
                assert(s.subrange(0, i)[j] == d);
            }
        }
        if s.subrange(0, i).contains(d) {
            let j = choose|j: int| #![trigger s.subrange(0, i)[j]] 0 <= j < i && s.subrange(0, i)[j] == d;
            assert(s.subrange(0, i + 1)[j] == d);
        }
        if d == c {
            assert(s.subrange(0, i + 1)[i] == d);
        }
    }
    let ps = p.set(c, f(p.cell(c)));
    assert forall|y: int| 0 <= y < m.height implies #[trigger] ps.rows[y] =~= q.rows[y] by {
        assert forall|x: int| 0 <= x < m.width implies ps.rows[y][x] == q.rows[y][x] by {
            assert(s.subrange(0, i + 1).contains(Coords { x: x as u32, y: y as u32 }) == (s.subrange(
                0,
                i,
            ).contains(Coords { x: x as u32, y: y as u32 }) || Coords { x: x as u32, y: y as u32 }
                == c));
        }
    }
    assert(ps.rows =~= q.rows);
}

proof fn lemma_mapped_all(m: GridModel<CharCell>, s: Seq<Coords>, f: spec_fn(CharCell) -> CharCell)
    ensures
        mapped(m, s.subrange(0, s.len() as int), f) == mapped(m, s, f),
{
    assert(s.subrange(0, s.len() as int) =~= s);
}

/// `w1` is the window `w0` after `data` was written: the write at the
/// cursor with the cursor's text style, then the cursor moved on by one
/// cell, wrapping.
pub open spec fn wrote(w0: Window, data: CharData, w1: Window) -> bool {
    &&& w1.wf()
    &&& exists|m2: GridModel<CharCell>, r: Coords|
        #[trigger] write_post(
            w0.cells(),
            w0.cursor_state().coords,
            data,
            w0.cursor_state().text_style,
            m2,
            r,
        ) && move_post(
            m2,
            w0.region(),
            r,
            Movement::To(Direction::Right, 1, true),
            w0.tab(),
            w1.cells(),
            w1.region(),
            w1.cursor_state().coords,
        )
    &&& w1.cursor_state().style == w0.cursor_state().style
    &&& w1.cursor_state().text_style == w0.cursor_state().text_style
    &&& w1.tooltips() == w0.tooltips()
    &&& w1.tab() == w0.tab()
}

/// `w1` is the window `w0` after its cursor was moved by `mv`.
pub open spec fn moved(w0: Window, mv: Movement, w1: Window) -> bool {
    &&& w1.wf()
    &&& move_post(
        w0.cells(),
        w0.region(),
        w0.cursor_state().coords,
        mv,
        w0.tab(),
        w1.cells(),
        w1.region(),
        w1.cursor_state().coords,
    )
    &&& w1.cursor_state().style == w0.cursor_state().style
    &&& w1.cursor_state().text_style == w0.cursor_state().text_style
    &&& w1.tooltips() == w0.tooltips()
    &&& w1.tab() == w0.tab()
}

impl Window {
    pub closed spec fn cells(&self) -> GridModel<CharCell> {
        self.grid@.cells
    }

    pub closed spec fn tooltips(&self) -> Map<u64, Tooltip> {
        self.grid@.tooltips
    }

    pub closed spec fn cursor_state(&self) -> Cursor {
        self.cursor
    }

    pub closed spec fn region(&self) -> Region {
        self.view.region()
    }

    pub closed spec fn tab(&self) -> u32 {
        self.tab_stop
    }

    pub closed spec fn wf(&self) -> bool {
        self.grid.wf() && self.view.wf()
    }

    /// A window of `width` by `height` cells, with the cursor and the view at
    /// the top left corner. Only moveable views are supported.
    pub fn new(width: u32, height: u32, settings: GridSettings) -> (r: Window)
        requires
            settings.flow == Flow::Moveable,
        ensures
            r.wf(),
            r.cursor_state() == Cursor::new_spec(),
            r.region() == (Region { left: 0, top: 0, right: width, bottom: height }),
            r.tab() == settings.tab_stop,
            r.tooltips() == Map::<u64, Tooltip>::empty(),
            r.cells().width == 0 && r.cells().height == 0,
            !settings.retain_offscreen_state ==> r.cells().rem_x == Some(width as nat)
                && r.cells().rem_y == Some(height as nat),
            settings.retain_offscreen_state && settings.scrollback > 0 ==> r.cells().rem_x == Some(
                width as nat,
            ) && r.cells().rem_y == Some(
                if settings.scrollback < height { settings.scrollback as nat } else { height as nat },
            ),
            settings.retain_offscreen_state && settings.scrollback <= 0 ==> r.cells().rem_x.is_none()
                && r.cells().rem_y.is_none(),
    {
        Window {
            grid: CharGrid::new(width, height, settings.retain_offscreen_state, settings.scrollback),
            cursor: Cursor::new(),
            view: Viewport::new(Coords { x: 0, y: 0 }, width, height, settings.flow),
            tab_stop: settings.tab_stop,
        }
    }

    /// Let the grid grow to `width` columns and make the view that wide
    /// (as far as the coordinates reach).
    pub fn resize_width(&mut self, width: u32)
        requires
            old(self).wf(),
        ensures
            final(self).wf(),
            final(self).cells() == old(self).cells().width_guaranteed(width as nat),
            final(self).region() == (Region {
                right: if old(self).region().left + width <= u32::MAX {
                    (old(self).region().left + width) as u32
                } else {
                    u32::MAX
                },
                ..old(self).region()
            }),
            final(self).cursor_state() == old(self).cursor_state(),
            final(self).tooltips() == old(self).tooltips(),
            final(self).tab() == old(self).tab(),
    {
        self.grid.resize_width(width);
        let left = self.view.bounds().left;
        let w = if width <= u32::MAX - left { width } else { u32::MAX - left };
        self.view.resize_width(w);
    }

    /// Let the grid grow to `height` rows and make the view that high (as
    /// far as the coordinates reach).
    pub fn resize_height(&mut self, height: u32)
        requires
            old(self).wf(),
        ensures
            final(self).wf(),
            final(self).cells() == old(self).cells().height_guaranteed(height as nat),
            final(self).region() == (Region {
                bottom: if old(self).region().top + height <= u32::MAX {
                    (old(self).region().top + height) as u32
                } else {
                    u32::MAX
                },
                ..old(self).region()
            }),
            final(self).cursor_state() == old(self).cursor_state(),
            final(self).tooltips() == old(self).tooltips(),
            final(self).tab() == old(self).tab(),
    {
        self.grid.resize_height(height);
        let top = self.view.bounds().top;
        let h = if height <= u32::MAX - top { height } else { u32::MAX - top };
        self.view.resize_height(h);
    }

    /// Write `data` at the cursor with the cursor's text style, put the
    /// cursor on the last cell written, then move it one cell on, wrapping.
    pub fn write(&mut self, data: CharData)
        requires
            old(self).wf(),
        ensures
            final(self).wf(),
            wrote(*old(self), data, *final(self)),
    {
        let r = self.grid.write(self.cursor.coords, data, self.cursor.text_style);
        let ghost m2 = self.grid@.cells;
        self.cursor.coords = r;
        self.move_cursor(Movement::To(Direction::Right, 1, true));
        assert(write_post(
            old(self).cells(),
            old(self).cursor_state().coords,
            data,
            old(self).cursor_state().text_style,
            m2,
            r,
        ));
    }

    /// Move the cursor by `movement` within the view (below it, when the
    /// grid grows downwards without limit), then on out of extension cells;
    /// the grid grows to reach the cursor and the view follows it.
    pub fn move_cursor(&mut self, movement: Movement)
        requires
            old(self).wf(),
        ensures
            moved(*old(self), movement, *final(self)),
            !is_extension_at(final(self).cells(), final(self).cursor_state().coords) || !ray_in(
                old(self).cells(),
                final(self).cursor_state().coords,
                movement.direction_spec(old(self).cursor_state().coords),
                1,
            ),
    {
        let view = self.view.bounds();
        let open_below = match movement {
            Movement::To(Direction::Down, _, _) | Movement::Tab(Direction::Down, _, _) => true,
            Movement::To(Direction::Right, _, true) => true,
            Movement::NextLine(_) => true,
            _ => false,
        };
        let b = if self.grid.grid().max_height().is_none() && open_below {
            Region { bottom: u32::MAX, ..view }
        } else {
            view
        };
        let target = if b.left < b.right && b.top < b.bottom {
            move_within(self.cursor.coords, movement, b, self.tab_stop)
        } else {
            self.cursor.coords
        };
        let dir = movement.direction(self.cursor.coords);
        let c = self.grid.move_out_of_extension(target, dir);
        proof {
            lemma_walk_leaves_extensions(self.grid@.cells, target, dir, c);
        }
        self.grid.fill_cells_to(c);
        self.cursor.coords = c;
        self.view.keep_cursor_within(c);
    }

    /// Merge `style` into the style of the text written from now on.
    pub fn set_style(&mut self, style: Style)
        ensures
            final(self).cursor_state().text_style == old(self).cursor_state().text_style.updated(style),
            final(self).cursor_state().coords == old(self).cursor_state().coords,
            final(self).cursor_state().style == old(self).cursor_state().style,
            final(self).cells() == old(self).cells(),
            final(self).region() == old(self).region(),
            final(self).wf() == old(self).wf(),
    {
        self.cursor.text_style.update(style);
    }

    /// Write text with default decorations from now on.
    pub fn reset_styles(&mut self)
        ensures
            final(self).cursor_state().text_style == UseStyles::Default,
            final(self).cursor_state().coords == old(self).cursor_state().coords,
            final(self).cursor_state().style == old(self).cursor_state().style,
            final(self).cells() == old(self).cells(),
            final(self).region() == old(self).region(),
            final(self).wf() == old(self).wf(),
    {
        self.cursor.text_style = UseStyles::Default;
    }

    /// Merge `style` into the cursor's own appearance.
    pub fn set_cursor_style(&mut self, style: Style)
        ensures
            final(self).cursor_state().style == old(self).cursor_state().style.updated(style),
            final(self).cursor_state().coords == old(self).cursor_state().coords,
            final(self).cursor_state().text_style == old(self).cursor_state().text_style,
            final(self).cells() == old(self).cells(),
            final(self).region() == old(self).region(),
            final(self).wf() == old(self).wf(),
    {
        self.cursor.style.update(style);
    }

    pub fn reset_cursor_styles(&mut self)
        ensures
            final(self).cursor_state().style == Styles::initial(),
            final(self).cursor_state().coords == old(self).cursor_state().coords,
            final(self).cursor_state().text_style == old(self).cursor_state().text_style,
            final(self).cells() == old(self).cells(),
            final(self).region() == old(self).region(),
            final(self).wf() == old(self).wf(),
    {
        self.cursor.style = Styles::new();
    }

    pub fn cursor_position(&self) -> (r: Coords)
        ensures
            r == self.cursor_state().coords,
    {
        self.cursor.coords
    }

    pub fn cursor_styles(&self) -> (r: Styles)
        ensures
            r == self.cursor_state().style,
    {
        self.cursor.style
    }

    /// The view's current place on the grid.
    pub fn view_bounds(&self) -> (r: Region)
        requires
            self.wf(),
        ensures
            r == self.region(),
    {
        self.view.bounds()
    }

    /// The grid's size: columns, then rows.
    pub fn grid_size(&self) -> (r: (usize, usize))
        ensures
            r.0 == self.cells().width,
            r.1 == self.cells().height,
    {
        (self.grid.grid().width(), self.grid.grid().height())
    }

    fn area(&self, area: Area) -> (r: Vec<Coords>)
        requires
            self.wf(),
        ensures
            r@ == area_seq(area, self.cursor_state().coords, self.region(), self.tab()),
    {
        coords_in_area(area, self.cursor.coords, self.view.bounds(), self.tab_stop)
    }

    /// Set one decoration of every cell of `area`.
    pub fn set_style_in_area(&mut self, area: Area, style: Style)
        requires
            old(self).wf(),
        ensures
            final(self).wf(),
            final(self).cells() == mapped(
                old(self).cells(),
                area_seq(area, old(self).cursor_state().coords, old(self).region(), old(self).tab()),
                restyler(style),
            ),
            final(self).cursor_state() == old(self).cursor_state(),
            final(self).region() == old(self).region(),
            final(self).tooltips() == old(self).tooltips(),
            final(self).tab() == old(self).tab(),
    {
        let coords = self.area(area);
        let ghost m = self.grid@.cells;
        let ghost f = restyler(style);
        assert forall|c: CharCell| #[trigger] f(f(c)) == f(c) by {}
        proof {
            lemma_mapped_start(m, f);
            assert(coords@.subrange(0, 0) =~= Seq::<Coords>::empty());
        }
        let mut i: usize = 0;
        while i < coords.len()
            invariant
                self.wf(),
                m.wf(),
                f == restyler(style),
                forall|c: CharCell| #[trigger] f(f(c)) == f(c),
                i <= coords@.len(),
                self.grid@.cells == mapped(m, coords@.subrange(0, i as int), f),
                self.cursor == old(self).cursor,
                self.view == old(self).view,
                self.tab_stop == old(self).tab_stop,
                self.grid@.tooltips == old(self).grid@.tooltips,
            decreases coords@.len() - i,
        {
            proof {
                lemma_mapped_step(m, coords@, i as int, f);
            }
            self.grid.set_style(coords[i], style);
            i = i + 1;
        }
        proof {
            lemma_mapped_all(m, coords@, f);
        }
    }

    /// Give every cell of `area` the default decorations.
    pub fn reset_styles_in_area(&mut self, area: Area)
        requires
            old(self).wf(),
        ensures
            final(self).wf(),
            final(self).cells() == mapped(
                old(self).cells(),
                area_seq(area, old(self).cursor_state().coords, old(self).region(), old(self).tab()),
                unstyler(),
            ),
            final(self).cursor_state() == old(self).cursor_state(),
            final(self).region() == old(self).region(),
            final(self).tooltips() == old(self).tooltips(),
            final(self).tab() == old(self).tab(),
    {
        let coords = self.area(area);
        let ghost m = self.grid@.cells;
        let ghost f = unstyler();
        assert forall|c: CharCell| #[trigger] f(f(c)) == f(c) by {}
        proof {
            lemma_mapped_start(m, f);
            assert(coords@.subrange(0, 0) =~= Seq::<Coords>::empty());
        }
        let mut i: usize = 0;
        while i < coords.len()
            invariant
                self.wf(),
                m.wf(),
                f == unstyler(),
                forall|c: CharCell| #[trigger] f(f(c)) == f(c),
                i <= coords@.len(),
                self.grid@.cells == mapped(m, coords@.subrange(0, i as int), f),
                self.cursor == old(self).cursor,
                self.view == old(self).view,
                self.tab_stop == old(self).tab_stop,
                self.grid@.tooltips == old(self).grid@.tooltips,
            decreases coords@.len() - i,
        {
            proof {
                lemma_mapped_step(m, coords@, i as int, f);
            }
            self.grid.reset_style(coords[i]);
            i = i + 1;
        }
        proof {
            lemma_mapped_all(m, coords@, f);
        }
    }

    /// Make every cell of `area` blank.
    pub fn erase(&mut self, area: Area)
        requires
            old(self).wf(),
        ensures
            final(self).wf(),
            final(self).cells() == mapped(
                old(self).cells(),
                area_seq(area, old(self).cursor_state().coords, old(self).region(), old(self).tab()),
                eraser(),
            ),
            final(self).cursor_state() == old(self).cursor_state(),
            final(self).region() == old(self).region(),
            final(self).tooltips() == old(self).tooltips(),
            final(self).tab() == old(self).tab(),
    {
        let coords = self.area(area);
        let ghost m = self.grid@.cells;
        let ghost f = eraser();
        assert forall|c: CharCell| #[trigger] f(f(c)) == f(c) by {}
        proof {
            lemma_mapped_start(m, f);
            assert(coords@.subrange(0, 0) =~= Seq::<Coords>::empty());
        }
        let mut i: usize = 0;
        while i < coords.len()
            invariant
                self.wf(),
                m.wf(),
                f == eraser(),
                forall|c: CharCell| #[trigger] f(f(c)) == f(c),
                i <= coords@.len(),
                self.grid@.cells == mapped(m, coords@.subrange(0, i as int), f),
                self.cursor == old(self).cursor,
                self.view == old(self).view,
                self.tab_stop == old(self).tab_stop,
                self.grid@.tooltips == old(self).grid@.tooltips,
            decreases coords@.len() - i,
        {
            proof {
                lemma_mapped_step(m, coords@, i as int, f);
            }
            self.grid.erase(coords[i]);
            i = i + 1;
        }
        proof {
            lemma_mapped_all(m, coords@, f);
        }
    }
}


/// The view's cell `c`, counted from its top left corner, on the grid.
pub open spec fn local_to_grid(view: Region, c: Coords) -> Option<Coords> {
    if c.x < view.right - view.left && c.y < view.bottom - view.top {
        Some(Coords { x: (view.left + c.x) as u32, y: (view.top + c.y) as u32 })
    } else {
        None
    }
}

impl Window {
    fn apply_pushes(&mut self, coords: Vec<Coords>, skip: u64, dx: u32, dy: u32)
        requires
            old(self).wf(),
        ensures
            final(self).wf(),
            final(self).cells() == moves_applied(old(self).cells(), pushes(coords@, skip as nat, dx, dy)),
            final(self).cursor_state() == old(self).cursor_state(),
            final(self).region() == old(self).region(),
            final(self).tooltips() == old(self).tooltips(),
            final(self).tab() == old(self).tab(),
    {
        let ghost m = self.grid@.cells;
        let ghost ps = pushes(coords@, skip as nat, dx, dy);
        let len = coords.len();
        let k: usize = if skip < len as u64 { len - skip as usize } else { 0 };
        assert(ps.subrange(0, 0) =~= Seq::<(Coords, Coords)>::empty());
        let mut i = k;
        while i > 0
            invariant
                self.wf(),
                m == old(self).cells(),
                ps == pushes(coords@, skip as nat, dx, dy),
                ps.len() == k,
                k <= coords@.len(),
                i <= k,
                self.grid@.cells == moves_applied(m, ps.subrange(0, k - i)),
                self.cursor == old(self).cursor,
                self.view == old(self).view,
                self.tab_stop == old(self).tab_stop,
                self.grid@.tooltips == old(self).grid@.tooltips,
            decreases i,
        {
            i = i - 1;
            let c = coords[i];
            let to = if c.x as u64 + dx as u64 <= u32::MAX as u64 && c.y as u64 + dy as u64 <= u32::MAX as u64 {
                Coords { x: c.x + dx, y: c.y + dy }
            } else {
                c
            };
            self.grid.moveover(c, to);
            proof {
                assert(ps.subrange(0, k - i).drop_last() =~= ps.subrange(0, k - i - 1));
                assert(ps[k - i - 1] == (c, to));
            }
        }
        assert(ps.subrange(0, k as int) =~= ps);
    }

    fn apply_pulls(&mut self, coords: Vec<Coords>, dx: u32, dy: u32, limit: Region)
        requires
            old(self).wf(),
        ensures
            final(self).wf(),
            final(self).cells() == moves_applied(old(self).cells(), pulls(coords@, dx, dy, limit)),
            final(self).cursor_state() == old(self).cursor_state(),
            final(self).region() == old(self).region(),
            final(self).tooltips() == old(self).tooltips(),
            final(self).tab() == old(self).tab(),
    {
        let ghost m = self.grid@.cells;
        let ghost s = coords@;
        let ghost ps = pulls(coords@, dx, dy, limit);
        let len = coords.len();
        let mut i: usize = 0;
        assert(s.subrange(0, len as int) =~= s);
        assert(ps.subrange(0, 0) =~= Seq::<(Coords, Coords)>::empty());
        while i < len && (coords[i].x as u64 + dx as u64) < limit.right as u64
            && (coords[i].y as u64 + dy as u64) < limit.bottom as u64
            invariant
                self.wf(),
                m == old(self).cells(),
                s == coords@,
                len == s.len(),
                ps == pulls(s, dx, dy, limit),
                i <= len,
                pull_count(s, dx, dy, limit) == i + pull_count(s.subrange(i as int, len as int), dx, dy, limit),
                self.grid@.cells == moves_applied(m, ps.subrange(0, i as int)),
                self.cursor == old(self).cursor,
                self.view == old(self).view,
                self.tab_stop == old(self).tab_stop,
                self.grid@.tooltips == old(self).grid@.tooltips,
            decreases len - i,
        {
            let c = coords[i];
            let from = Coords { x: c.x + dx, y: c.y + dy };
            proof {
                let t = s.subrange(i as int, len as int);
                assert(t[0] == c);
                assert(t.subrange(1, t.len() as int) =~= s.subrange(i + 1, len as int));
            }
            self.grid.moveover(from, c);
            proof {
                assert(ps.subrange(0, i + 1).drop_last() =~= ps.subrange(0, i as int));
                assert(ps[i as int] == (from, c));
            }
            i = i + 1;
        }
        proof {
            if i < len {
                assert(s.subrange(i as int, len as int)[0] == s[i as int]);
            }
            assert(pull_count(s.subrange(i as int, len as int), dx, dy, limit) == 0);
            assert(ps.subrange(0, i as int) =~= ps);
        }
    }

    /// Insert `n` blank cells after the cursor: the cells from there to the
    /// view's right edge move right by `n`, those pushed past it are lost.
    pub fn insert_blank_at(&mut self, n: u32)
        requires
            old(self).wf(),
        ensures
            final(self).wf(),
            final(self).cells() == moves_applied(
                old(self).cells(),
                pushes(
                    area_seq(to_right_edge(), old(self).cursor_state().coords, old(self).region(), old(self).tab()),
                    n as nat,
                    n,
                    0,
                ),
            ),
            final(self).cursor_state() == old(self).cursor_state(),
            final(self).region() == old(self).region(),
            final(self).tooltips() == old(self).tooltips(),
    {
        let coords = self.area(Area::CursorTo(Movement::ToEdge(Direction::Right)));
        self.apply_pushes(coords, n as u64, n, 0);
    }

    /// Remove `n` cells after the cursor: the cells from there to the view's
    /// right edge move left by `n`.
    pub fn remove_at(&mut self, n: u32)
        requires
            old(self).wf(),
        ensures
            final(self).wf(),
            final(self).cells() == moves_applied(
                old(self).cells(),
                pulls(
                    area_seq(to_right_edge(), old(self).cursor_state().coords, old(self).region(), old(self).tab()),
                    n,
                    0,
                    old(self).region(),
                ),
            ),
            final(self).cursor_state() == old(self).cursor_state(),
            final(self).region() == old(self).region(),
            final(self).tooltips() == old(self).tooltips(),
    {
        let coords = self.area(Area::CursorTo(Movement::ToEdge(Direction::Right)));
        let limit = self.view.bounds();
        self.apply_pulls(coords, n, 0, limit);
    }

    /// Insert `n` blank rows below the cursor (at the cursor's row when
    /// `with_current` is set): the rows from there move down by `n`, those
    /// pushed past the view's bottom are lost.
    pub fn insert_rows_at(&mut self, n: u32, with_current: bool)
        requires
            old(self).wf(),
        ensures
            final(self).wf(),
            final(self).cells() == moves_applied(
                old(self).cells(),
                pushes(
                    area_seq(Area::BelowCursor(with_current), old(self).cursor_state().coords, old(self).region(), old(self).tab()),
                    (n * (old(self).region().right - old(self).region().left)) as nat,
                    0,
                    n,
                ),
            ),
            final(self).cursor_state() == old(self).cursor_state(),
            final(self).region() == old(self).region(),
            final(self).tooltips() == old(self).tooltips(),
    {
        let coords = self.area(Area::BelowCursor(with_current));
        let w = self.view.width() as u64;
        assert((n as u64) * w <= u64::MAX) by (nonlinear_arith)
            requires
                n <= u32::MAX,
                w <= u32::MAX,
        ;
        self.apply_pushes(coords, n as u64 * w, 0, n);
    }

    /// Remove `n` rows from below the cursor (from the cursor's row when
    /// `with_current` is set): the rows under them move up by `n`.
    pub fn remove_rows_at(&mut self, n: u32, with_current: bool)
        requires
            old(self).wf(),
        ensures
            final(self).wf(),
            final(self).cells() == moves_applied(
                old(self).cells(),
                pulls(
                    area_seq(Area::BelowCursor(with_current), old(self).cursor_state().coords, old(self).region(), old(self).tab()),
                    0,
                    n,
                    old(self).region(),
                ),
            ),
            final(self).cursor_state() == old(self).cursor_state(),
            final(self).region() == old(self).region(),
            final(self).tooltips() == old(self).tooltips(),
    {
        let coords = self.area(Area::BelowCursor(with_current));
        let limit = self.view.bounds();
        self.apply_pulls(coords, 0, n, limit);
    }

    /// Scroll the grid's content by `n` cells towards `dir`.
    pub fn scroll(&mut self, dir: Direction, n: u32)
        requires
            old(self).wf(),
        ensures
            final(self).wf(),
            final(self).cells() == old(self).cells().scrolled(n as nat, dir),
            final(self).cursor_state() == old(self).cursor_state(),
            final(self).region() == old(self).region(),
            final(self).tooltips() == old(self).tooltips(),
    {
        self.grid.scroll(dir, n);
    }

    fn to_grid(&self, c: Coords) -> (r: Option<Coords>)
        requires
            self.wf(),
        ensures
            r == local_to_grid(self.region(), c),
    {
        if c.x < self.view.width() && c.y < self.view.height() {
            Some(self.view.translate(c))
        } else {
            None
        }
    }

    /// The cell shown at the view's cell `c`; blank outside the view or the
    /// grid.
    pub fn index(&self, c: Coords) -> (r: &CharCell)
        requires
            self.wf(),
        ensures
            local_to_grid(self.region(), c) matches Some(g) ==> *r == shown(self.cells(), g),
            local_to_grid(self.region(), c).is_none() ==> *r == CharCell::blank_cell(),
    {
        match self.to_grid(c) {
            Some(g) => self.grid.index(g),
            None => self.grid.blank(),
        }
    }

    /// The cell at grid coordinates `c`, or blank where the grid has none.
    pub fn grid_cell(&self, c: Coords) -> (r: &CharCell)
        requires
            self.wf(),
        ensures
            *r == shown(self.cells(), c),
    {
        self.grid.index(c)
    }

    /// Attach the text `tooltip` to the view's cell `c`.
    pub fn add_tooltip(&mut self, c: Coords, tooltip: String)
        requires
            old(self).wf(),
        ensures
            final(self).wf(),
            local_to_grid(old(self).region(), c) matches Some(g) ==> final(self).tooltips() == old(
                self,
            ).tooltips().insert(tooltip_key(g), Tooltip::Basic(tooltip)),
            local_to_grid(old(self).region(), c).is_none() ==> final(self).tooltips() == old(
                self,
            ).tooltips(),
            final(self).cells() == old(self).cells(),
            final(self).cursor_state() == old(self).cursor_state(),
            final(self).region() == old(self).region(),
    {
        if let Some(g) = self.to_grid(c) {
            self.grid.add_tooltip(g, tooltip);
        }
    }

    /// Attach a menu of `options` to the view's cell `c`.
    pub fn add_drop_down(&mut self, c: Coords, options: Vec<String>)
        requires
            old(self).wf(),
        ensures
            final(self).wf(),
            local_to_grid(old(self).region(), c) matches Some(g) ==> final(self).tooltips() == old(
                self,
            ).tooltips().insert(tooltip_key(g), Tooltip::Menu { options, position: None }),
            local_to_grid(old(self).region(), c).is_none() ==> final(self).tooltips() == old(
                self,
            ).tooltips(),
            final(self).cells() == old(self).cells(),
            final(self).cursor_state() == old(self).cursor_state(),
            final(self).region() == old(self).region(),
    {
        if let Some(g) = self.to_grid(c) {
            self.grid.add_drop_down(g, options);
        }
    }

    pub fn remove_tooltip(&mut self, c: Coords)
        requires
            old(self).wf(),
        ensures
            final(self).wf(),
            local_to_grid(old(self).region(), c) matches Some(g) ==> final(self).tooltips() == old(
                self,
            ).tooltips().remove(tooltip_key(g)),
            local_to_grid(old(self).region(), c).is_none() ==> final(self).tooltips() == old(
                self,
            ).tooltips(),
            final(self).cells() == old(self).cells(),
            final(self).cursor_state() == old(self).cursor_state(),
            final(self).region() == old(self).region(),
    {
        if let Some(g) = self.to_grid(c) {
            self.grid.remove_tooltip(g);
        }
    }

    /// The tooltip at the view's cell `c`.
    pub fn tooltip_at(&self, c: Coords) -> (r: Option<&Tooltip>)
        requires
            self.wf(),
        ensures
            (local_to_grid(self.region(), c) matches Some(g) && self.tooltips().contains_key(
                tooltip_key(g),
            )) ==> r == Some(&self.tooltips()[tooltip_key(local_to_grid(self.region(), c)->Some_0)]),
            !(local_to_grid(self.region(), c) matches Some(g) && self.tooltips().contains_key(
                tooltip_key(g),
            )) ==> r.is_none(),
    {
        match self.to_grid(c) {
            Some(g) => self.grid.tooltip_at(g),
            None => None,
        }
    }
}


proof fn lemma_passes_first(m: GridModel<CharCell>, c: Coords, dir: Direction, k: nat)
    requires
        passes_extensions(m, c, dir, k),
        k > 0,
    ensures
        is_extension_at(m, ray(c, dir, 0)),
    decreases k,
{
    if k > 1 {
        lemma_passes_first(m, c, dir, (k - 1) as nat);
    }
}

/// After a character of width `w` is written, the cursor stands on the
/// cell right after it: `w` columns right of where the character went,
/// whenever that cell is on the same row of the view and holds no
/// extension.
pub proof fn lemma_write_advances_cursor(
    m: GridModel<CharCell>,
    view: Region,
    c: Coords,
    ch: char,
    styles: UseStyles,
    tab: u32,
    m2: GridModel<CharCell>,
    r: Coords,
    m3: GridModel<CharCell>,
    view3: Region,
    cur3: Coords,
)
    requires
        m.wf(),
        view.wf(),
        write_fits(c, CharData::Char(ch)),
        write_post(m, c, CharData::Char(ch), styles, m2, r),
        move_post(m2, view, r, Movement::To(Direction::Right, 1, true), tab, m3, view3, cur3),
        ({
            let w = cells_for_width(unicode_width_of(ch));
            let a = best_fit_spec(m, region_at_spec(c, w, 1));
            &&& view.left <= a.x
            &&& a.x + w < view.right
            &&& view.top <= a.y < view.bottom
            &&& !is_extension_at(m2, Coords { x: (a.x + w) as u32, y: a.y })
        }),
    ensures
        ({
            let w = cells_for_width(unicode_width_of(ch));
            let a = best_fit_spec(m, region_at_spec(c, w, 1));
            cur3 == Coords { x: (a.x + w) as u32, y: a.y }
        }),
{
    let w = cells_for_width(unicode_width_of(ch));
    let a = best_fit_spec(m, region_at_spec(c, w, 1));
    let mv = Movement::To(Direction::Right, 1, true);
    let b = movement_bounds(view, m2, mv);
    assert(r == Coords { x: (a.x + w - 1) as u32, y: a.y });
    let bw = b.right - b.left;
    let bh = b.bottom - b.top;
    let q = r.y - b.top;
    let rem = r.x - b.left + 1;
    assert(0 <= q < bh);
    assert(0 < rem < bw);
    assert(q * bw + rem < bw * bh) by (nonlinear_arith)
        requires
            0 <= q < bh,
            0 < rem < bw,
    ;
    assert(q * bw >= 0) by (nonlinear_arith)
        requires
            0 <= q,
            0 < bw,
    ;
    let pos = (b.clamp_y(r.y as int) - b.top) * bw + (b.clamp_x(r.x as int) - b.left);
    assert(pos + 1 == q * bw + rem);
    vstd::arithmetic::div_mod::lemma_fundamental_div_mod_converse(pos + 1, bw, q, rem);
    let t = movement_target(view, m2, r, mv, tab);
    assert(t == Coords { x: (a.x + w) as u32, y: a.y });
    let k = choose|k: nat|
        #![trigger ray(t, Direction::Right, k as int)]
        cur3 == ray(t, Direction::Right, k as int) && passes_extensions(m2, t, Direction::Right, k)
            && (k > 0 ==> ray_in(m2, t, Direction::Right, k as int)) && (!is_extension_at(m2, cur3)
            || !ray_in(m2, t, Direction::Right, k + 1int));
    if k > 0 {
        lemma_passes_first(m2, t, Direction::Right, k);
        assert(ray(t, Direction::Right, 0) == t);
    }
}
} // verus!
