use std::sync::Arc;

use vstd::prelude::*;

use crate::cell::{CellData, CharCell, ImageData};
use crate::char_grid::{cells_for_width, char_width, unicode_width_of, CharData, CharGrid};
use crate::character::{best_fit_spec, find_cell_to_extend_spec, item_written, region_at_spec};
use crate::datatypes::{region_at, Coords};
use crate::grid::Grid;
use crate::styles::UseStyles;

verus! {

/// What a writer does at its anchor.
pub enum CellModifier {
    /// Put this content at the anchor and extensions in the rest of the
    /// item's rectangle.
    Put(CellData),
    /// Join a combining mark to the anchor's character.
    Extend(char),
    /// Nothing: the payload does not fit the coordinates.
    Skip,
}

/// A write planned against a grid: what to do, at which cell, over how many
/// cells.
pub struct Writer {
    pub modifier: CellModifier,
    pub anchor: Coords,
    pub width: u32,
    pub height: u32,
}

impl Writer {
    pub open spec fn wf(&self) -> bool {
        &&& self.modifier is Put ==> self.width >= 1 && self.height >= 1 && self.anchor.x
            + self.width <= u32::MAX && self.anchor.y + self.height <= u32::MAX
    }

    /// Plan writing `data` at `c` on `grid`: a character takes as many
    /// cells as it is wide, at the best fit for them; a combining mark
    /// extends the character before `c`, or becomes a character at `c`
    /// when there is none; an image takes its rectangle at the best fit.
    /// A payload that would reach past the largest coordinate is skipped.
    pub fn new(data: CharData, c: Coords, grid: &CharGrid) -> (r: Writer)
        requires
            grid.wf(),
        ensures
            r.wf(),
            match data {
                CharData::Char(ch) => {
                    let w = cells_for_width(unicode_width_of(ch));
                    if c.x + w <= u32::MAX && c.y < u32::MAX {
                        &&& r.modifier == CellModifier::Put(CellData::Char(ch))
                        &&& r.anchor == best_fit_spec(grid@.cells, region_at_spec(c, w, 1))
                        &&& r.width == w && r.height == 1
                    } else {
                        r.modifier is Skip && r.anchor == c
                    }
                },
                CharData::ExtensionChar(ch) => match find_cell_to_extend_spec(grid@.cells, c) {
                    Some(t) => r.modifier == CellModifier::Extend(ch) && r.anchor == t,
                    None => if c.x < u32::MAX && c.y < u32::MAX {
                        &&& r.modifier == CellModifier::Put(CellData::Char(ch))
                        &&& r.anchor == c
                        &&& r.width == 1 && r.height == 1
                    } else {
                        r.modifier is Skip && r.anchor == c
                    },
                },
                CharData::Image { data: bytes, mime, pos, width, height } => {
                    if width >= 1 && height >= 1 && c.x + width <= u32::MAX && c.y + height
                        <= u32::MAX {
                        let a = best_fit_spec(
                            grid@.cells,
                            region_at_spec(c, width as nat, height as nat),
                        );
                        &&& r.anchor == a
                        &&& r.width == width && r.height == height
                        &&& r.modifier matches CellModifier::Put(
                            CellData::Image { data: d, mime: m, pos: p, width: w, height: h },
                        ) && d.data == bytes && d.coords == a && m == mime && p == pos && w
                            == width && h == height
                    } else {
                        r.modifier is Skip && r.anchor == c
                    }
                },
            },
    {
        match data {
            CharData::Char(ch) => {
                let n: u64 = match char_width(ch) {
                    Some(n) => if n >= 1 { n as u64 } else { 1 },
                    None => 1,
                };
                if c.y < u32::MAX && n <= u32::MAX as u64 - c.x as u64 {
                    let w = n as u32;
                    let a = grid.grid().best_fit_for_region(region_at(c, w, 1));
                    Writer { modifier: CellModifier::Put(CellData::Char(ch)), anchor: a, width: w, height: 1 }
                } else {
                    Writer { modifier: CellModifier::Skip, anchor: c, width: 0, height: 0 }
                }
            },
            CharData::ExtensionChar(ch) => match grid.grid().find_cell_to_extend(c) {
                Some(t) => Writer { modifier: CellModifier::Extend(ch), anchor: t, width: 1, height: 1 },
                None => if c.x < u32::MAX && c.y < u32::MAX {
                    Writer { modifier: CellModifier::Put(CellData::Char(ch)), anchor: c, width: 1, height: 1 }
                } else {
                    Writer { modifier: CellModifier::Skip, anchor: c, width: 0, height: 0 }
                },
            },
            CharData::Image { data, mime, pos, width, height } => {
                if width >= 1 && height >= 1 && c.x as u64 + width as u64 <= u32::MAX as u64
                    && c.y as u64 + height as u64 <= u32::MAX as u64 {
                    let a = grid.grid().best_fit_for_region(region_at(c, width, height));
                    let content = CellData::Image {
                        data: Arc::new(ImageData { data, coords: a }),
                        mime,
                        pos,
                        width,
                        height,
                    };
                    Writer { modifier: CellModifier::Put(content), anchor: a, width, height }
                } else {
                    Writer { modifier: CellModifier::Skip, anchor: c, width: 0, height: 0 }
                }
            },
        }
    }

    /// Carry out the plan on `grid` with `styles` and return the last cell
    /// of the anchor's row that was written.
    pub fn write(self, grid: &mut Grid<CharCell>, styles: UseStyles) -> (r: Coords)
        requires
            old(grid)@.wf(),
            self.wf(),
        ensures
            final(grid)@.wf(),
            match self.modifier {
                CellModifier::Put(content) => {
                    &&& r == (Coords { x: (self.anchor.x + self.width - 1) as u32, y: self.anchor.y })
                    &&& final(grid)@ == item_written(
                        old(grid)@,
                        region_at_spec(self.anchor, self.width as nat, self.height as nat),
                        CharCell { styles, content },
                        CharCell { styles, content: CellData::Extension(self.anchor) },
                    )
                },
                CellModifier::Extend(ch) => {
                    &&& r == self.anchor
                    &&& old(grid)@.in_bounds(self.anchor) ==> exists|v: CharCell|
                        final(grid)@ == old(grid)@.set(self.anchor, v) && #[trigger] v.extends(
                            old(grid)@.cell(self.anchor),
                            ch,
                            styles,
                        )
                    &&& !old(grid)@.in_bounds(self.anchor) ==> final(grid)@ == old(grid)@
                },
                CellModifier::Skip => r == self.anchor && final(grid)@ == old(grid)@,
            },
    {
        let a = self.anchor;
        match self.modifier {
            CellModifier::Put(content) => {
                let r = region_at(a, self.width, self.height);
                grid.write_item(r, CharCell { styles, content }, styles);
                Coords { x: a.x + self.width - 1, y: a.y }
            },
            CellModifier::Extend(ch) => {
                if (a.x as usize) < grid.width() && (a.y as usize) < grid.height() {
                    grid.extend_at(a, ch, styles);
                }
                a
            },
            CellModifier::Skip => a,
        }
    }
}

} // verus!
