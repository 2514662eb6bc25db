//! The screen model of a terminal emulator: a resizable grid of cells holding
//! characters, graphemes and images, a cursor, a movable view, and the
//! commands that edit them.

pub mod cell;
pub mod char_grid;
pub mod character;
pub mod cursor;
pub mod datatypes;
pub mod grid;
pub mod put;
pub mod styles;
pub mod view;
pub mod window;
pub mod writer;

pub use cell::{CellData, CharCell, ImageData};
pub use char_grid::{CharData, CharGrid, Tooltip};
pub use character::{cell_to_extend, CharExtender, Image, WideChar};
pub use cursor::Cursor;
pub use datatypes::{
    coords_before, coords_in_area, move_within, region_at, Area, Coords, Direction, MediaAlignment,
    MediaPosition, Movement, Region,
};
pub use grid::{Grid, GridCell, GridModel};
pub use put::{Put, PutAt};
pub use styles::{Color, Style, Styles, UseStyles, DEFAULT_STYLES};
pub use view::{Flow, ReflowableView, View};
pub use window::{GridSettings, Window};
pub use writer::{CellModifier, Writer};
