use std::str::FromStr;

use notty::{
    cell_to_extend, coords_before, CellData, CellModifier, CharCell, CharExtender, Coords, Grid,
    Image, MediaPosition, Region, Styles, UseStyles, WideChar, Writer, DEFAULT_STYLES,
};

const COORDS: Coords = Coords { x: 7, y: 19 };
const STYLES: UseStyles = DEFAULT_STYLES;

fn cell(data: CellData) -> CharCell {
    CharCell { styles: DEFAULT_STYLES, content: data }
}

fn get(grid: &Grid<CharCell>, x: u32, y: u32) -> &CharCell {
    grid.get(Coords { x, y }).unwrap()
}

#[test]
fn char_write() {
    let mut grid = Grid::with_infinite_scroll();
    assert_eq!(WideChar::new('Q', 1).write(COORDS, STYLES, &mut grid), COORDS);
    assert_eq!(get(&grid, 7, 19).content, CellData::Char('Q'));
    assert_eq!(get(&grid, 7, 19).styles, STYLES);
}

#[test]
fn wide_char_write() {
    // Caps that make the best fit for the two cells at (7, 19) start at (1, 1).
    let mut grid = Grid::with_x_y_caps(3, 2);
    let region = Region { left: COORDS.x, top: COORDS.y, right: COORDS.x + 2, bottom: COORDS.y + 1 };
    assert_eq!(grid.best_fit_for_region(region), Coords { x: 1, y: 1 });
    assert_eq!(WideChar('R', 2).write(COORDS, STYLES, &mut grid), Coords { x: 2, y: 1 });
    assert_eq!(get(&grid, 1, 1).content, CellData::Char('R'));
    assert_eq!(get(&grid, 2, 1).content, CellData::Extension(Coords { x: 1, y: 1 }));
}

#[test]
fn wide_char_write_unbounded() {
    let mut grid = Grid::with_infinite_scroll();
    assert_eq!(WideChar::new('R', 2).write(COORDS, STYLES, &mut grid), Coords { x: 8, y: 19 });
    assert_eq!(get(&grid, 7, 19).content, CellData::Char('R'));
    assert_eq!(get(&grid, 8, 19).content, CellData::Extension(COORDS));
}

#[test]
fn char_extender_write() {
    let mut grid = Grid::with_infinite_scroll();
    grid.fill_to(COORDS);
    grid.set(Coords { x: 0, y: 0 }, cell(CellData::Char('E')));
    grid.set(Coords { x: 6, y: 19 }, cell(CellData::Extension(Coords { x: 0, y: 0 })));
    assert_eq!(grid.find_cell_to_extend(COORDS), Some(Coords { x: 0, y: 0 }));
    assert_eq!(CharExtender::new('$').write(COORDS, STYLES, &mut grid), Coords { x: 0, y: 0 });
    assert_eq!(get(&grid, 0, 0).content, CellData::Grapheme(String::from("E$")));
}

#[test]
fn tests_char_extender_write() {
    let mut grid = Grid::with_infinite_scroll();
    assert_eq!(grid.find_cell_to_extend(COORDS), None);
    assert_eq!(CharExtender('$').write(COORDS, STYLES, &mut grid), COORDS);
    assert_eq!(get(&grid, 7, 19).content, CellData::Char('$'));
}

#[test]
fn image_write() {
    const DATA: &[u8] = &[0x0B, 0xEE, 0xFD, 0xAD];
    const MIME: &str = "image/jpeg";
    const WIDTH: u32 = 5;
    const HEIGHT: u32 = 6;
    // Caps that make the best fit for the image's rectangle start at (0, 0).
    let mut grid = Grid::with_x_y_caps(5, 6);
    let mime = mime::Mime::from_str(MIME).unwrap();
    let image = Image::new(Vec::from(DATA), mime, MediaPosition::Fill, WIDTH, HEIGHT);
    assert_eq!(image.write(COORDS, STYLES, &mut grid), Coords { x: WIDTH - 1, y: 0 });
    match &get(&grid, 0, 0).content {
        CellData::Image { data, mime, pos, width, height } => {
            assert_eq!(DATA, &*data.data);
            assert_eq!(MIME, &mime.to_string());
            assert_eq!(*pos, MediaPosition::Fill);
            assert_eq!(*width, WIDTH);
            assert_eq!(*height, HEIGHT);
        }
        other => panic!("instead of image, received: {:?}", other),
    }
    for y in 0..HEIGHT {
        for x in 0..WIDTH {
            if (x, y) != (0, 0) {
                assert_eq!(get(&grid, x, y).content, CellData::Extension(Coords { x: 0, y: 0 }));
            }
        }
    }
}

#[test]
fn image_best_fit_on_bounded_grid() {
    let mut grid = Grid::with_x_y_caps(10, 10);
    let mime = mime::Mime::from_str("image/png").unwrap();
    let image = Image::new(vec![1, 2, 3], mime, MediaPosition::Fit, 5, 6);
    let end = image.write(COORDS, STYLES, &mut grid);
    // Moved left by 2 and up by 15: just enough for the 5 by 6 rectangle.
    assert_eq!(end, Coords { x: 9, y: 4 });
    assert!(matches!(get(&grid, 5, 4).content, CellData::Image { .. }));
    for y in 4..10 {
        for x in 5..10 {
            if (x, y) != (5, 4) {
                assert_eq!(get(&grid, x, y).content, CellData::Extension(Coords { x: 5, y: 4 }));
            }
        }
    }
}

#[test]
fn image_bytes_are_shared_by_copies() {
    let mut grid = Grid::with_infinite_scroll();
    let mime = mime::Mime::from_str("image/png").unwrap();
    Image::new(vec![9; 64], mime, MediaPosition::Tile, 1, 1).write(COORDS, STYLES, &mut grid);
    let first = get(&grid, 7, 19).clone();
    let second = first.clone();
    match (&first.content, &second.content) {
        (CellData::Image { data: a, .. }, CellData::Image { data: b, .. }) => {
            assert!(std::sync::Arc::ptr_eq(a, b));
        }
        _ => panic!("expected images"),
    }
}

#[test]
fn writable() {
    let mut grid = Grid::<CharCell>::with_x_y_caps(4, 4);
    grid.write_at(Coords { x: 1, y: 1 }, CellData::Char('w'), STYLES);
    assert!(grid.get(Coords { x: 1, y: 1 }).is_some());
    assert!(grid.width() >= 2);
    assert!(grid.height() >= 2);
}

#[test]
fn best_fit_for_region_with_caps() {
    let grid = Grid::<CharCell>::with_x_y_caps(4, 4);
    let within_bounds = Region::new(1, 1, 3, 3);
    let outside_bounds = Region::new(1, 1, 5, 5);
    assert_eq!(
        grid.best_fit_for_region(within_bounds),
        Coords { x: within_bounds.left, y: within_bounds.top }
    );
    assert_eq!(grid.best_fit_for_region(outside_bounds), Coords { x: 0, y: 0 });
}

#[test]
fn best_fit_for_region_without_caps() {
    let grid = Grid::<CharCell>::with_infinite_scroll();
    let region = Region::new(1, 1, 3, 3);
    assert_eq!(grid.best_fit_for_region(region), Coords { x: region.left, y: region.top });
}

#[test]
fn test_coords_before() {
    assert_eq!(coords_before(Coords { x: 0, y: 0 }, 4), Coords { x: 0, y: 0 });
    assert_eq!(coords_before(Coords { x: 0, y: 1 }, 4), Coords { x: 3, y: 0 });
    assert_eq!(coords_before(Coords { x: 2, y: 2 }, 4), Coords { x: 1, y: 2 });
}

#[test]
fn test_cell_to_extend() {
    let mut grid = Grid::with_infinite_scroll();
    grid.write_at(Coords { x: 0, y: 0 }, CellData::Char('a'), STYLES);
    grid.write_at(Coords { x: 1, y: 0 }, CellData::Extension(Coords { x: 0, y: 0 }), STYLES);
    grid.write_at(Coords { x: 2, y: 0 }, CellData::Empty, STYLES);
    assert_eq!(cell_to_extend(&grid, Coords { x: 0, y: 0 }), Some(Coords { x: 0, y: 0 }));
    assert_eq!(cell_to_extend(&grid, Coords { x: 1, y: 0 }), Some(Coords { x: 0, y: 0 }));
    assert_eq!(cell_to_extend(&grid, Coords { x: 2, y: 0 }), None);
    assert_eq!(cell_to_extend(&grid, Coords { x: 3, y: 0 }), None);
}

#[test]
fn find_cell_to_extend_wraps_rows() {
    let mut grid = Grid::with_x_y_caps(4, 4);
    grid.write_at(Coords { x: 3, y: 0 }, CellData::Char('z'), STYLES);
    grid.fill_to(Coords { x: 3, y: 1 });
    assert_eq!(grid.find_cell_to_extend(Coords { x: 0, y: 1 }), Some(Coords { x: 3, y: 0 }));
    assert_eq!(grid.find_cell_to_extend(Coords { x: 0, y: 0 }), None);
}

#[test]
fn extension_cycle_ends() {
    let mut grid = Grid::with_infinite_scroll();
    grid.write_at(Coords { x: 0, y: 0 }, CellData::Extension(Coords { x: 1, y: 0 }), STYLES);
    grid.write_at(Coords { x: 1, y: 0 }, CellData::Extension(Coords { x: 0, y: 0 }), STYLES);
    assert_eq!(cell_to_extend(&grid, Coords { x: 1, y: 0 }), None);
}

#[test]
fn write() {
    let data = CellData::Char('6');
    let styles = UseStyles::Custom(Styles::new());
    let mut cell = cell(CellData::Empty);
    cell.write(data.clone(), styles);
    assert_eq!(cell.content, data);
    assert_eq!(cell.styles, styles);
}

#[test]
fn extend_char() {
    let styles = UseStyles::Custom(Styles::new());
    let mut cell = cell(CellData::Char('E'));
    cell.extend('!', styles);
    assert_eq!(cell.content, CellData::Grapheme(String::from("E!")));
    assert_eq!(cell.styles, styles);
}

#[test]
fn extend_grapheme() {
    let styles = UseStyles::Custom(Styles::new());
    let mut cell = cell(CellData::Grapheme(String::new()));
    cell.extend('!', styles);
    assert_eq!(cell.content, CellData::Grapheme(String::from("!")));
    assert_eq!(cell.styles, styles);
}

#[test]
fn extend_empty_becomes_char() {
    let mut cell = cell(CellData::Empty);
    cell.extend('\u{301}', STYLES);
    assert_eq!(cell.content, CellData::Char('\u{301}'));
}

#[test]
fn extend_many_marks_in_order() {
    let mut cell = cell(CellData::Char('a'));
    for m in ['\u{300}', '\u{301}', '\u{302}'] {
        cell.extend(m, STYLES);
    }
    assert_eq!(cell.content, CellData::Grapheme(String::from("a\u{300}\u{301}\u{302}")));
}

#[test]
fn is_extendable() {
    assert!(cell(CellData::Char('\0')).is_extendable());
    assert!(cell(CellData::Grapheme(String::new())).is_extendable());
    assert!(!cell(CellData::Empty).is_extendable());
    assert!(!cell(CellData::Extension(Coords { x: 0, y: 0 })).is_extendable());
}

#[test]
fn is_extension_of() {
    let coords = Coords { x: 7, y: 5 };
    assert_eq!(cell(CellData::Extension(coords)).is_extension_of(), Some(coords));
    assert_eq!(cell(CellData::Empty).is_extension_of(), None);
    assert_eq!(cell(CellData::Char('z')).is_extension_of(), None);
}

#[test]
fn repr_and_text() {
    assert_eq!(cell(CellData::Char('q')).repr(), "q");
    assert_eq!(cell(CellData::Grapheme(String::from("e\u{301}"))).repr(), "e\u{301}");
    assert_eq!(cell(CellData::Empty).repr(), "");
    assert_eq!(cell(CellData::Extension(Coords { x: 0, y: 0 })).repr(), "EXT");
    assert_eq!(cell(CellData::Extension(Coords { x: 0, y: 0 })).to_string(), "");
    assert_eq!(cell(CellData::Char('q')).to_string(), "q");
    assert!(cell(CellData::Extension(Coords { x: 0, y: 0 })).is_extension());
    assert!(!cell(CellData::Char('q')).is_extension());
}

#[test]
fn iterator() {
    let writer = Writer {
        modifier: CellModifier::Put(CellData::Char('\0')),
        anchor: Coords { x: 3, y: 4 },
        width: 2,
        height: 2,
    };
    let mut grid = Grid::with_infinite_scroll();
    assert_eq!(writer.write(&mut grid, STYLES), Coords { x: 4, y: 4 });
    let expected = [
        (CellData::Char('\0'), Coords { x: 3, y: 4 }),
        (CellData::Extension(Coords { x: 3, y: 4 }), Coords { x: 4, y: 4 }),
        (CellData::Extension(Coords { x: 3, y: 4 }), Coords { x: 3, y: 5 }),
        (CellData::Extension(Coords { x: 3, y: 4 }), Coords { x: 4, y: 5 }),
    ];
    for (content, c) in expected.iter() {
        assert_eq!(grid.get(*c).unwrap().content, *content);
    }
}

#[test]
fn defaults_are_blank() {
    let c = CharCell::default();
    assert_eq!(c.content, CellData::Empty);
    assert_eq!(c.styles, UseStyles::Default);
    assert_eq!(UseStyles::default(), UseStyles::Default);
}

#[test]
fn rows_in_order() {
    let mut grid = Grid::with_infinite_scroll();
    grid.write_at(Coords { x: 1, y: 1 }, CellData::Char('r'), STYLES);
    let row = grid.row(1).unwrap();
    assert_eq!(row.len(), 2);
    assert_eq!(row[0].content, CellData::Empty);
    assert_eq!(row[1].content, CellData::Char('r'));
    assert!(grid.row(2).is_none());
}
