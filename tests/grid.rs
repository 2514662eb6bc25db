use notty::{CellData, CharCell, Coords, Direction, Grid, Region, UseStyles};

fn one() -> CharCell {
    CharCell { styles: UseStyles::Default, content: CellData::Char('1') }
}

fn is_one(c: &CharCell) -> bool {
    c.content == CellData::Char('1')
}

fn is_blank(c: &CharCell) -> bool {
    c.content == CellData::Empty
}

fn fill(grid: &mut Grid<CharCell>) {
    grid.fill_to(Coords { x: 7, y: 7 });
    for y in 0..grid.height() {
        for x in 0..grid.width() {
            grid.set(Coords { x: x as u32, y: y as u32 }, one());
        }
    }
}

fn run_test<F: Fn(Grid<CharCell>, usize, usize)>(test: F, new_w: usize, new_h: usize) {
    let caps = [(8, 8, 8, 8), (10, 8, new_w, 8), (8, 10, 8, new_h), (10, 10, new_w, new_h)];
    for &(cx, cy, w, h) in caps.iter() {
        let mut grid = Grid::with_x_y_caps(cx, cy);
        fill(&mut grid);
        test(grid, w, h);
    }
}

fn at(grid: &Grid<CharCell>, x: usize, y: usize) -> &CharCell {
    grid.get(Coords { x: x as u32, y: y as u32 }).unwrap()
}

#[test]
fn scroll_left() {
    run_test(
        |mut grid, width, height| {
            grid.scroll(3, Direction::Left);
            for i in 0..grid.height() {
                assert!(is_blank(at(&grid, 0, i)));
                assert!(is_blank(at(&grid, 1, i)));
                assert!(is_blank(at(&grid, 2, i)));
                assert!(is_one(at(&grid, 3, i)));
            }
            assert_eq!(width, grid.width());
            assert_eq!(height, grid.height());
        },
        10,
        8,
    );
}

#[test]
fn scroll_right() {
    run_test(
        |mut grid, width, height| {
            grid.scroll(3, Direction::Right);
            for i in 0..grid.height() {
                assert!(is_blank(at(&grid, width - 1, i)));
                assert!(is_blank(at(&grid, width - 2, i)));
                assert!(is_blank(at(&grid, width - 3, i)));
                assert!(is_one(at(&grid, width - 4, i)));
            }
            assert_eq!(width, grid.width());
            assert_eq!(height, grid.height());
        },
        10,
        8,
    );
}

#[test]
fn scroll_up() {
    run_test(
        |mut grid, width, height| {
            grid.scroll(3, Direction::Up);
            for i in 0..grid.width() {
                assert!(is_blank(at(&grid, i, 0)));
                assert!(is_blank(at(&grid, i, 1)));
                assert!(is_blank(at(&grid, i, 2)));
                assert!(is_one(at(&grid, i, 3)));
            }
            assert_eq!(width, grid.width());
            assert_eq!(height, grid.height());
        },
        8,
        10,
    );
}

#[test]
fn scroll_down() {
    run_test(
        |mut grid, width, height| {
            grid.scroll(3, Direction::Down);
            for i in 0..grid.width() {
                assert!(is_blank(at(&grid, i, height - 1)));
                assert!(is_blank(at(&grid, i, height - 2)));
                assert!(is_blank(at(&grid, i, height - 3)));
                assert!(is_one(at(&grid, i, height - 4)));
            }
            assert_eq!(width, grid.width());
            assert_eq!(height, grid.height());
        },
        8,
        10,
    );
}

#[test]
fn max_width_and_height() {
    run_test(
        |grid, width, height| {
            assert_eq!(grid.max_width(), Some(width));
            assert_eq!(grid.max_height(), Some(height));
        },
        10,
        10,
    );
}

#[test]
fn bounds() {
    run_test(|grid, _, _| assert_eq!(grid.bounds(), Some(Region::new(0, 0, 8, 8))), 8, 8);
}

#[test]
fn guarantee_width() {
    run_test(
        |mut grid, _width, _| {
            grid.guarantee_width(12);
            assert_eq!(grid.max_width(), Some(12));
        },
        12,
        8,
    )
}

#[test]
fn guarantee_height() {
    run_test(
        |mut grid, _height, _| {
            grid.guarantee_height(12);
            assert_eq!(grid.max_height(), Some(12));
        },
        8,
        12,
    )
}

#[test]
fn scroll_with_room_grows_and_keeps_content() {
    let mut grid: Grid<CharCell> = Grid::with_infinite_scroll();
    grid.fill_to(Coords { x: 2, y: 1 });
    grid.set(Coords { x: 0, y: 0 }, one());
    grid.set(Coords { x: 2, y: 1 }, one());
    grid.scroll(2, Direction::Up);
    assert_eq!(grid.height(), 4);
    assert_eq!(grid.width(), 3);
    assert!(is_blank(at(&grid, 0, 0)));
    assert!(is_blank(at(&grid, 0, 1)));
    assert!(is_one(at(&grid, 0, 2)));
    assert!(is_one(at(&grid, 2, 3)));
    grid.scroll(1, Direction::Right);
    assert_eq!(grid.width(), 4);
    assert!(is_one(at(&grid, 0, 2)));
    assert!(is_one(at(&grid, 2, 3)));
    assert!(is_blank(at(&grid, 3, 3)));
}

#[test]
fn scroll_without_room_shifts() {
    let mut grid: Grid<CharCell> = Grid::with_x_y_caps(3, 3);
    grid.fill_to(Coords { x: 2, y: 2 });
    grid.set(Coords { x: 1, y: 0 }, one());
    grid.set(Coords { x: 1, y: 2 }, one());
    grid.scroll(1, Direction::Down);
    assert_eq!((grid.width(), grid.height()), (3, 3));
    assert!(is_one(at(&grid, 1, 1)));
    assert!(is_blank(at(&grid, 1, 0)));
    assert!(is_blank(at(&grid, 1, 2)));
    grid.scroll(5, Direction::Left);
    for y in 0..3 {
        for x in 0..3 {
            assert!(is_blank(at(&grid, x, y)));
        }
    }
}

#[test]
fn guarantee_width_twice_and_smaller() {
    let mut grid: Grid<CharCell> = Grid::with_x_cap(4);
    grid.guarantee_width(9);
    assert_eq!(grid.max_width(), Some(9));
    grid.guarantee_width(9);
    assert_eq!(grid.max_width(), Some(9));
    grid.guarantee_width(5);
    assert_eq!(grid.max_width(), Some(9));
    let mut open: Grid<CharCell> = Grid::with_infinite_scroll();
    open.guarantee_width(3);
    assert_eq!(open.max_width(), None);
}

#[test]
fn fill_to_stops_at_caps() {
    let mut grid: Grid<CharCell> = Grid::with_x_y_caps(4, 2);
    grid.fill_to(Coords { x: 9, y: 9 });
    assert_eq!((grid.width(), grid.height()), (4, 2));
    assert!(grid.get(Coords { x: 9, y: 9 }).is_none());
    assert!(is_blank(at(&grid, 3, 1)));
    let empty: Grid<CharCell> = Grid::with_infinite_scroll();
    assert_eq!(empty.bounds(), None);
}

#[test]
fn replace_returns_old_cell() {
    let mut grid: Grid<CharCell> = Grid::with_infinite_scroll();
    grid.fill_to(Coords { x: 1, y: 1 });
    grid.set(Coords { x: 1, y: 1 }, one());
    let old = grid.replace(Coords { x: 1, y: 1 }, CharCell::empty());
    assert!(is_one(&old));
    assert!(is_blank(at(&grid, 1, 1)));
}
