use notty::{
    Area, CellData, CharData, CharGrid, Coords, Direction, Flow, GridSettings, Movement, Put,
    PutAt, Region, Style, Tooltip, UseStyles, Window,
};

fn settings(expand: bool) -> GridSettings {
    GridSettings { flow: Flow::Moveable, retain_offscreen_state: expand, scrollback: -1, tab_stop: 4 }
}

/// Runs `test` on a fixed 10 by 10 window and on one with unlimited
/// scrollback, with the grid height each should end with.
fn run_test<F: Fn(Window, u32)>(test: F) {
    test(Window::new(10, 10, settings(false)), 10);
    test(Window::new(10, 10, settings(true)), 11);
}

fn repr(w: &Window, x: u32, y: u32) -> String {
    w.grid_cell(Coords { x, y }).repr()
}

fn setup(w: &mut Window) {
    let rows = ["ABCDE", "12345", "!@#$%"];
    for row in rows.iter() {
        for c in row.chars() {
            w.write(CharData::Char(c));
        }
        w.move_cursor(Movement::NextLine(1));
    }
    w.move_cursor(Movement::ToBeginning);
}

#[test]
fn window_write() {
    run_test(|mut w, _| {
        for c in vec![CharData::Char('Q'), CharData::Char('E'), CharData::ExtensionChar('\u{301}')] {
            w.write(c);
        }
        assert_eq!(repr(&w, 0, 0), "Q");
        assert_eq!(repr(&w, 1, 0), "E\u{301}");
        assert_eq!(w.cursor_position(), Coords { x: 2, y: 0 });
    });
}

#[test]
fn view_scrolls_with_cursor() {
    run_test(|mut w, h| {
        w.move_cursor(Movement::NextLine(10));
        assert_eq!(w.cursor_position(), Coords { x: 0, y: h - 1 });
        assert_eq!(w.view_bounds(), Region::new(0, h - 10, 10, h));
        assert_eq!(w.grid_size().1 as u32, h);
    })
}

#[test]
fn move_cursor() {
    run_test(|mut w, h| {
        let movements = vec![
            (Movement::ToEdge(Direction::Down), Coords { x: 0, y: 9 }),
            (Movement::Tab(Direction::Right, 1, false), Coords { x: 4, y: 9 }),
            (Movement::NextLine(1), Coords { x: 0, y: h - 1 }),
        ];
        for (mov, coords) in movements {
            w.move_cursor(mov);
            assert_eq!(w.cursor_position(), coords);
        }
        assert_eq!(w.grid_size().1 as u32, h);
    })
}

#[test]
fn insert_blank_at() {
    run_test(|mut w, _| {
        setup(&mut w);
        w.insert_blank_at(1);
        let row0: Vec<String> = (0..6).map(|x| repr(&w, x, 0)).collect();
        assert_eq!(row0, vec!["A", "", "B", "C", "D", "E"]);
        w.move_cursor(Movement::NextLine(1));
        w.insert_blank_at(2);
        let row1: Vec<String> = (0..7).map(|x| repr(&w, x, 1)).collect();
        assert_eq!(row1, vec!["1", "", "", "2", "3", "4", "5"]);
        w.move_cursor(Movement::NextLine(1));
        w.insert_blank_at(3);
        let row2: Vec<String> = (0..8).map(|x| repr(&w, x, 2)).collect();
        assert_eq!(row2, vec!["!", "", "", "", "@", "#", "$", "%"]);
    })
}

#[test]
fn remove_at() {
    run_test(|mut w, _| {
        setup(&mut w);
        w.remove_at(1);
        let row0: Vec<String> = (0..5).map(|x| repr(&w, x, 0)).collect();
        assert_eq!(row0, vec!["A", "C", "D", "E", ""]);
        w.move_cursor(Movement::NextLine(1));
        w.remove_at(2);
        let row1: Vec<String> = (0..5).map(|x| repr(&w, x, 1)).collect();
        assert_eq!(row1, vec!["1", "4", "5", "", ""]);
    })
}

#[test]
fn insert_rows_at() {
    run_test(|mut w, _| {
        setup(&mut w);
        w.insert_rows_at(2, false);
        for y in 1..3 {
            for x in 0..5 {
                assert_eq!(repr(&w, x, y), "");
            }
        }
        let row3: Vec<String> = (0..5).map(|x| repr(&w, x, 3)).collect();
        assert_eq!(row3, vec!["1", "2", "3", "4", "5"]);
        w.insert_rows_at(3, true);
        for y in 0..3 {
            for x in 0..5 {
                assert_eq!(repr(&w, x, y), "");
            }
        }
        let row3: Vec<String> = (0..5).map(|x| repr(&w, x, 3)).collect();
        assert_eq!(row3, vec!["A", "B", "C", "D", "E"]);
    })
}

#[test]
fn remove_rows_at() {
    run_test(|mut w, _| {
        setup(&mut w);
        w.remove_rows_at(2, true);
        let row0: Vec<String> = (0..5).map(|x| repr(&w, x, 0)).collect();
        assert_eq!(row0, vec!["!", "@", "#", "$", "%"]);
        for y in 1..10 {
            for x in 0..5 {
                assert_eq!(repr(&w, x, y), "");
            }
        }
    })
}

#[test]
fn wide_char_advances_cursor_by_width() {
    let mut w = Window::new(10, 10, settings(false));
    w.write(CharData::Char('中'));
    assert_eq!(w.cursor_position(), Coords { x: 2, y: 0 });
    assert_eq!(w.grid_cell(Coords { x: 0, y: 0 }).content, CellData::Char('中'));
    assert_eq!(w.grid_cell(Coords { x: 1, y: 0 }).content, CellData::Extension(Coords { x: 0, y: 0 }));
    w.write(CharData::Char('a'));
    assert_eq!(w.cursor_position(), Coords { x: 3, y: 0 });
}

#[test]
fn control_char_takes_one_cell() {
    let mut w = Window::new(10, 10, settings(false));
    w.write(CharData::Char('\u{7}'));
    assert_eq!(w.cursor_position(), Coords { x: 1, y: 0 });
}

#[test]
fn cursor_steps_out_of_extension() {
    let mut w = Window::new(10, 10, settings(false));
    w.write(CharData::Char('中'));
    // Moving left onto the extension walks on to the character.
    w.move_cursor(Movement::Position(Coords { x: 1, y: 0 }));
    assert_eq!(w.cursor_position(), Coords { x: 0, y: 0 });
    // Moving right onto it walks on past it.
    w.move_cursor(Movement::To(Direction::Right, 1, false));
    assert_eq!(w.cursor_position(), Coords { x: 2, y: 0 });
    assert!(!w.grid_cell(w.cursor_position()).is_extension());
}

#[test]
fn write_wraps_at_right_edge() {
    let mut w = Window::new(3, 2, settings(false));
    for c in "abc".chars() {
        w.write(CharData::Char(c));
    }
    assert_eq!(w.cursor_position(), Coords { x: 0, y: 1 });
}

#[test]
fn erase_and_styles_in_area() {
    let mut w = Window::new(10, 10, settings(false));
    setup(&mut w);
    w.move_cursor(Movement::Position(Coords { x: 0, y: 1 }));
    w.set_style_in_area(Area::CursorRow, Style::Bold(true));
    match w.grid_cell(Coords { x: 2, y: 1 }).styles {
        UseStyles::Custom(s) => assert!(s.bold),
        UseStyles::Default => panic!("expected custom styles"),
    }
    assert_eq!(w.grid_cell(Coords { x: 2, y: 0 }).styles, UseStyles::Default);
    w.reset_styles_in_area(Area::WholeScreen);
    assert_eq!(w.grid_cell(Coords { x: 2, y: 1 }).styles, UseStyles::Default);
    w.erase(Area::BelowCursor(true));
    assert_eq!(repr(&w, 0, 0), "A");
    assert_eq!(repr(&w, 0, 1), "");
    assert_eq!(repr(&w, 4, 2), "");
}

#[test]
fn cursor_styles_update() {
    let mut w = Window::new(4, 4, settings(false));
    w.set_cursor_style(Style::Blink(true));
    assert!(w.cursor_styles().blink);
    w.reset_cursor_styles();
    assert!(!w.cursor_styles().blink);
    w.set_style(Style::Italic(true));
    w.write(CharData::Char('i'));
    match w.grid_cell(Coords { x: 0, y: 0 }).styles {
        UseStyles::Custom(s) => assert!(s.italic),
        UseStyles::Default => panic!("expected custom styles"),
    }
    w.reset_styles();
    w.write(CharData::Char('j'));
    assert_eq!(w.grid_cell(Coords { x: 1, y: 0 }).styles, UseStyles::Default);
}

#[test]
fn tooltips() {
    let mut w = Window::new(5, 5, settings(false));
    w.add_tooltip(Coords { x: 1, y: 2 }, String::from("hint"));
    assert_eq!(w.tooltip_at(Coords { x: 1, y: 2 }), Some(&Tooltip::Basic(String::from("hint"))));
    w.add_drop_down(Coords { x: 1, y: 2 }, vec![String::from("a"), String::from("b")]);
    assert_eq!(
        w.tooltip_at(Coords { x: 1, y: 2 }),
        Some(&Tooltip::Menu { options: vec![String::from("a"), String::from("b")], position: None })
    );
    w.remove_tooltip(Coords { x: 1, y: 2 });
    assert_eq!(w.tooltip_at(Coords { x: 1, y: 2 }), None);
    assert_eq!(w.tooltip_at(Coords { x: 9, y: 9 }), None);
}

#[test]
fn index_reads_through_view() {
    let mut w = Window::new(10, 10, settings(true));
    w.write(CharData::Char('x'));
    w.move_cursor(Movement::NextLine(10));
    w.write(CharData::Char('y'));
    assert_eq!(w.view_bounds(), Region::new(0, 1, 10, 11));
    assert_eq!(w.index(Coords { x: 0, y: 9 }).repr(), "y");
    assert_eq!(w.index(Coords { x: 0, y: 20 }).repr(), "");
    assert_eq!(w.grid_cell(Coords { x: 0, y: 0 }).repr(), "x");
}

#[test]
fn moveover_moves_and_blanks() {
    let mut g = CharGrid::new(10, 10, false, 0);
    g.write(Coords { x: 2, y: 3 }, CharData::Char('m'), UseStyles::Default);
    g.moveover(Coords { x: 2, y: 3 }, Coords { x: 6, y: 8 });
    assert_eq!(g.index(Coords { x: 6, y: 8 }).content, CellData::Char('m'));
    assert_eq!(g.index(Coords { x: 2, y: 3 }).content, CellData::Empty);
    g.moveover(Coords { x: 9, y: 9 }, Coords { x: 0, y: 0 });
    assert_eq!(g.index(Coords { x: 0, y: 0 }).content, CellData::Empty);
}

#[test]
fn scrollback_caps_height() {
    let g = CharGrid::new(10, 10, true, 3);
    assert_eq!(g.grid().max_height(), Some(3));
    assert_eq!(g.grid().max_width(), Some(10));
    let open = CharGrid::new(10, 10, true, 0);
    assert_eq!(open.grid().max_height(), None);
}

#[test]
fn window_scroll() {
    let mut w = Window::new(4, 4, settings(false));
    w.write(CharData::Char('s'));
    w.move_cursor(Movement::ToEnd);
    w.scroll(Direction::Up, 1);
    assert_eq!(repr(&w, 0, 1), "s");
    assert_eq!(repr(&w, 0, 0), "");
}

#[test]
fn put_commands() {
    let mut w = Window::new(10, 10, settings(false));
    let mut p = Put::new_char('p');
    assert_eq!(p.repr(), "p");
    p.apply(&mut w);
    p.apply(&mut w);
    assert_eq!(repr(&w, 0, 0), "p");
    assert_eq!(repr(&w, 1, 0), "");
    assert_eq!(p.repr(), "PUT");
    let mime: mime::Mime = "image/png".parse().unwrap();
    let mut at = PutAt::new_image(vec![1, 2], mime, notty::MediaPosition::Fill, 2, 2, Coords { x: 5, y: 5 });
    at.apply(&mut w);
    assert!(matches!(w.grid_cell(Coords { x: 5, y: 5 }).content, CellData::Image { .. }));
    assert_eq!(w.grid_cell(Coords { x: 6, y: 6 }).content, CellData::Extension(Coords { x: 5, y: 5 }));
    assert_eq!(w.cursor_position(), Coords { x: 1, y: 0 });
    assert_eq!(at.repr(), "PUT AT");
}
