use termax::grid::Grid;
use termax::style::{Cell, Color, Style};
use vte::{Params, Parser, Perform};

/// Forwards the parser's actions to the grid.
struct Screen<'a>(&'a mut Grid);

impl Perform for Screen<'_> {
    fn print(&mut self, c: char) {
        self.0.print(c);
    }

    fn execute(&mut self, byte: u8) {
        self.0.execute(byte);
    }

    fn csi_dispatch(&mut self, params: &Params, intermediates: &[u8], ignore: bool, action: char) {
        self.0.csi_dispatch(params, intermediates, ignore, action);
    }

    fn esc_dispatch(&mut self, intermediates: &[u8], ignore: bool, byte: u8) {
        self.0.esc_dispatch(intermediates, ignore, byte);
    }
}

fn feed(grid: &mut Grid, bytes: &[u8]) {
    let mut parser = Parser::new();
    let mut screen = Screen(grid);
    for &b in bytes {
        parser.advance(&mut screen, b);
    }
}

#[test]
fn prints_and_wraps() {
    let mut grid = Grid::new(3, 5);
    feed(&mut grid, b"hello world");
    assert_eq!(grid.to_text(), "hello\n worl\nd");
}

#[test]
fn crlf_and_overwrite() {
    let mut grid = Grid::new(3, 10);
    feed(&mut grid, b"abc\r\ndef\rD");
    assert_eq!(grid.to_text(), "abc\nDef");
}

#[test]
fn cursor_positioning() {
    let mut grid = Grid::new(5, 10);
    feed(&mut grid, b"\x1b[3;4Hx");
    assert_eq!(grid.cells[2][3].ch, 'x');
}

#[test]
fn sgr_colors() {
    let mut grid = Grid::new(2, 10);
    feed(&mut grid, b"\x1b[1;31mR\x1b[0mn\x1b[38;5;200mP");
    assert_eq!(grid.cells[0][0].style.fg, Color::Indexed(1));
    assert!(grid.cells[0][0].style.bold);
    assert_eq!(grid.cells[0][1].style, Style::default());
    assert_eq!(grid.cells[0][2].style.fg, Color::Indexed(200));
}

#[test]
fn clear_screen() {
    let mut grid = Grid::new(3, 10);
    feed(&mut grid, b"junk\x1b[2J\x1b[Hok");
    assert_eq!(grid.to_text(), "ok");
}

#[test]
fn scrolls_when_past_bottom() {
    let mut grid = Grid::new(2, 10);
    feed(&mut grid, b"one\r\ntwo\r\nthree");
    assert_eq!(grid.to_text(), "two\nthree");
}

fn filled() -> Grid {
    let mut grid = Grid::new(3, 4);
    feed(&mut grid, b"abcdefghijkl");
    grid
}

fn plain_blank() -> Cell {
    Cell { ch: ' ', style: Style::default() }
}

#[test]
fn new_grid_is_blank() {
    let grid = Grid::new(2, 3);
    assert_eq!(grid.rows, 2);
    assert_eq!(grid.cols, 3);
    assert_eq!(grid.cells, vec![vec![plain_blank(); 3]; 2]);
    assert_eq!(grid.cursor, (0, 0));
    assert!(!grid.alt_screen);
    assert_eq!(grid.pen(), Style::default());
    assert_eq!(grid.to_text(), "");
}

#[test]
fn deferred_wrap() {
    let mut grid = Grid::new(2, 3);
    feed(&mut grid, b"abc");
    assert_eq!(grid.cursor, (0, 3));
    feed(&mut grid, b"d");
    assert_eq!(grid.cells[1][0].ch, 'd');
    assert_eq!(grid.cursor, (1, 1));
}

#[test]
fn scrolled_in_line_takes_pen_background() {
    let mut grid = Grid::new(1, 4);
    feed(&mut grid, b"\x1b[1;44mab\n");
    let blank = Cell { ch: ' ', style: Style { bg: Color::Indexed(4), ..Style::default() } };
    assert_eq!(grid.cells[0], vec![blank; 4]);
    assert_eq!(grid.cursor, (0, 2));
}

#[test]
fn erase_in_display_modes() {
    let mut grid = filled();
    assert_eq!(grid.cursor, (2, 4));
    feed(&mut grid, b"\x1b[2;2H\x1b[J");
    assert_eq!(grid.to_text(), "abcd\ne");
    let mut grid = filled();
    feed(&mut grid, b"\x1b[2;2H\x1b[1J");
    assert_eq!(grid.to_text(), "\n  gh\nijkl");
    let mut grid = filled();
    feed(&mut grid, b"\x1b[2;2H\x1b[2J");
    assert_eq!(grid.to_text(), "");
    assert_eq!(grid.cursor, (1, 1));
}

#[test]
fn erase_in_line_modes() {
    let mut grid = filled();
    feed(&mut grid, b"\x1b[2;2H\x1b[K");
    assert_eq!(grid.to_text(), "abcd\ne\nijkl");
    let mut grid = filled();
    feed(&mut grid, b"\x1b[2;2H\x1b[1K");
    assert_eq!(grid.to_text(), "abcd\n  gh\nijkl");
    let mut grid = filled();
    feed(&mut grid, b"\x1b[2;2H\x1b[2K");
    assert_eq!(grid.to_text(), "abcd\n\nijkl");
}

#[test]
fn erase_after_last_column() {
    // Erase in line clamps a cursor past the last column to the last column.
    let mut grid = Grid::new(1, 3);
    feed(&mut grid, b"abc");
    grid.erase_in_line(0);
    assert_eq!(grid.to_text(), "ab");
    // Erase in display does not.
    let mut grid = Grid::new(2, 3);
    feed(&mut grid, b"abc");
    grid.erase_in_display(0);
    assert_eq!(grid.to_text(), "abc");
}

#[test]
fn cursor_movement() {
    let mut grid = Grid::new(5, 10);
    feed(&mut grid, b"\x1b[3;4H");
    assert_eq!(grid.cursor, (2, 3));
    feed(&mut grid, b"\x1b[A");
    assert_eq!(grid.cursor, (1, 3));
    feed(&mut grid, b"\x1b[5A");
    assert_eq!(grid.cursor, (0, 3));
    feed(&mut grid, b"\x1b[10B");
    assert_eq!(grid.cursor, (4, 3));
    feed(&mut grid, b"\x1b[100C");
    assert_eq!(grid.cursor, (4, 9));
    feed(&mut grid, b"\x1b[2D");
    assert_eq!(grid.cursor, (4, 7));
    feed(&mut grid, b"\x1b[2G");
    assert_eq!(grid.cursor, (4, 1));
    feed(&mut grid, b"\x1b[3d");
    assert_eq!(grid.cursor, (2, 1));
    feed(&mut grid, b"\x1b[H");
    assert_eq!(grid.cursor, (0, 0));
    feed(&mut grid, b"\x1b[99;99f");
    assert_eq!(grid.cursor, (4, 9));
    feed(&mut grid, b"\x1b[0;0H");
    assert_eq!(grid.cursor, (0, 0));
}

#[test]
fn cursor_up_then_down_restores_row() {
    let mut grid = Grid::new(8, 10);
    feed(&mut grid, b"\x1b[6;7H\x1b[3A\x1b[3B");
    assert_eq!(grid.cursor, (5, 6));
    feed(&mut grid, b"\x1b[4D\x1b[4C");
    assert_eq!(grid.cursor, (5, 6));
}

#[test]
fn tab_stops() {
    let mut grid = Grid::new(2, 20);
    feed(&mut grid, b"\t");
    assert_eq!(grid.cursor, (0, 8));
    feed(&mut grid, b"x\t");
    assert_eq!(grid.cursor, (0, 16));
    feed(&mut grid, b"\t");
    assert_eq!(grid.cursor, (0, 19));
    let mut grid = Grid::new(1, 5);
    feed(&mut grid, b"\t");
    assert_eq!(grid.cursor, (0, 4));
}

#[test]
fn backspace() {
    let mut grid = Grid::new(2, 10);
    feed(&mut grid, b"\x08");
    assert_eq!(grid.cursor, (0, 0));
    feed(&mut grid, b"ab\x08");
    assert_eq!(grid.cursor, (0, 1));
    feed(&mut grid, b"X");
    assert_eq!(grid.to_text(), "aX");
}

#[test]
fn crlf_moves_to_next_line_start() {
    let mut grid = Grid::new(3, 10);
    feed(&mut grid, b"abc\r\n");
    assert_eq!(grid.cursor, (1, 0));
    feed(&mut grid, b"\x0bx\x0cy");
    assert_eq!(grid.cursor, (3 - 1, 2));
}

#[test]
fn alternate_screen() {
    let mut grid = Grid::new(3, 10);
    feed(&mut grid, b"hello\x1b[?1049h");
    assert!(grid.alt_screen);
    assert_eq!(grid.to_text(), "");
    assert_eq!(grid.cursor, (0, 0));
    feed(&mut grid, b"x\x1b[?1049l");
    assert!(!grid.alt_screen);
    assert_eq!(grid.to_text(), "x");
    assert_eq!(grid.cursor, (0, 1));
    feed(&mut grid, b"\x1b[?47h");
    assert!(grid.alt_screen);
    // Without the `?` marker the mode is not a DEC private mode.
    let mut grid = Grid::new(3, 10);
    feed(&mut grid, b"hi\x1b[1049h");
    assert!(!grid.alt_screen);
    assert_eq!(grid.to_text(), "hi");
}

#[test]
fn full_reset() {
    let mut grid = Grid::new(2, 4);
    feed(&mut grid, b"\x1b[?1049h\x1b[7;41mab\x1bc");
    assert_eq!(grid.cells, vec![vec![plain_blank(); 4]; 2]);
    assert_eq!(grid.cursor, (0, 0));
    assert_eq!(grid.pen(), Style::default());
    assert!(grid.alt_screen);
}

#[test]
fn sgr_attributes_and_colors() {
    let mut grid = Grid::new(1, 10);
    feed(&mut grid, b"\x1b[1;3;4;7m");
    let p = grid.pen();
    assert!(p.bold && p.italic && p.underline && p.inverse);
    feed(&mut grid, b"\x1b[22;23;24;27m");
    assert_eq!(grid.pen(), Style::default());
    feed(&mut grid, b"\x1b[95;103m");
    assert_eq!(grid.pen().fg, Color::Indexed(13));
    assert_eq!(grid.pen().bg, Color::Indexed(11));
    feed(&mut grid, b"\x1b[39;49m");
    assert_eq!(grid.pen(), Style::default());
    feed(&mut grid, b"\x1b[38;2;10;20;30m");
    assert_eq!(grid.pen().fg, Color::Rgb(10, 20, 30));
    feed(&mut grid, b"\x1b[38:2:1:2:3m");
    assert_eq!(grid.pen().fg, Color::Rgb(1, 2, 3));
    feed(&mut grid, b"\x1b[48:5:9m");
    assert_eq!(grid.pen().bg, Color::Indexed(9));
    feed(&mut grid, b"\x1b[48;5;300m");
    assert_eq!(grid.pen().bg, Color::Indexed(44));
    feed(&mut grid, b"\x1b[0m\x1b[38;2;1;2m");
    assert_eq!(grid.pen(), Style::default());
    feed(&mut grid, b"\x1b[38;7;1m");
    assert_eq!(grid.pen(), Style { bold: true, ..Style::default() });
    feed(&mut grid, b"\x1b[m");
    assert_eq!(grid.pen(), Style::default());
}

#[test]
fn sgr_reset_forgets_pen() {
    let mut a = Grid::new(1, 4);
    let mut b = Grid::new(1, 4);
    a.sgr(&vec![vec![1], vec![31], vec![44]]);
    a.sgr(&vec![vec![0], vec![4]]);
    b.sgr(&vec![vec![0], vec![4]]);
    assert_eq!(a.pen(), b.pen());
    assert_eq!(a.pen(), Style { underline: true, ..Style::default() });
}

#[test]
fn csi_on_plain_parameters() {
    let mut grid = Grid::new(4, 6);
    grid.csi(&vec![vec![38], vec![5], vec![42]], &[], 'm');
    assert_eq!(grid.pen().fg, Color::Indexed(42));
    grid.csi(&vec![vec![3], vec![2]], &[], 'H');
    assert_eq!(grid.cursor, (2, 1));
    grid.print('q');
    assert_eq!(grid.cells[2][1], Cell { ch: 'q', style: Style { fg: Color::Indexed(42), ..Style::default() } });
    grid.csi(&vec![vec![1049]], b"?", 'h');
    assert!(grid.alt_screen);
    assert_eq!(grid.cursor, (0, 0));
    grid.csi(&vec![], &[], 'z');
    assert_eq!(grid.cursor, (0, 0));
}

#[test]
fn text_trims_unicode_blanks() {
    let mut grid = Grid::new(3, 5);
    feed(&mut grid, "a\u{3000}\u{a0}".as_bytes());
    assert_eq!(grid.to_text(), "a");
    let mut grid = Grid::new(3, 5);
    feed(&mut grid, b"a\r\n\r\nb");
    assert_eq!(grid.to_text(), "a\n\nb");
    let mut grid = Grid::new(3, 5);
    feed(&mut grid, b" x y ");
    assert_eq!(grid.to_text(), " x y");
}

#[test]
fn white_space_matches_std() {
    for u in 0u32..=0x10ffff {
        if let Some(c) = char::from_u32(u) {
            assert_eq!(termax::text::is_white_space(c), c.is_whitespace(), "{:#x}", u);
        }
    }
}

#[test]
fn erase_twice_same_as_once() {
    let mut a = filled();
    feed(&mut a, b"\x1b[2;3H\x1b[1J");
    let once = a.cells.clone();
    feed(&mut a, b"\x1b[1J");
    assert_eq!(a.cells, once);
}

#[test]
fn clear_and_fresh_have_no_text() {
    let mut grid = filled();
    feed(&mut grid, b"\x1b[2J");
    assert_eq!(grid.to_text(), "");
    let mut grid = filled();
    feed(&mut grid, b"\x1bc");
    assert_eq!(grid.to_text(), "");
    assert_eq!(Grid::new(4, 4).to_text(), "");
}

#[test]
fn blank() {
    let mut grid = Grid::new(1, 1);
    feed(&mut grid, b"\x1b[1;33;45m");
    assert_eq!(grid.blank(), Cell { ch: ' ', style: Style { bg: Color::Indexed(5), ..Style::default() } });
}

#[test]
fn drawn_cursor_is_clamped() {
    let mut grid = Grid::new(2, 3);
    assert_eq!(grid.drawn_cursor(), (0, 0, ' '));
    feed(&mut grid, b"abc");
    assert_eq!(grid.cursor, (0, 3));
    assert_eq!(grid.drawn_cursor(), (0, 2, 'c'));
}

#[test]
fn getters_read_the_model() {
    let mut grid = Grid::new(3, 4);
    feed(&mut grid, b"\x1b[31mab\x1b[?1049h\x1b[2;3Hz");
    assert_eq!(grid.rows(), 3);
    assert_eq!(grid.cols(), 4);
    assert_eq!(grid.cursor(), (1, 3));
    assert!(grid.alt_screen());
    assert_eq!(grid.cell(1, 2), Cell { ch: 'z', style: Style { fg: Color::Indexed(1), ..Style::default() } });
    assert_eq!(grid.cell(0, 0), Cell { ch: ' ', style: Style::default() });
}

#[test]
fn actions_that_need_no_cells_on_an_empty_grid() {
    let mut grid = Grid::new(0, 0);
    grid.execute(b'\r');
    grid.execute(0x08);
    grid.execute(0x07);
    grid.sgr(&vec![vec![1], vec![44]]);
    grid.csi(&vec![vec![2]], &[], 'A');
    grid.csi(&vec![vec![1049]], b"?", 'l');
    grid.esc_dispatch(&[], false, b'c');
    assert_eq!(grid.cursor(), (0, 0));
    assert_eq!(grid.pen(), Style::default());
    assert_eq!(grid.to_text(), "");
    assert!(grid.cells.is_empty());
}
