//! The mathematical model of the screen: its lines of cells, the cursor,
//! the pen, and what each terminal action does to them.

use vstd::prelude::*;
use crate::style::{Cell, Color, Style, default_cell, default_style};

verus! {

/// The abstract state of a screen.
///
/// `row` and `col` are the 0-based cursor position. `col` may equal `cols`:
/// after a character is printed in the last column the wrap to the next line
/// is deferred until the next character arrives.
#[verifier::ext_equal]
pub struct ScreenState {
    pub rows: nat,
    pub cols: nat,
    pub lines: Seq<Seq<Cell>>,
    pub row: nat,
    pub col: nat,
    pub pen: Style,
    pub alt_screen: bool,
}

impl ScreenState {
    /// The screen has at least one row and one column, `rows` lines of
    /// `cols` cells each, and the cursor lies on the screen (its column
    /// may sit one past the last column, pending a wrap).
    pub open spec fn wf(self) -> bool {
        &&& 1 <= self.rows
        &&& 1 <= self.cols
        &&& self.lines.len() == self.rows
        &&& forall|i: int| 0 <= i < self.rows ==> (#[trigger] self.lines[i]).len() == self.cols
        &&& self.row < self.rows
        &&& self.col <= self.cols
    }

    /// The cell at line `i`, column `j`.
    pub open spec fn cell(self, i: int, j: int) -> Cell {
        self.lines[i][j]
    }
}

pub open spec fn min_nat(a: nat, b: nat) -> nat {
    if a <= b {
        a
    } else {
        b
    }
}

/// `a - b`, or 0 where that would be negative.
pub open spec fn sat_sub(a: nat, b: nat) -> nat {
    if a >= b {
        (a - b) as nat
    } else {
        0
    }
}

/// The cell that erasing and scrolling leave behind: a space whose
/// background is the pen's, with every other attribute at its default.
pub open spec fn blank_for(pen: Style) -> Cell {
    Cell {
        ch: ' ',
        style: Style {
            fg: Color::Default,
            bg: pen.bg,
            bold: false,
            italic: false,
            underline: false,
            inverse: false,
        },
    }
}

/// A line of `n` copies of `c`.
pub open spec fn uniform_line(n: nat, c: Cell) -> Seq<Cell> {
    Seq::new(n, |_j: int| c)
}

/// `rows` lines of `cols` copies of `c`.
pub open spec fn uniform_lines(rows: nat, cols: nat, c: Cell) -> Seq<Seq<Cell>> {
    Seq::new(rows, |_i: int| uniform_line(cols, c))
}

/// A fresh screen: all cells default, cursor home, default pen, main screen.
pub open spec fn initial_state(rows: nat, cols: nat) -> ScreenState {
    ScreenState {
        rows,
        cols,
        lines: uniform_lines(rows, cols, default_cell()),
        row: 0,
        col: 0,
        pen: default_style(),
        alt_screen: false,
    }
}

/// The top line leaves the screen and a blank line enters at the bottom.
pub open spec fn scrolled_up(s: ScreenState) -> ScreenState {
    ScreenState {
        lines: s.lines.drop_first().push(uniform_line(s.cols, blank_for(s.pen))),
        ..s
    }
}

/// The cursor moves down a line, scrolling when it is on the last line.
pub open spec fn line_fed(s: ScreenState) -> ScreenState {
    if s.row + 1 >= s.rows {
        scrolled_up(s)
    } else {
        ScreenState { row: s.row + 1, ..s }
    }
}

/// `ch` is written with the pen at the cursor, after the pending wrap if
/// the cursor sits past the last column, and the cursor advances.
pub open spec fn printed(s: ScreenState, ch: char) -> ScreenState {
    let t = if s.col >= s.cols {
        line_fed(ScreenState { col: 0, ..s })
    } else {
        s
    };
    ScreenState {
        lines: t.lines.update(t.row as int, t.lines[t.row as int].update(t.col as int, Cell { ch, style: t.pen })),
        col: t.col + 1,
        ..t
    }
}

/// The lines of `s` where every cell for which `hit(i, j)` holds is blank.
pub open spec fn blanked(s: ScreenState, hit: spec_fn(int, int) -> bool) -> Seq<Seq<Cell>> {
    Seq::new(
        s.rows,
        |i: int| Seq::new(s.cols, |j: int| if hit(i, j) { blank_for(s.pen) } else { s.lines[i][j] }),
    )
}

/// Which cells "erase in display" with `mode` clears, the cursor being at
/// (`row`, `col`): 0 from the cursor to the end of the screen, 1 from the
/// start of the screen through the cursor, any other mode the whole screen.
pub open spec fn display_erase_hits(mode: u16, row: int, col: int, i: int, j: int) -> bool {
    if mode == 0 {
        i > row || (i == row && j >= col)
    } else if mode == 1 {
        i < row || (i == row && j <= col)
    } else {
        true
    }
}

/// Which cells "erase in line" with `mode` clears on the cursor's line:
/// 0 from the cursor (clamped to the last column) to the end of the line,
/// 1 from the start of the line through the cursor, any other mode the line.
pub open spec fn line_erase_hits(mode: u16, row: int, col: int, cols: int, i: int, j: int) -> bool {
    i == row && if mode == 0 {
        j >= (if col < cols - 1 { col } else { cols - 1 })
    } else if mode == 1 {
        j <= col
    } else {
        true
    }
}

pub open spec fn display_erased(s: ScreenState, mode: u16) -> ScreenState {
    ScreenState {
        lines: blanked(s, |i: int, j: int| display_erase_hits(mode, s.row as int, s.col as int, i, j)),
        ..s
    }
}

pub open spec fn line_erased(s: ScreenState, mode: u16) -> ScreenState {
    ScreenState {
        lines: blanked(
            s,
            |i: int, j: int| line_erase_hits(mode, s.row as int, s.col as int, s.cols as int, i, j),
        ),
        ..s
    }
}

/// The next tab stop after column `col` (stops every 8 columns), clamped to
/// the last column.
pub open spec fn tab_stop(col: nat, cols: nat) -> nat {
    min_nat(((col / 8 + 1) * 8) as nat, (cols - 1) as nat)
}

/// What a C0 control byte does.
pub open spec fn executed(s: ScreenState, byte: u8) -> ScreenState {
    if byte == 10 || byte == 11 || byte == 12 {
        line_fed(s)
    } else if byte == 13 {
        ScreenState { col: 0, ..s }
    } else if byte == 8 {
        ScreenState { col: sat_sub(s.col, 1), ..s }
    } else if byte == 9 {
        ScreenState { col: tab_stop(s.col, s.cols), ..s }
    } else {
        s
    }
}

// ---------------------------------------------------------------------------
// SGR: Select Graphic Rendition
// ---------------------------------------------------------------------------

/// The color that the extended-color parameter (38 or 48) at position `i`
/// selects, with the position of the first parameter it did not consume.
///
/// The color is given either as subparameters of the same parameter
/// (`38:5:n`, `38:2:r:g:b`) or as the parameters that follow (`38;5;n`,
/// `38;2;r;g;b`); values are taken modulo 256.
pub open spec fn extended_color(ps: Seq<Seq<u16>>, i: int) -> (Option<Color>, int) {
    let p = ps[i];
    if p.len() >= 3 && p[1] == 5 {
        (Some(Color::Indexed(p[2] as u8)), i + 1)
    } else if p.len() >= 5 && p[1] == 2 {
        (Some(Color::Rgb(p[2] as u8, p[3] as u8, p[4] as u8)), i + 1)
    } else if p.len() == 1 {
        if i + 1 < ps.len() {
            let kind = ps[i + 1][0];
            if kind == 5 {
                if i + 2 < ps.len() {
                    (Some(Color::Indexed(ps[i + 2][0] as u8)), i + 3)
                } else {
                    (None, ps.len() as int)
                }
            } else if kind == 2 {
                if i + 4 < ps.len() {
                    (
                        Some(
                            Color::Rgb(ps[i + 2][0] as u8, ps[i + 3][0] as u8, ps[i + 4][0] as u8),
                        ),
                        i + 5,
                    )
                } else {
                    (None, ps.len() as int)
                }
            } else {
                (None, i + 2)
            }
        } else {
            (None, i + 1)
        }
    } else {
        (None, i + 1)
    }
}

/// The pen after the SGR parameter at position `i`, with the position of
/// the next parameter to interpret.
pub open spec fn sgr_step(pen: Style, ps: Seq<Seq<u16>>, i: int) -> (Style, int) {
    let code = ps[i][0];
    if code == 0 {
        (default_style(), i + 1)
    } else if code == 1 {
        (Style { bold: true, ..pen }, i + 1)
    } else if code == 3 {
        (Style { italic: true, ..pen }, i + 1)
    } else if code == 4 {
        (Style { underline: true, ..pen }, i + 1)
    } else if code == 7 {
        (Style { inverse: true, ..pen }, i + 1)
    } else if code == 22 {
        (Style { bold: false, ..pen }, i + 1)
    } else if code == 23 {
        (Style { italic: false, ..pen }, i + 1)
    } else if code == 24 {
        (Style { underline: false, ..pen }, i + 1)
    } else if code == 27 {
        (Style { inverse: false, ..pen }, i + 1)
    } else if 30 <= code <= 37 {
        (Style { fg: Color::Indexed((code - 30) as u8), ..pen }, i + 1)
    } else if code == 39 {
        (Style { fg: Color::Default, ..pen }, i + 1)
    } else if 40 <= code <= 47 {
        (Style { bg: Color::Indexed((code - 40) as u8), ..pen }, i + 1)
    } else if code == 49 {
        (Style { bg: Color::Default, ..pen }, i + 1)
    } else if 90 <= code <= 97 {
        (Style { fg: Color::Indexed((code - 90 + 8) as u8), ..pen }, i + 1)
    } else if 100 <= code <= 107 {
        (Style { bg: Color::Indexed((code - 100 + 8) as u8), ..pen }, i + 1)
    } else if code == 38 || code == 48 {
        let (color, next) = extended_color(ps, i);
        match color {
            Some(c) => if code == 38 {
                (Style { fg: c, ..pen }, next)
            } else {
                (Style { bg: c, ..pen }, next)
            },
            None => (pen, next),
        }
    } else {
        (pen, i + 1)
    }
}

pub proof fn lemma_sgr_step_advances(pen: Style, ps: Seq<Seq<u16>>, i: int)
    requires
        0 <= i < ps.len(),
    ensures
        i < sgr_step(pen, ps, i).1 <= ps.len(),
{
}

/// The pen after interpreting the SGR parameters from position `i` on.
pub open spec fn sgr_from(pen: Style, ps: Seq<Seq<u16>>, i: int) -> Style
    decreases ps.len() - i,
{
    if i < 0 || i >= ps.len() {
        pen
    } else {
        let next = sgr_step(pen, ps, i);
        proof {
            lemma_sgr_step_advances(pen, ps, i);
        }
        sgr_from(next.0, ps, next.1)
    }
}

/// The pen after an SGR sequence with parameters `ps`.
pub open spec fn sgr_applied(pen: Style, ps: Seq<Seq<u16>>) -> Style {
    sgr_from(pen, ps, 0)
}

// ---------------------------------------------------------------------------
// CSI: Control Sequence Introducer
// ---------------------------------------------------------------------------

/// The numeric argument at position `k`, where a missing or zero value
/// counts as 1.
pub open spec fn count_arg(ps: Seq<Seq<u16>>, k: int) -> nat {
    if 0 <= k < ps.len() && ps[k][0] != 0 {
        ps[k][0] as nat
    } else {
        1
    }
}

/// The first argument, or 0 when there is none.
pub open spec fn mode_arg(ps: Seq<Seq<u16>>) -> u16 {
    if ps.len() > 0 {
        ps[0][0]
    } else {
        0
    }
}

/// What a CSI sequence with parameters `ps`, intermediates `inter` and final
/// character `action` does.
pub open spec fn csi_applied(s: ScreenState, ps: Seq<Seq<u16>>, inter: Seq<u8>, action: char) -> ScreenState {
    if action == 'H' || action == 'f' {
        ScreenState {
            row: min_nat((count_arg(ps, 0) - 1) as nat, (s.rows - 1) as nat),
            col: min_nat((count_arg(ps, 1) - 1) as nat, (s.cols - 1) as nat),
            ..s
        }
    } else if action == 'A' {
        ScreenState { row: sat_sub(s.row, count_arg(ps, 0)), ..s }
    } else if action == 'B' {
        ScreenState { row: min_nat(s.row + count_arg(ps, 0), (s.rows - 1) as nat), ..s }
    } else if action == 'C' {
        ScreenState { col: min_nat(s.col + count_arg(ps, 0), (s.cols - 1) as nat), ..s }
    } else if action == 'D' {
        ScreenState { col: sat_sub(s.col, count_arg(ps, 0)), ..s }
    } else if action == 'G' {
        ScreenState { col: min_nat((count_arg(ps, 0) - 1) as nat, (s.cols - 1) as nat), ..s }
    } else if action == 'd' {
        ScreenState { row: min_nat((count_arg(ps, 0) - 1) as nat, (s.rows - 1) as nat), ..s }
    } else if action == 'J' {
        display_erased(s, mode_arg(ps))
    } else if action == 'K' {
        line_erased(s, mode_arg(ps))
    } else if action == 'm' {
        ScreenState { pen: sgr_applied(s.pen, ps), ..s }
    } else if (action == 'h' || action == 'l') && inter == seq![63u8] {
        if ps.len() > 0 && (ps[0][0] == 1049 || ps[0][0] == 47) {
            if action == 'h' {
                ScreenState { alt_screen: true, row: 0, col: 0, ..display_erased(s, 2) }
            } else {
                ScreenState { alt_screen: false, ..s }
            }
        } else {
            s
        }
    } else {
        s
    }
}

/// What an escape sequence with final byte `byte` does: `ESC c` resets
/// every cell to the default, the cursor home and the pen to default.
pub open spec fn esc_applied(s: ScreenState, byte: u8) -> ScreenState {
    if byte == 99 {
        ScreenState {
            lines: s.lines.map_values(|l: Seq<Cell>| uniform_line(l.len(), default_cell())),
            row: 0,
            col: 0,
            pen: default_style(),
            ..s
        }
    } else {
        s
    }
}

} // verus!
