//! The screen grid: a 2D array of styled cells plus a cursor, updated by
//! printing, control bytes, CSI and escape sequences.

use vstd::prelude::*;
use crate::style::{Cell, Color, Style, default_cell};
use crate::screen::{
    ScreenState, blank_for, csi_applied, display_erased, esc_applied, executed, extended_color,
    initial_state, line_erased, line_fed, printed, scrolled_up, sgr_applied, sgr_from, sgr_step,
    uniform_line, uniform_lines,
};
use crate::params::{groups_nonempty, groups_view, param_groups, read_params};
use crate::text::{
    drop_empty_tail, is_white_space, join_lines, lemma_drop_empty_step, lemma_join_take,
    lemma_trim_end_step, row_chars, screen_text, trim_end, trimmed_lines,
};
use vte::Params;

verus! {

/// The screen model. A front end only needs to read `cells` and `cursor`;
/// verified callers read them through `cell`, `cursor`, `rows`, `cols` and
/// `alt_screen`, whose contracts relate them to the model.
pub struct Grid {
    pub rows: usize,
    pub cols: usize,
    pub cells: Vec<Vec<Cell>>,
    /// (row, col), 0-based.
    pub cursor: (usize, usize),
    /// Attributes applied to newly printed cells (set by SGR).
    pen: Style,
    /// Set when the alternate screen is active (e.g. inside vim/less).
    pub alt_screen: bool,
}

/// The model of a grid is its fields, one for one: the size, the cells line
/// by line, the cursor, the pen and the alternate-screen flag.
impl View for Grid {
    type V = ScreenState;

    closed spec fn view(&self) -> ScreenState {
        ScreenState {
            rows: self.rows as nat,
            cols: self.cols as nat,
            lines: self.cells@.map_values(|r: Vec<Cell>| r@),
            row: self.cursor.0 as nat,
            col: self.cursor.1 as nat,
            pen: self.pen,
            alt_screen: self.alt_screen,
        }
    }
}

/// The model's lines are the cell vectors, line for line.
proof fn lemma_view_lines(g: &Grid)
    ensures
        g@.lines.len() == g.cells@.len(),
        forall|i: int| 0 <= i < g.cells@.len() ==> #[trigger] g@.lines[i] == g.cells@[i]@,
{
}

/// A vector of `n` copies of `c`.
fn uniform_row(n: usize, c: Cell) -> (v: Vec<Cell>)
    ensures
        v@ == uniform_line(n as nat, c),
{
    let mut v: Vec<Cell> = Vec::new();
    let mut j: usize = 0;
    while j < n
        invariant
            j <= n,
            v@ =~= uniform_line(j as nat, c),
        decreases n - j,
    {
        v.push(c);
        j = j + 1;
    }
    v
}

impl Grid {
    /// The grid is well formed: see `ScreenState::wf`.
    pub open spec fn wf(&self) -> bool {
        self@.wf()
    }

    /// A `rows` x `cols` grid of default cells, the cursor at the top left,
    /// the default pen and the main screen.
    pub fn new(rows: usize, cols: usize) -> (g: Grid)
        ensures
            g@ == initial_state(rows as nat, cols as nat),
            rows >= 1 && cols >= 1 ==> g.wf(),
    {
        let mut cells: Vec<Vec<Cell>> = Vec::new();
        let mut i: usize = 0;
        while i < rows
            invariant
                i <= rows,
                cells@.len() == i,
                forall|k: int| 0 <= k < i ==> (#[trigger] cells@[k])@ == uniform_line(cols as nat, default_cell()),
            decreases rows - i,
        {
            cells.push(uniform_row(cols, Cell::default()));
            i = i + 1;
        }
        let g = Grid { rows, cols, cells, cursor: (0, 0), pen: Style::default(), alt_screen: false };
        proof {
            assert(g@.lines =~= uniform_lines(rows as nat, cols as nat, default_cell()));
            assert(g@ =~= initial_state(rows as nat, cols as nat));
        }
        g
    }

    /// The pen: the style that newly printed cells get.
    pub fn pen(&self) -> (p: Style)
        ensures
            p == self@.pen,
    {
        self.pen
    }

    /// Where a front end draws the cursor: its row, its column clamped to the
    /// last column, and the character of the cell there.
    pub fn drawn_cursor(&self) -> (rc: (usize, usize, char))
        requires
            self.wf(),
        ensures
            rc.0 == self@.row,
            rc.1 == if self@.col < self@.cols - 1 { self@.col } else { (self@.cols - 1) as nat },
            rc.2 == self@.lines[rc.0 as int][rc.1 as int].ch,
    {
        let r = self.cursor.0;
        let c = min_usize(self.cursor.1, self.cols - 1);
        proof {
            assert(self@.lines[r as int] == self.cells@[r as int]@);
        }
        (r, c, self.cells[r][c].ch)
    }

    /// The cell that erasing and scrolling leave behind.
    pub fn blank(&self) -> (c: Cell)
        ensures
            c == blank_for(self@.pen),
    {
        Cell {
            ch: ' ',
            style: Style {
                fg: Color::Default,
                bg: self.pen.bg,
                bold: false,
                italic: false,
                underline: false,
                inverse: false,
            },
        }
    }

    /// Plain-text dump of the screen contents: each line with its trailing
    /// white space trimmed, trailing empty lines dropped, lines joined by
    /// newlines.
    pub fn to_text(&self) -> (text: String)
        ensures
            text@ == screen_text(self@.lines),
    {
        let ghost lines = self@.lines;
        let ghost tl = trimmed_lines(lines);
        assert(tl.len() == lines.len());
        let nrows = self.cells.len();
        let mut ends: Vec<usize> = Vec::new();
        let mut r: usize = 0;
        while r < nrows
            invariant
                r <= nrows,
                nrows == lines.len(),
                lines == self@.lines,
                tl == trimmed_lines(lines),
                ends@.len() == r,
                forall|i: int| 0 <= i < r ==> (#[trigger] ends@[i]) <= lines[i].len() && tl[i]
                    == row_chars(lines[i]).take(ends@[i] as int),
            decreases nrows - r,
        {
            let k = trimmed_len(&self.cells[r]);
            proof {
                assert(lines[r as int] == self.cells@[r as int]@);
            }
            ends.push(k);
            r = r + 1;
        }
        let mut n = nrows;
        proof {
            assert(tl.take(n as int) =~= tl);
        }
        while n > 0 && ends[n - 1] == 0
            invariant
                n <= nrows,
                ends@.len() == nrows,
                tl.len() == nrows,
                forall|i: int| 0 <= i < nrows ==> (#[trigger] ends@[i]) <= lines[i].len() && tl[i]
                    == row_chars(lines[i]).take(ends@[i] as int),
                drop_empty_tail(tl) == drop_empty_tail(tl.take(n as int)),
            decreases n,
        {
            proof {
                assert(tl[n - 1].len() == 0);
                lemma_drop_empty_step(tl, n as int);
            }
            n = n - 1;
        }
        let ghost kept = tl.take(n as int);
        proof {
            if n > 0 {
                assert(kept.last() == tl[n - 1]);
                assert(kept.last().len() == ends@[n - 1]);
            }
            assert(drop_empty_tail(tl) == kept);
        }
        let mut out = String::new();
        let mut r: usize = 0;
        while r < n
            invariant
                r <= n <= nrows,
                nrows == lines.len(),
                lines == self@.lines,
                ends@.len() == nrows,
                kept == tl.take(n as int),
                tl.len() == nrows,
                forall|i: int| 0 <= i < nrows ==> (#[trigger] ends@[i]) <= lines[i].len() && tl[i]
                    == row_chars(lines[i]).take(ends@[i] as int),
                out@ == join_lines(kept.take(r as int)),
            decreases n - r,
        {
            proof {
                lemma_join_take(kept, r as int);
                assert(kept.take(r as int + 1) =~= tl.take(r as int + 1).take(r as int + 1));
            }
            if r > 0 {
                out.push('\n');
            }
            let ghost prefix = out@;
            let end = ends[r];
            let mut j: usize = 0;
            proof {
                assert(lines[r as int] == self.cells@[r as int]@);
            }
            while j < end
                invariant
                    j <= end,
                    r < n <= nrows,
                    nrows == lines.len(),
                    lines == self@.lines,
                    ends@.len() == nrows,
                    end == ends@[r as int],
                    end <= lines[r as int].len(),
                    lines[r as int] == self.cells@[r as int]@,
                    out@ == prefix + row_chars(lines[r as int]).take(j as int),
                decreases end - j,
            {
                out.push(self.cells[r][j].ch);
                j = j + 1;
                proof {
                    assert(row_chars(lines[r as int]).take(j as int) =~= row_chars(lines[r as int]).take(
                        j - 1,
                    ).push(lines[r as int][j - 1].ch));
                }
            }
            proof {
                assert(kept[r as int] == tl[r as int]);
                if r > 0 {
                    assert(out@ =~= join_lines(kept.take(r as int)) + seq!['\n'] + kept[r as int]);
                } else {
                    assert(out@ =~= kept[r as int]);
                }
            }
            r = r + 1;
        }
        proof {
            assert(kept.take(n as int) =~= kept);
        }
        out
    }

    /// Drops the top line and adds a blank line at the bottom.
    pub fn scroll_up(&mut self)
        requires
            old(self).wf(),
        ensures
            final(self).wf(),
            final(self)@ == scrolled_up(old(self)@),
    {
        let blank = self.blank();
        self.cells.remove(0);
        let row = uniform_row(self.cols, blank);
        self.cells.push(row);
        proof {
            assert(self@.lines =~= scrolled_up(old(self)@).lines);
            assert(self@ =~= scrolled_up(old(self)@));
        }
    }

    /// Moves the cursor down a line, scrolling on the last line.
    pub fn linefeed(&mut self)
        requires
            old(self).wf(),
        ensures
            final(self).wf(),
            final(self)@ == line_fed(old(self)@),
    {
        if self.cursor.0 + 1 >= self.rows {
            self.scroll_up();
        } else {
            self.cursor.0 = self.cursor.0 + 1;
            proof {
                assert(self@ =~= line_fed(old(self)@));
            }
        }
    }

    /// Writes `ch` with the pen at the cursor and advances the cursor;
    /// printing past the last column first wraps to the next line.
    pub fn put_char(&mut self, ch: char)
        requires
            old(self).wf(),
        ensures
            final(self).wf(),
            final(self)@ == printed(old(self)@, ch),
    {
        let ghost s = self@;
        if self.cursor.1 >= self.cols {
            // Deferred wrap: printing past the last column moves to the next line.
            self.cursor.1 = 0;
            proof {
                assert(self@ =~= ScreenState { col: 0, ..s });
            }
            self.linefeed();
        }
        let ghost t = self@;
        let r = self.cursor.0;
        let c = self.cursor.1;
        self.cells[r].set(c, Cell { ch, style: self.pen });
        self.cursor.1 = c + 1;
        proof {
            assert(self@.lines =~= t.lines.update(r as int, t.lines[r as int].update(c as int, Cell { ch, style: t.pen })));
            assert(self@ =~= printed(s, ch));
        }
    }
}

impl Grid {
    /// Sets columns `from..to` of line `row` to `c`.
    fn fill_span(&mut self, row: usize, from: usize, to: usize, c: Cell)
        requires
            row < old(self)@.lines.len(),
            from <= to <= old(self)@.lines[row as int].len(),
        ensures
            old(self).wf() ==> final(self).wf(),
            final(self)@ == (ScreenState {
                lines: old(self)@.lines.update(
                    row as int,
                    Seq::new(
                        old(self)@.lines[row as int].len(),
                        |j: int| if from <= j < to { c } else { old(self)@.lines[row as int][j] },
                    ),
                ),
                ..old(self)@
            }),
    {
        let ghost s = self@;
        let ghost len = s.lines[row as int].len();
        let mut j = from;
        proof {
            assert(Seq::new(len, |k: int| if from <= k < from { c } else { s.lines[row as int][k] })
                =~= s.lines[row as int]);
            assert(s.lines.update(row as int, s.lines[row as int]) =~= s.lines);
            assert(self@ =~= (ScreenState {
                lines: s.lines.update(
                    row as int,
                    Seq::new(len, |k: int| if from <= k < from { c } else { s.lines[row as int][k] }),
                ),
                ..s
            }));
        }
        while j < to
            invariant
                from <= j <= to,
                to <= len,
                len == s.lines[row as int].len(),
                row < s.lines.len(),
                self@ == (ScreenState {
                    lines: s.lines.update(
                        row as int,
                        Seq::new(len, |k: int| if from <= k < j { c } else { s.lines[row as int][k] }),
                    ),
                    ..s
                }),
            decreases to - j,
        {
            proof {
                lemma_view_lines(self);
                assert(self@.lines[row as int].len() == len);
                assert(self.cells@[row as int]@.len() == len);
            }
            let ghost before = self@;
            self.cells[row].set(j, c);
            proof {
                assert forall|i: int| 0 <= i < s.lines.len() && i != row implies #[trigger] self@.lines[i]
                    == before.lines[i] by {
                    assert(self@.lines[i] == self.cells@[i]@);
                }
            }
            j = j + 1;
            proof {
                assert(self@.lines[row as int] =~= Seq::new(
                    len,
                    |k: int| if from <= k < j { c } else { s.lines[row as int][k] },
                ));
                assert(self@.lines =~= s.lines.update(
                    row as int,
                    Seq::new(len, |k: int| if from <= k < j { c } else { s.lines[row as int][k] }),
                ));
                assert(self@ =~= (ScreenState {
                    lines: s.lines.update(
                        row as int,
                        Seq::new(len, |k: int| if from <= k < j { c } else { s.lines[row as int][k] }),
                    ),
                    ..s
                }));
            }
        }
        proof {
            if s.wf() {
                assert forall|i: int| 0 <= i < s.rows implies (#[trigger] self@.lines[i]).len() == s.cols by {}
            }
        }
    }

    /// Sets every cell of lines `from..to` to `c`.
    fn fill_rows(&mut self, from: usize, to: usize, c: Cell)
        requires
            old(self).wf(),
            from <= to <= old(self).rows,
        ensures
            final(self).wf(),
            final(self)@ == (ScreenState {
                lines: Seq::new(
                    old(self)@.rows,
                    |i: int| if from <= i < to { uniform_line(old(self)@.cols, c) } else { old(self)@.lines[i] },
                ),
                ..old(self)@
            }),
    {
        let ghost s = self@;
        let mut i = from;
        while i < to
            invariant
                from <= i <= to,
                to <= s.rows,
                s.wf(),
                self.wf(),
                self@ == (ScreenState {
                    lines: Seq::new(
                        s.rows,
                        |k: int| if from <= k < i { uniform_line(s.cols, c) } else { s.lines[k] },
                    ),
                    ..s
                }),
            decreases to - i,
        {
            let cols = self.cols;
            proof {
                assert(self@.lines[i as int].len() == s.cols);
            }
            self.fill_span(i, 0, cols, c);
            proof {
                assert(self@.lines[i as int] =~= uniform_line(s.cols, c));
            }
            i = i + 1;
            proof {
                assert(self@.lines =~= Seq::new(
                    s.rows,
                    |k: int| if from <= k < i { uniform_line(s.cols, c) } else { s.lines[k] },
                ));
                assert(self@ =~= (ScreenState {
                    lines: Seq::new(
                        s.rows,
                        |k: int| if from <= k < i { uniform_line(s.cols, c) } else { s.lines[k] },
                    ),
                    ..s
                }));
            }
        }
        proof {
            assert(self@ =~= (ScreenState {
                lines: Seq::new(
                    s.rows,
                    |k: int| if from <= k < to { uniform_line(s.cols, c) } else { s.lines[k] },
                ),
                ..s
            }));
        }
    }

    /// Erase in display (ED): mode 0 clears from the cursor to the end of
    /// the screen, 1 from the start of the screen through the cursor, any
    /// other mode the whole screen. Cleared cells become `blank()`.
    pub fn erase_in_display(&mut self, mode: u16)
        requires
            old(self).wf(),
        ensures
            final(self).wf(),
            final(self)@ == display_erased(old(self)@, mode),
    {
        let ghost s = self@;
        let r = self.cursor.0;
        let c = self.cursor.1;
        let blank = self.blank();
        let rows = self.rows;
        let cols = self.cols;
        if mode == 0 {
            self.fill_span(r, c, cols, blank);
            self.fill_rows(r + 1, rows, blank);
        } else if mode == 1 {
            self.fill_rows(0, r, blank);
            let last = if c < cols - 1 { c } else { cols - 1 };
            self.fill_span(r, 0, last + 1, blank);
        } else {
            self.fill_rows(0, rows, blank);
        }
        proof {
            let target = display_erased(s, mode);
            assert forall|i: int| 0 <= i < s.rows implies #[trigger] self@.lines[i] =~= target.lines[i] by {}
            assert(self@.lines =~= target.lines);
            assert(self@ =~= target);
        }
    }

    /// Erase in line (EL) on the cursor's line: mode 0 clears from the
    /// cursor (clamped to the last column) to the end of the line, 1 from the
    /// start of the line through the cursor, any other mode the whole line.
    pub fn erase_in_line(&mut self, mode: u16)
        requires
            old(self).wf(),
        ensures
            final(self).wf(),
            final(self)@ == line_erased(old(self)@, mode),
    {
        let ghost s = self@;
        let r = self.cursor.0;
        let c = self.cursor.1;
        let blank = self.blank();
        let cols = self.cols;
        let last = if c < cols - 1 { c } else { cols - 1 };
        if mode == 0 {
            self.fill_span(r, last, cols, blank);
        } else if mode == 1 {
            self.fill_span(r, 0, last + 1, blank);
        } else {
            self.fill_span(r, 0, cols, blank);
        }
        proof {
            let target = line_erased(s, mode);
            assert forall|i: int| 0 <= i < s.rows implies #[trigger] self@.lines[i] =~= target.lines[i] by {}
            assert(self@.lines =~= target.lines);
            assert(self@ =~= target);
        }
    }
}

/// The length of `row` without its trailing white space.
fn trimmed_len(row: &Vec<Cell>) -> (k: usize)
    ensures
        k <= row.len(),
        trim_end(row_chars(row@)) == row_chars(row@).take(k as int),
{
    let ghost chars = row_chars(row@);
    let mut k = row.len();
    proof {
        assert(chars.take(k as int) =~= chars);
    }
    while k > 0 && is_white_space(row[k - 1].ch)
        invariant
            k <= row.len(),
            chars == row_chars(row@),
            trim_end(chars) == trim_end(chars.take(k as int)),
        decreases k,
    {
        proof {
            lemma_trim_end_step(chars, k as int);
        }
        k = k - 1;
    }
    proof {
        if k > 0 {
            assert(chars.take(k as int).last() == chars[k - 1]);
        } else {
            assert(chars.take(0) =~= Seq::<char>::empty());
        }
    }
    k
}

/// The color that the extended-color parameter at position `i` selects, and
/// the position of the first parameter it did not consume.
fn extended_color_at(params: &Vec<Vec<u16>>, i: usize) -> (r: (Option<Color>, usize))
    requires
        i < params.len(),
        groups_nonempty(groups_view(*params)),
    ensures
        r.0 == extended_color(groups_view(*params), i as int).0,
        r.1 as int == extended_color(groups_view(*params), i as int).1,
{
    let ghost ps = groups_view(*params);
    proof {
        assert(ps[i as int] == params@[i as int]@);
    }
    let n = params.len();
    let param = &params[i];
    if param.len() >= 3 && param[1] == 5 {
        (Some(Color::Indexed(param[2] as u8)), i + 1)
    } else if param.len() >= 5 && param[1] == 2 {
        (Some(Color::Rgb(param[2] as u8, param[3] as u8, param[4] as u8)), i + 1)
    } else if param.len() == 1 {
        // Subparameters given as the following parameters.
        if i + 1 < n {
            proof {
                assert(ps[i + 1] == params@[i + 1]@);
            }
            let kind = params[i + 1][0];
            if kind == 5 {
                if i + 2 < n {
                    proof {
                        assert(ps[i + 2] == params@[i + 2]@);
                    }
                    (Some(Color::Indexed(params[i + 2][0] as u8)), i + 3)
                } else {
                    (None, n)
                }
            } else if kind == 2 {
                if n - i > 4 {
                    proof {
                        assert(ps[i + 2] == params@[i + 2]@);
                        assert(ps[i + 3] == params@[i + 3]@);
                        assert(ps[i + 4] == params@[i + 4]@);
                    }
                    (
                        Some(
                            Color::Rgb(
                                params[i + 2][0] as u8,
                                params[i + 3][0] as u8,
                                params[i + 4][0] as u8,
                            ),
                        ),
                        i + 5,
                    )
                } else {
                    (None, n)
                }
            } else {
                (None, i + 2)
            }
        } else {
            (None, i + 1)
        }
    } else {
        (None, i + 1)
    }
}

/// The CSI actions that read the screen size or its cells, and so need a
/// well-formed grid: cursor position and movement down, right or to a
/// column or line, erase, and setting a mode (which may clear the screen).
pub open spec fn csi_needs_shape(action: char) -> bool {
    action == 'H' || action == 'f' || action == 'B' || action == 'C' || action == 'G' || action
        == 'd' || action == 'J' || action == 'K' || action == 'h'
}

/// The smaller of `a` and `b`.
fn min_usize(a: usize, b: usize) -> (m: usize)
    ensures
        m == if a <= b { a } else { b },
{
    if a <= b {
        a
    } else {
        b
    }
}

/// The argument at position `k`, where a missing or zero value counts as 1.
fn count_arg_at(params: &Vec<Vec<u16>>, k: usize) -> (n: usize)
    requires
        groups_nonempty(groups_view(*params)),
    ensures
        n as nat == crate::screen::count_arg(groups_view(*params), k as int),
        1 <= n <= 65535,
{
    if k < params.len() {
        proof {
            assert(groups_view(*params)[k as int] == params@[k as int]@);
        }
        let v = params[k][0];
        if v != 0 {
            v as usize
        } else {
            1
        }
    } else {
        1
    }
}

impl Grid {
    /// Select Graphic Rendition: interprets the parameters in order and
    /// updates the pen (0 reset, 1/3/4/7 set bold/italic/underline/inverse,
    /// 22/23/24/27 clear them, 30-37/90-97 and 40-47/100-107 indexed colors,
    /// 39/49 default colors, 38/48 extended colors).
    pub fn sgr(&mut self, params: &Vec<Vec<u16>>)
        requires
            groups_nonempty(groups_view(*params)),
        ensures
            old(self).wf() ==> final(self).wf(),
            final(self)@ == (ScreenState { pen: sgr_applied(old(self)@.pen, groups_view(*params)), ..old(self)@ }),
    {
        let ghost ps = groups_view(*params);
        let n = params.len();
        let mut pen = self.pen;
        let mut i: usize = 0;
        while i < n
            invariant
                i <= n,
                n == ps.len(),
                ps == groups_view(*params),
                groups_nonempty(ps),
                sgr_from(pen, ps, i as int) == sgr_applied(old(self)@.pen, ps),
            decreases n - i,
        {
            proof {
                assert(ps[i as int] == params@[i as int]@);
            }
            let ghost step = sgr_step(pen, ps, i as int);
            proof {
                crate::screen::lemma_sgr_step_advances(pen, ps, i as int);
            }
            let code = params[i][0];
            if code == 0 {
                pen = Style::default();
                i = i + 1;
            } else if code == 1 {
                pen.bold = true;
                i = i + 1;
            } else if code == 3 {
                pen.italic = true;
                i = i + 1;
            } else if code == 4 {
                pen.underline = true;
                i = i + 1;
            } else if code == 7 {
                pen.inverse = true;
                i = i + 1;
            } else if code == 22 {
                pen.bold = false;
                i = i + 1;
            } else if code == 23 {
                pen.italic = false;
                i = i + 1;
            } else if code == 24 {
                pen.underline = false;
                i = i + 1;
            } else if code == 27 {
                pen.inverse = false;
                i = i + 1;
            } else if 30 <= code && code <= 37 {
                pen.fg = Color::Indexed((code - 30) as u8);
                i = i + 1;
            } else if code == 39 {
                pen.fg = Color::Default;
                i = i + 1;
            } else if 40 <= code && code <= 47 {
                pen.bg = Color::Indexed((code - 40) as u8);
                i = i + 1;
            } else if code == 49 {
                pen.bg = Color::Default;
                i = i + 1;
            } else if 90 <= code && code <= 97 {
                pen.fg = Color::Indexed((code - 90 + 8) as u8);
                i = i + 1;
            } else if 100 <= code && code <= 107 {
                pen.bg = Color::Indexed((code - 100 + 8) as u8);
                i = i + 1;
            } else if code == 38 || code == 48 {
                // Extended color: 38;5;n (256-color) or 38;2;r;g;b (truecolor).
                let (color, next) = extended_color_at(params, i);
                match color {
                    Some(c) => {
                        if code == 38 {
                            pen.fg = c;
                        } else {
                            pen.bg = c;
                        }
                    },
                    None => {},
                }
                i = next;
            } else {
                i = i + 1;
            }
            proof {
                assert(pen == step.0 && i as int == step.1);
            }
        }
        self.pen = pen;
        proof {
            assert(self@ =~= (ScreenState { pen: sgr_applied(old(self)@.pen, ps), ..old(self)@ }));
        }
    }

    /// A CSI sequence with the given parameters, intermediates and final
    /// character: cursor movement (H/f, A, B, C, D, G, d), erase (J, K),
    /// SGR (m) and the alternate screen (DEC private modes 1049 and 47 with
    /// h/l). Other sequences change nothing.
    pub fn csi(&mut self, params: &Vec<Vec<u16>>, intermediates: &[u8], action: char)
        requires
            csi_needs_shape(action) ==> old(self).wf(),
            groups_nonempty(groups_view(*params)),
        ensures
            old(self).wf() ==> final(self).wf(),
            final(self)@ == csi_applied(old(self)@, groups_view(*params), intermediates@, action),
    {
        let ghost s = self@;
        let ghost ps = groups_view(*params);
        let rows = self.rows;
        let cols = self.cols;
        if action == 'H' || action == 'f' {
            let row = count_arg_at(params, 0);
            let col = count_arg_at(params, 1);
            self.cursor = (min_usize(row - 1, rows - 1), min_usize(col - 1, cols - 1));
        } else if action == 'A' {
            let n = count_arg_at(params, 0);
            self.cursor.0 = self.cursor.0.saturating_sub(n);
        } else if action == 'B' {
            let n = count_arg_at(params, 0);
            self.cursor.0 = min_usize(self.cursor.0.saturating_add(n), rows - 1);
        } else if action == 'C' {
            let n = count_arg_at(params, 0);
            self.cursor.1 = min_usize(self.cursor.1.saturating_add(n), cols - 1);
        } else if action == 'D' {
            let n = count_arg_at(params, 0);
            self.cursor.1 = self.cursor.1.saturating_sub(n);
        } else if action == 'G' {
            let n = count_arg_at(params, 0);
            self.cursor.1 = min_usize(n - 1, cols - 1);
        } else if action == 'd' {
            let n = count_arg_at(params, 0);
            self.cursor.0 = min_usize(n - 1, rows - 1);
        } else if action == 'J' || action == 'K' {
            let mode = if params.len() > 0 {
                proof {
                    assert(ps[0] == params@[0]@);
                }
                params[0][0]
            } else {
                0
            };
            if action == 'J' {
                self.erase_in_display(mode);
            } else {
                self.erase_in_line(mode);
            }
        } else if action == 'm' {
            self.sgr(params);
        } else if (action == 'h' || action == 'l') && intermediates.len() == 1 && intermediates[0] == 63 {
            // DEC private modes; track the alternate screen (1049 / 47).
            proof {
                assert(intermediates@ =~= seq![63u8]);
            }
            if params.len() > 0 {
                proof {
                    assert(ps[0] == params@[0]@);
                }
                let mode = params[0][0];
                if mode == 1049 || mode == 47 {
                    self.alt_screen = action == 'h';
                    if action == 'h' {
                        self.erase_in_display(2);
                        self.cursor = (0, 0);
                    }
                }
            }
        } else {
            proof {
                if (action == 'h' || action == 'l') && intermediates@ == seq![63u8] {
                    assert(intermediates@.len() == 1 && intermediates@[0] == 63);
                }
            }
        }
        proof {
            assert(self@ =~= csi_applied(s, ps, intermediates@, action));
        }
    }

    /// The CSI action that the parser reports, with its `vte` parameter list.
    pub fn csi_dispatch(&mut self, params: &Params, intermediates: &[u8], _ignore: bool, action: char)
        requires
            csi_needs_shape(action) ==> old(self).wf(),
        ensures
            old(self).wf() ==> final(self).wf(),
            final(self)@ == csi_applied(old(self)@, param_groups(*params), intermediates@, action),
    {
        let groups = read_params(params);
        self.csi(&groups, intermediates, action);
    }

    /// Draws a character: see `put_char`.
    pub fn print(&mut self, ch: char)
        requires
            old(self).wf(),
        ensures
            final(self).wf(),
            final(self)@ == printed(old(self)@, ch),
    {
        self.put_char(ch);
    }

    /// A C0 control byte: line feed (LF, VT, FF), carriage return,
    /// backspace and horizontal tab; other bytes change nothing.
    pub fn execute(&mut self, byte: u8)
        requires
            byte == 10 || byte == 11 || byte == 12 ==> old(self).wf(),
            byte == 9 ==> old(self)@.cols >= 1,
        ensures
            old(self).wf() ==> final(self).wf(),
            final(self)@ == executed(old(self)@, byte),
    {
        let ghost s = self@;
        if byte == 10 || byte == 11 || byte == 12 {
            self.linefeed();
        } else if byte == 13 {
            self.cursor.1 = 0;
        } else if byte == 8 {
            self.cursor.1 = self.cursor.1.saturating_sub(1);
        } else if byte == 9 {
            let last = self.cols - 1;
            let next_stop = (self.cursor.1 / 8 + 1).checked_mul(8);
            self.cursor.1 = match next_stop {
                Some(stop) => min_usize(stop, last),
                None => last,
            };
        }
        proof {
            assert(self@ =~= executed(s, byte));
        }
    }

    /// The final byte of an escape sequence: `ESC c` (RIS) resets every cell
    /// to the default, the cursor home and the pen to default.
    pub fn esc_dispatch(&mut self, _intermediates: &[u8], _ignore: bool, byte: u8)
        ensures
            old(self).wf() ==> final(self).wf(),
            final(self)@ == esc_applied(old(self)@, byte),
    {
        let ghost s = self@;
        if byte == 99 {
            // RIS: full reset.
            let n = self.cells.len();
            let mut i: usize = 0;
            while i < n
                invariant
                    i <= n,
                    n == s.lines.len(),
                    self@ == (ScreenState {
                        lines: Seq::new(
                            s.lines.len(),
                            |k: int| if k < i { uniform_line(s.lines[k].len(), default_cell()) } else { s.lines[k] },
                        ),
                        ..s
                    }),
                decreases n - i,
            {
                proof {
                    lemma_view_lines(self);
                }
                let len = self.cells[i].len();
                self.fill_span(i, 0, len, Cell::default());
                proof {
                    assert(self@.lines[i as int] =~= uniform_line(s.lines[i as int].len(), default_cell()));
                }
                i = i + 1;
                proof {
                    assert(self@.lines =~= Seq::new(
                        s.lines.len(),
                        |k: int| if k < i { uniform_line(s.lines[k].len(), default_cell()) } else { s.lines[k] },
                    ));
                    assert(self@ =~= (ScreenState {
                        lines: Seq::new(
                            s.lines.len(),
                            |k: int| if k < i { uniform_line(s.lines[k].len(), default_cell()) } else { s.lines[k] },
                        ),
                        ..s
                    }));
                }
            }
            self.cursor = (0, 0);
            self.pen = Style::default();
            proof {
                assert(self@.lines =~= s.lines.map_values(|l: Seq<Cell>| uniform_line(l.len(), default_cell())));
            }
        }
        proof {
            assert(self@ =~= esc_applied(s, byte));
        }
    }

    /// The number of lines.
    pub fn rows(&self) -> (n: usize)
        ensures
            n == self@.rows,
    {
        self.rows
    }

    /// The number of columns.
    pub fn cols(&self) -> (n: usize)
        ensures
            n == self@.cols,
    {
        self.cols
    }

    /// The cursor position (row, column), 0-based.
    pub fn cursor(&self) -> (c: (usize, usize))
        ensures
            c.0 == self@.row,
            c.1 == self@.col,
    {
        self.cursor
    }

    /// Whether the alternate screen is active.
    pub fn alt_screen(&self) -> (b: bool)
        ensures
            b == self@.alt_screen,
    {
        self.alt_screen
    }

    /// The cell at line `i`, column `j`.
    pub fn cell(&self, i: usize, j: usize) -> (c: Cell)
        requires
            i < self@.lines.len(),
            j < self@.lines[i as int].len(),
        ensures
            c == self@.lines[i as int][j as int],
    {
        proof {
            assert(self@.lines[i as int] == self.cells@[i as int]@);
        }
        self.cells[i][j]
    }
}

} // verus!
