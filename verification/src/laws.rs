//! Properties of the screen model that relate several actions, or hold of
//! every state.

use vstd::prelude::*;
use crate::style::{Cell, Color, Style, default_style};
use crate::screen::{
    ScreenState, blank_for, csi_applied, display_erased, esc_applied, executed, initial_state,
    extended_color, line_erased, line_fed, printed, sgr_applied, sgr_from, sgr_step, tab_stop,
};
use crate::text::{
    drop_empty_tail, join_lines, row_chars, screen_text, trim_end, trimmed_lines,
    unicode_white_space,
};
use crate::render::{
    InputEvent, Key, Modifiers, Rgb, color_rgb, event_bytes, events_bytes, key_bytes, palette,
    resolved_colors, style_runs,
};

verus! {

/// Every action keeps the screen well formed and keeps its size.
pub proof fn law_actions_keep_shape(s: ScreenState, ch: char, byte: u8, ps: Seq<Seq<u16>>, inter: Seq<u8>, action: char)
    requires
        s.wf(),
    ensures
        printed(s, ch).wf() && printed(s, ch).rows == s.rows && printed(s, ch).cols == s.cols,
        executed(s, byte).wf() && executed(s, byte).rows == s.rows && executed(s, byte).cols == s.cols,
        csi_applied(s, ps, inter, action).wf() && csi_applied(s, ps, inter, action).rows == s.rows
            && csi_applied(s, ps, inter, action).cols == s.cols,
        esc_applied(s, byte).wf() && esc_applied(s, byte).rows == s.rows && esc_applied(s, byte).cols
            == s.cols,
{
    let t = if s.col >= s.cols { line_fed(ScreenState { col: 0, ..s }) } else { s };
    assert(t.wf());
    assert(printed(s, ch).wf());
    assert(line_fed(s).wf());
    assert(display_erased(s, 0).wf());
    assert(display_erased(s, 1).wf());
    assert(display_erased(s, 2).wf());
    let m: u16 = if ps.len() > 0 { ps[0][0] } else { 0 };
    assert(display_erased(s, m).wf());
    assert(line_erased(s, m).wf());
    assert(executed(s, byte).wf());
    assert(csi_applied(s, ps, inter, action).wf());
    assert(esc_applied(s, byte).wf());
}

/// Printing writes the character with the current pen at the cursor (after
/// the pending wrap) and moves the cursor one column right; the pen stays.
pub proof fn law_print_writes_pen_at_cursor(s: ScreenState, ch: char)
    requires
        s.wf(),
        s.col < s.cols,
    ensures
        printed(s, ch).cell(s.row as int, s.col as int) == (Cell { ch, style: s.pen }),
        printed(s, ch).row == s.row,
        printed(s, ch).col == s.col + 1,
        printed(s, ch).pen == s.pen,
        forall|i: int, j: int|
            0 <= i < s.rows && 0 <= j < s.cols && (i != s.row || j != s.col) ==> #[trigger] printed(
                s,
                ch,
            ).cell(i, j) == s.cell(i, j),
{
}

/// Cursor position (CUP) to row `r`, column `c` (1-based, on the screen),
/// then printing, puts the character at line `r - 1`, column `c - 1`.
pub proof fn law_position_then_print(s: ScreenState, r: u16, c: u16, ch: char)
    requires
        s.wf(),
        1 <= r <= s.rows,
        1 <= c <= s.cols,
    ensures
        ({
            let moved = csi_applied(s, seq![seq![r], seq![c]], Seq::empty(), 'H');
            &&& moved.row == r - 1
            &&& moved.col == c - 1
            &&& printed(moved, ch).cell(r - 1, c - 1) == (Cell { ch, style: s.pen })
        }),
{
}

/// SGR 0 resets the pen: the pen after a sequence that starts with 0 does not
/// depend on the pen before it.
pub proof fn law_sgr_reset_forgets_pen(pen1: Style, pen2: Style, ps: Seq<Seq<u16>>)
    requires
        ps.len() >= 1,
        ps[0].len() >= 1,
        ps[0][0] == 0,
    ensures
        sgr_applied(pen1, ps) == sgr_applied(pen2, ps),
        sgr_applied(pen1, ps) == sgr_from(default_style(), ps, 1),
        sgr_applied(pen1, seq![seq![0u16]]) == default_style(),
{
    assert(sgr_from(default_style(), seq![seq![0u16]], 1) == default_style());
}

/// Carriage return then line feed moves the cursor to the start of the next
/// line, leaving the screen unchanged when the cursor is not on the last
/// line, and scrolling it up by one line when it is.
pub proof fn law_crlf(s: ScreenState)
    requires
        s.wf(),
    ensures
        ({
            let t = executed(executed(s, 13), 10);
            &&& t.col == 0
            &&& s.row + 1 < s.rows ==> t.row == s.row + 1 && t.lines == s.lines
            &&& s.row + 1 == s.rows ==> t.row == s.row && t.lines == s.lines.drop_first().push(
                Seq::new(s.cols, |_j: int| pen_blank(s.pen)),
            )
        }),
{
}

/// A line feed on the last line scrolls: every line moves up one, the top
/// line is lost, and the new bottom line is blank.
pub proof fn law_scroll_at_bottom(s: ScreenState)
    requires
        s.wf(),
        s.row == s.rows - 1,
    ensures
        line_fed(s).row == s.row,
        forall|i: int, j: int|
            0 <= i < s.rows - 1 && 0 <= j < s.cols ==> #[trigger] line_fed(s).cell(i, j) == s.cell(
                i + 1,
                j,
            ),
        forall|j: int| 0 <= j < s.cols ==> #[trigger] line_fed(s).cell(s.rows - 1, j) == pen_blank(s.pen),
{
}

/// Erasing twice with the same mode is the same as erasing once; erasing
/// moves neither the cursor nor the pen.
pub proof fn law_erase_idempotent(s: ScreenState, mode: u16)
    requires
        s.wf(),
    ensures
        display_erased(display_erased(s, mode), mode) == display_erased(s, mode),
        line_erased(line_erased(s, mode), mode) == line_erased(s, mode),
        display_erased(s, mode).row == s.row && display_erased(s, mode).col == s.col,
        line_erased(s, mode).row == s.row && line_erased(s, mode).col == s.col,
{
    let d = display_erased(s, mode);
    let dd = display_erased(d, mode);
    assert forall|i: int| 0 <= i < s.rows implies #[trigger] dd.lines[i] =~= d.lines[i] by {}
    assert(dd.lines =~= d.lines);
    assert(dd =~= d);
    let l = line_erased(s, mode);
    let ll = line_erased(l, mode);
    assert forall|i: int| 0 <= i < s.rows implies #[trigger] ll.lines[i] =~= l.lines[i] by {}
    assert(ll.lines =~= l.lines);
    assert(ll =~= l);
}

/// Lines of white space only have no text.
proof fn lemma_blank_lines_no_text(lines: Seq<Seq<Cell>>)
    requires
        forall|i: int, j: int|
            0 <= i < lines.len() && 0 <= j < lines[i].len() ==> unicode_white_space(
                #[trigger] lines[i][j].ch,
            ),
    ensures
        screen_text(lines) == Seq::<char>::empty(),
    decreases lines.len(),
{
    let tl = trimmed_lines(lines);
    assert forall|i: int| 0 <= i < tl.len() implies #[trigger] tl[i].len() == 0 by {
        lemma_trim_all_white(row_chars(lines[i]));
    }
    lemma_drop_all_empty(tl);
}

proof fn lemma_trim_all_white(s: Seq<char>)
    requires
        forall|j: int| 0 <= j < s.len() ==> unicode_white_space(#[trigger] s[j]),
    ensures
        trim_end(s).len() == 0,
    decreases s.len(),
{
    if s.len() > 0 {
        lemma_trim_all_white(s.drop_last());
    }
}

proof fn lemma_drop_all_empty(ls: Seq<Seq<char>>)
    requires
        forall|i: int| 0 <= i < ls.len() ==> (#[trigger] ls[i]).len() == 0,
    ensures
        drop_empty_tail(ls).len() == 0,
        join_lines(drop_empty_tail(ls)) == Seq::<char>::empty(),
    decreases ls.len(),
{
    if ls.len() > 0 {
        lemma_drop_all_empty(ls.drop_last());
    }
}

/// Clearing the whole screen (ED 2) leaves no text, whatever was on it.
pub proof fn law_clear_leaves_no_text(s: ScreenState)
    requires
        s.wf(),
    ensures
        screen_text(display_erased(s, 2).lines) == Seq::<char>::empty(),
{
    let lines = display_erased(s, 2).lines;
    assert forall|i: int, j: int| 0 <= i < lines.len() && 0 <= j < lines[i].len() implies unicode_white_space(
        #[trigger] lines[i][j].ch,
    ) by {}
    lemma_blank_lines_no_text(lines);
}

/// A fresh screen, and one after a full reset (ESC c), have no text.
pub proof fn law_fresh_and_reset_have_no_text(rows: nat, cols: nat, s: ScreenState)
    requires
        s.wf(),
    ensures
        screen_text(initial_state(rows, cols).lines) == Seq::<char>::empty(),
        screen_text(esc_applied(s, 99).lines) == Seq::<char>::empty(),
        esc_applied(s, 99).row == 0 && esc_applied(s, 99).col == 0,
        esc_applied(s, 99).pen == default_style(),
{
    let a = initial_state(rows, cols).lines;
    assert forall|i: int, j: int| 0 <= i < a.len() && 0 <= j < a[i].len() implies unicode_white_space(
        #[trigger] a[i][j].ch,
    ) by {}
    lemma_blank_lines_no_text(a);
    let b = esc_applied(s, 99).lines;
    assert forall|i: int, j: int| 0 <= i < b.len() && 0 <= j < b[i].len() implies unicode_white_space(
        #[trigger] b[i][j].ch,
    ) by {}
    lemma_blank_lines_no_text(b);
}

proof fn lemma_trim_end_last(s: Seq<char>)
    ensures
        trim_end(s).len() <= s.len(),
        trim_end(s).len() > 0 ==> !unicode_white_space(trim_end(s).last()),
    decreases s.len(),
{
    if s.len() > 0 && unicode_white_space(s.last()) {
        lemma_trim_end_last(s.drop_last());
    }
}

proof fn lemma_drop_empty_tail_last(ls: Seq<Seq<char>>)
    ensures
        drop_empty_tail(ls).len() <= ls.len(),
        drop_empty_tail(ls).len() > 0 ==> drop_empty_tail(ls).last().len() > 0,
        forall|i: int| 0 <= i < drop_empty_tail(ls).len() ==> #[trigger] drop_empty_tail(ls)[i] == ls[i],
    decreases ls.len(),
{
    if ls.len() > 0 && ls.last().len() == 0 {
        lemma_drop_empty_tail_last(ls.drop_last());
    }
}

proof fn lemma_join_last(ls: Seq<Seq<char>>)
    requires
        ls.len() > 0,
        ls.last().len() > 0,
    ensures
        join_lines(ls).len() > 0,
        join_lines(ls).last() == ls.last().last(),
{
}

/// The text of a screen never ends in white space (nor in a newline):
/// trailing blanks and trailing empty lines are trimmed.
pub proof fn law_text_has_no_trailing_blank(lines: Seq<Seq<Cell>>)
    ensures
        screen_text(lines).len() > 0 ==> !unicode_white_space(screen_text(lines).last()),
{
    let tl = trimmed_lines(lines);
    let d = drop_empty_tail(tl);
    lemma_drop_empty_tail_last(tl);
    if d.len() > 0 {
        let k = d.len() - 1;
        assert(d[k] == tl[k]);
        lemma_trim_end_last(row_chars(lines[k]));
        lemma_join_last(d);
    }
}

/// Moving the cursor up by `n` (CUU) and then down by `n` (CUD) restores the
/// row when the move up did not stop at the top; likewise left (CUB) then
/// right (CUF) restores the column when the move left did not stop at the
/// left edge and the cursor was on the screen.
pub proof fn law_cursor_moves_undo(s: ScreenState, n: u16)
    requires
        s.wf(),
        1 <= n,
    ensures
        n <= s.row ==> csi_applied(
            csi_applied(s, seq![seq![n]], Seq::empty(), 'A'),
            seq![seq![n]],
            Seq::empty(),
            'B',
        ).row == s.row,
        n <= s.col < s.cols ==> csi_applied(
            csi_applied(s, seq![seq![n]], Seq::empty(), 'D'),
            seq![seq![n]],
            Seq::empty(),
            'C',
        ).col == s.col,
{
}

/// Backspace after printing a character that did not wrap returns the
/// cursor to where the character was printed.
pub proof fn law_backspace_after_print(s: ScreenState, ch: char)
    requires
        s.wf(),
        s.col < s.cols,
    ensures
        executed(printed(s, ch), 8).col == s.col,
        executed(printed(s, ch), 8).row == s.row,
{
}

/// A horizontal tab moves to the next multiple of 8, or to the last column
/// when that is nearer; it never moves the cursor left unless the cursor sat
/// past the last column.
pub proof fn law_tab_stop(s: ScreenState)
    requires
        s.wf(),
    ensures
        ({
            let c = executed(s, 9).col;
            &&& c % 8 == 0 || c == s.cols - 1
            &&& c <= s.cols - 1
            &&& s.col < s.cols - 1 ==> c > s.col
        }),
{
    let c = tab_stop(s.col, s.cols);
    assert(((s.col / 8 + 1) * 8) % 8 == 0) by (nonlinear_arith);
    assert((s.col / 8 + 1) * 8 > s.col) by (nonlinear_arith);
}

/// Entering the alternate screen (CSI ? 1049 h) clears it, homes the cursor
/// and sets the flag; leaving it (CSI ? 1049 l) clears the flag and changes
/// nothing else.
pub proof fn law_alt_screen(s: ScreenState)
    requires
        s.wf(),
    ensures
        ({
            let on = csi_applied(s, seq![seq![1049u16]], seq![63u8], 'h');
            &&& on.alt_screen
            &&& on.row == 0 && on.col == 0
            &&& screen_text(on.lines) == Seq::<char>::empty()
        }),
        csi_applied(s, seq![seq![1049u16]], seq![63u8], 'l') == (ScreenState { alt_screen: false, ..s }),
{
    law_clear_leaves_no_text(s);
}

/// The runs of a line partition it: their texts, concatenated, are the
/// line's characters; no run is empty; every cell of a run has the run's
/// style; neighbouring runs differ in style.
pub proof fn law_style_runs_partition(line: Seq<Cell>)
    ensures
        ({
            let runs = style_runs(line);
            &&& runs.map_values(|r: (Seq<char>, Style)| r.0).flatten() == row_chars(line)
            &&& forall|k: int| 0 <= k < runs.len() ==> (#[trigger] runs[k]).0.len() > 0
            &&& forall|k: int| 1 <= k < runs.len() ==> (#[trigger] runs[k]).1 != runs[k - 1].1
            &&& runs.len() > 0 ==> runs.last().1 == line.last().style
            &&& forall|j: int| 0 <= j < line.len() ==> 0 <= #[trigger] run_index(line, j) < runs.len()
            &&& forall|j: int| 0 <= j < line.len() ==> (#[trigger] line[j]).style == runs[run_index(line, j)].1
        }),
    decreases line.len(),
{
    let runs = style_runs(line);
    if line.len() > 0 {
        let prefix = line.drop_last();
        law_style_runs_partition(prefix);
        let p = style_runs(prefix);
        let c = line.last();
        let texts_p = p.map_values(|r: (Seq<char>, Style)| r.0);
        let texts = runs.map_values(|r: (Seq<char>, Style)| r.0);
        assert(row_chars(line) =~= row_chars(prefix).push(c.ch));
        if p.len() > 0 && p.last().1 == c.style {
            assert(texts =~= texts_p.update(texts_p.len() - 1, texts_p.last().push(c.ch)));
            lemma_flatten_extend_last(texts_p, c.ch);
        } else {
            assert(texts =~= texts_p.push(seq![c.ch]));
            texts_p.lemma_flatten_push(seq![c.ch]);
            assert(texts_p.push(seq![c.ch]).flatten() =~= texts_p.flatten() + seq![c.ch]);
        }
        assert forall|j: int| 0 <= j < line.len() implies 0 <= #[trigger] run_index(line, j) < runs.len()
            && line[j].style == runs[run_index(line, j)].1 by {
            if j < line.len() - 1 {
                assert(line[j] == prefix[j]);
                assert(run_index(line, j) == run_index(prefix, j));
                assert(0 <= run_index(prefix, j) < p.len());
                assert(runs[run_index(prefix, j)].1 == p[run_index(prefix, j)].1);
            }
        }
    }
}

/// The run that cell `j` of `line` falls in.
pub open spec fn run_index(line: Seq<Cell>, j: int) -> int
    decreases line.len(),
{
    if line.len() == 0 || j < 0 {
        0
    } else if j < line.len() - 1 {
        run_index(line.drop_last(), j)
    } else {
        style_runs(line).len() - 1
    }
}

proof fn lemma_flatten_extend_last(ts: Seq<Seq<char>>, c: char)
    requires
        ts.len() > 0,
    ensures
        ts.update(ts.len() - 1, ts.last().push(c)).flatten() == ts.flatten().push(c),
{
    let n = ts.len() - 1;
    let init = ts.drop_last();
    assert(ts =~= init.push(ts.last()));
    init.lemma_flatten_push(ts.last());
    assert(ts.update(n, ts.last().push(c)) =~= init.push(ts.last().push(c)));
    init.lemma_flatten_push(ts.last().push(c));
    assert(init.flatten() + ts.last().push(c) =~= (init.flatten() + ts.last()).push(c));
}

// ---------------------------------------------------------------------------
// Behaviour of the actions, stated by explicit values
// ---------------------------------------------------------------------------

/// The cell that erasing and scrolling leave: a space with the pen's
/// background and every other attribute at its default.
pub open spec fn pen_blank(pen: Style) -> Cell {
    Cell {
        ch: ' ',
        style: Style {
            fg: Color::Default,
            bg: pen.bg,
            bold: false,
            italic: false,
            underline: false,
            inverse: false,
        },
    }
}

/// A pending wrap is a carriage return plus a line feed: printing with the
/// cursor past the last column is printing after CR LF. On the last line
/// the screen scrolls: every line moves up one, the top line is gone, and
/// the bottom line holds the character at column 0 followed by blanks.
/// Above the last line the character lands at the start of the next line
/// and no other cell changes.
pub proof fn law_pending_wrap(s: ScreenState, ch: char)
    requires
        s.wf(),
        s.col == s.cols,
    ensures
        printed(s, ch) == printed(executed(executed(s, 13), 10), ch),
        ({
            let t = printed(s, ch);
            &&& t.wf()
            &&& t.col == 1
            &&& t.pen == s.pen
            &&& s.row + 1 == s.rows ==> {
                &&& t.row == s.row
                &&& forall|i: int, j: int|
                    0 <= i < s.rows - 1 && 0 <= j < s.cols ==> #[trigger] t.cell(i, j) == s.cell(i + 1, j)
                &&& t.cell(s.rows - 1, 0) == (Cell { ch, style: s.pen })
                &&& forall|j: int| 1 <= j < s.cols ==> #[trigger] t.cell(s.rows - 1, j) == pen_blank(s.pen)
            }
            &&& s.row + 1 < s.rows ==> {
                &&& t.row == s.row + 1
                &&& t.cell(s.row + 1int, 0) == (Cell { ch, style: s.pen })
                &&& forall|i: int, j: int|
                    0 <= i < s.rows && 0 <= j < s.cols && !(i == s.row + 1 && j == 0) ==> #[trigger] t.cell(i, j)
                        == s.cell(i, j)
            }
        }),
{
    assert(executed(executed(s, 13), 10) =~= line_fed(ScreenState { col: 0, ..s }));
}

/// Horizontal and vertical position (HVP, `f`) is cursor position (CUP,
/// `H`): row from the first argument, column from the second, each a
/// 1-based count (missing or 0 meaning 1) clamped to the screen.
pub proof fn law_hvp_is_cup(s: ScreenState, ps: Seq<Seq<u16>>, inter: Seq<u8>)
    requires
        s.wf(),
    ensures
        csi_applied(s, ps, inter, 'f') == csi_applied(s, ps, inter, 'H'),
        ps.len() >= 2 && ps[0].len() >= 1 && ps[1].len() >= 1 && ps[0][0] >= 1 && ps[1][0] >= 1 ==> {
            let t = csi_applied(s, ps, inter, 'f');
            &&& t.row == if ps[0][0] <= s.rows { ps[0][0] - 1 } else { s.rows - 1 }
            &&& t.col == if ps[1][0] <= s.cols { ps[1][0] - 1 } else { s.cols - 1 }
            &&& t.lines == s.lines && t.pen == s.pen
        },
        ps.len() == 0 ==> csi_applied(s, ps, inter, 'f').row == 0 && csi_applied(s, ps, inter, 'f').col == 0,
{
}

/// Position with `f` then print puts the character there, as with `H`.
pub proof fn law_hvp_then_print(s: ScreenState, r: u16, c: u16, ch: char)
    requires
        s.wf(),
        1 <= r <= s.rows,
        1 <= c <= s.cols,
    ensures
        ({
            let moved = csi_applied(s, seq![seq![r], seq![c]], Seq::empty(), 'f');
            &&& moved.row == r - 1
            &&& moved.col == c - 1
            &&& printed(moved, ch).cell(r - 1, c - 1) == (Cell { ch, style: s.pen })
        }),
{
}

/// Erase in line clears, on the cursor's line only, the cells from the
/// cursor (clamped to the last column) to the end (mode 0), from the start
/// through the cursor (mode 1), or the whole line (any other mode); every
/// cleared cell becomes the pen's blank, whatever it held. Nothing else
/// changes.
pub proof fn law_erase_in_line(s: ScreenState, mode: u16)
    requires
        s.wf(),
    ensures
        ({
            let t = line_erased(s, mode);
            let last: int = if s.col < s.cols { s.col as int } else { s.cols - 1 };
            &&& t.wf()
            &&& t.row == s.row && t.col == s.col && t.pen == s.pen && t.alt_screen == s.alt_screen
            &&& forall|i: int, j: int|
                0 <= i < s.rows && 0 <= j < s.cols ==> #[trigger] t.cell(i, j) == if i == s.row && (if mode
                    == 0 {
                    j >= last
                } else if mode == 1 {
                    j <= last
                } else {
                    true
                }) {
                    pen_blank(s.pen)
                } else {
                    s.cell(i, j)
                }
        }),
{
    let t = line_erased(s, mode);
    assert forall|i: int| 0 <= i < s.rows implies (#[trigger] t.lines[i]).len() == s.cols by {}
}

/// Erase in display clears the cells from the cursor to the end of the
/// screen (mode 0), from the start of the screen through the cursor
/// (mode 1), or all of them (any other mode); every cleared cell becomes the
/// pen's blank. Nothing else changes.
pub proof fn law_erase_in_display(s: ScreenState, mode: u16)
    requires
        s.wf(),
    ensures
        ({
            let t = display_erased(s, mode);
            &&& t.wf()
            &&& t.row == s.row && t.col == s.col && t.pen == s.pen && t.alt_screen == s.alt_screen
            &&& forall|i: int, j: int|
                0 <= i < s.rows && 0 <= j < s.cols ==> #[trigger] t.cell(i, j) == if (if mode == 0 {
                    i > s.row || (i == s.row && j >= s.col)
                } else if mode == 1 {
                    i < s.row || (i == s.row && j <= s.col)
                } else {
                    true
                }) {
                    pen_blank(s.pen)
                } else {
                    s.cell(i, j)
                }
        }),
{
    let t = display_erased(s, mode);
    assert forall|i: int| 0 <= i < s.rows implies (#[trigger] t.lines[i]).len() == s.cols by {}
}

/// Interpreting a parameter of `b` inside `a + b` reads the same
/// parameters and moves on by the same amount.
proof fn lemma_sgr_step_shift(pen: Style, a: Seq<Seq<u16>>, b: Seq<Seq<u16>>, j: int)
    requires
        0 <= j < b.len(),
    ensures
        sgr_step(pen, a + b, a.len() + j).0 == sgr_step(pen, b, j).0,
        sgr_step(pen, a + b, a.len() + j).1 == sgr_step(pen, b, j).1 + a.len(),
{
    let ab = a + b;
    let i = a.len() + j;
    assert(ab[i] == b[j]);
    if j + 1 < b.len() {
        assert(ab[i + 1] == b[j + 1]);
    }
    if j + 2 < b.len() {
        assert(ab[i + 2] == b[j + 2]);
    }
    if j + 3 < b.len() {
        assert(ab[i + 3] == b[j + 3]);
    }
    if j + 4 < b.len() {
        assert(ab[i + 4] == b[j + 4]);
    }
    assert(extended_color(ab, i).0 == extended_color(b, j).0);
    assert(extended_color(ab, i).1 == extended_color(b, j).1 + a.len());
}

/// Interpreting `a + b` from the start of `b` is interpreting `b`.
proof fn lemma_sgr_from_shift(pen: Style, a: Seq<Seq<u16>>, b: Seq<Seq<u16>>, j: int)
    requires
        0 <= j <= b.len(),
    ensures
        sgr_from(pen, a + b, a.len() + j) == sgr_from(pen, b, j),
    decreases b.len() - j,
{
    if j < b.len() {
        lemma_sgr_step_shift(pen, a, b, j);
        crate::screen::lemma_sgr_step_advances(pen, b, j);
        let next = sgr_step(pen, b, j);
        lemma_sgr_from_shift(next.0, a, b, next.1);
    }
}

/// SGR composes over a complete group: when the first parameter of `ps1`
/// consumes exactly `ps1`, interpreting `ps1 + ps2` is interpreting `ps1`,
/// then `ps2`.
proof fn lemma_sgr_compose(pen: Style, ps1: Seq<Seq<u16>>, ps2: Seq<Seq<u16>>)
    requires
        ps1.len() >= 1,
        sgr_step(pen, ps1 + ps2, 0).1 == ps1.len(),
        sgr_step(pen, ps1, 0) == sgr_step(pen, ps1 + ps2, 0),
    ensures
        sgr_applied(pen, ps1 + ps2) == sgr_applied(sgr_applied(pen, ps1), ps2),
{
    let p = sgr_step(pen, ps1, 0).0;
    assert(sgr_from(p, ps1, ps1.len() as int) == p);
    lemma_sgr_from_shift(p, ps1, ps2, 0);
}

/// SGR over a complete extended-color group (`38;5;n`, `48;5;n`,
/// `38;2;r;g;b`, `48;2;r;g;b`, or the same as one parameter with
/// subparameters) sets exactly that color, and whatever follows is
/// interpreted after it: SGR composes over the group.
pub proof fn law_sgr_extended_color_composes(pen: Style, ps2: Seq<Seq<u16>>, n: u16, r: u16, g: u16, b: u16)
    ensures
        ({
            let fg256 = seq![seq![38u16], seq![5u16], seq![n]];
            let bg256 = seq![seq![48u16], seq![5u16], seq![n]];
            let fgrgb = seq![seq![38u16], seq![2u16], seq![r], seq![g], seq![b]];
            let bgrgb = seq![seq![48u16], seq![2u16], seq![r], seq![g], seq![b]];
            let fg256c = seq![seq![38u16, 5u16, n]];
            let bgrgbc = seq![seq![48u16, 2u16, r, g, b]];
            &&& sgr_applied(pen, fg256) == Style { fg: Color::Indexed(n as u8), ..pen }
            &&& sgr_applied(pen, bg256) == Style { bg: Color::Indexed(n as u8), ..pen }
            &&& sgr_applied(pen, fgrgb) == Style { fg: Color::Rgb(r as u8, g as u8, b as u8), ..pen }
            &&& sgr_applied(pen, bgrgb) == Style { bg: Color::Rgb(r as u8, g as u8, b as u8), ..pen }
            &&& sgr_applied(pen, fg256c) == Style { fg: Color::Indexed(n as u8), ..pen }
            &&& sgr_applied(pen, bgrgbc) == Style { bg: Color::Rgb(r as u8, g as u8, b as u8), ..pen }
            &&& sgr_applied(pen, fg256 + ps2) == sgr_applied(sgr_applied(pen, fg256), ps2)
            &&& sgr_applied(pen, bg256 + ps2) == sgr_applied(sgr_applied(pen, bg256), ps2)
            &&& sgr_applied(pen, fgrgb + ps2) == sgr_applied(sgr_applied(pen, fgrgb), ps2)
            &&& sgr_applied(pen, bgrgb + ps2) == sgr_applied(sgr_applied(pen, bgrgb), ps2)
            &&& sgr_applied(pen, fg256c + ps2) == sgr_applied(sgr_applied(pen, fg256c), ps2)
            &&& sgr_applied(pen, bgrgbc + ps2) == sgr_applied(sgr_applied(pen, bgrgbc), ps2)
        }),
{
    let fg256 = seq![seq![38u16], seq![5u16], seq![n]];
    let bg256 = seq![seq![48u16], seq![5u16], seq![n]];
    let fgrgb = seq![seq![38u16], seq![2u16], seq![r], seq![g], seq![b]];
    let bgrgb = seq![seq![48u16], seq![2u16], seq![r], seq![g], seq![b]];
    let fg256c = seq![seq![38u16, 5u16, n]];
    let bgrgbc = seq![seq![48u16, 2u16, r, g, b]];
    let ps = seq![fg256, bg256, fgrgb, bgrgb, fg256c, bgrgbc];
    assert forall|k: int| 0 <= k < 6 implies {
        let ps1 = #[trigger] ps[k];
        &&& sgr_step(pen, ps1, 0) == sgr_step(pen, ps1 + ps2, 0)
        &&& sgr_step(pen, ps1 + ps2, 0).1 == ps1.len()
        &&& sgr_from(sgr_step(pen, ps1, 0).0, ps1, ps1.len() as int) == sgr_step(pen, ps1, 0).0
    } by {
        let ps1 = ps[k];
        let ab = ps1 + ps2;
        assert forall|m: int| 0 <= m < ps1.len() implies #[trigger] ab[m] == ps1[m] by {}
    }
    assert(ps[0] == fg256);
    assert(ps[1] == bg256);
    assert(ps[2] == fgrgb);
    assert(ps[3] == bgrgb);
    assert(ps[4] == fg256c);
    assert(ps[5] == bgrgbc);
    lemma_sgr_compose(pen, fg256, ps2);
    lemma_sgr_compose(pen, bg256, ps2);
    lemma_sgr_compose(pen, fgrgb, ps2);
    lemma_sgr_compose(pen, bgrgb, ps2);
    lemma_sgr_compose(pen, fg256c, ps2);
    lemma_sgr_compose(pen, bgrgbc, ps2);
}

/// SGR composes over any one-value parameter other than 38 and 48, and
/// those parameters have their documented effect: 0 resets, 1/3/4/7 set and
/// 22/23/24/27 clear bold/italic/underline/inverse, 30-37 and 90-97 pick
/// foreground colors 0-7 and 8-15, 40-47 and 100-107 the same backgrounds,
/// 39/49 restore the default colors, anything else changes nothing.
pub proof fn law_sgr_simple_codes(pen: Style, code: u16, ps2: Seq<Seq<u16>>)
    requires
        code != 38 && code != 48,
    ensures
        sgr_applied(pen, seq![seq![code]] + ps2) == sgr_applied(sgr_applied(pen, seq![seq![code]]), ps2),
        ({
            let p = sgr_applied(pen, seq![seq![code]]);
            p == if code == 0 {
                default_style()
            } else if code == 1 {
                Style { bold: true, ..pen }
            } else if code == 3 {
                Style { italic: true, ..pen }
            } else if code == 4 {
                Style { underline: true, ..pen }
            } else if code == 7 {
                Style { inverse: true, ..pen }
            } else if code == 22 {
                Style { bold: false, ..pen }
            } else if code == 23 {
                Style { italic: false, ..pen }
            } else if code == 24 {
                Style { underline: false, ..pen }
            } else if code == 27 {
                Style { inverse: false, ..pen }
            } else if 30 <= code <= 37 {
                Style { fg: Color::Indexed((code - 30) as u8), ..pen }
            } else if 90 <= code <= 97 {
                Style { fg: Color::Indexed((code - 82) as u8), ..pen }
            } else if 40 <= code <= 47 {
                Style { bg: Color::Indexed((code - 40) as u8), ..pen }
            } else if 100 <= code <= 107 {
                Style { bg: Color::Indexed((code - 92) as u8), ..pen }
            } else if code == 39 {
                Style { fg: Color::Default, ..pen }
            } else if code == 49 {
                Style { bg: Color::Default, ..pen }
            } else {
                pen
            }
        }),
{
    let ps1 = seq![seq![code]];
    let ab = ps1 + ps2;
    assert(ab[0] == ps1[0]);
    assert(sgr_from(sgr_step(pen, ps1, 0).0, ps1, 1) == sgr_step(pen, ps1, 0).0);
    lemma_sgr_compose(pen, ps1, ps2);
}

/// Inverse swaps the colors a style is drawn with: the text takes the
/// background (the window's, 0x14141c, where it is transparent) and the
/// background becomes the foreground the style would have without inverse.
/// Without inverse, a default background is transparent and any other is
/// drawn; a default foreground is 0xd8d8d8; bold draws the eight base colors
/// as their bright counterparts and changes nothing else.
pub proof fn law_resolve_colors(st: Style)
    ensures
        ({
            let plain = resolved_colors(Style { inverse: false, ..st });
            let window = Rgb { r: 0x14, g: 0x14, b: 0x1c };
            st.inverse ==> resolved_colors(st) == (
                match plain.1 {
                    Some(b) => b,
                    None => window,
                },
                Some(plain.0),
            )
        }),
        !st.inverse ==> (resolved_colors(st).1 is None <==> st.bg == Color::Default),
        !st.inverse && st.fg == Color::Default ==> resolved_colors(st).0 == (Rgb { r: 0xd8, g: 0xd8, b: 0xd8 }),
        !st.inverse && st.bg != Color::Default ==> resolved_colors(st).1 == Some(
            resolved_colors(Style { bg: Color::Default, fg: st.bg, inverse: false, bold: false, ..st }).0,
        ),
        ({
            let unbold = Style { bold: false, ..st };
            &&& st.bold && (st.fg matches Color::Indexed(i) && i <= 7) ==> resolved_colors(st) == resolved_colors(
                Style { fg: Color::Indexed((st.fg->Indexed_0 + 8) as u8), ..unbold },
            )
            &&& !(st.fg matches Color::Indexed(i) && i <= 7) ==> resolved_colors(st) == resolved_colors(unbold)
        }),
{
}

/// The 256-color palette: entries 16 to 231 are the 6x6x6 cube, each
/// channel step `v` being 0 for `v == 0` and `55 + 40 v` otherwise;
/// entries 232 to 255 are grays from 8 in steps of 10; the first eight
/// ANSI colors are darker than their bright counterparts.
pub proof fn law_palette(r: u8, g: u8, b: u8, k: u8)
    requires
        r < 6 && g < 6 && b < 6,
        k < 24,
    ensures
        palette((16 + 36 * r + 6 * g + b) as u8) == (Rgb {
            r: (if r == 0 { 0 } else { 55 + 40 * r }) as u8,
            g: (if g == 0 { 0 } else { 55 + 40 * g }) as u8,
            b: (if b == 0 { 0 } else { 55 + 40 * b }) as u8,
        }),
        palette((232 + k) as u8) == (Rgb { r: (8 + 10 * k) as u8, g: (8 + 10 * k) as u8, b: (8 + 10 * k) as u8 }),
        forall|i: u8| #![trigger palette(i)] 1 <= i <= 6 ==> {
            let dark = palette(i);
            let bright = palette((i + 8) as u8);
            dark.r <= bright.r && dark.g <= bright.g && dark.b <= bright.b
        },
{
    let i = (16 + 36 * r + 6 * g + b) as int;
    let m = i - 16;
    assert(m == 36 * r + 6 * g + b);
    assert(m / 36 == r as int) by (nonlinear_arith)
        requires
            m == 36 * r + 6 * g + b,
            r < 6 && g < 6 && b < 6,
    ;
    assert((m / 6) % 6 == g as int) by (nonlinear_arith)
        requires
            m == 36 * r + 6 * g + b,
            r < 6 && g < 6 && b < 6,
    ;
    assert(m % 6 == b as int) by (nonlinear_arith)
        requires
            m == 36 * r + 6 * g + b,
            r < 6 && g < 6 && b < 6,
    ;
}

/// The blank that erasing and scrolling use is the pen's background on a
/// space, and nothing else of the pen.
pub proof fn law_blank_is_pen_background(pen: Style)
    ensures
        blank_for(pen) == pen_blank(pen),
{
}

/// The control bytes: carriage return goes to column 0, backspace one
/// column left (stopping at 0), a tab to the next multiple of 8 (at most the
/// last column), line feed, vertical tab and form feed one line down; none
/// of the first three changes the cells, the row or the pen; every other
/// byte changes nothing.
pub proof fn law_control_bytes(s: ScreenState, byte: u8)
    requires
        s.wf(),
    ensures
        executed(s, 13) == (ScreenState { col: 0, ..s }),
        executed(s, 8) == (ScreenState { col: if s.col >= 1 { (s.col - 1) as nat } else { 0 }, ..s }),
        ({
            let c = executed(s, 9).col;
            &&& executed(s, 9) == (ScreenState { col: c, ..s })
            &&& c <= s.cols - 1
            &&& c == s.cols - 1 || (c % 8 == 0 && s.col < c <= s.col + 8)
            &&& s.col + 8 - s.col % 8 <= s.cols - 1 ==> c == s.col + 8 - s.col % 8
        }),
        executed(s, 10) == executed(s, 11) && executed(s, 11) == executed(s, 12),
        executed(s, 10).col == s.col,
        s.row + 1 < s.rows ==> executed(s, 10) == (ScreenState { row: s.row + 1, ..s }),
        byte != 8 && byte != 9 && byte != 10 && byte != 11 && byte != 12 && byte != 13 ==> executed(s, byte) == s,
{
    let c = tab_stop(s.col, s.cols);
    assert(((s.col / 8 + 1) * 8) as int == s.col + 8 - s.col % 8) by (nonlinear_arith);
}

/// Cursor movement by `n` (missing or 0 meaning 1): up (CUU `A`) and left
/// (CUB `D`) stop at the edge, down (CUD `B`) and right (CUF `C`) stop at
/// the last line or column; column (CHA `G`) and line (VPA `d`) absolute,
/// 1-based, clamped. Only the cursor moves.
pub proof fn law_cursor_motion(s: ScreenState, ps: Seq<Seq<u16>>, inter: Seq<u8>)
    requires
        s.wf(),
        crate::params::groups_nonempty(ps),
    ensures
        ({
            let n: int = if ps.len() >= 1 && ps[0][0] != 0 { ps[0][0] as int } else { 1 };
            &&& csi_applied(s, ps, inter, 'A') == (ScreenState { row: (if s.row >= n { s.row - n } else { 0 }) as nat, ..s })
            &&& csi_applied(s, ps, inter, 'B') == (ScreenState {
                row: (if s.row + n <= s.rows - 1 { s.row + n } else { s.rows - 1 }) as nat,
                ..s
            })
            &&& csi_applied(s, ps, inter, 'C') == (ScreenState {
                col: (if s.col + n <= s.cols - 1 { s.col + n } else { s.cols - 1 }) as nat,
                ..s
            })
            &&& csi_applied(s, ps, inter, 'D') == (ScreenState { col: (if s.col >= n { s.col - n } else { 0 }) as nat, ..s })
            &&& csi_applied(s, ps, inter, 'G') == (ScreenState {
                col: (if n <= s.cols { n - 1 } else { s.cols - 1 }) as nat,
                ..s
            })
            &&& csi_applied(s, ps, inter, 'd') == (ScreenState {
                row: (if n <= s.rows { n - 1 } else { s.rows - 1 }) as nat,
                ..s
            })
        }),
{
}

/// ED (`J`) and EL (`K`) take their mode from the first argument, 0 when
/// there is none; SGR (`m`) changes the pen only.
pub proof fn law_csi_erase_and_sgr(s: ScreenState, ps: Seq<Seq<u16>>, inter: Seq<u8>)
    requires
        s.wf(),
    ensures
        csi_applied(s, ps, inter, 'J') == display_erased(s, if ps.len() > 0 { ps[0][0] } else { 0 }),
        csi_applied(s, ps, inter, 'K') == line_erased(s, if ps.len() > 0 { ps[0][0] } else { 0 }),
        csi_applied(s, ps, inter, 'm') == (ScreenState { pen: sgr_applied(s.pen, ps), ..s }),
{
}

/// The alternate screen is switched only by the DEC private modes 1049 and
/// 47 (`CSI ? 1049 h` / `l`); without the `?` marker, or with another mode,
/// `h` and `l` change nothing.
pub proof fn law_alt_screen_modes(s: ScreenState, m: u16, inter: Seq<u8>)
    requires
        s.wf(),
    ensures
        inter != seq![63u8] ==> csi_applied(s, seq![seq![m]], inter, 'h') == s && csi_applied(
            s,
            seq![seq![m]],
            inter,
            'l',
        ) == s,
        m != 1049 && m != 47 ==> csi_applied(s, seq![seq![m]], seq![63u8], 'h') == s && csi_applied(
            s,
            seq![seq![m]],
            seq![63u8],
            'l',
        ) == s,
        csi_applied(s, seq![seq![47u16]], seq![63u8], 'h') == csi_applied(
            s,
            seq![seq![1049u16]],
            seq![63u8],
            'h',
        ),
        csi_applied(s, seq![seq![47u16]], seq![63u8], 'l') == (ScreenState { alt_screen: false, ..s }),
{
}

/// A full reset (`ESC c`) makes every cell a space in the default style,
/// homes the cursor, resets the pen and keeps the size and the
/// alternate-screen flag; any other final byte changes nothing.
pub proof fn law_full_reset(s: ScreenState, byte: u8)
    requires
        s.wf(),
    ensures
        ({
            let t = esc_applied(s, 99);
            &&& t.wf()
            &&& t.rows == s.rows && t.cols == s.cols && t.alt_screen == s.alt_screen
            &&& t.row == 0 && t.col == 0 && t.pen == default_style()
            &&& forall|i: int, j: int|
                0 <= i < s.rows && 0 <= j < s.cols ==> #[trigger] t.cell(i, j) == (Cell { ch: ' ', style: default_style() })
        }),
        byte != 99 ==> esc_applied(s, byte) == s,
{
    let t = esc_applied(s, 99);
    assert forall|i: int| 0 <= i < s.rows implies (#[trigger] t.lines[i]).len() == s.cols by {}
}

/// A fresh screen: every cell a space in the default style, the cursor at
/// the top left, the default pen, the main screen.
pub proof fn law_fresh_screen(rows: nat, cols: nat)
    requires
        rows >= 1 && cols >= 1,
    ensures
        ({
            let t = initial_state(rows, cols);
            &&& t.wf()
            &&& t.rows == rows && t.cols == cols
            &&& t.row == 0 && t.col == 0 && t.pen == default_style() && !t.alt_screen
            &&& forall|i: int, j: int|
                0 <= i < rows && 0 <= j < cols ==> #[trigger] t.cell(i, j) == (Cell { ch: ' ', style: default_style() })
        }),
{
}

/// An extended color that is not complete selects nothing: `38;5` and
/// `38;2;r;g` at the end of the list change nothing and consume the rest;
/// `38;k` with any other `k` skips `k` and goes on with what follows.
pub proof fn law_sgr_incomplete_extended(pen: Style, code: u16, k: u16, r: u16, g: u16, ps2: Seq<Seq<u16>>)
    requires
        code == 38 || code == 48,
        k != 2 && k != 5,
    ensures
        sgr_applied(pen, seq![seq![code], seq![5u16]]) == pen,
        sgr_applied(pen, seq![seq![code], seq![2u16], seq![r], seq![g]]) == pen,
        sgr_applied(pen, seq![seq![code]]) == pen,
        sgr_applied(pen, seq![seq![code], seq![k]] + ps2) == sgr_applied(pen, ps2),
{
    let ps = seq![seq![code], seq![k]] + ps2;
    assert(ps[0] == seq![code]);
    assert(ps[1] == seq![k]);
    assert(sgr_step(pen, ps, 0) == (pen, 2int));
    lemma_sgr_from_shift(pen, seq![seq![code], seq![k]], ps2, 0);
    assert(sgr_from(pen, seq![seq![code], seq![5u16]], 2) == pen);
    assert(sgr_from(pen, seq![seq![code]], 1) == pen);
    assert(sgr_from(pen, seq![seq![code], seq![2u16], seq![r], seq![g]], 4) == pen);
}

/// The bytes of the editing and cursor keys, whatever modifiers are held,
/// and of Ctrl+letter: the letter's position in the alphabet (Ctrl+A is 1,
/// Ctrl+Z is 26), unless Alt is held too. Other keys send nothing of their
/// own.
pub proof fn law_key_bytes(m: Modifiers, c: char)
    ensures
        key_bytes(Key::Enter, m) == Some(seq![13u8]),
        key_bytes(Key::Tab, m) == Some(seq![9u8]),
        key_bytes(Key::Backspace, m) == Some(seq![127u8]),
        key_bytes(Key::Escape, m) == Some(seq![27u8]),
        key_bytes(Key::ArrowUp, m) == Some(seq![27u8, 91, 65]),
        key_bytes(Key::ArrowDown, m) == Some(seq![27u8, 91, 66]),
        key_bytes(Key::ArrowRight, m) == Some(seq![27u8, 91, 67]),
        key_bytes(Key::ArrowLeft, m) == Some(seq![27u8, 91, 68]),
        key_bytes(Key::Home, m) == Some(seq![27u8, 91, 72]),
        key_bytes(Key::End, m) == Some(seq![27u8, 91, 70]),
        key_bytes(Key::Insert, m) == Some(seq![27u8, 91, 50, 126]),
        key_bytes(Key::Delete, m) == Some(seq![27u8, 91, 51, 126]),
        key_bytes(Key::PageUp, m) == Some(seq![27u8, 91, 53, 126]),
        key_bytes(Key::PageDown, m) == Some(seq![27u8, 91, 54, 126]),
        m.ctrl && !m.alt && 'A' <= c <= 'Z' ==> key_bytes(Key::Char(c), m) == Some(seq![(c as u32 - 64) as u8])
            && 1 <= (c as u32 - 64) <= 26,
        !(m.ctrl && !m.alt && 'A' <= c <= 'Z') ==> key_bytes(Key::Char(c), m) is None,
        key_bytes(Key::Other, m) is None,
{
}

/// The 16 ANSI colors of the palette.
pub proof fn law_ansi_colors()
    ensures
        palette(0) == (Rgb { r: 0x00, g: 0x00, b: 0x00 }),
        palette(1) == (Rgb { r: 0xcd, g: 0x00, b: 0x00 }),
        palette(2) == (Rgb { r: 0x00, g: 0xcd, b: 0x00 }),
        palette(3) == (Rgb { r: 0xcd, g: 0xcd, b: 0x00 }),
        palette(4) == (Rgb { r: 0x2e, g: 0x6c, b: 0xff }),
        palette(5) == (Rgb { r: 0xcd, g: 0x00, b: 0xcd }),
        palette(6) == (Rgb { r: 0x00, g: 0xcd, b: 0xcd }),
        palette(7) == (Rgb { r: 0xe5, g: 0xe5, b: 0xe5 }),
        palette(8) == (Rgb { r: 0x7f, g: 0x7f, b: 0x7f }),
        palette(9) == (Rgb { r: 0xff, g: 0x4b, b: 0x4b }),
        palette(10) == (Rgb { r: 0x00, g: 0xff, b: 0x00 }),
        palette(11) == (Rgb { r: 0xff, g: 0xff, b: 0x00 }),
        palette(12) == (Rgb { r: 0x5c, g: 0x8c, b: 0xff }),
        palette(13) == (Rgb { r: 0xff, g: 0x00, b: 0xff }),
        palette(14) == (Rgb { r: 0x00, g: 0xff, b: 0xff }),
        palette(15) == (Rgb { r: 0xff, g: 0xff, b: 0xff }),
{
}

/// The bytes of a sequence of events are the bytes of its parts in order:
/// events compose by concatenation. Typed and pasted text is sent as UTF-8;
/// a released key or any other event sends nothing.
pub proof fn law_input_bytes_compose(a: Seq<InputEvent>, b: Seq<InputEvent>, k: Key, m: Modifiers)
    ensures
        events_bytes(a + b) == events_bytes(a) + events_bytes(b),
        event_bytes(InputEvent::Key { key: k, pressed: false, modifiers: m }) == Seq::<u8>::empty(),
        event_bytes(InputEvent::Other) == Seq::<u8>::empty(),
        events_bytes(seq![InputEvent::Other]) == Seq::<u8>::empty(),
    decreases b.len(),
{
    if b.len() > 0 {
        law_input_bytes_compose(a, b.drop_last(), k, m);
        assert((a + b).drop_last() =~= a + b.drop_last());
        assert((a + b).last() == b.last());
        assert(events_bytes(a) + events_bytes(b.drop_last()) + event_bytes(b.last()) =~= events_bytes(a) + (
        events_bytes(b.drop_last()) + event_bytes(b.last())));
    } else {
        assert(a + b =~= a);
    }
    assert(seq![InputEvent::Other].drop_last() =~= Seq::<InputEvent>::empty());
    assert(seq![InputEvent::Other].last() == InputEvent::Other);
    assert(events_bytes(Seq::<InputEvent>::empty()) == Seq::<u8>::empty());
    assert(Seq::<u8>::empty() + Seq::<u8>::empty() =~= Seq::<u8>::empty());
}

/// Trimming keeps a prefix: what it removes is white space only, and what
/// it keeps is empty or ends in a character that is not white space.
pub proof fn law_trim_end(s: Seq<char>)
    ensures
        ({
            let t = trim_end(s);
            &&& t.len() <= s.len()
            &&& t == s.take(t.len() as int)
            &&& forall|j: int| t.len() <= j < s.len() ==> unicode_white_space(#[trigger] s[j])
            &&& t.len() > 0 ==> !unicode_white_space(t.last())
        }),
    decreases s.len(),
{
    if s.len() > 0 && unicode_white_space(s.last()) {
        law_trim_end(s.drop_last());
        let t = trim_end(s.drop_last());
        assert(t == s.drop_last().take(t.len() as int));
        assert(s.drop_last().take(t.len() as int) =~= s.take(t.len() as int));
        assert forall|j: int| t.len() <= j < s.len() implies unicode_white_space(#[trigger] s[j]) by {
            if j < s.len() - 1 {
                assert(s[j] == s.drop_last()[j]);
            }
        }
    } else {
        assert(s.take(s.len() as int) =~= s);
    }
}

proof fn lemma_join_concat(x: Seq<Seq<char>>, y: Seq<Seq<char>>)
    requires
        x.len() > 0,
        y.len() > 0,
    ensures
        join_lines(x + y) == join_lines(x) + seq!['\n'] + join_lines(y),
    decreases y.len(),
{
    assert((x + y).drop_last() =~= x + y.drop_last());
    assert((x + y).last() == y.last());
    if y.len() == 1 {
        assert(x + y.drop_last() =~= x);
    } else {
        lemma_join_concat(x, y.drop_last());
        assert(join_lines(x) + seq!['\n'] + join_lines(y.drop_last()) + seq!['\n'] + y.last() =~= join_lines(
            x,
        ) + seq!['\n'] + (join_lines(y.drop_last()) + seq!['\n'] + y.last()));
    }
}

/// The text of a line is its characters with the trailing white space
/// trimmed.
pub open spec fn line_text(l: Seq<Cell>) -> Seq<char> {
    trim_end(row_chars(l))
}

/// How the text of a screen is built from its lines: one line gives its
/// trimmed characters; a line of white space only at the bottom adds
/// nothing; two blocks of lines that each end in a non-empty line give
/// their texts joined by a newline; a line with no text on top of such a
/// block adds a newline in front.
pub proof fn law_text_of_lines(l: Seq<Cell>, lines: Seq<Seq<Cell>>, a: Seq<Seq<Cell>>, b: Seq<Seq<Cell>>)
    ensures
        screen_text(seq![l]) == line_text(l),
        screen_text(Seq::<Seq<Cell>>::empty()) == Seq::<char>::empty(),
        (forall|j: int| 0 <= j < l.len() ==> unicode_white_space(#[trigger] l[j].ch)) ==> screen_text(
            lines.push(l),
        ) == screen_text(lines),
        a.len() > 0 && b.len() > 0 && line_text(a.last()).len() > 0 && line_text(b.last()).len() > 0
            ==> screen_text(a + b) == screen_text(a) + seq!['\n'] + screen_text(b),
        b.len() > 0 && line_text(b.last()).len() > 0 && line_text(l).len() == 0 ==> screen_text(
            seq![l] + b,
        ) == seq!['\n'] + screen_text(b),
{
    // One line.
    let t1 = trimmed_lines(seq![l]);
    assert(t1 =~= seq![line_text(l)]);
    if line_text(l).len() == 0 {
        assert(t1.drop_last() =~= Seq::<Seq<char>>::empty());
        assert(drop_empty_tail(t1) == drop_empty_tail(Seq::<Seq<char>>::empty()));
        assert(drop_empty_tail(t1).len() == 0);
        assert(line_text(l) =~= Seq::<char>::empty());
    } else {
        assert(drop_empty_tail(t1) == t1);
        assert(join_lines(t1) == t1[0]);
    }
    // A blank line at the bottom.
    if forall|j: int| 0 <= j < l.len() ==> unicode_white_space(#[trigger] l[j].ch) {
        assert forall|j: int| 0 <= j < row_chars(l).len() implies unicode_white_space(
            #[trigger] row_chars(l)[j],
        ) by {}
        lemma_trim_all_white(row_chars(l));
        let tp = trimmed_lines(lines.push(l));
        assert(tp.drop_last() =~= trimmed_lines(lines));
    }
    // Two blocks.
    if a.len() > 0 && b.len() > 0 && line_text(a.last()).len() > 0 && line_text(b.last()).len() > 0 {
        let ta = trimmed_lines(a);
        let tb = trimmed_lines(b);
        assert(trimmed_lines(a + b) =~= ta + tb);
        assert(ta.last() == line_text(a.last()));
        assert(tb.last() == line_text(b.last()));
        assert((ta + tb).last() == tb.last());
        lemma_join_concat(ta, tb);
    }
    // An empty line on top.
    if b.len() > 0 && line_text(b.last()).len() > 0 && line_text(l).len() == 0 {
        let tb = trimmed_lines(b);
        assert(trimmed_lines(seq![l] + b) =~= seq![line_text(l)] + tb);
        assert(tb.last() == line_text(b.last()));
        assert((seq![line_text(l)] + tb).last() == tb.last());
        lemma_join_concat(seq![line_text(l)], tb);
        assert(line_text(l) =~= Seq::<char>::empty());
        assert(join_lines(seq![line_text(l)]) == line_text(l));
        assert(Seq::<char>::empty() + seq!['\n'] + join_lines(tb) =~= seq!['\n'] + join_lines(tb));
    }
}

/// What one event sends: typed and pasted text as its UTF-8 bytes, a key
/// press its encoding (nothing for a key without one), a release nothing.
pub proof fn law_event_bytes(t: String, k: Key, m: Modifiers)
    ensures
        event_bytes(InputEvent::Text(t)) == vstd::utf8::encode_utf8(t@),
        event_bytes(InputEvent::Paste(t)) == vstd::utf8::encode_utf8(t@),
        event_bytes(InputEvent::Key { key: k, pressed: true, modifiers: m }) == match key_bytes(k, m) {
            Some(b) => b,
            None => Seq::<u8>::empty(),
        },
        events_bytes(seq![InputEvent::Key { key: k, pressed: true, modifiers: m }]) == event_bytes(
            InputEvent::Key { key: k, pressed: true, modifiers: m },
        ),
{
    let e = InputEvent::Key { key: k, pressed: true, modifiers: m };
    assert(seq![e].drop_last() =~= Seq::<InputEvent>::empty());
    assert(seq![e].last() == e);
    assert(events_bytes(Seq::<InputEvent>::empty()) == Seq::<u8>::empty());
    assert(events_bytes(seq![e]) == events_bytes(seq![e].drop_last()) + event_bytes(seq![e].last()));
    assert(Seq::<u8>::empty() + event_bytes(e) =~= event_bytes(e));
}

/// A cell color's value: a 24-bit color is itself, an indexed one its
/// palette entry, the default color the given default.
pub proof fn law_color_values(r: u8, g: u8, b: u8, i: u8, d: Rgb)
    ensures
        color_rgb(Color::Rgb(r, g, b), d) == (Rgb { r, g, b }),
        color_rgb(Color::Indexed(i), d) == palette(i),
        color_rgb(Color::Default, d) == d,
{
}

} // verus!
