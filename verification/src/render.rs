//! What a graphical front end needs from the model: the xterm 256-color
//! palette, the colors a cell style is drawn with, a line split into runs of
//! one style, and the bytes a key press sends to the shell.

use vstd::prelude::*;
use crate::style::{Cell, Color, Style};
use vstd::utf8::encode_utf8;

verus! {

/// A 24-bit color, one byte per channel.
#[derive(Clone, Copy, PartialEq, Eq, Debug, Structural)]
pub struct Rgb {
    pub r: u8,
    pub g: u8,
    pub b: u8,
}

pub open spec fn rgb(r: u8, g: u8, b: u8) -> Rgb {
    Rgb { r, g, b }
}

/// The foreground of cells with the default color.
pub open spec fn default_fg() -> Rgb {
    rgb(0xd8, 0xd8, 0xd8)
}

/// The background of the window.
pub open spec fn default_bg() -> Rgb {
    rgb(0x14, 0x14, 0x1c)
}

/// The 16 ANSI colors.
pub open spec fn ansi_color(i: u8) -> Rgb {
    if i == 0 {
        rgb(0x00, 0x00, 0x00)
    } else if i == 1 {
        rgb(0xcd, 0x00, 0x00)
    } else if i == 2 {
        rgb(0x00, 0xcd, 0x00)
    } else if i == 3 {
        rgb(0xcd, 0xcd, 0x00)
    } else if i == 4 {
        rgb(0x2e, 0x6c, 0xff)
    } else if i == 5 {
        rgb(0xcd, 0x00, 0xcd)
    } else if i == 6 {
        rgb(0x00, 0xcd, 0xcd)
    } else if i == 7 {
        rgb(0xe5, 0xe5, 0xe5)
    } else if i == 8 {
        rgb(0x7f, 0x7f, 0x7f)
    } else if i == 9 {
        rgb(0xff, 0x4b, 0x4b)
    } else if i == 10 {
        rgb(0x00, 0xff, 0x00)
    } else if i == 11 {
        rgb(0xff, 0xff, 0x00)
    } else if i == 12 {
        rgb(0x5c, 0x8c, 0xff)
    } else if i == 13 {
        rgb(0xff, 0x00, 0xff)
    } else if i == 14 {
        rgb(0x00, 0xff, 0xff)
    } else {
        rgb(0xff, 0xff, 0xff)
    }
}

/// The intensity of step `v` (0 to 5) of the 6x6x6 color cube.
pub open spec fn cube_level(v: int) -> int {
    if v == 0 {
        0
    } else {
        55 + 40 * v
    }
}

/// The xterm 256-color palette: 16 ANSI colors, a 6x6x6 cube, 24 grays.
pub open spec fn palette(i: u8) -> Rgb {
    if i <= 15 {
        ansi_color(i)
    } else if i <= 231 {
        let k = i - 16;
        rgb(cube_level(k / 36) as u8, cube_level((k / 6) % 6) as u8, cube_level(k % 6) as u8)
    } else {
        let g = (8 + 10 * (i - 232)) as u8;
        rgb(g, g, g)
    }
}

/// The RGB value of a cell color, `default` standing for `Color::Default`.
pub open spec fn color_rgb(c: Color, default: Rgb) -> Rgb {
    match c {
        Color::Default => default,
        Color::Rgb(r, g, b) => rgb(r, g, b),
        Color::Indexed(i) => palette(i),
    }
}

/// The colors a cell of `style` is drawn with: the foreground, and the
/// background, `None` standing for transparent. Bold brightens the 8 base
/// ANSI foreground colors; a default background is transparent; inverse
/// swaps the two, a transparent background becoming the window's.
pub open spec fn resolved_colors(style: Style) -> (Rgb, Option<Rgb>) {
    let fg = match style.fg {
        Color::Indexed(i) => if style.bold && i <= 7 {
            palette((i + 8) as u8)
        } else {
            palette(i)
        },
        _ => color_rgb(style.fg, default_fg()),
    };
    let bg = match style.bg {
        Color::Default => None,
        c => Some(color_rgb(c, default_bg())),
    };
    if style.inverse {
        (
            match bg {
                Some(b) => b,
                None => default_bg(),
            },
            Some(fg),
        )
    } else {
        (fg, bg)
    }
}

/// The entry `i` of the 16 ANSI colors.
fn ansi(i: u8) -> (c: Rgb)
    requires
        i <= 15,
    ensures
        c == ansi_color(i),
{
    let (r, g, b) = match i {
        0 => (0x00, 0x00, 0x00),
        1 => (0xcd, 0x00, 0x00),
        2 => (0x00, 0xcd, 0x00),
        3 => (0xcd, 0xcd, 0x00),
        4 => (0x2e, 0x6c, 0xff),
        5 => (0xcd, 0x00, 0xcd),
        6 => (0x00, 0xcd, 0xcd),
        7 => (0xe5, 0xe5, 0xe5),
        8 => (0x7f, 0x7f, 0x7f),
        9 => (0xff, 0x4b, 0x4b),
        10 => (0x00, 0xff, 0x00),
        11 => (0xff, 0xff, 0x00),
        12 => (0x5c, 0x8c, 0xff),
        13 => (0xff, 0x00, 0xff),
        14 => (0x00, 0xff, 0xff),
        _ => (0xff, 0xff, 0xff),
    };
    Rgb { r, g, b }
}

/// The intensity of step `v` of the color cube.
fn level(v: u8) -> (l: u8)
    requires
        v <= 5,
    ensures
        l as int == cube_level(v as int),
{
    if v == 0 {
        0
    } else {
        55 + 40 * v
    }
}

/// The xterm 256-color palette: 16 ANSI colors, a 6x6x6 cube, grayscale.
pub fn indexed_color(i: u8) -> (c: Rgb)
    ensures
        c == palette(i),
{
    if i <= 15 {
        ansi(i)
    } else if i <= 231 {
        let k = i - 16;
        Rgb { r: level(k / 36), g: level((k / 6) % 6), b: level(k % 6) }
    } else {
        let g = 8 + 10 * (i - 232);
        Rgb { r: g, g, b: g }
    }
}

/// The RGB value of a cell color, `default` standing for `Color::Default`.
pub fn color32(c: Color, default: Rgb) -> (v: Rgb)
    ensures
        v == color_rgb(c, default),
{
    match c {
        Color::Default => default,
        Color::Rgb(r, g, b) => Rgb { r, g, b },
        Color::Indexed(i) => indexed_color(i),
    }
}

/// The colors a cell of `style` is drawn with; see `resolved_colors`.
pub fn resolve_colors(style: Style) -> (colors: (Rgb, Option<Rgb>))
    ensures
        colors == resolved_colors(style),
{
    let default_fg = Rgb { r: 0xd8, g: 0xd8, b: 0xd8 };
    let default_bg = Rgb { r: 0x14, g: 0x14, b: 0x1c };
    let mut fg = color32(style.fg, default_fg);
    // Bold brightens the 8 base ANSI colors, the classic terminal behavior.
    if style.bold {
        match style.fg {
            Color::Indexed(i) => {
                if i <= 7 {
                    fg = color32(Color::Indexed(i + 8), default_fg);
                }
            },
            _ => {},
        }
    }
    let bg = match style.bg {
        Color::Default => None,
        c => Some(color32(c, default_bg)),
    };
    if style.inverse {
        let bg = match bg {
            Some(b) => b,
            None => default_bg,
        };
        (bg, Some(fg))
    } else {
        (fg, bg)
    }
}

// ---------------------------------------------------------------------------
// Style runs
// ---------------------------------------------------------------------------

/// A maximal stretch of cells of one style on a line.
pub struct Run {
    pub text: String,
    pub style: Style,
}

/// The runs of a line: consecutive cells of the same style merged.
pub open spec fn style_runs(line: Seq<Cell>) -> Seq<(Seq<char>, Style)>
    decreases line.len(),
{
    if line.len() == 0 {
        Seq::empty()
    } else {
        let prev = style_runs(line.drop_last());
        let c = line.last();
        if prev.len() > 0 && prev.last().1 == c.style {
            prev.update(prev.len() - 1, (prev.last().0.push(c.ch), c.style))
        } else {
            prev.push((seq![c.ch], c.style))
        }
    }
}

/// The text and style of each run.
pub open spec fn runs_view(runs: Seq<Run>) -> Seq<(Seq<char>, Style)> {
    runs.map_values(|r: Run| (r.text@, r.style))
}

/// One line of cells as runs of one style, consecutive same-style cells
/// merged into a single run.
pub fn layout_row(row: &Vec<Cell>) -> (runs: Vec<Run>)
    ensures
        runs_view(runs@) == style_runs(row@),
{
    let mut runs: Vec<Run> = Vec::new();
    let mut run = String::new();
    let mut run_style: Option<Style> = None;
    let mut j: usize = 0;
    proof {
        assert(row@.take(0) =~= Seq::<Cell>::empty());
    }
    while j < row.len()
        invariant
            j <= row.len(),
            j == 0 <==> run_style is None,
            match run_style {
                Some(st) => runs_view(runs@).push((run@, st)) == style_runs(row@.take(j as int)),
                None => runs_view(runs@) == style_runs(row@.take(j as int)),
            },
        decreases row.len() - j,
    {
        let cell = row[j];
        let ghost prefix = row@.take(j as int);
        proof {
            assert(row@.take(j as int + 1).drop_last() =~= prefix);
            assert(row@.take(j as int + 1).last() == cell);
        }
        let same = match run_style {
            Some(st) => st == cell.style,
            None => false,
        };
        if !same {
            match run_style {
                Some(st) => {
                    let ghost old_runs = runs_view(runs@);
                    runs.push(Run { text: run, style: st });
                    proof {
                        assert(runs_view(runs@) =~= old_runs.push((run@, st)));
                    }
                },
                None => {},
            }
            run = String::new();
            run_style = Some(cell.style);
        }
        let ghost before = run@;
        run.push(cell.ch);
        proof {
            if !same {
                assert(before =~= Seq::<char>::empty());
                assert(run@ =~= seq![cell.ch]);
            }
            let p = style_runs(prefix);
            if same {
                assert(p.len() > 0 && p.last().1 == cell.style);
                assert(runs_view(runs@).push((run@, cell.style)) =~= p.update(
                    p.len() - 1,
                    (p.last().0.push(cell.ch), cell.style),
                ));
            } else {
                assert(runs_view(runs@).push((run@, cell.style)) =~= p.push((seq![cell.ch], cell.style)));
            }
        }
        j = j + 1;
    }
    match run_style {
        Some(st) => {
            let ghost old_runs = runs_view(runs@);
            runs.push(Run { text: run, style: st });
            proof {
                assert(runs_view(runs@) =~= old_runs.push((run@, st)));
            }
        },
        None => {},
    }
    proof {
        assert(row@.take(row@.len() as int) =~= row@);
    }
    runs
}

// ---------------------------------------------------------------------------
// Keyboard
// ---------------------------------------------------------------------------

/// A key of the keyboard, as far as its encoding depends on it: the keys
/// with an escape sequence of their own, keys whose name is one character
/// (letters, digits, ...), and the others.
#[derive(Clone, Copy, PartialEq, Eq, Debug, Structural)]
pub enum Key {
    Enter,
    Tab,
    Backspace,
    Escape,
    ArrowUp,
    ArrowDown,
    ArrowRight,
    ArrowLeft,
    Home,
    End,
    Insert,
    Delete,
    PageUp,
    PageDown,
    Char(char),
    Other,
}

/// The modifier keys held during a key press.
#[derive(Clone, Copy, PartialEq, Eq, Debug, Structural)]
pub struct Modifiers {
    pub alt: bool,
    pub ctrl: bool,
}

/// The bytes a terminal sends for a key press, or `None` where the key
/// produces text (or nothing): fixed sequences for the editing and cursor
/// keys, and the C0 control byte for Ctrl (without Alt) and a letter.
pub open spec fn key_bytes(key: Key, mods: Modifiers) -> Option<Seq<u8>> {
    match key {
        Key::Enter => Some(seq![0x0du8]),
        Key::Tab => Some(seq![0x09u8]),
        Key::Backspace => Some(seq![0x7fu8]),
        Key::Escape => Some(seq![0x1bu8]),
        Key::ArrowUp => Some(seq![0x1bu8, 0x5b, 0x41]),
        Key::ArrowDown => Some(seq![0x1bu8, 0x5b, 0x42]),
        Key::ArrowRight => Some(seq![0x1bu8, 0x5b, 0x43]),
        Key::ArrowLeft => Some(seq![0x1bu8, 0x5b, 0x44]),
        Key::Home => Some(seq![0x1bu8, 0x5b, 0x48]),
        Key::End => Some(seq![0x1bu8, 0x5b, 0x46]),
        Key::Insert => Some(seq![0x1bu8, 0x5b, 0x32, 0x7e]),
        Key::Delete => Some(seq![0x1bu8, 0x5b, 0x33, 0x7e]),
        Key::PageUp => Some(seq![0x1bu8, 0x5b, 0x35, 0x7e]),
        Key::PageDown => Some(seq![0x1bu8, 0x5b, 0x36, 0x7e]),
        Key::Char(c) => if mods.ctrl && !mods.alt && 'A' <= c <= 'Z' {
            Some(seq![(c as u32 - 0x40) as u8])
        } else {
            None
        },
        Key::Other => None,
    }
}

/// Bytes a terminal sends for a non-text key press, or `None` if the key
/// produces regular text (or nothing).
pub fn encode_key(key: Key, mods: Modifiers) -> (bytes: Option<Vec<u8>>)
    ensures
        match bytes {
            Some(v) => key_bytes(key, mods) == Some(v@),
            None => key_bytes(key, mods) is None,
        },
{
    let seq: Vec<u8> = match key {
        Key::Enter => vec![0x0d],
        Key::Tab => vec![0x09],
        Key::Backspace => vec![0x7f],
        Key::Escape => vec![0x1b],
        Key::ArrowUp => vec![0x1b, 0x5b, 0x41],
        Key::ArrowDown => vec![0x1b, 0x5b, 0x42],
        Key::ArrowRight => vec![0x1b, 0x5b, 0x43],
        Key::ArrowLeft => vec![0x1b, 0x5b, 0x44],
        Key::Home => vec![0x1b, 0x5b, 0x48],
        Key::End => vec![0x1b, 0x5b, 0x46],
        Key::Insert => vec![0x1b, 0x5b, 0x32, 0x7e],
        Key::Delete => vec![0x1b, 0x5b, 0x33, 0x7e],
        Key::PageUp => vec![0x1b, 0x5b, 0x35, 0x7e],
        Key::PageDown => vec![0x1b, 0x5b, 0x36, 0x7e],
        Key::Char(c) => {
            // Ctrl+letter -> C0 control byte (Ctrl+C = 0x03, ...).
            if mods.ctrl && !mods.alt && 'A' <= c && c <= 'Z' {
                let code = (c as u32 - 0x40) as u8;
                return Some(vec![code]);
            }
            return None;
        },
        Key::Other => {
            return None;
        },
    };
    proof {
        assert(key_bytes(key, mods).unwrap() =~= seq@);
    }
    Some(seq)
}

/// An input event of the window, as far as the bytes sent to the shell
/// depend on it.
pub enum InputEvent {
    /// Text typed.
    Text(String),
    /// Text pasted.
    Paste(String),
    /// A key pressed or released.
    Key { key: Key, pressed: bool, modifiers: Modifiers },
    /// Anything else (pointer, focus, ...).
    Other,
}

/// The bytes one event sends: typed and pasted text as UTF-8, and the
/// encoding of a key press.
pub open spec fn event_bytes(e: InputEvent) -> Seq<u8> {
    match e {
        InputEvent::Text(s) => encode_utf8(s@),
        InputEvent::Paste(s) => encode_utf8(s@),
        InputEvent::Key { key, pressed, modifiers } => if pressed {
            match key_bytes(key, modifiers) {
                Some(b) => b,
                None => Seq::empty(),
            }
        } else {
            Seq::empty()
        },
        InputEvent::Other => Seq::empty(),
    }
}

/// The bytes a sequence of events sends, in order.
pub open spec fn events_bytes(es: Seq<InputEvent>) -> Seq<u8>
    decreases es.len(),
{
    if es.len() == 0 {
        Seq::empty()
    } else {
        events_bytes(es.drop_last()) + event_bytes(es.last())
    }
}

/// Appends `b` to `bytes`.
fn append_bytes(bytes: &mut Vec<u8>, b: &[u8])
    ensures
        final(bytes)@ == old(bytes)@ + b@,
{
    let mut k: usize = 0;
    while k < b.len()
        invariant
            k <= b.len(),
            bytes@ == old(bytes)@ + b@.take(k as int),
        decreases b.len() - k,
    {
        bytes.push(b[k]);
        k = k + 1;
        proof {
            assert(b@.take(k as int) =~= b@.take(k - 1).push(b@[k - 1]));
        }
    }
    proof {
        assert(b@.take(b.len() as int) =~= b@);
    }
}

/// The bytes a frame's input events send to the shell: typed and pasted
/// text, and the encodings of key presses.
pub fn input_bytes(events: &Vec<InputEvent>) -> (bytes: Vec<u8>)
    ensures
        bytes@ == events_bytes(events@),
{
    let mut bytes: Vec<u8> = Vec::new();
    let mut i: usize = 0;
    proof {
        assert(events@.take(0) =~= Seq::<InputEvent>::empty());
    }
    while i < events.len()
        invariant
            i <= events.len(),
            bytes@ == events_bytes(events@.take(i as int)),
        decreases events.len() - i,
    {
        proof {
            assert(events@.take(i + 1).drop_last() =~= events@.take(i as int));
        }
        match &events[i] {
            InputEvent::Text(s) => append_bytes(&mut bytes, s.as_str().as_bytes()),
            InputEvent::Paste(s) => append_bytes(&mut bytes, s.as_str().as_bytes()),
            InputEvent::Key { key, pressed, modifiers } => {
                if *pressed {
                    match encode_key(*key, *modifiers) {
                        Some(seq) => append_bytes(&mut bytes, seq.as_slice()),
                        None => {},
                    }
                }
            },
            InputEvent::Other => {},
        }
        i = i + 1;
    }
    proof {
        assert(events@.take(events@.len() as int) =~= events@);
    }
    bytes
}

} // verus!
