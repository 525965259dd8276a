use termax::render::{
    encode_key, indexed_color, input_bytes, layout_row, resolve_colors, InputEvent, Key, Modifiers, Rgb,
};
use termax::style::{Cell, Color, Style};

fn rgb(r: u8, g: u8, b: u8) -> Rgb {
    Rgb { r, g, b }
}

#[test]
fn palette_values() {
    assert_eq!(indexed_color(0), rgb(0, 0, 0));
    assert_eq!(indexed_color(9), rgb(0xff, 0x4b, 0x4b));
    assert_eq!(indexed_color(15), rgb(0xff, 0xff, 0xff));
    assert_eq!(indexed_color(16), rgb(0, 0, 0));
    assert_eq!(indexed_color(21), rgb(0, 0, 255));
    assert_eq!(indexed_color(100), rgb(135, 135, 0));
    assert_eq!(indexed_color(196), rgb(255, 0, 0));
    assert_eq!(indexed_color(231), rgb(255, 255, 255));
    assert_eq!(indexed_color(232), rgb(8, 8, 8));
    assert_eq!(indexed_color(255), rgb(238, 238, 238));
}

#[test]
fn resolved_colors() {
    let fg = rgb(0xd8, 0xd8, 0xd8);
    let bg = rgb(0x14, 0x14, 0x1c);
    assert_eq!(resolve_colors(Style::default()), (fg, None));
    let bold_red = Style { fg: Color::Indexed(1), bold: true, ..Style::default() };
    assert_eq!(resolve_colors(bold_red), (rgb(0xff, 0x4b, 0x4b), None));
    let bold_bright = Style { fg: Color::Indexed(9), bg: Color::Indexed(2), bold: true, ..Style::default() };
    assert_eq!(resolve_colors(bold_bright), (rgb(0xff, 0x4b, 0x4b), Some(rgb(0, 0xcd, 0))));
    let inverse = Style { inverse: true, ..Style::default() };
    assert_eq!(resolve_colors(inverse), (bg, Some(fg)));
    let inverse_rgb = Style { inverse: true, bg: Color::Rgb(1, 2, 3), ..Style::default() };
    assert_eq!(resolve_colors(inverse_rgb), (rgb(1, 2, 3), Some(fg)));
}

#[test]
fn runs_merge_same_style() {
    let bold = Style { bold: true, ..Style::default() };
    let cell = |ch: char, style: Style| Cell { ch, style };
    let row = vec![
        cell('a', Style::default()),
        cell('b', Style::default()),
        cell('c', bold),
        cell('d', Style::default()),
    ];
    let runs = layout_row(&row);
    let got: Vec<(String, Style)> = runs.into_iter().map(|r| (r.text, r.style)).collect();
    assert_eq!(
        got,
        vec![
            ("ab".to_string(), Style::default()),
            ("c".to_string(), bold),
            ("d".to_string(), Style::default()),
        ]
    );
    assert!(layout_row(&vec![]).is_empty());
}

#[test]
fn key_encodings() {
    let none = Modifiers { alt: false, ctrl: false };
    let ctrl = Modifiers { alt: false, ctrl: true };
    let ctrl_alt = Modifiers { alt: true, ctrl: true };
    assert_eq!(encode_key(Key::Enter, none), Some(b"\r".to_vec()));
    assert_eq!(encode_key(Key::Tab, none), Some(b"\t".to_vec()));
    assert_eq!(encode_key(Key::Backspace, none), Some(b"\x7f".to_vec()));
    assert_eq!(encode_key(Key::Escape, none), Some(b"\x1b".to_vec()));
    assert_eq!(encode_key(Key::ArrowUp, none), Some(b"\x1b[A".to_vec()));
    assert_eq!(encode_key(Key::ArrowLeft, ctrl), Some(b"\x1b[D".to_vec()));
    assert_eq!(encode_key(Key::End, none), Some(b"\x1b[F".to_vec()));
    assert_eq!(encode_key(Key::PageDown, none), Some(b"\x1b[6~".to_vec()));
    assert_eq!(encode_key(Key::Char('C'), ctrl), Some(vec![3]));
    assert_eq!(encode_key(Key::Char('Z'), ctrl), Some(vec![26]));
    assert_eq!(encode_key(Key::Char('C'), ctrl_alt), None);
    assert_eq!(encode_key(Key::Char('C'), none), None);
    assert_eq!(encode_key(Key::Char('c'), ctrl), None);
    assert_eq!(encode_key(Key::Char('5'), ctrl), None);
    assert_eq!(encode_key(Key::Other, ctrl), None);
}

#[test]
fn input_event_bytes() {
    let none = Modifiers { alt: false, ctrl: false };
    let ctrl = Modifiers { alt: false, ctrl: true };
    let events = vec![
        InputEvent::Text("h\u{e9}".to_string()),
        InputEvent::Key { key: Key::ArrowUp, pressed: true, modifiers: none },
        InputEvent::Key { key: Key::Enter, pressed: false, modifiers: none },
        InputEvent::Other,
        InputEvent::Paste("x".to_string()),
        InputEvent::Key { key: Key::Char('C'), pressed: true, modifiers: ctrl },
        InputEvent::Key { key: Key::Char('c'), pressed: true, modifiers: none },
    ];
    assert_eq!(input_bytes(&events), b"h\xc3\xa9\x1b[Ax\x03".to_vec());
    assert!(input_bytes(&vec![]).is_empty());
}
