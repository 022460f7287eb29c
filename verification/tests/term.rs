use tacoshell::term::color::{ansi_color, Palette, Rgba};
use tacoshell::term::input::{
    ctrl_char_byte, ctrl_key_byte, key_from_name, mouse_seq, named_key_bytes, special_key_bytes, MouseAction, TermKey,
};
use tacoshell::term::pointer::{pressed_button, Pointer, PointerInput};
use tacoshell::term::{Cell, TermColor, TermGrid};

fn feed(g: &mut TermGrid, s: &str) {
    for c in s.chars() {
        g.print(c);
    }
}

fn row_text(g: &TermGrid, r: usize) -> String {
    g.cells[r].iter().map(|c| c.ch).collect::<String>().trim_end().to_string()
}

#[test]
fn mouse_sequences() {
    // left press at the top left corner, sgr
    assert_eq!(mouse_seq(0, 0, 0, MouseAction::Press, true), b"\x1b[<0;1;1M".to_vec());
    assert_eq!(mouse_seq(0, 4, 2, MouseAction::Release, true), b"\x1b[<0;5;3m".to_vec());
    // hover = no button (3) + motion (32), like xterm
    assert_eq!(mouse_seq(3, 9, 9, MouseAction::Drag, true), b"\x1b[<35;10;10M".to_vec());
    // same thing in the old x10 encoding, everything + 32
    assert_eq!(mouse_seq(3, 0, 0, MouseAction::Drag, false), vec![0x1b, b'[', b'M', 67, 33, 33]);
}

#[test]
fn legacy_mouse_caps_and_releases() {
    assert_eq!(mouse_seq(0, 300, 1, MouseAction::Release, false), vec![0x1b, b'[', b'M', 35, 255, 34]);
    assert_eq!(mouse_seq(64, 0, 0, MouseAction::Press, true), b"\x1b[<64;1;1M".to_vec());
}

#[test]
fn new_grid_is_blank() {
    let g = TermGrid::new(24, 80);
    assert_eq!(g.cells.len(), 24);
    assert!(g.cells.iter().all(|r| r.len() == 80 && r.iter().all(|c| c.ch == ' ')));
    assert_eq!((g.cursor_row, g.cursor_col), (0, 0));
    assert!(g.cursor_visible);
    assert!(!g.mouse_enabled());
}

#[test]
fn printing_wraps_and_scrolls() {
    let mut g = TermGrid::new(2, 3);
    feed(&mut g, "abcdef");
    assert_eq!(row_text(&g, 0), "abc");
    assert_eq!(row_text(&g, 1), "def");
    g.print('g');
    // past the last column of the last row the screen scrolls
    assert_eq!(row_text(&g, 0), "def");
    assert_eq!(row_text(&g, 1), "g");
    assert_eq!((g.cursor_row, g.cursor_col), (1, 1));
}

#[test]
fn control_bytes() {
    let mut g = TermGrid::new(3, 20);
    feed(&mut g, "ab");
    g.execute(0x08);
    assert_eq!(g.cursor_col, 1);
    g.execute(0x09);
    assert_eq!(g.cursor_col, 8);
    g.execute(0x09);
    g.execute(0x09);
    assert_eq!(g.cursor_col, 19);
    g.execute(0x0d);
    assert_eq!(g.cursor_col, 0);
    g.execute(0x0a);
    assert_eq!(g.cursor_row, 1);
}

#[test]
fn csi_moves_and_erases() {
    let mut g = TermGrid::new(5, 10);
    g.csi_dispatch(&[3, 4], &[], false, 'H');
    assert_eq!((g.cursor_row, g.cursor_col), (2, 3));
    g.csi_dispatch(&[99], &[], false, 'B');
    assert_eq!(g.cursor_row, 4);
    g.csi_dispatch(&[], &[], false, 'A');
    assert_eq!(g.cursor_row, 3);
    feed(&mut g, "xyz");
    g.csi_dispatch(&[1], &[], false, 'D');
    g.csi_dispatch(&[0], &[], false, 'K');
    assert_eq!(row_text(&g, 3), "   xy");
    g.csi_dispatch(&[2], &[], false, 'J');
    assert!(g.cells.iter().all(|r| r.iter().all(|c| c.ch == ' ')));
    // ignored sequences change nothing
    g.csi_dispatch(&[1, 1], &[], true, 'H');
    assert_eq!(g.cursor_row, 3);
}

#[test]
fn insert_and_delete_chars() {
    let mut g = TermGrid::new(2, 6);
    feed(&mut g, "abcdef");
    g.csi_dispatch(&[1, 2], &[], false, 'H');
    g.csi_dispatch(&[2], &[], false, '@');
    assert_eq!(row_text(&g, 0), "a  bcd");
    g.csi_dispatch(&[3], &[], false, 'P');
    assert_eq!(row_text(&g, 0), "acd");
    g.csi_dispatch(&[1], &[], false, 'X');
    assert_eq!(row_text(&g, 0), "a d");
}

#[test]
fn lines_and_scroll_region() {
    let mut g = TermGrid::new(4, 4);
    for (i, c) in ['a', 'b', 'c', 'd'].iter().enumerate() {
        g.csi_dispatch(&[(i + 1) as u16, 1], &[], false, 'H');
        g.print(*c);
    }
    g.csi_dispatch(&[2, 3], &[], false, 'r');
    g.csi_dispatch(&[1], &[], false, 'S');
    assert_eq!((0..4).map(|r| row_text(&g, r)).collect::<Vec<_>>(), vec!["a", "c", "", "d"]);
    g.csi_dispatch(&[], &[], false, 'r');
    g.csi_dispatch(&[1, 1], &[], false, 'H');
    g.csi_dispatch(&[1], &[], false, 'L');
    assert_eq!((0..4).map(|r| row_text(&g, r)).collect::<Vec<_>>(), vec!["", "a", "c", ""]);
    g.csi_dispatch(&[2], &[], false, 'M');
    assert_eq!((0..4).map(|r| row_text(&g, r)).collect::<Vec<_>>(), vec!["c", "", "", ""]);
}

#[test]
fn colors_and_attributes() {
    let mut g = TermGrid::new(2, 10);
    g.csi_dispatch(&[1, 31, 44], &[], false, 'm');
    g.print('x');
    let c = g.cells[0][0];
    assert_eq!((c.fg, c.bg, c.bold), (TermColor::Indexed(1), TermColor::Indexed(4), true));
    g.csi_dispatch(&[38, 2, 1, 2, 3, 48, 5, 200], &[], false, 'm');
    g.print('y');
    let c = g.cells[0][1];
    assert_eq!((c.fg, c.bg), (TermColor::Rgb(1, 2, 3), TermColor::Indexed(200)));
    g.csi_dispatch(&[], &[], false, 'm');
    g.print('z');
    let c = g.cells[0][2];
    assert_eq!((c.fg, c.bg, c.bold, c.reverse), (TermColor::Default, TermColor::Default, false, false));
}

#[test]
fn alternate_screen_gives_back_the_main_one() {
    let mut g = TermGrid::new(3, 5);
    feed(&mut g, "main");
    g.csi_dispatch(&[1049], b"?", false, 'h');
    assert!(g.cells.iter().all(|r| r.iter().all(|c| c.ch == ' ')));
    assert_eq!((g.cursor_row, g.cursor_col), (0, 0));
    feed(&mut g, "alt screen");
    assert!(g.saved_screen_fits());
    g.csi_dispatch(&[1049], b"?", false, 'l');
    assert_eq!(row_text(&g, 0), "main");
    assert_eq!((g.cursor_row, g.cursor_col), (0, 4));
}

#[test]
fn private_modes() {
    let mut g = TermGrid::new(3, 5);
    g.csi_dispatch(&[1000, 1006], b"?", false, 'h');
    assert!(g.mouse_enabled());
    assert!(g.mouse_sgr);
    g.csi_dispatch(&[25], b"?", false, 'l');
    assert!(!g.cursor_visible);
    g.csi_dispatch(&[1000], b"?", false, 'l');
    assert!(!g.mouse_enabled());
}

#[test]
fn save_and_restore_cursor() {
    let mut g = TermGrid::new(5, 5);
    g.csi_dispatch(&[2, 3], &[], false, 'H');
    g.esc_dispatch(&[], b'7');
    g.csi_dispatch(&[1, 1], &[], false, 'H');
    g.esc_dispatch(&[], b'8');
    assert_eq!((g.cursor_row, g.cursor_col), (1, 2));
    g.csi_dispatch(&[], &[], false, 's');
    g.csi_dispatch(&[5, 5], &[], false, 'H');
    g.csi_dispatch(&[], &[], false, 'u');
    assert_eq!((g.cursor_row, g.cursor_col), (1, 2));
}

#[test]
fn resize_keeps_what_fits() {
    let mut g = TermGrid::new(3, 4);
    feed(&mut g, "abcdefgh");
    g.resize(2, 2);
    assert_eq!(g.cells.len(), 2);
    assert_eq!(row_text(&g, 0), "ab");
    assert_eq!(row_text(&g, 1), "ef");
    assert_eq!((g.cursor_row, g.cursor_col), (1, 1));
    g.resize(3, 5);
    assert_eq!(g.cells[2].len(), 5);
    assert_eq!(row_text(&g, 2), "");
}

#[test]
fn reset_is_a_new_grid() {
    let mut g = TermGrid::new(3, 4);
    feed(&mut g, "abc");
    g.csi_dispatch(&[1000], b"?", false, 'h');
    g.reset();
    assert!(g.cells.iter().all(|r| r.iter().all(|c| c.ch == ' ')));
    assert_eq!((g.cursor_row, g.cursor_col), (0, 0));
    assert!(!g.mouse_enabled());
}

#[test]
fn keys() {
    assert_eq!(special_key_bytes(TermKey::ArrowUp, false), Some(b"\x1b[A".to_vec()));
    assert_eq!(special_key_bytes(TermKey::Tab, true), Some(b"\x1b[Z".to_vec()));
    assert_eq!(special_key_bytes(TermKey::F12, false), Some(b"\x1b[24~".to_vec()));
    assert_eq!(special_key_bytes(TermKey::Other, false), None);
    assert_eq!(ctrl_key_byte(TermKey::Letter('C')), Some(0x03));
    assert_eq!(ctrl_key_byte(TermKey::Enter), None);
    assert_eq!(named_key_bytes("space"), Some(b" ".to_vec()));
    assert_eq!(named_key_bytes("pgdn"), Some(b"\x1b[6~".to_vec()));
    assert_eq!(named_key_bytes("f5"), Some(b"\x1b[15~".to_vec()));
    assert_eq!(named_key_bytes("nope"), None);
    assert_eq!(key_from_name("Escape"), TermKey::Escape);
    assert_eq!(ctrl_char_byte('A'), Some(1));
    assert_eq!(ctrl_char_byte('['), Some(0x1b));
    assert_eq!(ctrl_char_byte('@'), Some(0));
    assert_eq!(ctrl_char_byte('1'), None);
}

#[test]
fn cell_colors() {
    let pal = Palette { fg: Rgba::from_rgb(1, 2, 3), bg: Rgba::from_rgb(4, 5, 6) };
    let c = Cell::default();
    assert_eq!(c.resolved_fg(&pal), pal.fg);
    assert_eq!(c.resolved_bg(&pal), pal.bg);
    let r = Cell { reverse: true, fg: TermColor::Indexed(1), ..Cell::default() };
    assert_eq!(r.resolved_bg(&pal), ansi_color(1));
    assert_eq!(r.resolved_fg(&pal), pal.bg);
    assert_eq!(ansi_color(16), Rgba::from_rgb(0, 0, 0));
    assert_eq!(ansi_color(231), Rgba::from_rgb(255, 255, 255));
    assert_eq!(ansi_color(232), Rgba::from_rgb(8, 8, 8));
}

#[test]
fn pointer_press_drag_release() {
    let mut p = Pointer::new();
    let at = |c: (u16, u16), pressed: Option<u8>, released: bool| PointerInput {
        inside: true,
        wheel: None,
        pressed,
        released,
        cell: c,
        held_cell: c,
    };
    assert_eq!(p.frame(true, false, true, at((1, 1), Some(0), false)), b"\x1b[<0;2;2M".to_vec());
    // same cell again: nothing
    assert_eq!(p.frame(true, false, true, at((1, 1), None, false)), Vec::<u8>::new());
    assert_eq!(p.frame(true, false, true, at((2, 1), None, false)), b"\x1b[<32;3;2M".to_vec());
    assert_eq!(p.frame(true, false, true, at((2, 1), None, true)), b"\x1b[<0;3;2m".to_vec());
    // hover only when the app asks for every move
    assert_eq!(p.frame(true, false, true, at((3, 3), None, false)), Vec::<u8>::new());
    assert_eq!(p.frame(true, true, true, at((3, 3), None, false)), b"\x1b[<35;4;4M".to_vec());
    let wheel = PointerInput { wheel: Some((65, 2)), ..at((0, 0), None, false) };
    assert_eq!(p.frame(true, false, true, wheel), b"\x1b[<65;1;1M\x1b[<65;1;1M".to_vec());
    // reports off: a held button is forgotten
    p.frame(true, false, true, at((0, 0), Some(2), false));
    assert_eq!(p.frame(false, false, true, at((0, 0), None, true)), Vec::<u8>::new());
    assert_eq!(p.button, None);
}

#[test]
fn resize_to_the_same_size_changes_nothing() {
    let mut g = TermGrid::new(3, 4);
    feed(&mut g, "abcde");
    g.csi_dispatch(&[2, 3], &[], false, 'r');
    g.resize(3, 4);
    assert_eq!(row_text(&g, 0), "abcd");
    assert_eq!(row_text(&g, 1), "e");
    assert_eq!((g.cursor_row, g.cursor_col), (1, 1));
    assert_eq!((g.scroll_top, g.scroll_bottom), (1, 3));
}

#[test]
fn mouse_modes_turn_on_and_off() {
    for m in [1000u16, 1002, 1003] {
        let mut g = TermGrid::new(3, 5);
        g.csi_dispatch(&[m], b"?", false, 'h');
        assert!(g.mouse_enabled());
        g.csi_dispatch(&[m], b"?", false, 'l');
        assert!(!g.mouse_enabled());
        g.csi_dispatch(&[m], &[], false, 'h');
        assert!(!g.mouse_enabled());
    }
}

#[test]
fn alt_screen_survives_other_sequences() {
    let mut g = TermGrid::new(3, 6);
    feed(&mut g, "main");
    g.csi_dispatch(&[1049], b"?", false, 'h');
    assert!(g.cells.iter().all(|r| r.iter().all(|c| c.ch == ' ' && c.fg == TermColor::Default && !c.bold)));
    assert_eq!((g.cursor_row, g.cursor_col), (0, 0));
    feed(&mut g, "xyz");
    g.csi_dispatch(&[2], &[], false, 'J');
    g.csi_dispatch(&[31], &[], false, 'm');
    g.execute(b'\n');
    g.csi_dispatch(&[1049], b"?", false, 'l');
    assert_eq!(row_text(&g, 0), "main");
    assert_eq!((g.cursor_row, g.cursor_col), (0, 4));
}

#[test]
fn which_button_is_pressed() {
    assert_eq!(pressed_button(true, true, true, true), Some(0));
    assert_eq!(pressed_button(false, true, true, false), Some(1));
    assert_eq!(pressed_button(false, false, true, false), Some(2));
    assert_eq!(pressed_button(false, false, true, true), None);
    assert_eq!(pressed_button(false, false, false, false), None);
}
