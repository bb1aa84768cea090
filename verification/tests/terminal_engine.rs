use verbium::plugins::terminal::cell::{Cell, Color};
use verbium::plugins::terminal::parser::{Action, Parser};
use verbium::plugins::terminal::session::process_bytes;
use verbium::plugins::terminal::state::TerminalState;

fn feed(state: &mut TerminalState, parser: &mut Parser, bytes: &[u8]) {
    process_bytes(state, parser, bytes);
}

fn fresh(rows: usize, cols: usize) -> (TerminalState, Parser) {
    (TerminalState::new(rows, cols), Parser::new())
}

fn row_text(state: &TerminalState, row: usize) -> String {
    let mut s = String::new();
    for c in 0..state.cols() {
        s.push(state.cell_at(row, c).c);
    }
    s
}

#[test]
fn hello_lands_in_row_zero() {
    let (mut term, mut parser) = fresh(24, 80);
    feed(&mut term, &mut parser, b"Hello\r\n");
    assert_eq!(&row_text(&term, 0)[..5], "Hello");
    for c in 5..80 {
        assert_eq!(term.cell_at(0, c), Cell::default());
    }
    assert_eq!(term.cursor(), (1, 0));
}

#[test]
fn sgr_red_then_reset() {
    let (mut term, mut parser) = fresh(24, 80);
    feed(&mut term, &mut parser, b"\x1b[31mX\x1b[0mY");
    let x = term.cell_at(0, 0);
    assert_eq!(x.c, 'X');
    assert_eq!(x.fg, Color::Rgb { r: 205, g: 0, b: 0 });
    let y = term.cell_at(0, 1);
    assert_eq!(y.c, 'Y');
    assert_eq!(y.fg, Color::Default);
    assert!(!y.bold && !y.italic && !y.underline && !y.inverse);
}

#[test]
fn sgr_reset_clears_prior_attributes() {
    let (mut term, mut parser) = fresh(24, 80);
    feed(&mut term, &mut parser, b"\x1b[1;4;7;33mA\x1b[0mB");
    let a = term.cell_at(0, 0);
    assert!(a.bold && a.underline && a.inverse);
    assert_eq!(a.fg, Color::Rgb { r: 205, g: 205, b: 0 });
    let b = term.cell_at(0, 1);
    assert!(!b.bold && !b.underline && !b.inverse);
    assert_eq!(b.fg, Color::Default);
}

#[test]
fn sgr_extended_colors() {
    let (mut term, mut parser) = fresh(24, 80);
    feed(&mut term, &mut parser, b"\x1b[38;5;9mA\x1b[48;2;10;20;30mB\x1b[91mC\x1b[103mD");
    assert_eq!(term.cell_at(0, 0).fg, Color::Rgb { r: 255, g: 0, b: 0 });
    assert_eq!(term.cell_at(0, 1).bg, Color::Rgb { r: 10, g: 20, b: 30 });
    assert_eq!(term.cell_at(0, 2).fg, Color::Rgb { r: 255, g: 0, b: 0 });
    assert_eq!(term.cell_at(0, 3).bg, Color::Rgb { r: 255, g: 255, b: 0 });
}

#[test]
fn scroll_moves_top_row_into_history_once() {
    let (mut term, mut parser) = fresh(3, 10);
    feed(&mut term, &mut parser, b"AAA\r\nBBB\r\nCCC");
    assert_eq!(term.history_len(), 0);
    feed(&mut term, &mut parser, b"\r\nDDD");
    assert_eq!(term.history_len(), 1);
    let evicted = term.snapshot_row(0);
    assert_eq!(evicted[0].c, 'A');
    assert_eq!(&row_text(&term, 0)[..3], "BBB");
    assert_eq!(&row_text(&term, 2)[..3], "DDD");
}

#[test]
fn history_is_capped_oldest_first() {
    let (mut term, mut parser) = fresh(2, 4);
    feed(&mut term, &mut parser, b"x0\r\n");
    for _ in 0..5010 {
        feed(&mut term, &mut parser, b"\n");
    }
    assert_eq!(term.history_len(), 5000);
    assert_eq!(term.total_rows(), 5002);
}

#[test]
fn alternate_screen_round_trip() {
    let (mut term, mut parser) = fresh(5, 10);
    feed(&mut term, &mut parser, b"abc\r\ndef");
    let before: Vec<String> = (0..5).map(|r| row_text(&term, r)).collect();
    let cursor_before = term.cursor();
    feed(&mut term, &mut parser, b"\x1b[?1049h");
    assert!(term.is_alt_screen());
    assert_eq!(term.cursor(), (0, 0));
    feed(&mut term, &mut parser, b"XYZW\x1b[2J\x1b[5;1Hbottom");
    feed(&mut term, &mut parser, b"\x1b[?1049l");
    assert!(!term.is_alt_screen());
    let after: Vec<String> = (0..5).map(|r| row_text(&term, r)).collect();
    assert_eq!(before, after);
    assert_eq!(term.cursor(), cursor_before);
}

#[test]
fn alternate_screen_never_feeds_history() {
    let (mut term, mut parser) = fresh(2, 6);
    feed(&mut term, &mut parser, b"\x1b[?1049h");
    for _ in 0..10 {
        feed(&mut term, &mut parser, b"\n");
    }
    assert_eq!(term.history_len(), 0);
    feed(&mut term, &mut parser, b"\x1b[?1049l");
    assert_eq!(term.history_len(), 0);
}

#[test]
fn resize_truncates_then_pads_with_defaults() {
    let (mut term, mut parser) = fresh(24, 80);
    let mut line: Vec<u8> = Vec::new();
    for i in 0..80u8 {
        line.push(b'a' + (i % 26));
    }
    feed(&mut term, &mut parser, &line);
    let wide_row = row_text(&term, 0);
    term.resize(24, 40);
    assert_eq!(term.cols(), 40);
    assert_eq!(row_text(&term, 0), wide_row[..40]);
    term.resize(24, 80);
    assert_eq!(term.cols(), 80);
    assert_eq!(row_text(&term, 0)[..40], wide_row[..40]);
    for c in 40..80 {
        assert_eq!(term.cell_at(0, c), Cell::default());
    }
}

#[test]
fn resize_zero_is_ignored() {
    let (mut term, mut parser) = fresh(24, 80);
    feed(&mut term, &mut parser, b"hi");
    term.resize(0, 40);
    term.resize(40, 0);
    assert_eq!(term.rows(), 24);
    assert_eq!(term.cols(), 80);
    assert_eq!(term.cell_at(0, 0).c, 'h');
}

#[test]
fn erase_line_whole_row_keeps_cursor() {
    let (mut term, mut parser) = fresh(24, 80);
    feed(&mut term, &mut parser, b"some text\x1b[1;5H");
    assert_eq!(term.cursor(), (0, 4));
    feed(&mut term, &mut parser, b"\x1b[2K");
    for c in 0..80 {
        assert_eq!(term.cell_at(0, c), Cell::default());
    }
    assert_eq!(term.cursor(), (0, 4));
}

#[test]
fn erase_line_to_end_and_start() {
    let (mut term, mut parser) = fresh(24, 80);
    feed(&mut term, &mut parser, b"abcdef\x1b[1;4H\x1b[K");
    assert_eq!(&row_text(&term, 0)[..6], "abc   ");
    feed(&mut term, &mut parser, b"\x1b[1;2H\x1b[1K");
    assert_eq!(&row_text(&term, 0)[..6], "  c   ");
}

#[test]
fn erase_display_below_and_above() {
    let (mut term, mut parser) = fresh(4, 4);
    feed(&mut term, &mut parser, b"aaaa\r\nbbbb\r\ncccc\r\ndddd");
    feed(&mut term, &mut parser, b"\x1b[2;3H\x1b[0J");
    assert_eq!(&row_text(&term, 0), "aaaa");
    assert_eq!(&row_text(&term, 1), "bb  ");
    assert_eq!(&row_text(&term, 2), "    ");
    assert_eq!(&row_text(&term, 3), "    ");

    let (mut term2, mut parser2) = fresh(4, 4);
    feed(&mut term2, &mut parser2, b"aaaa\r\nbbbb\r\ncccc\r\ndddd");
    feed(&mut term2, &mut parser2, b"\x1b[3;2H\x1b[1J");
    assert_eq!(&row_text(&term2, 0), "    ");
    assert_eq!(&row_text(&term2, 1), "    ");
    assert_eq!(&row_text(&term2, 2), "  cc");
    assert_eq!(&row_text(&term2, 3), "dddd");
}

#[test]
fn erase_characters_in_place() {
    let (mut term, mut parser) = fresh(24, 80);
    feed(&mut term, &mut parser, b"abcdef\x1b[1;2H\x1b[3X");
    assert_eq!(&row_text(&term, 0)[..6], "a   ef");
    assert_eq!(term.cursor(), (0, 1));
}

#[test]
fn insert_and_delete_characters() {
    let (mut term, mut parser) = fresh(24, 6);
    feed(&mut term, &mut parser, b"abcdef\x1b[1;3H\x1b[2@");
    assert_eq!(&row_text(&term, 0), "ab  cd");
    feed(&mut term, &mut parser, b"\x1b[2P");
    assert_eq!(&row_text(&term, 0), "abcd  ");
}

#[test]
fn insert_and_delete_lines_honor_region() {
    let (mut term, mut parser) = fresh(4, 3);
    feed(&mut term, &mut parser, b"aaa\r\nbbb\r\nccc\r\nddd");
    // Region covers rows 1..=2 (one-based 2..3); insert one line at row 1.
    feed(&mut term, &mut parser, b"\x1b[2;3r\x1b[2;1H\x1b[L");
    assert_eq!(&row_text(&term, 0), "aaa");
    assert_eq!(&row_text(&term, 1), "   ");
    assert_eq!(&row_text(&term, 2), "bbb");
    assert_eq!(&row_text(&term, 3), "ddd");
    feed(&mut term, &mut parser, b"\x1b[M");
    assert_eq!(&row_text(&term, 1), "bbb");
    assert_eq!(&row_text(&term, 2), "   ");
    assert_eq!(&row_text(&term, 3), "ddd");
}

#[test]
fn region_scroll_keeps_history_empty() {
    let (mut term, mut parser) = fresh(4, 3);
    feed(&mut term, &mut parser, b"aaa\r\nbbb\r\nccc\r\nddd");
    feed(&mut term, &mut parser, b"\x1b[1;2r\x1b[2;1H\n\n\n");
    assert_eq!(term.history_len(), 0);
}

#[test]
fn cursor_movement_is_clamped() {
    let (mut term, mut parser) = fresh(10, 20);
    feed(&mut term, &mut parser, b"\x1b[99;99H");
    assert_eq!(term.cursor(), (9, 19));
    feed(&mut term, &mut parser, b"\x1b[99A\x1b[99D");
    assert_eq!(term.cursor(), (0, 0));
    feed(&mut term, &mut parser, b"\x1b[3B\x1b[7C");
    assert_eq!(term.cursor(), (3, 7));
    feed(&mut term, &mut parser, b"\x1b[2G\x1b[5d");
    assert_eq!(term.cursor(), (4, 1));
}

#[test]
fn control_codes_move_cursor() {
    let (mut term, mut parser) = fresh(10, 20);
    feed(&mut term, &mut parser, b"ab\tc");
    assert_eq!(term.cell_at(0, 8).c, 'c');
    feed(&mut term, &mut parser, b"\r");
    assert_eq!(term.cursor(), (0, 0));
    feed(&mut term, &mut parser, b"xy\x08z");
    assert_eq!(&row_text(&term, 0)[..2], "xz");
}

#[test]
fn save_and_restore_cursor() {
    let (mut term, mut parser) = fresh(10, 20);
    feed(&mut term, &mut parser, b"\x1b[4;6H\x1b7\x1b[1;1H\x1b8");
    assert_eq!(term.cursor(), (3, 5));
}

#[test]
fn reverse_index_scrolls_at_region_top() {
    let (mut term, mut parser) = fresh(3, 3);
    feed(&mut term, &mut parser, b"aaa\r\nbbb\r\nccc\x1b[1;1H\x1bM");
    assert_eq!(&row_text(&term, 0), "   ");
    assert_eq!(&row_text(&term, 1), "aaa");
    assert_eq!(&row_text(&term, 2), "bbb");
    feed(&mut term, &mut parser, b"\x1b[2;1H\x1bM");
    assert_eq!(term.cursor(), (0, 0));
}

#[test]
fn wide_character_takes_two_columns() {
    let (mut term, mut parser) = fresh(24, 80);
    feed(&mut term, &mut parser, "你A".as_bytes());
    let first = term.cell_at(0, 0);
    assert_eq!(first.c, '你');
    assert!(!first.is_wide_continuation);
    let second = term.cell_at(0, 1);
    assert_eq!(second.c, ' ');
    assert!(second.is_wide_continuation);
    assert_eq!(term.cell_at(0, 2).c, 'A');
}

#[test]
fn wide_character_wraps_before_last_column() {
    let (mut term, mut parser) = fresh(24, 4);
    feed(&mut term, &mut parser, "abc你".as_bytes());
    assert_eq!(&row_text(&term, 0)[..3], "abc");
    assert_eq!(term.cell_at(1, 0).c, '你');
    assert!(term.cell_at(1, 1).is_wide_continuation);
    assert_eq!(term.cursor(), (1, 2));
}

#[test]
fn split_sequence_matches_unsplit() {
    let (mut whole_term, mut whole_parser) = fresh(6, 10);
    feed(&mut whole_term, &mut whole_parser, b"hi\x1b[2;2Hok\x1b[31mz");

    let (mut split_term, mut split_parser) = fresh(6, 10);
    feed(&mut split_term, &mut split_parser, b"hi\x1b[");
    feed(&mut split_term, &mut split_parser, b"2;2");
    feed(&mut split_term, &mut split_parser, b"Hok\x1b");
    feed(&mut split_term, &mut split_parser, b"[31mz");

    assert_eq!(whole_term.cursor(), split_term.cursor());
    for r in 0..6 {
        assert_eq!(row_text(&whole_term, r), row_text(&split_term, r));
        for c in 0..10 {
            assert_eq!(whole_term.cell_at(r, c), split_term.cell_at(r, c));
        }
    }
}

#[test]
fn split_csi_dispatches_exactly_one_action() {
    let mut parser = Parser::new();
    assert!(parser.advance(0x1B).is_none());
    assert!(parser.advance(b'[').is_none());
    assert!(parser.advance(b'2').is_none());
    match parser.advance(b'J') {
        Some(Action::CsiDispatch { params, intermediates, final_byte }) => {
            assert_eq!(params, vec![2u16]);
            assert!(intermediates.is_empty());
            assert_eq!(final_byte, b'J');
        },
        _ => panic!("expected a dispatched control sequence"),
    }
}

#[test]
fn split_utf8_character_prints_once() {
    let (mut term, mut parser) = fresh(24, 80);
    let bytes = "你".as_bytes();
    feed(&mut term, &mut parser, &bytes[..1]);
    assert_eq!(term.cell_at(0, 0), Cell::default());
    feed(&mut term, &mut parser, &bytes[1..]);
    assert_eq!(term.cell_at(0, 0).c, '你');
    assert_eq!(term.cursor(), (0, 2));
}

#[test]
fn invalid_utf8_is_dropped() {
    let (mut term, mut parser) = fresh(24, 80);
    feed(&mut term, &mut parser, b"\xff\xfeA\xc3(B");
    assert_eq!(term.cell_at(0, 0).c, 'A');
    // The stray lead byte is dropped; the byte that broke it off prints.
    assert_eq!(term.cell_at(0, 1).c, '(');
    assert_eq!(term.cell_at(0, 2).c, 'B');
}

#[test]
fn osc_string_is_consumed_silently() {
    let (mut term, mut parser) = fresh(24, 80);
    feed(&mut term, &mut parser, b"\x1b]0;window title\x07Hi");
    assert_eq!(&row_text(&term, 0)[..2], "Hi");
    feed(&mut term, &mut parser, b"\r\x1b[2K\x1b]2;more\x1b\\Yo");
    assert_eq!(&row_text(&term, 0)[..2], "Yo");
}

#[test]
fn dcs_string_is_consumed_silently() {
    let (mut term, mut parser) = fresh(24, 80);
    feed(&mut term, &mut parser, b"\x1bPsecret payload\x1b\\A");
    assert_eq!(term.cell_at(0, 0).c, 'A');
}

#[test]
fn cancel_byte_aborts_a_sequence() {
    let (mut term, mut parser) = fresh(24, 80);
    feed(&mut term, &mut parser, b"\x1b[3\x18A");
    assert_eq!(term.cell_at(0, 0).c, 'A');
    assert_eq!(term.cursor(), (0, 1));
}

#[test]
fn malformed_csi_is_ignored() {
    let (mut term, mut parser) = fresh(24, 80);
    feed(&mut term, &mut parser, b"\x1b[1;2<3zB");
    assert_eq!(term.cell_at(0, 0).c, 'B');
}

#[test]
fn parameters_saturate_without_panicking() {
    let (mut term, mut parser) = fresh(10, 10);
    feed(&mut term, &mut parser, b"\x1b[4294967295;99999999H");
    assert_eq!(term.cursor(), (9, 9));
}

#[test]
fn modes_toggle_visibility_and_application_cursor() {
    let (mut term, mut parser) = fresh(10, 10);
    assert!(term.is_cursor_visible());
    assert!(!term.is_application_cursor());
    feed(&mut term, &mut parser, b"\x1b[?25l\x1b[?1h");
    assert!(!term.is_cursor_visible());
    assert!(term.is_application_cursor());
    feed(&mut term, &mut parser, b"\x1b[?25h\x1b[?1l");
    assert!(term.is_cursor_visible());
    assert!(!term.is_application_cursor());
}

#[test]
fn print_wraps_at_line_end() {
    let (mut term, mut parser) = fresh(3, 4);
    feed(&mut term, &mut parser, b"abcdef");
    assert_eq!(&row_text(&term, 0), "abcd");
    assert_eq!(&row_text(&term, 1)[..2], "ef");
    assert_eq!(term.cursor(), (1, 2));
}

#[test]
fn scroll_region_bottom_defaults_to_last_row() {
    let (mut term, mut parser) = fresh(4, 3);
    feed(&mut term, &mut parser, b"\x1b[2r");
    feed(&mut term, &mut parser, b"aaa\r\nbbb\r\nccc\r\nddd\n");
    // The region starts at row 1 (one-based 2), so scrolling there never
    // reaches the history.
    assert_eq!(term.history_len(), 0);
    assert_eq!(&row_text(&term, 0), "aaa");
}

#[test]
fn cursor_stays_on_grid_at_line_end() {
    let (mut term, mut parser) = fresh(3, 4);
    feed(&mut term, &mut parser, b"abcd");
    // Printing in the last column leaves the cursor on it; the wrap waits
    // for the next print.
    assert_eq!(term.cursor(), (0, 3));
    assert_eq!(&row_text(&term, 0), "abcd");
    feed(&mut term, &mut parser, b"e");
    assert_eq!(term.cursor(), (1, 1));
    assert_eq!(term.cell_at(1, 0).c, 'e');
}

#[test]
fn backspace_after_line_end_stays_in_last_column() {
    let (mut term, mut parser) = fresh(2, 4);
    feed(&mut term, &mut parser, b"abcd\x08X");
    // The backspace cancels the pending wrap, so the next print overwrites
    // the last column instead of wrapping.
    assert_eq!(&row_text(&term, 0), "abcX");
    assert_eq!(term.cursor(), (0, 3));
}

#[test]
fn erase_to_end_after_line_end_erases_nothing() {
    let (mut term, mut parser) = fresh(2, 4);
    feed(&mut term, &mut parser, b"abcd\x1b[K");
    // With a wrap pending the erase starts one past the last column.
    assert_eq!(&row_text(&term, 0), "abcd");
    assert_eq!(term.cursor(), (0, 3));
}

#[test]
fn scroll_region_top_is_clamped() {
    let (mut term, mut parser) = fresh(4, 3);
    feed(&mut term, &mut parser, b"aaa\r\nbbb\r\nccc\r\nddd");
    // A top far past the grid clamps to the last row, so reverse index
    // there scrolls the one-row region instead of just moving up.
    feed(&mut term, &mut parser, b"\x1b[100r\x1b[4;1H\x1bM");
    assert_eq!(&row_text(&term, 0), "aaa");
    assert_eq!(&row_text(&term, 2), "ccc");
    assert_eq!(&row_text(&term, 3), "   ");
    assert_eq!(term.cursor(), (3, 0));
}
