use minicomp::error::{display_error, display_error_with_source};
use minicomp::source::Source;

#[test]
fn cursor_moves_and_stops_at_end() {
    let mut src = Source::new("ab");
    assert_eq!(src.peek(), Some('a'));
    assert_eq!(src.next(), Some('a'));
    assert_eq!(src.offset(), 1);
    assert_eq!(src.next(), Some('b'));
    assert!(src.finished());
    assert_eq!(src.next(), None);
    assert_eq!(src.offset(), 2);
    assert_eq!(src.peek(), None);
}

#[test]
fn whitespace_is_skipped() {
    let mut src = Source::new(" \t\n\u{3000}x ");
    src.skip_whitespace();
    assert_eq!(src.offset(), 4);
    assert_eq!(src.peek(), Some('x'));
}

#[test]
fn positions_are_one_based() {
    let src = Source::new("ab\ncd\n\nef");
    assert_eq!(src.get_position(0), (1, 1));
    assert_eq!(src.get_position(1), (1, 2));
    assert_eq!(src.get_position(3), (2, 1));
    assert_eq!(src.get_position(5), (2, 3));
    assert_eq!(src.get_position(7), (4, 1));
    assert_eq!(src.get_position(9), (4, 3));
}

#[test]
fn lines_by_number() {
    let src = Source::new("ab\ncd\n\nef");
    assert_eq!(src.get_line(0), "");
    assert_eq!(src.get_line(1), "ab");
    assert_eq!(src.get_line(2), "cd");
    assert_eq!(src.get_line(3), "");
    assert_eq!(src.get_line(4), "ef");
    assert_eq!(src.get_line(5), "");
}

#[test]
fn text_round_trips() {
    let src = Source::named("añb", "f");
    assert_eq!(src.as_string(), "añb");
    assert_eq!(src.src(), &['a', 'ñ', 'b']);
    assert_eq!(src.path(), Some("f"));
    assert_eq!(Source::new("").path(), None);
}

#[test]
fn diagnostic_layout() {
    assert_eq!(display_error(Some("main.src"), (3, 14), "oops"), "./main.src:3:14 \noops\n");
    assert_eq!(display_error(None, (1, 1), "x"), "./<input>:1:1 \nx\n");
}

#[test]
fn diagnostic_with_caret() {
    assert_eq!(
        display_error_with_source(Some("p"), (2, 3), "bad number", "a 12x", 3),
        "./p:2:3 \nbad number\na 12x\n  ^^^\n"
    );
    assert_eq!(
        display_error_with_source(None, (1, 1), "m", "x", 0),
        "./<input>:1:1 \nm\nx\n^\n"
    );
}
