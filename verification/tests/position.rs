use vespertide::position::{byte_range_to_lsp, byte_to_lsp_position, lsp_position_to_byte};

#[test]
fn ascii_round_trip() {
    let d = "hello world";
    let byte = lsp_position_to_byte(d, 0, 6);
    assert_eq!(byte, 6);
    let pos2 = byte_to_lsp_position(d, byte);
    assert_eq!(pos2, (0, 6));
}

#[test]
fn cjk_round_trip() {
    // "도서" = 2 chars, 6 bytes UTF-8, 2 UTF-16 code units (BMP).
    let d = "도서 test";
    let byte = lsp_position_to_byte(d, 0, 2);
    assert_eq!(byte, 6);
}

#[test]
fn emoji_round_trip() {
    // "🚀" = 1 char, 4 bytes UTF-8, 2 UTF-16 code units (surrogate pair).
    let d = "🚀test";
    let byte = lsp_position_to_byte(d, 0, 2);
    assert_eq!(byte, 4);
}

#[test]
fn multiline_position() {
    let d = "line one\nline two\nline three";
    let byte = lsp_position_to_byte(d, 1, 5);
    assert_eq!(byte, "line one\nline ".len());
}

#[test]
fn positions_past_the_end_clamp_to_the_text() {
    let d = "ab\ncd";
    assert_eq!(lsp_position_to_byte(d, 0, 10), 3);
    assert_eq!(lsp_position_to_byte(d, 7, 0), d.len());
    assert_eq!(byte_to_lsp_position(d, 4), (1, 1));
    assert_eq!(byte_to_lsp_position(d, 99), (1, 2));
}

#[test]
fn byte_ranges_become_position_ranges() {
    let d = "도서\n🚀x";
    let x = d.find('x').unwrap();
    assert_eq!(byte_range_to_lsp(d, 0, x), ((0, 0), (1, 2)));
}
