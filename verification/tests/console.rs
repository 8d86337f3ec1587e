use bootcore::print::{FramebufferConsole, RGBColor};

// Test geometry: 32x32 pixels -> 4x2 glyph cells, with a padded pitch of
// 144 bytes (36 pixels of stride for 32 pixels of width).
const PX_W: usize = 32;
const PX_H: usize = 32;
const PITCH: usize = 144;
const STRIDE: usize = PITCH / 4;
const W: usize = 4;
const H: usize = 2;

// A deterministic synthetic font: glyph `b`, bitmap row `r` holds the byte
// `b + 3 * r` (wrapping), which is asymmetric enough to tell glyphs and
// rows apart.
fn font_byte(b: u8, r: usize) -> u8 {
    b.wrapping_add(3u8.wrapping_mul(r as u8))
}

fn make_font() -> Vec<u8> {
    let mut font = vec![0u8; 4 + 256 * 16];
    for b in 0..256usize {
        for r in 0..16usize {
            font[4 + 16 * b + r] = font_byte(b as u8, r);
        }
    }
    font
}

fn make_console() -> FramebufferConsole {
    FramebufferConsole::new(vec![0u32; PX_H * STRIDE], make_font(), PX_W, PX_H, PITCH)
}

// The pixel a glyph write must leave at cell (row, col), bitmap position
// (r, c).
fn expected_pixel(byte: u8, r: usize, c: usize, color: u32) -> u32 {
    if (font_byte(byte, r) >> (7 - c)) & 1 != 0 {
        color
    } else {
        0
    }
}

fn assert_cell_shows(console: &FramebufferConsole, row: usize, col: usize, byte: u8, color: u32) {
    let fb = console.framebuffer();
    for r in 0..16 {
        for c in 0..8 {
            let idx = (row * 16 + r) * STRIDE + col * 8 + c;
            assert_eq!(
                fb[idx],
                expected_pixel(byte, r, c, color),
                "cell ({row},{col}) pixel ({r},{c})"
            );
        }
    }
}

#[test]
fn full_line_does_not_advance_row() {
    let mut console = make_console();
    let color = u32::from(RGBColor::White);
    console.write_string("abcd", color);
    assert_eq!(console.cursor_row(), 0);
    assert_eq!(console.cursor_col(), W);
}

#[test]
fn extra_character_wraps_to_next_row() {
    let mut console = make_console();
    let color = u32::from(RGBColor::White);
    console.write_string("abcde", color);
    assert_eq!(console.cursor_row(), 1);
    assert_eq!(console.cursor_col(), 1);
    assert_cell_shows(&console, 1, 0, b'e', color);
}

#[test]
fn example_scenario_ab_newline_cd() {
    let mut console = make_console();
    let color = u32::from(RGBColor::White);
    console.write_string("ab\ncd", color);
    assert_eq!(console.cursor_col(), 2);
    assert_eq!(console.cursor_row(), 1);
    assert_cell_shows(&console, 0, 0, b'a', color);
    assert_cell_shows(&console, 0, 1, b'b', color);
    assert_cell_shows(&console, 1, 0, b'c', color);
    assert_cell_shows(&console, 1, 1, b'd', color);
    // untouched cells keep the background
    let fb = console.framebuffer();
    for r in 0..16 {
        for c in 0..8 {
            assert_eq!(fb[r * STRIDE + 2 * 8 + c], 0);
        }
    }
}

#[test]
fn screen_fills_without_scrolling() {
    let mut console = make_console();
    let color = u32::from(RGBColor::White);
    // H lines, the last not yet terminated: no scroll has happened
    console.write_string("a\nb", color);
    assert_eq!(console.cursor_row(), H - 1);
    assert_eq!(console.cursor_col(), 1);
    assert_cell_shows(&console, 0, 0, b'a', color);
    assert_cell_shows(&console, 1, 0, b'b', color);
}

#[test]
fn newline_on_bottom_row_scrolls_once() {
    let mut console = make_console();
    let color = u32::from(RGBColor::White);
    console.write_string("a\nb", color);
    let before = console.framebuffer().clone();
    console.write_string("\n", color);
    let after = console.framebuffer();
    // rows 0..H-2 after the scroll carry rows 1..H-1 from before it
    for i in 0..(H - 1) * 16 * STRIDE {
        assert_eq!(after[i], before[i + 16 * STRIDE]);
    }
    // the freed bottom row is cleared to background across the full stride
    for i in (H - 1) * 16 * STRIDE..H * 16 * STRIDE {
        assert_eq!(after[i], 0);
    }
    assert_eq!(console.cursor_row(), H - 1);
    assert_eq!(console.cursor_col(), 0);
    // the scrolled content is 'b' moved up one row
    assert_cell_shows(&console, 0, 0, b'b', color);
}

#[test]
fn repaint_covers_every_cell_pixel() {
    // a glyph repaints its whole cell, so the same write on a clean and on
    // a dirty buffer leaves identical cell pixels
    let color = u32::from(RGBColor::White);
    let mut clean = make_console();
    clean.write_byte(b'x', color);
    let mut dirty = FramebufferConsole::new(
        vec![0x0055_5555u32; PX_H * STRIDE],
        make_font(),
        PX_W,
        PX_H,
        PITCH,
    );
    dirty.write_byte(b'x', color);
    let clean_fb = clean.framebuffer();
    let dirty_fb = dirty.framebuffer();
    for r in 0..16 {
        for c in 0..8 {
            let idx = r * STRIDE + c;
            assert_eq!(clean_fb[idx], dirty_fb[idx]);
        }
    }
    assert_cell_shows(&dirty, 0, 0, b'x', color);
}

#[test]
fn rewriting_same_glyph_is_idempotent() {
    // render 'q' once, then render 'q' again over a buffer that already
    // holds exactly that result: the pixels must not change at all
    let color = u32::from(RGBColor::White);
    let mut once = make_console();
    once.write_byte(b'q', color);
    let rendered = once.framebuffer().clone();
    let mut again = FramebufferConsole::new(rendered.clone(), make_font(), PX_W, PX_H, PITCH);
    again.write_byte(b'q', color);
    assert_eq!(again.framebuffer(), &rendered);
}

#[test]
fn non_printable_bytes_render_as_star() {
    let color = u32::from(RGBColor::White);
    let mut sanitized = make_console();
    // DEL, a control byte, and a two-byte UTF-8 character (two non-ASCII
    // bytes)
    sanitized.write_string("\u{7f}\u{1}\u{e9}", color);
    let mut stars = make_console();
    stars.write_string("**", color);
    stars.write_string("**", color);
    assert_eq!(sanitized.cursor_col(), stars.cursor_col());
    assert_eq!(sanitized.cursor_row(), stars.cursor_row());
    assert_eq!(sanitized.framebuffer(), stars.framebuffer());
    assert_cell_shows(&sanitized, 0, 0, b'*', color);
}

#[test]
fn println_info_writes_prefix_message_newline() {
    let mut logged = make_console();
    logged.println_info("hi");
    let white = u32::from(RGBColor::White);
    let mut manual = make_console();
    manual.write_string("[info]: ", white);
    manual.write_string("hi", white);
    manual.write_byte(b'\n', white);
    assert_eq!(logged.framebuffer(), manual.framebuffer());
    assert_eq!(logged.cursor_col(), manual.cursor_col());
    assert_eq!(logged.cursor_row(), manual.cursor_row());
}

#[test]
fn println_warning_is_yellow() {
    let mut logged = make_console();
    logged.println_warning("");
    let yellow = u32::from(RGBColor::Yellow);
    let mut manual = make_console();
    manual.write_string("[warning]: \n", yellow);
    assert_eq!(logged.framebuffer(), manual.framebuffer());
    // some glyph pixels of the prefix are lit, all in yellow
    assert!(logged.framebuffer().iter().any(|&p| p == yellow));
    assert!(logged.framebuffer().iter().all(|&p| p == yellow || p == 0));
}

#[test]
fn println_error_is_red() {
    let mut logged = make_console();
    logged.println_error("boom");
    let red = u32::from(RGBColor::Red);
    let mut manual = make_console();
    manual.write_string("[error]: boom\n", red);
    assert_eq!(logged.framebuffer(), manual.framebuffer());
    // some glyph pixels are lit, all in red
    assert!(logged.framebuffer().iter().any(|&p| p == red));
    assert!(logged.framebuffer().iter().all(|&p| p == red || p == 0));
}

#[test]
fn newline_at_parked_cursor_feeds_once() {
    // after a full line the cursor parks at column W; a newline then only
    // feeds the line, it does not wrap a second time
    let mut console = make_console();
    let color = u32::from(RGBColor::White);
    console.write_string("abcd\n", color);
    assert_eq!(console.cursor_row(), 1);
    assert_eq!(console.cursor_col(), 0);
    assert_cell_shows(&console, 0, 3, b'd', color);
}

#[test]
fn empty_string_is_a_no_op() {
    let mut console = make_console();
    let before = console.framebuffer().clone();
    console.write_string("", u32::from(RGBColor::White));
    assert_eq!(console.framebuffer(), &before);
    assert_eq!(console.cursor_col(), 0);
    assert_eq!(console.cursor_row(), 0);
}

#[test]
fn write_byte_indexes_font_directly() {
    // write_byte applies no sanitization: byte 0xFF renders whatever the
    // font table holds in its last slot
    let mut console = make_console();
    let color = u32::from(RGBColor::White);
    console.write_byte(0xFF, color);
    assert_cell_shows(&console, 0, 0, 0xFF, color);
}

#[test]
fn geometry_derived_from_pixels() {
    let console = make_console();
    assert_eq!(console.width_glyphs(), W);
    assert_eq!(console.height_glyphs(), H);
    assert_eq!(console.cursor_col(), 0);
    assert_eq!(console.cursor_row(), 0);
}

#[test]
fn row_padding_stays_untouched() {
    let mut console = make_console();
    console.write_string("abcd", u32::from(RGBColor::White));
    let fb = console.framebuffer();
    // pixels between the nominal width and the stride are padding and are
    // never written
    for r in 0..16 {
        for c in PX_W..STRIDE {
            assert_eq!(fb[r * STRIDE + c], 0);
        }
    }
}

#[test]
fn color_values() {
    assert_eq!(u32::from(RGBColor::White), 0x00FF_FFFF);
    assert_eq!(u32::from(RGBColor::Yellow), 0x00FF_FF00);
    assert_eq!(u32::from(RGBColor::Red), 0x00FF_0000);
    assert_eq!(u32::from(bootcore::fb::RGBColor::Grey), 0x00AA_AAAA);
    assert_eq!(u32::from(bootcore::fb::RGBColor::Black), 0);
    assert_eq!(u32::from(bootcore::fb::RGBColor::Magenta), 0x00AA_00AA);
}
