//! Framebuffer text console: renders a byte stream as 8x16 bitmap glyphs on
//! a linear pixel buffer, with line wrap and scroll-on-overflow.
//!
//! The console owns a buffer of 32-bit `0x00RRGGBB` pixels and a PSF1 font
//! blob (4 header bytes, then one 16-byte bitmap per byte value). Every
//! write operation is specified against [`ConsoleView`], a mathematical
//! snapshot of the pixel contents, the glyph table and the cursor; the
//! transition functions [`after_byte`] and [`after_bytes`] say exactly what
//! each write does to that snapshot.

use vstd::arithmetic::div_mod::{
    lemma_fundamental_div_mod, lemma_fundamental_div_mod_converse,
};
use vstd::arithmetic::mul::lemma_mul_inequality;
use vstd::prelude::*;
use vstd::string::StringSliceAdditionalSpecFns;

verus! {

/// Glyph width in pixels: one font byte holds one pixel row.
pub const PSF1FONT_WIDTH: usize = 8;

/// Glyph height in pixel rows, and bytes per glyph bitmap.
pub const PSF1FONT_HEIGHT: usize = 16;

/// Colors the console's logging helpers print in, as `0x00RRGGBB` pixels.
#[derive(Clone, Copy, Debug, PartialEq, Eq, Structural)]
pub enum RGBColor {
    Red,
    Yellow,
    White,
}

/// The `0x00RRGGBB` pixel value of `c`.
pub open spec fn color_value(c: RGBColor) -> u32 {
    match c {
        RGBColor::Red => 0x00FF0000,
        RGBColor::Yellow => 0x00FFFF00,
        RGBColor::White => 0x00FFFFFF,
    }
}

impl From<RGBColor> for u32 {
    fn from(c: RGBColor) -> (v: u32) {
        match c {
            RGBColor::Red => 0x00FF0000,
            RGBColor::Yellow => 0x00FFFF00,
            RGBColor::White => 0x00FFFFFF,
        }
    }
}

impl vstd::std_specs::convert::FromSpecImpl<RGBColor> for u32 {
    open spec fn obeys_from_spec() -> bool {
        true
    }

    open spec fn from_spec(c: RGBColor) -> u32 {
        color_value(c)
    }
}

/// Mathematical snapshot of a console: pixel contents, glyph table (header
/// already skipped), screen geometry and cursor position.
#[verifier::ext_equal]
pub ghost struct ConsoleView {
    /// The pixel buffer, one `0x00RRGGBB` value per pixel.
    pub fb: Seq<u32>,
    /// The glyph table: 16 bytes per byte value, 256 glyphs.
    pub font: Seq<u8>,
    /// Screen width in glyph cells.
    pub width: nat,
    /// Screen height in glyph cells.
    pub height: nat,
    /// Pixels from one buffer row to the next (pitch / 4); may exceed the
    /// nominal pixel width because of hardware row padding.
    pub stride: nat,
    /// Cursor column in glyph cells, `0 ..= width`.
    pub col: nat,
    /// Cursor row in glyph cells, `0 .. height`.
    pub row: nat,
}

/// Geometry and cursor soundness: at least one glyph cell each way, a row
/// stride that fits a full row of glyphs, a buffer covering the glyph grid,
/// a complete glyph table, and a cursor inside the grid (the column may
/// rest one past the last cell before the deferred wrap).
pub open spec fn view_wf(v: ConsoleView) -> bool {
    &&& v.width >= 1
    &&& v.height >= 1
    &&& v.stride >= v.width * 8
    &&& v.fb.len() >= v.height * 16 * v.stride
    &&& v.font.len() >= 256 * 16
    &&& v.col <= v.width
    &&& v.row < v.height
}

/// Whether the glyph bitmap for `byte` lights pixel column `c` of row `r`
/// (most-significant bit = leftmost pixel).
pub open spec fn glyph_on(font: Seq<u8>, byte: u8, r: int, c: int) -> bool {
    (font[byte as int * 16 + r] >> ((7 - c) as u8)) & 1 != 0
}

/// The pixel a glyph write stores at cell-relative row `r`, column `c`:
/// the foreground color where the bitmap bit is set, background (0)
/// everywhere else — the cell is repainted in full.
pub open spec fn glyph_pixel(font: Seq<u8>, byte: u8, r: int, c: int, color: u32) -> u32 {
    if glyph_on(font, byte, r, c) {
        color
    } else {
        0u32
    }
}

/// Whether buffer index `i` lies inside the glyph cell under the cursor.
pub open spec fn in_cell(v: ConsoleView, i: int) -> bool {
    let pr = i / (v.stride as int);
    let pc = i % (v.stride as int);
    &&& v.row * 16 <= pr < v.row * 16 + 16
    &&& v.col * 8 <= pc < v.col * 8 + 8
}

/// Cell-relative pixel row of buffer index `i`.
pub open spec fn cell_r(v: ConsoleView, i: int) -> int {
    i / (v.stride as int) - v.row * 16
}

/// Cell-relative pixel column of buffer index `i`.
pub open spec fn cell_c(v: ConsoleView, i: int) -> int {
    i % (v.stride as int) - v.col * 8
}

/// The pixel buffer after rendering `byte`'s glyph at the cursor cell:
/// every pixel of that cell is repainted from the bitmap, every other
/// pixel keeps its value.
pub open spec fn rendered(v: ConsoleView, byte: u8, color: u32) -> Seq<u32> {
    Seq::new(
        v.fb.len(),
        |i: int|
            if in_cell(v, i) {
                glyph_pixel(v.font, byte, cell_r(v, i), cell_c(v, i), color)
            } else {
                v.fb[i]
            },
    )
}

/// The pixel buffer after scrolling one glyph row up: the glyph area moves
/// back by one glyph-row band, the last band is cleared to background, and
/// anything past the glyph area keeps its value.
pub open spec fn scrolled(v: ConsoleView) -> Seq<u32> {
    let band = 16 * v.stride as int;
    let live = (v.height - 1) * band;
    Seq::new(
        v.fb.len(),
        |i: int|
            if i < live {
                v.fb[i + band]
            } else if i < live + band {
                0u32
            } else {
                v.fb[i]
            },
    )
}

/// Cursor and pixel state after a line feed: below the last row the cursor
/// just moves down and back to column 0; on the last row the screen
/// scrolls and the cursor returns to column 0 of that same row.
pub open spec fn after_new_line(v: ConsoleView) -> ConsoleView {
    if v.row + 1 == v.height {
        ConsoleView { fb: scrolled(v), col: 0nat, ..v }
    } else {
        ConsoleView { col: 0nat, row: (v.row + 1) as nat, ..v }
    }
}

/// State after writing one byte: a newline feeds the line; any other byte
/// first wraps if the row is full, then renders its glyph at the cursor
/// cell and advances the cursor one cell.
pub open spec fn after_byte(v: ConsoleView, byte: u8, color: u32) -> ConsoleView {
    if byte == 10 {
        after_new_line(v)
    } else {
        let v2 = if v.col == v.width {
            after_new_line(v)
        } else {
            v
        };
        ConsoleView { fb: rendered(v2, byte, color), col: (v2.col + 1) as nat, ..v2 }
    }
}

/// State after writing a byte sequence, first byte first.
pub open spec fn after_bytes(v: ConsoleView, bytes: Seq<u8>, color: u32) -> ConsoleView
    decreases bytes.len(),
{
    if bytes.len() == 0 {
        v
    } else {
        after_bytes(after_byte(v, bytes[0], color), bytes.skip(1), color)
    }
}

/// The sanitization the string writer applies to each input byte:
/// printable ASCII and newline pass through, everything else becomes a
/// literal `*` so no byte ever indexes the glyph table out of its range.
pub open spec fn sanitized(b: u8) -> u8 {
    if (0x20 <= b <= 0x7e) || b == 10 {
        b
    } else {
        0x2a
    }
}

/// State after writing string `s`: its UTF-8 bytes, each sanitized, fed to
/// the byte writer in order.
pub open spec fn written(v: ConsoleView, s: &str, color: u32) -> ConsoleView {
    after_bytes(v, s.spec_bytes().map_values(|b: u8| sanitized(b)), color)
}

/// Pixel value at index `i` while a glyph write is in progress: cell
/// pixels before row `r`, or on row `r` before column `c`, already carry
/// the glyph; everything else still carries the old buffer value.
spec fn render_upto(v: ConsoleView, byte: u8, color: u32, r: int, c: int, i: int) -> u32 {
    if in_cell(v, i) && (cell_r(v, i) < r || (cell_r(v, i) == r && cell_c(v, i) < c)) {
        glyph_pixel(v.font, byte, cell_r(v, i), cell_c(v, i), color)
    } else {
        v.fb[i]
    }
}

/// The glyph area fits the buffer, and every partial product taken while
/// computing an index into it stays below the area's size.
proof fn lemma_area_bounds(v: ConsoleView)
    requires
        view_wf(v),
    ensures
        v.height * 16 <= v.height * 16 * v.stride <= v.fb.len(),
        v.stride <= v.height * 16 * v.stride,
        16 * v.stride <= v.height * 16 * v.stride,
        (v.height - 1) * (16 * v.stride) + 16 * v.stride == v.height * 16 * v.stride,
{
    let s = v.stride as int;
    assert(s >= 8);
    assert(v.height * 16 <= v.height * 16 * s) by (nonlinear_arith)
        requires
            s >= 1 && v.height * 16 >= 0,
    ;
    assert(s <= v.height * 16 * s) by (nonlinear_arith)
        requires
            s >= 0 && v.height * 16 >= 1,
    ;
    assert(16 * s <= v.height * 16 * s) by (nonlinear_arith)
        requires
            s >= 0 && v.height >= 1,
    ;
    assert((v.height - 1) * (16 * s) + 16 * s == v.height * 16 * s) by (nonlinear_arith);
}

/// The buffer index of cell-relative pixel `(r, c)` under the cursor lies
/// inside the glyph area and decodes back to that pixel by row division
/// and remainder.
proof fn lemma_cell_index(v: ConsoleView, r: int, c: int)
    requires
        view_wf(v),
        v.col < v.width,
        0 <= r < 16,
        0 <= c < 8,
    ensures
        v.row * 16 + r < v.height * 16,
        v.height * 16 <= v.height * 16 * v.stride <= v.fb.len(),
        v.stride <= v.height * 16 * v.stride,
        0 <= (v.row * 16 + r) * v.stride <= (v.row * 16 + r) * v.stride + v.col * 8 + c,
        (v.row * 16 + r) * v.stride + v.col * 8 + c < v.height * 16 * v.stride,
        ((v.row * 16 + r) * v.stride + v.col * 8 + c) / (v.stride as int) == v.row * 16 + r,
        ((v.row * 16 + r) * v.stride + v.col * 8 + c) % (v.stride as int) == v.col * 8 + c,
{
    let s = v.stride as int;
    let q = v.row * 16 + r;
    let rem = v.col * 8 + c;
    assert((v.col + 1) * 8 <= v.width * 8) by (nonlinear_arith)
        requires
            v.col < v.width,
    ;
    assert(0 <= rem < s);
    assert(q * s >= 0) by (nonlinear_arith)
        requires
            q >= 0 && s >= 0,
    ;
    assert(v.row * 16 + r + 1 <= v.height * 16) by (nonlinear_arith)
        requires
            v.row < v.height && r < 16,
    ;
    assert(q * s + rem < (q + 1) * s) by (nonlinear_arith)
        requires
            rem < s,
    ;
    lemma_mul_inequality(q + 1, v.height as int * 16, s);
    assert(v.height * 16 <= v.height * 16 * s) by (nonlinear_arith)
        requires
            s >= 1 && v.height * 16 >= 0,
    ;
    assert(s <= v.height * 16 * s) by (nonlinear_arith)
        requires
            s >= 0 && v.height * 16 >= 1,
    ;
    lemma_fundamental_div_mod_converse(q * s + rem, s, q, rem);
}

/// A buffer index inside the cursor's glyph cell is exactly the index its
/// cell-relative pixel row and column encode, and both lie in glyph range.
proof fn lemma_in_cell_index(v: ConsoleView, i: int)
    requires
        view_wf(v),
        0 <= i < v.fb.len(),
        in_cell(v, i),
    ensures
        0 <= cell_r(v, i) < 16,
        0 <= cell_c(v, i) < 8,
        i == (v.row * 16 + cell_r(v, i)) * v.stride + v.col * 8 + cell_c(v, i),
{
    let s = v.stride as int;
    lemma_fundamental_div_mod(i, s);
    assert(s * (i / s) == (i / s) * s) by (nonlinear_arith);
    assert((v.row * 16 + cell_r(v, i)) * s == (i / s) * s);
}

/// A byte the console renders as a glyph rather than a control code.
pub open spec fn printable(b: u8) -> bool {
    0x20 <= b <= 0x7e
}

/// Repainting the cursor cell with the same glyph and color is idempotent:
/// rendering twice leaves exactly the pixels of rendering once, because a
/// glyph write repaints its whole cell and reads nothing from it.
pub proof fn lemma_repaint_idempotent(v: ConsoleView, byte: u8, color: u32)
    ensures
        rendered(ConsoleView { fb: rendered(v, byte, color), ..v }, byte, color) == rendered(
            v,
            byte,
            color,
        ),
{
    let twice = ConsoleView { fb: rendered(v, byte, color), ..v };
    assert(rendered(twice, byte, color) =~= rendered(v, byte, color));
}

/// Writing printable bytes that fit in the remaining cells of the current
/// line advances the cursor by exactly their count: no wrap, no line feed,
/// no geometry change.
pub proof fn lemma_printables_stay_on_row(v: ConsoleView, bytes: Seq<u8>, color: u32)
    requires
        view_wf(v),
        forall|i: int| 0 <= i < bytes.len() ==> printable(#[trigger] bytes[i]),
        v.col + bytes.len() <= v.width,
    ensures
        view_wf(after_bytes(v, bytes, color)),
        after_bytes(v, bytes, color).row == v.row,
        after_bytes(v, bytes, color).col == v.col + bytes.len(),
        after_bytes(v, bytes, color).width == v.width,
        after_bytes(v, bytes, color).height == v.height,
        after_bytes(v, bytes, color).stride == v.stride,
        after_bytes(v, bytes, color).font == v.font,
        after_bytes(v, bytes, color).fb.len() == v.fb.len(),
        forall|i: int|
            0 <= i < v.fb.len() && !(v.row * 16 <= i / (v.stride as int) < v.row * 16 + 16)
                ==> after_bytes(v, bytes, color).fb[i] == v.fb[i],
    decreases bytes.len(),
{
    if bytes.len() > 0 {
        let b = bytes[0];
        assert(b != 10);
        assert(v.col < v.width);
        let v1 = after_byte(v, b, color);
        assert(v1.fb.len() == v.fb.len());
        assert(view_wf(v1));
        assert(forall|i: int|
            0 <= i < bytes.skip(1).len() ==> printable(#[trigger] bytes.skip(1)[i]));
        lemma_printables_stay_on_row(v1, bytes.skip(1), color);
        assert forall|i: int|
            0 <= i < v.fb.len() && !(v.row * 16 <= i / (v.stride as int) < v.row * 16
                + 16) implies after_bytes(v, bytes, color).fb[i] == v.fb[i] by {
            assert(after_bytes(v, bytes, color) == after_bytes(v1, bytes.skip(1), color));
            assert(!in_cell(v, i));
            assert(v1.fb[i] == v.fb[i]);
            assert(after_bytes(v1, bytes.skip(1), color).fb[i] == v1.fb[i]);
        }
    }
}

/// Writing exactly one full line of printable characters from the line's
/// start does not advance the row: the cursor parks one past the last
/// cell, and only the next character forces the wrap.
pub proof fn lemma_full_line_no_wrap(v: ConsoleView, bytes: Seq<u8>, color: u32)
    requires
        view_wf(v),
        v.col == 0,
        bytes.len() == v.width,
        forall|i: int| 0 <= i < bytes.len() ==> printable(#[trigger] bytes[i]),
    ensures
        after_bytes(v, bytes, color).row == v.row,
        after_bytes(v, bytes, color).col == v.width,
{
    lemma_printables_stay_on_row(v, bytes, color);
}

/// One printable character beyond a full line wraps exactly one row down
/// (when a row below exists): the extra character lands in column 0 of
/// the new row and the cursor ends in its column 1. On the bottom row a
/// wrap scrolls instead and the row index stays, so that case is left out
/// here.
pub proof fn lemma_wrap_after_full_line(v: ConsoleView, bytes: Seq<u8>, color: u32)
    requires
        view_wf(v),
        v.col == 0,
        bytes.len() == v.width + 1,
        forall|i: int| 0 <= i < bytes.len() ==> printable(#[trigger] bytes[i]),
        v.row + 1 < v.height,
    ensures
        after_bytes(v, bytes, color).row == v.row + 1,
        after_bytes(v, bytes, color).col == 1,
{
    let front = bytes.take(v.width as int);
    let last = bytes[v.width as int];
    assert(bytes =~= front.push(last));
    assert(forall|i: int| 0 <= i < front.len() ==> printable(#[trigger] front[i]));
    lemma_printables_stay_on_row(v, front, color);
    lemma_after_bytes_snoc(v, front, last, color);
    let vf = after_bytes(v, front, color);
    assert(last != 10);
    assert(vf.col == vf.width);
    assert(after_new_line(vf).row == v.row + 1);
}

/// One newline-terminated line of printable characters, written from the
/// start of any row above the bottom one, renders inside that row's pixel
/// band only and parks the cursor at the start of the next row: filling
/// the screen line by line scrolls nothing until a line feed happens on
/// the bottom row itself.
pub proof fn lemma_line_feed_no_scroll(v: ConsoleView, bytes: Seq<u8>, color: u32)
    requires
        view_wf(v),
        v.col == 0,
        bytes.len() <= v.width,
        forall|i: int| 0 <= i < bytes.len() ==> printable(#[trigger] bytes[i]),
        v.row + 1 < v.height,
    ensures
        after_bytes(v, bytes.push(10), color).row == v.row + 1,
        after_bytes(v, bytes.push(10), color).col == 0,
        after_bytes(v, bytes.push(10), color).height == v.height,
        after_bytes(v, bytes.push(10), color).width == v.width,
        after_bytes(v, bytes.push(10), color).stride == v.stride,
        after_bytes(v, bytes.push(10), color).fb.len() == v.fb.len(),
        forall|i: int|
            0 <= i < v.fb.len() && !(v.row * 16 <= i / (v.stride as int) < v.row * 16 + 16)
                ==> after_bytes(v, bytes.push(10), color).fb[i] == v.fb[i],
{
    lemma_printables_stay_on_row(v, bytes, color);
    lemma_after_bytes_snoc(v, bytes, 10, color);
    let vf = after_bytes(v, bytes, color);
    lemma_newline_no_scroll(vf);
}

/// A line feed anywhere above the bottom row moves the cursor down one
/// row and back to column 0 without touching a single pixel.
pub proof fn lemma_newline_no_scroll(v: ConsoleView)
    requires
        view_wf(v),
        v.row + 1 < v.height,
    ensures
        after_new_line(v).fb == v.fb,
        after_new_line(v).row == v.row + 1,
        after_new_line(v).col == 0,
{
}

/// A line feed on the bottom row scrolls exactly once: every pixel of the
/// glyph area moves back by one glyph-row band (each row takes the former
/// content of the row beneath it), the freed bottom band is cleared to
/// background, anything past the glyph area is untouched, and the cursor
/// returns to column 0 of the same bottom row.
pub proof fn lemma_newline_scrolls(v: ConsoleView)
    requires
        view_wf(v),
        v.row + 1 == v.height,
    ensures
        after_new_line(v).row == v.row,
        after_new_line(v).col == 0,
        after_new_line(v).fb.len() == v.fb.len(),
        forall|i: int|
            0 <= i < (v.height - 1) * (16 * v.stride) ==> after_new_line(v).fb[i] == v.fb[i + 16
                * v.stride],
        forall|i: int|
            (v.height - 1) * (16 * v.stride) <= i < v.height * 16 * v.stride ==> after_new_line(
                v,
            ).fb[i] == 0u32,
        forall|i: int|
            v.height * 16 * v.stride <= i < v.fb.len() ==> after_new_line(v).fb[i] == v.fb[i],
{
    lemma_area_bounds(v);
}

/// Writing a byte sequence and then one more byte is writing the extended
/// sequence: feeding bytes one at a time agrees with [`after_bytes`].
pub proof fn lemma_after_bytes_snoc(v: ConsoleView, bytes: Seq<u8>, b: u8, color: u32)
    ensures
        after_bytes(v, bytes.push(b), color) == after_byte(after_bytes(v, bytes, color), b, color),
    decreases bytes.len(),
{
    let pushed = bytes.push(b);
    assert(pushed.len() == bytes.len() + 1);
    if bytes.len() == 0 {
        assert(pushed[0] == b);
        assert(pushed.skip(1) =~= Seq::<u8>::empty());
        assert(after_bytes(v, pushed, color) == after_bytes(
            after_byte(v, b, color),
            pushed.skip(1),
            color,
        ));
        assert(after_bytes(after_byte(v, b, color), pushed.skip(1), color) == after_byte(
            v,
            b,
            color,
        ));
        assert(after_bytes(v, bytes, color) == v);
    } else {
        assert(pushed[0] == bytes[0]);
        assert(pushed.skip(1) =~= bytes.skip(1).push(b));
        let stepped = after_byte(v, bytes[0], color);
        assert(after_bytes(v, pushed, color) == after_bytes(stepped, pushed.skip(1), color));
        assert(after_bytes(v, bytes, color) == after_bytes(stepped, bytes.skip(1), color));
        lemma_after_bytes_snoc(stepped, bytes.skip(1), b, color);
    }
}

/// A text console over a linear pixel framebuffer. It owns the pixel
/// buffer for its whole lifetime, reads glyph bitmaps from a PSF1 font
/// blob, and keeps a cursor in glyph-cell coordinates.
pub struct FramebufferConsole {
    /// The pixel buffer, one `u32` per pixel.
    framebuffer: Vec<u32>,
    /// PSF1 font blob: 4 header bytes, then 256 glyphs of 16 bytes each.
    psf1fonts: Vec<u8>,
    /// Screen width in glyph cells.
    width: usize,
    /// Screen height in glyph cells.
    height: usize,
    /// Bytes per framebuffer row; all row arithmetic goes through this,
    /// never through the nominal pixel width.
    pitch: usize,
    /// Cursor column in glyph cells.
    current_width: usize,
    /// Cursor row in glyph cells.
    current_height: usize,
}

impl View for FramebufferConsole {
    type V = ConsoleView;

    closed spec fn view(&self) -> ConsoleView {
        ConsoleView {
            fb: self.framebuffer@,
            font: self.psf1fonts@.skip(4),
            width: self.width as nat,
            height: self.height as nat,
            stride: (self.pitch / 4) as nat,
            col: self.current_width as nat,
            row: self.current_height as nat,
        }
    }
}

impl FramebufferConsole {
    /// The console invariant: the snapshot is well formed and the font
    /// blob really holds the 4-byte header in front of the glyph table.
    pub closed spec fn wf(self) -> bool {
        &&& view_wf(self@)
        &&& self.psf1fonts@.len() >= 4 + 256 * 16
    }

    /// A well-formed console has a well-formed snapshot.
    pub proof fn lemma_wf_view(self)
        requires
            self.wf(),
        ensures
            view_wf(self@),
    {
    }

    /// Builds a console over `framebuffer`, a buffer of `pixel_height`
    /// rows of `pitch / 4` pixels, rendering glyphs from the PSF1 blob
    /// `psf1fonts` (4 header bytes, then 16 bytes per glyph). The glyph
    /// grid capacity is derived from the pixel geometry; the cursor starts
    /// at the top left cell.
    pub fn new(
        framebuffer: Vec<u32>,
        psf1fonts: Vec<u8>,
        pixel_width: usize,
        pixel_height: usize,
        pitch: usize,
    ) -> (c: FramebufferConsole)
        requires
            pixel_width >= 8,
            pixel_height >= 16,
            pitch / 4 >= pixel_width,
            framebuffer@.len() >= pixel_height * (pitch / 4),
            psf1fonts@.len() >= 4 + 256 * 16,
        ensures
            c.wf(),
            c@ == (ConsoleView {
                fb: framebuffer@,
                font: psf1fonts@.skip(4),
                width: (pixel_width / 8) as nat,
                height: (pixel_height / 16) as nat,
                stride: (pitch / 4) as nat,
                col: 0nat,
                row: 0nat,
            }),
    {
        let c = FramebufferConsole {
            framebuffer,
            psf1fonts,
            width: pixel_width / PSF1FONT_WIDTH,
            height: pixel_height / PSF1FONT_HEIGHT,
            pitch,
            current_width: 0,
            current_height: 0,
        };
        proof {
            let w = pixel_width as int;
            let h = pixel_height as int;
            let s = (pitch / 4) as int;
            assert((w / 8) * 8 <= w) by (nonlinear_arith)
                requires
                    w >= 8,
            ;
            assert((h / 16) * 16 <= h) by (nonlinear_arith)
                requires
                    h >= 16,
            ;
            assert((h / 16) * 16 * s <= h * s) by (nonlinear_arith)
                requires
                    (h / 16) * 16 <= h && s >= 0,
            ;
        }
        c
    }

    /// Screen width in glyph cells.
    pub fn width_glyphs(&self) -> (w: usize)
        ensures
            w as nat == self@.width,
    {
        self.width
    }

    /// Screen height in glyph cells.
    pub fn height_glyphs(&self) -> (h: usize)
        ensures
            h as nat == self@.height,
    {
        self.height
    }

    /// Cursor column in glyph cells.
    pub fn cursor_col(&self) -> (c: usize)
        ensures
            c as nat == self@.col,
    {
        self.current_width
    }

    /// Cursor row in glyph cells.
    pub fn cursor_row(&self) -> (r: usize)
        ensures
            r as nat == self@.row,
    {
        self.current_height
    }

    /// Repaints the glyph cell under the cursor with `byte`'s bitmap:
    /// foreground `color` where a bit is set, background everywhere else.
    /// Cursor and geometry stay as they are.
    fn render_glyph(&mut self, byte: u8, color: u32)
        requires
            old(self).wf(),
            old(self)@.col < old(self)@.width,
        ensures
            final(self).wf(),
            final(self)@ == (ConsoleView { fb: rendered(old(self)@, byte, color), ..old(self)@ }),
    {
        let ghost self0 = *self;
        let ghost v0 = self0@;
        let fblen = self.framebuffer.len();
        let mut r: usize = 0;
        while r < 16
            invariant
                self0.wf(),
                v0 == self0@,
                v0.col < v0.width,
                fblen == v0.fb.len(),
                self.psf1fonts@ == self0.psf1fonts@,
                self.width == self0.width,
                self.height == self0.height,
                self.pitch == self0.pitch,
                self.current_width == self0.current_width,
                self.current_height == self0.current_height,
                self.framebuffer@.len() == v0.fb.len(),
                r <= 16,
                forall|i: int|
                    0 <= i < v0.fb.len() ==> self.framebuffer@[i] == render_upto(
                        v0,
                        byte,
                        color,
                        r as int,
                        0,
                        i,
                    ),
            decreases 16 - r,
        {
            let bits: u8 = self.psf1fonts[4 + 16 * (byte as usize) + r];
            proof {
                assert(self.psf1fonts@[4 + 16 * (byte as int) + r] == v0.font[16 * (
                byte as int) + r]);
            }
            let mut c: usize = 0;
            while c < 8
                invariant
                    self0.wf(),
                    v0 == self0@,
                    v0.col < v0.width,
                    fblen == v0.fb.len(),
                    self.psf1fonts@ == self0.psf1fonts@,
                    self.width == self0.width,
                    self.height == self0.height,
                    self.pitch == self0.pitch,
                    self.current_width == self0.current_width,
                    self.current_height == self0.current_height,
                    self.framebuffer@.len() == v0.fb.len(),
                    r < 16,
                    c <= 8,
                    bits == v0.font[16 * (byte as int) + r],
                    forall|i: int|
                        0 <= i < v0.fb.len() ==> self.framebuffer@[i] == render_upto(
                            v0,
                            byte,
                            color,
                            r as int,
                            c as int,
                            i,
                        ),
                decreases 8 - c,
            {
                proof {
                    lemma_cell_index(v0, r as int, c as int);
                }
                let stride = self.pitch / 4;
                let idx = (self.current_height * 16 + r) * stride + self.current_width * 8 + c;
                let px: u32 = if (bits >> ((7 - c) as u8)) & 1 != 0 {
                    color
                } else {
                    0
                };
                self.framebuffer[idx] = px;
                proof {
                    assert(px == glyph_pixel(v0.font, byte, r as int, c as int, color));
                    assert(in_cell(v0, idx as int) && cell_r(v0, idx as int) == r as int
                        && cell_c(v0, idx as int) == c as int);
                    assert forall|i: int| 0 <= i < v0.fb.len() implies self.framebuffer@[i]
                        == render_upto(v0, byte, color, r as int, c as int + 1, i) by {
                        if i != idx as int && in_cell(v0, i) {
                            lemma_in_cell_index(v0, i);
                        }
                    }
                }
                c = c + 1;
            }
            proof {
                assert forall|i: int| 0 <= i < v0.fb.len() implies render_upto(
                    v0,
                    byte,
                    color,
                    r as int,
                    8,
                    i,
                ) == render_upto(v0, byte, color, r as int + 1, 0, i) by {
                    if in_cell(v0, i) {
                        lemma_in_cell_index(v0, i);
                    }
                }
            }
            r = r + 1;
        }
        proof {
            assert forall|i: int| 0 <= i < v0.fb.len() implies self.framebuffer@[i] == rendered(
                v0,
                byte,
                color,
            )[i] by {
                if in_cell(v0, i) {
                    lemma_in_cell_index(v0, i);
                }
            }
            assert(self.framebuffer@ =~= rendered(v0, byte, color));
            assert(self@ =~= (ConsoleView { fb: rendered(v0, byte, color), ..v0 }));
        }
    }

    /// Moves every pixel of the glyph area back by one glyph-row band.
    /// The copy runs front to back, so each read still sees the old value
    /// (the source lies one band ahead of the destination). Pixels past
    /// the glyph area and the cursor stay as they are; the last band keeps
    /// its stale content until the caller clears it.
    fn scroll_up(&mut self)
        requires
            old(self).wf(),
        ensures
            final(self).wf(),
            final(self)@ == (ConsoleView {
                fb: final(self)@.fb,
                ..old(self)@
            }),
            final(self)@.fb.len() == old(self)@.fb.len(),
            forall|i: int|
                0 <= i < (old(self)@.height - 1) * (16 * old(self)@.stride)
                    ==> final(self)@.fb[i] == old(self)@.fb[i + 16 * old(self)@.stride],
            forall|i: int|
                (old(self)@.height - 1) * (16 * old(self)@.stride) <= i < old(self)@.fb.len()
                    ==> final(self)@.fb[i] == old(self)@.fb[i],
    {
        let ghost self0 = *self;
        let ghost v0 = self0@;
        let fblen = self.framebuffer.len();
        let stride = self.pitch / 4;
        proof {
            lemma_area_bounds(v0);
        }
        let band = 16 * stride;
        let live = (self.height - 1) * band;
        let mut i: usize = 0;
        while i < live
            invariant
                self0.wf(),
                v0 == self0@,
                live + band == v0.height * 16 * v0.stride <= v0.fb.len(),
                live == (v0.height - 1) * (16 * v0.stride),
                band == 16 * v0.stride,
                self.psf1fonts@ == self0.psf1fonts@,
                self.width == self0.width,
                self.height == self0.height,
                self.pitch == self0.pitch,
                self.current_width == self0.current_width,
                self.current_height == self0.current_height,
                self.framebuffer@.len() == v0.fb.len(),
                fblen == v0.fb.len(),
                i <= live,
                forall|j: int| 0 <= j < i ==> self.framebuffer@[j] == v0.fb[j + band],
                forall|j: int|
                    i <= j < v0.fb.len() ==> self.framebuffer@[j] == v0.fb[j],
            decreases live - i,
        {
            let px = self.framebuffer[i + band];
            self.framebuffer[i] = px;
            i = i + 1;
        }
    }

    /// Repaints glyph row `font_row` with the background color, pixel by
    /// pixel across the full row stride. Cursor and geometry stay as they
    /// are.
    fn clear_font_row(&mut self, font_row: usize)
        requires
            old(self).wf(),
            font_row < old(self)@.height,
        ensures
            final(self).wf(),
            final(self)@ == (ConsoleView {
                fb: final(self)@.fb,
                ..old(self)@
            }),
            final(self)@.fb.len() == old(self)@.fb.len(),
            forall|i: int|
                font_row * (16 * old(self)@.stride) <= i < font_row * (16 * old(self)@.stride)
                    + 16 * old(self)@.stride ==> final(self)@.fb[i] == 0u32,
            forall|i: int|
                0 <= i < old(self)@.fb.len() && !(font_row * (16 * old(self)@.stride) <= i
                    < font_row * (16 * old(self)@.stride) + 16 * old(self)@.stride)
                    ==> final(self)@.fb[i] == old(self)@.fb[i],
    {
        let ghost self0 = *self;
        let ghost v0 = self0@;
        let fblen = self.framebuffer.len();
        let stride = self.pitch / 4;
        proof {
            lemma_area_bounds(v0);
            assert(font_row * (16 * v0.stride) + 16 * v0.stride <= v0.height * 16 * v0.stride)
                by (nonlinear_arith)
                requires
                    font_row < v0.height && v0.stride >= 0,
            ;
            assert(font_row * (16 * v0.stride) >= 0) by (nonlinear_arith)
                requires
                    font_row >= 0 && v0.stride >= 0,
            ;
        }
        let band = 16 * stride;
        let start = font_row * band;
        let mut k: usize = 0;
        while k < band
            invariant
                self0.wf(),
                v0 == self0@,
                start == font_row * (16 * v0.stride),
                band == 16 * v0.stride,
                start + band <= v0.height * 16 * v0.stride <= v0.fb.len(),
                self.psf1fonts@ == self0.psf1fonts@,
                self.width == self0.width,
                self.height == self0.height,
                self.pitch == self0.pitch,
                self.current_width == self0.current_width,
                self.current_height == self0.current_height,
                self.framebuffer@.len() == v0.fb.len(),
                fblen == v0.fb.len(),
                k <= band,
                forall|j: int|
                    start <= j < start + k ==> self.framebuffer@[j] == 0u32,
                forall|j: int|
                    0 <= j < v0.fb.len() && !(start <= j < start + k) ==> self.framebuffer@[j]
                        == v0.fb[j],
            decreases band - k,
        {
            self.framebuffer[start + k] = 0;
            k = k + 1;
        }
    }

    /// Feeds the line: below the last row the cursor moves down and back
    /// to column 0; on the last row the whole glyph area scrolls one glyph
    /// row up, the freed last row is cleared to background, and the cursor
    /// returns to column 0 of that same row.
    fn new_line(&mut self)
        requires
            old(self).wf(),
        ensures
            final(self).wf(),
            final(self)@ == after_new_line(old(self)@),
    {
        let ghost v0 = self@;
        if self.current_height == self.height - 1 {
            self.scroll_up();
            let ghost v1 = self@;
            self.clear_font_row(self.height - 1);
            self.current_width = 0;
            proof {
                assert forall|i: int| 0 <= i < v0.fb.len() implies self@.fb[i] == scrolled(
                    v0,
                )[i] by {
                    assert(v1.fb[i] == self@.fb[i] || self@.fb[i] == 0u32);
                }
                assert(self@.fb =~= scrolled(v0));
                assert(self@ =~= after_new_line(v0));
            }
        } else {
            self.current_height = self.current_height + 1;
            self.current_width = 0;
            proof {
                assert(self@ =~= after_new_line(v0));
            }
        }
    }

    /// Writes one byte: newline feeds the line; any other byte renders its
    /// glyph at the cursor cell — wrapping to a fresh line first if the
    /// row is already full — and advances the cursor one cell.
    pub fn write_byte(&mut self, byte: u8, color: u32)
        requires
            old(self).wf(),
        ensures
            final(self).wf(),
            final(self)@ == after_byte(old(self)@, byte, color),
    {
        let ghost v0 = self@;
        if byte == 10u8 {
            self.new_line();
        } else {
            if self.current_width == self.width {
                self.new_line();
            }
            self.render_glyph(byte, color);
            self.current_width = self.current_width + 1;
            proof {
                assert(self@ =~= after_byte(v0, byte, color));
            }
        }
    }

    /// Writes a string: each UTF-8 byte of `s` is sanitized — printable
    /// ASCII (0x20..=0x7E) and newline pass through, any other byte
    /// becomes a literal `*` — and handed to the byte writer in order.
    pub fn write_string(&mut self, s: &str, color: u32)
        requires
            old(self).wf(),
        ensures
            final(self).wf(),
            final(self)@ == written(old(self)@, s, color),
    {
        let ghost v0 = self@;
        let bytes = s.as_bytes();
        let ghost sanitized_bytes = bytes@.map_values(|b: u8| sanitized(b));
        let n = bytes.len();
        let mut i: usize = 0;
        while i < n
            invariant
                self.wf(),
                n == bytes@.len(),
                bytes@ == s.spec_bytes(),
                sanitized_bytes == bytes@.map_values(|b: u8| sanitized(b)),
                i <= n,
                self@ == after_bytes(v0, sanitized_bytes.take(i as int), color),
            decreases n - i,
        {
            let b = bytes[i];
            let w: u8 = if (0x20 <= b && b <= 0x7e) || b == 10 {
                b
            } else {
                0x2a
            };
            proof {
                assert(w == sanitized_bytes[i as int]);
                assert(sanitized_bytes.take(i as int + 1) =~= sanitized_bytes.take(
                    i as int,
                ).push(w));
                lemma_after_bytes_snoc(v0, sanitized_bytes.take(i as int), w, color);
            }
            self.write_byte(w, color);
            i = i + 1;
        }
        proof {
            assert(sanitized_bytes.take(n as int) =~= sanitized_bytes);
        }
    }

    /// Prints `"[info]: "`, then `s`, then a newline, all in white.
    pub fn println_info(&mut self, s: &str)
        requires
            old(self).wf(),
        ensures
            final(self).wf(),
            final(self)@ == after_byte(
                written(
                    written(old(self)@, "[info]: ", color_value(RGBColor::White)),
                    s,
                    color_value(RGBColor::White),
                ),
                10,
                color_value(RGBColor::White),
            ),
    {
        let color = u32::from(RGBColor::White);
        self.write_string("[info]: ", color);
        self.write_string(s, color);
        self.write_byte(10, color);
    }

    /// Prints `"[warning]: "`, then `s`, then a newline, all in yellow.
    pub fn println_warning(&mut self, s: &str)
        requires
            old(self).wf(),
        ensures
            final(self).wf(),
            final(self)@ == after_byte(
                written(
                    written(old(self)@, "[warning]: ", color_value(RGBColor::Yellow)),
                    s,
                    color_value(RGBColor::Yellow),
                ),
                10,
                color_value(RGBColor::Yellow),
            ),
    {
        let color = u32::from(RGBColor::Yellow);
        self.write_string("[warning]: ", color);
        self.write_string(s, color);
        self.write_byte(10, color);
    }

    /// Prints `"[error]: "`, then `s`, then a newline, all in red.
    pub fn println_error(&mut self, s: &str)
        requires
            old(self).wf(),
        ensures
            final(self).wf(),
            final(self)@ == after_byte(
                written(
                    written(old(self)@, "[error]: ", color_value(RGBColor::Red)),
                    s,
                    color_value(RGBColor::Red),
                ),
                10,
                color_value(RGBColor::Red),
            ),
    {
        let color = u32::from(RGBColor::Red);
        self.write_string("[error]: ", color);
        self.write_string(s, color);
        self.write_byte(10, color);
    }

    /// Read access to the pixel buffer, for the device layer that copies
    /// it to display memory and for checking rendered output.
    pub fn framebuffer(&self) -> (fb: &Vec<u32>)
        ensures
            fb@ == self@.fb,
    {
        &self.framebuffer
    }
}

} // verus!
