//! The CPU rendering backend: a back buffer of 32-bit pixels, drawing
//! primitives over it, pixel-format conversion, and the boot splash
//! geometry. Copying the finished back buffer into framebuffer memory is
//! the presentation edge outside this crate.

use vstd::prelude::*;
use vstd::arithmetic::div_mod::lemma_fundamental_div_mod_converse;

use crate::framebuffer::{FrameBufferInfo, PixelFormat};

verus! {

/// The framebuffer record a boot collaborator hands over: the geometry and
/// the start address of pixel memory, as plain values.
pub struct FrameBuffer {
    info: FrameBufferInfo,
    start_address: u64,
}

impl FrameBuffer {
    /// The geometry this record was built from.
    pub closed spec fn frame_info(&self) -> FrameBufferInfo {
        self.info
    }

    /// Where the target's pixel memory starts.
    pub closed spec fn frame_start_address(&self) -> u64 {
        self.start_address
    }

    pub fn new(info: FrameBufferInfo, start_address: u64) -> (f: FrameBuffer)
        ensures
            f.frame_info() == info,
            f.frame_start_address() == start_address,
    {
        FrameBuffer { info, start_address }
    }
}

impl crate::framebuffer::FrameBuffer for FrameBuffer {
    open spec fn spec_info(&self) -> FrameBufferInfo {
        self.frame_info()
    }

    open spec fn spec_start_address(&self) -> u64 {
        self.frame_start_address()
    }

    fn info(&self) -> (i: FrameBufferInfo) {
        self.info
    }

    fn get_start_address(&self) -> (a: u64) {
        self.start_address
    }
}

/// Whether two pixel formats are the same layout.
pub fn is_same_format(left: PixelFormat, right: PixelFormat) -> (r: bool)
    ensures
        r <==> left == right,
{
    match (left, right) {
        (PixelFormat::RGB, PixelFormat::RGB) => true,
        (PixelFormat::BGR, PixelFormat::BGR) => true,
        (PixelFormat::U8, PixelFormat::U8) => true,
        _ => false,
    }
}

/// A 32-bit color with its low three bytes reversed: the red/blue swap that
/// converts between the RGB and BGR layouts, keeping the top (alpha) byte.
pub open spec fn spec_swap_red_blue(c: u32) -> u32 {
    (c & 0xFF00_0000) | ((c & 0xFF) << 16) | (c & 0xFF00) | ((c >> 16) & 0xFF)
}

/// The color `from` converted from one pixel format to another: identical
/// formats pass through, RGB and BGR exchange the red and blue bytes, and
/// any conversion involving the grayscale format passes through unchanged.
pub open spec fn spec_convert_color(from: u32, from_format: PixelFormat, to: PixelFormat) -> u32 {
    if from_format == to {
        from
    } else if (from_format == PixelFormat::RGB && to == PixelFormat::BGR) || (from_format
        == PixelFormat::BGR && to == PixelFormat::RGB) {
        spec_swap_red_blue(from)
    } else {
        from
    }
}

pub fn convert_color(from: u32, from_format: PixelFormat, to: PixelFormat) -> (r: u32)
    ensures
        r == spec_convert_color(from, from_format, to),
{
    if is_same_format(from_format, to) {
        return from;
    }
    let argb = match from_format {
        PixelFormat::RGB => from,
        PixelFormat::BGR => (from & 0xFF00_0000) | ((from & 0xFF) << 16) | (from & 0xFF00) | ((
        from >> 16) & 0xFF),
        _ => {
            return from;
        },
    };
    match to {
        PixelFormat::RGB => argb,
        PixelFormat::BGR => (argb & 0xFF00_0000) | ((argb & 0xFF) << 16) | (argb & 0xFF00) | ((
        argb >> 16) & 0xFF),
        _ => from,
    }
}

/// Converts every color of a texture into the target format, in place.
pub fn ensure_format(data: &mut Vec<u32>, format: PixelFormat, target: PixelFormat)
    ensures
        final(data)@.len() == old(data)@.len(),
        forall|i: int|
            0 <= i < old(data)@.len() ==> final(data)@[i] == spec_convert_color(
                old(data)@[i],
                format,
                target,
            ),
{
    if !is_same_format(format, target) {
        let mut i: usize = 0;
        while i < data.len()
            invariant
                i <= data@.len(),
                data@.len() == old(data)@.len(),
                forall|j: int|
                    0 <= j < i ==> data@[j] == spec_convert_color(old(data)@[j], format, target),
                forall|j: int| i <= j < data@.len() ==> data@[j] == old(data)@[j],
            decreases data@.len() - i,
        {
            let converted = convert_color(data[i], format, target);
            data[i] = converted;
            i = i + 1;
        }
    }
}

/// Swapping red and blue twice restores the original color, so converting
/// between the RGB and BGR layouts and back is the identity.
pub proof fn lemma_convert_color_round_trip(c: u32)
    ensures
        spec_swap_red_blue(spec_swap_red_blue(c)) == c,
        spec_convert_color(
            spec_convert_color(c, PixelFormat::RGB, PixelFormat::BGR),
            PixelFormat::BGR,
            PixelFormat::RGB,
        ) == c,
{
    let s1 = spec_swap_red_blue(c);
    assert(((s1 & 0xFF00_0000) | ((s1 & 0xFF) << 16) | (s1 & 0xFF00) | ((s1 >> 16) & 0xFF))
        == c) by (bit_vector)
        requires
            s1 == ((c & 0xFF00_0000) | ((c & 0xFF) << 16) | (c & 0xFF00) | ((c >> 16) & 0xFF)),
    ;
}

/// `x * y / 255`: the fixed-point product of two byte-range channel values.
pub open spec fn spec_mul255(x: int, y: int) -> int {
    x * y / 255
}

/// `x * 255 / y`: the fixed-point quotient used to un-premultiply a channel
/// by the blended alpha (zero when the alpha is zero).
pub open spec fn spec_div255(x: int, y: int) -> int {
    if y == 0 {
        0
    } else {
        x * 255 / y
    }
}

/// One alpha-blended channel: the foreground weighted by its alpha plus the
/// background weighted by its own alpha and the remaining coverage, scaled
/// back by the blended alpha and clamped to a byte.
pub open spec fn spec_overlay_channel(fg_c: int, bg_c: int, fg_a: int, bg_a: int) -> int {
    let value_a = fg_a + spec_mul255(bg_a, 255 - fg_a);
    let num = spec_mul255(fg_c, fg_a) + spec_mul255(spec_mul255(bg_c, bg_a), 255 - fg_a);
    let v = spec_div255(num, value_a);
    if v > 255 {
        255
    } else {
        v
    }
}

/// One byte of a little-endian 32-bit color: channel 0 is the lowest byte,
/// channel 3 the alpha in the top byte.
pub open spec fn spec_byte(c: u32, i: int) -> int {
    if i == 0 {
        c as int % 0x100
    } else if i == 1 {
        (c as int / 0x100) % 0x100
    } else if i == 2 {
        (c as int / 0x1_0000) % 0x100
    } else {
        (c as int / 0x100_0000) % 0x100
    }
}

/// Source-over composition of `foreground` onto `background`, both stored
/// as alpha in the top byte over three channel bytes. A transparent
/// foreground leaves the background, an opaque one replaces it, and
/// anything between blends channel-wise.
pub open spec fn spec_overlay(background: u32, foreground: u32) -> u32 {
    let fg_a = spec_byte(foreground, 3);
    let bg_a = spec_byte(background, 3);
    if fg_a == 0 {
        background
    } else if fg_a == 255 {
        foreground
    } else {
        let value_a = fg_a + spec_mul255(bg_a, 255 - fg_a);
        let b = spec_overlay_channel(spec_byte(foreground, 0), spec_byte(background, 0), fg_a, bg_a);
        let g = spec_overlay_channel(spec_byte(foreground, 1), spec_byte(background, 1), fg_a, bg_a);
        let r = spec_overlay_channel(spec_byte(foreground, 2), spec_byte(background, 2), fg_a, bg_a);
        let a = if value_a > 255 {
            255
        } else {
            value_a
        };
        (b + g * 0x100 + r * 0x1_0000 + a * 0x100_0000) as u32
    }
}

/// The pixel a back buffer holds at column `px` of row `py`.
pub open spec fn pixel_at(buf: Seq<u32>, stride: int, px: int, py: int) -> u32 {
    buf[py * stride + px]
}

/// Two in-row coordinates with the same flat index are the same coordinate.
proof fn lemma_coord_injective(stride: int, px1: int, py1: int, px2: int, py2: int)
    requires
        0 < stride,
        0 <= px1 < stride,
        0 <= px2 < stride,
        0 <= py1,
        0 <= py2,
        py1 * stride + px1 == py2 * stride + px2,
    ensures
        px1 == px2,
        py1 == py2,
{
    let idx = py1 * stride + px1;
    lemma_fundamental_div_mod_converse(idx, stride, py1, px1);
    lemma_fundamental_div_mod_converse(idx, stride, py2, px2);
}

/// Fixed-point channel product, as [`spec_mul255`].
fn mul255(x: u32, y: u32) -> (r: u32)
    requires
        x <= 255,
        y <= 255,
    ensures
        r == spec_mul255(x as int, y as int),
        r <= 255,
{
    proof {
        assert(x * y <= 255 * 255) by (nonlinear_arith)
            requires
                x <= 255,
                y <= 255,
        ;
    }
    x * y / 255
}

/// Fixed-point channel quotient, as [`spec_div255`].
fn div255(x: u32, y: u32) -> (r: u32)
    requires
        x <= 510,
        y <= 510,
    ensures
        r == spec_div255(x as int, y as int),
{
    if y == 0 {
        0
    } else {
        x * 255 / y
    }
}

/// A channel value clamped to one byte.
fn clamp255(x: u32) -> (r: u32)
    ensures
        r == if x > 255 {
            255int
        } else {
            x as int
        },
{
    if x > 255 {
        255
    } else {
        x
    }
}

/// Every in-row coordinate of a row below `ybound` indexes inside a buffer
/// that holds `ybound` full rows.
proof fn lemma_rect_index(stride: int, qy: int, qx: int, ybound: int, len: int)
    requires
        0 < stride,
        0 <= qx < stride,
        0 <= qy < ybound,
        ybound * stride <= len,
    ensures
        0 <= qy * stride + qx < len,
{
    assert(qy * stride + qx < (qy + 1) * stride) by (nonlinear_arith)
        requires
            0 <= qx < stride,
            0 <= qy,
    ;
    assert((qy + 1) * stride <= ybound * stride) by (nonlinear_arith)
        requires
            qy + 1 <= ybound,
            stride > 0,
    ;
    assert(qy * stride + qx >= 0) by (nonlinear_arith)
        requires
            qy >= 0,
            qx >= 0,
            stride > 0,
    ;
}

/// The CPU renderer's state: the back buffer and the target's geometry.
pub struct CPURenderer {
    buffer: Vec<u32>,
    format: PixelFormat,
    stride: usize,
    bpp: usize,
    clear_color: u32,
}

impl CPURenderer {
    /// The back buffer's pixels, row-major with the configured stride.
    pub closed spec fn pix(&self) -> Seq<u32> {
        self.buffer@
    }

    pub closed spec fn spec_stride(&self) -> int {
        self.stride as int
    }

    pub closed spec fn spec_format(&self) -> PixelFormat {
        self.format
    }

    pub closed spec fn spec_clear_color(&self) -> u32 {
        self.clear_color
    }

    /// A renderer with no target yet: an empty back buffer and the default
    /// dark clear color.
    pub fn new() -> (r: CPURenderer)
        ensures
            r.pix().len() == 0,
            r.spec_stride() == 0,
            r.spec_format() == PixelFormat::BGR,
            r.spec_clear_color() == 0xff171717u32,
    {
        CPURenderer {
            buffer: Vec::new(),
            format: PixelFormat::BGR,
            stride: 0,
            bpp: 0,
            clear_color: 0xff171717,
        }
    }

    /// Adopts a target's geometry and sizes the back buffer to one 32-bit
    /// pixel per stride slot of every row. Only 4-byte pixels are supported
    /// by this backend.
    pub fn init(
        &mut self,
        width: usize,
        height: usize,
        bytes_per_pixel: usize,
        stride: usize,
        format: PixelFormat,
    )
        requires
            bytes_per_pixel == 4,
            stride * height <= usize::MAX,
            old(self).pix().len() == 0,
        ensures
            final(self).pix().len() == stride * height,
            forall|i: int| 0 <= i < stride * height ==> final(self).pix()[i] == 0,
            final(self).spec_stride() == stride,
            final(self).spec_format() == format,
            final(self).spec_clear_color() == old(self).spec_clear_color(),
    {
        let _ = width;
        let target = stride * height;
        while self.buffer.len() < target
            invariant
                self.buffer@.len() <= target,
                forall|i: int| 0 <= i < self.buffer@.len() ==> self.buffer@[i] == 0,
                self.clear_color == old(self).spec_clear_color(),
            decreases target - self.buffer@.len(),
        {
            self.buffer.push(0);
        }
        self.format = format;
        self.stride = stride;
        self.bpp = bytes_per_pixel;
    }

    /// Overwrites one pixel.
    pub fn set_pixel(&mut self, x: usize, y: usize, color: u32)
        requires
            0 < old(self).spec_stride(),
            x < old(self).spec_stride(),
            y * old(self).spec_stride() + x < old(self).pix().len(),
        ensures
            final(self).pix().len() == old(self).pix().len(),
            final(self).spec_stride() == old(self).spec_stride(),
            final(self).spec_format() == old(self).spec_format(),
            final(self).spec_clear_color() == old(self).spec_clear_color(),
            pixel_at(final(self).pix(), final(self).spec_stride(), x as int, y as int) == color,
            forall|px: int, py: int|
                0 <= px < old(self).spec_stride() && 0 <= py && py * old(self).spec_stride() + px
                    < old(self).pix().len() && !(px == x && py == y) ==> pixel_at(
                    final(self).pix(),
                    old(self).spec_stride(),
                    px,
                    py,
                ) == pixel_at(old(self).pix(), old(self).spec_stride(), px, py),
    {
        let n = self.buffer.len();
        assert(y * self.stride + x < n);
        let idx = y * self.stride + x;
        self.buffer[idx] = color;
        proof {
            let stride = self.spec_stride();
            assert forall|px: int, py: int|
                0 <= px < stride && 0 <= py && py * stride + px < old(self).pix().len() && !(px
                    == x && py == y) implies pixel_at(self.pix(), stride, px, py) == pixel_at(
                old(self).pix(),
                stride,
                px,
                py,
            ) by {
                if py * stride + px == y * stride + x {
                    lemma_coord_injective(stride, px, py, x as int, y as int);
                }
            }
        }
    }

    /// Reads one pixel.
    pub fn get_pixel(&self, x: usize, y: usize) -> (c: u32)
        requires
            0 < self.spec_stride(),
            x < self.spec_stride(),
            y * self.spec_stride() + x < self.pix().len(),
        ensures
            c == pixel_at(self.pix(), self.spec_stride(), x as int, y as int),
    {
        let n = self.buffer.len();
        assert(y * self.stride + x < n);
        self.buffer[y * self.stride + x]
    }

    /// Fills a rectangle with one color, touching nothing outside it.
    pub fn fill_rect(&mut self, x: usize, y: usize, width: usize, height: usize, color: u32)
        requires
            0 < old(self).spec_stride(),
            x + width <= old(self).spec_stride(),
            (y + height) * old(self).spec_stride() <= old(self).pix().len(),
        ensures
            final(self).pix().len() == old(self).pix().len(),
            final(self).spec_stride() == old(self).spec_stride(),
            final(self).spec_format() == old(self).spec_format(),
            final(self).spec_clear_color() == old(self).spec_clear_color(),
            forall|px: int, py: int|
                x <= px < x + width && y <= py < y + height ==> pixel_at(
                    final(self).pix(),
                    old(self).spec_stride(),
                    px,
                    py,
                ) == color,
            forall|px: int, py: int|
                0 <= px < old(self).spec_stride() && 0 <= py && py * old(self).spec_stride() + px
                    < old(self).pix().len() && !(x <= px < x + width && y <= py < y + height)
                    ==> pixel_at(final(self).pix(), old(self).spec_stride(), px, py) == pixel_at(
                    old(self).pix(),
                    old(self).spec_stride(),
                    px,
                    py,
                ),
    {
        let n = self.buffer.len();
        let ghost stride = self.spec_stride();
        proof {
            assert(y + height <= (y + height) * stride) by (nonlinear_arith)
                requires
                    stride >= 1,
                    y + height >= 0,
            ;
        }
        let mut row: usize = 0;
        while row < height
            invariant
                self.wf_like(old(self)),
                stride == old(self).spec_stride(),
                0 < stride,
                row <= height,
                x + width <= stride,
                (y + height) * stride <= old(self).pix().len(),
                y + height <= old(self).pix().len(),
                old(self).pix().len() <= usize::MAX,
                forall|px: int, py: int|
                    x <= px < x + width && y <= py < y + row ==> pixel_at(
                        self.pix(),
                        stride,
                        px,
                        py,
                    ) == color,
                forall|px: int, py: int|
                    0 <= px < stride && 0 <= py && py * stride + px < old(self).pix().len() && !(x
                        <= px < x + width && y <= py < y + height) ==> pixel_at(
                        self.pix(),
                        stride,
                        px,
                        py,
                    ) == pixel_at(old(self).pix(), stride, px, py),
            decreases height - row,
        {
            let py = y + row;
            let mut col: usize = 0;
            proof {
                assert((py + 1) * stride <= (y + height) * stride) by (nonlinear_arith)
                    requires
                        py + 1 <= y + height,
                        stride > 0,
                ;
            }
            while col < width
                invariant
                    self.wf_like(old(self)),
                    stride == old(self).spec_stride(),
                    0 < stride,
                    col <= width,
                    py == y + row,
                    row < height,
                    x + width <= stride,
                    (y + height) * stride <= old(self).pix().len(),
                    (py + 1) * stride <= old(self).pix().len(),
                    old(self).pix().len() <= usize::MAX,
                    forall|px: int, qy: int|
                        x <= px < x + width && y <= qy < y + row ==> pixel_at(
                            self.pix(),
                            stride,
                            px,
                            qy,
                        ) == color,
                    forall|px: int|
                        x <= px < x + col ==> pixel_at(self.pix(), stride, px, py as int) == color,
                    forall|px: int, qy: int|
                        0 <= px < stride && 0 <= qy && qy * stride + px < old(self).pix().len()
                            && !(x <= px < x + width && y <= qy < y + height) ==> pixel_at(
                            self.pix(),
                            stride,
                            px,
                            qy,
                        ) == pixel_at(old(self).pix(), stride, px, qy),
                decreases width - col,
            {
                let px = x + col;
                proof {
                    assert(py * stride + px < (py + 1) * stride) by (nonlinear_arith)
                        requires
                            px < stride,
                            stride > 0,
                            py >= 0,
                    ;
                }
                self.set_pixel(px, py, color);
                proof {
                    let len = old(self).pix().len() as int;
                    assert forall|qx: int, qy: int|
                        x <= qx < x + width && y <= qy < y + row implies pixel_at(
                        self.pix(),
                        stride,
                        qx,
                        qy,
                    ) == color by {
                        lemma_rect_index(stride, qy, qx, y + height, len);
                    }
                    assert forall|qx: int| x <= qx < x + col + 1 implies pixel_at(
                        self.pix(),
                        stride,
                        qx,
                        py as int,
                    ) == color by {
                        lemma_rect_index(stride, py as int, qx, y + height, len);
                    }
                }
                col = col + 1;
            }
            row = row + 1;
        }
    }

    /// The fields a drawing call never changes.
    pub open spec fn wf_like(&self, other: &CPURenderer) -> bool {
        &&& self.pix().len() == other.pix().len()
        &&& self.spec_stride() == other.spec_stride()
        &&& self.spec_format() == other.spec_format()
        &&& self.spec_clear_color() == other.spec_clear_color()
    }

    /// Copies a rectangular texture over the buffer, row by row.
    pub fn blit_texture(&mut self, x: usize, y: usize, width: usize, height: usize, texture: &[u32])
        requires
            0 < old(self).spec_stride(),
            x + width <= old(self).spec_stride(),
            (y + height) * old(self).spec_stride() <= old(self).pix().len(),
            texture@.len() >= width * height,
        ensures
            final(self).wf_like(old(self)),
            forall|px: int, py: int|
                x <= px < x + width && y <= py < y + height ==> pixel_at(
                    final(self).pix(),
                    old(self).spec_stride(),
                    px,
                    py,
                ) == texture@[(py - y) * width + (px - x)],
            forall|px: int, py: int|
                0 <= px < old(self).spec_stride() && 0 <= py && py * old(self).spec_stride() + px
                    < old(self).pix().len() && !(x <= px < x + width && y <= py < y + height)
                    ==> pixel_at(final(self).pix(), old(self).spec_stride(), px, py) == pixel_at(
                    old(self).pix(),
                    old(self).spec_stride(),
                    px,
                    py,
                ),
    {
        let n = self.buffer.len();
        let tex_len = texture.len();
        let ghost stride = self.spec_stride();
        proof {
            assert(y + height <= (y + height) * stride) by (nonlinear_arith)
                requires
                    stride >= 1,
                    y + height >= 0,
            ;
        }
        let mut row: usize = 0;
        while row < height
            invariant
                self.wf_like(old(self)),
                stride == old(self).spec_stride(),
                0 < stride,
                row <= height,
                x + width <= stride,
                (y + height) * stride <= old(self).pix().len(),
                y + height <= old(self).pix().len(),
                old(self).pix().len() <= usize::MAX,
                texture@.len() >= width * height,
                texture@.len() <= usize::MAX,
                forall|px: int, qy: int|
                    x <= px < x + width && y <= qy < y + row ==> pixel_at(
                        self.pix(),
                        stride,
                        px,
                        qy,
                    ) == texture@[(qy - y) * width + (px - x)],
                forall|px: int, qy: int|
                    0 <= px < stride && 0 <= qy && qy * stride + px < old(self).pix().len() && !(x
                        <= px < x + width && y <= qy < y + height) ==> pixel_at(
                        self.pix(),
                        stride,
                        px,
                        qy,
                    ) == pixel_at(old(self).pix(), stride, px, qy),
            decreases height - row,
        {
            let py = y + row;
            let mut col: usize = 0;
            proof {
                assert((py + 1) * stride <= (y + height) * stride) by (nonlinear_arith)
                    requires
                        py + 1 <= y + height,
                        stride > 0,
                ;
                assert((row + 1) * width <= height * width) by (nonlinear_arith)
                    requires
                        row + 1 <= height,
                        width >= 0,
                ;
                assert(height * width == width * height) by (nonlinear_arith);
            }
            while col < width
                invariant
                    self.wf_like(old(self)),
                    stride == old(self).spec_stride(),
                    0 < stride,
                    col <= width,
                    py == y + row,
                    row < height,
                    x + width <= stride,
                    (y + height) * stride <= old(self).pix().len(),
                    (py + 1) * stride <= old(self).pix().len(),
                    old(self).pix().len() <= usize::MAX,
                    texture@.len() >= width * height,
                    texture@.len() <= usize::MAX,
                    (row + 1) * width <= texture@.len(),
                    forall|qx: int, qy: int|
                        x <= qx < x + width && y <= qy < y + row ==> pixel_at(
                            self.pix(),
                            stride,
                            qx,
                            qy,
                        ) == texture@[(qy - y) * width + (qx - x)],
                    forall|qx: int|
                        x <= qx < x + col ==> pixel_at(self.pix(), stride, qx, py as int)
                            == texture@[(py - y) * width + (qx - x)],
                    forall|px: int, qy: int|
                        0 <= px < stride && 0 <= qy && qy * stride + px < old(self).pix().len()
                            && !(x <= px < x + width && y <= qy < y + height) ==> pixel_at(
                            self.pix(),
                            stride,
                            px,
                            qy,
                        ) == pixel_at(old(self).pix(), stride, px, qy),
                decreases width - col,
            {
                let px = x + col;
                proof {
                    assert(py * stride + px < (py + 1) * stride) by (nonlinear_arith)
                        requires
                            px < stride,
                            stride > 0,
                            py >= 0,
                    ;
                    assert(row * width + col < (row + 1) * width) by (nonlinear_arith)
                        requires
                            col < width,
                    ;
                }
                let texel = texture[row * width + col];
                self.set_pixel(px, py, texel);
                proof {
                    let len = old(self).pix().len() as int;
                    assert forall|qx: int, qy: int|
                        x <= qx < x + width && y <= qy < y + row implies pixel_at(
                        self.pix(),
                        stride,
                        qx,
                        qy,
                    ) == texture@[(qy - y) * width + (qx - x)] by {
                        lemma_rect_index(stride, qy, qx, y + height, len);
                    }
                    assert forall|qx: int| x <= qx < x + col + 1 implies pixel_at(
                        self.pix(),
                        stride,
                        qx,
                        py as int,
                    ) == texture@[(py - y) * width + (qx - x)] by {
                        lemma_rect_index(stride, py as int, qx, y + height, len);
                    }
                }
                col = col + 1;
            }
            row = row + 1;
        }
    }

    /// Copies a whole image over the buffer at the given position.
    pub fn blit_image<I: crate::tga::Image>(&mut self, x: usize, y: usize, image: &I)
        requires
            0 < old(self).spec_stride(),
            0 <= image.spec_width(),
            0 <= image.spec_height(),
            x + image.spec_width() <= old(self).spec_stride(),
            (y + image.spec_height()) * old(self).spec_stride() <= old(self).pix().len(),
            image.spec_texture().len() >= image.spec_width() * image.spec_height(),
        ensures
            final(self).wf_like(old(self)),
            forall|px: int, py: int|
                x <= px < x + image.spec_width() && y <= py < y + image.spec_height()
                    ==> pixel_at(final(self).pix(), old(self).spec_stride(), px, py)
                    == image.spec_texture()[(py - y) * image.spec_width() + (px - x)],
            forall|px: int, py: int|
                0 <= px < old(self).spec_stride() && 0 <= py && py * old(self).spec_stride() + px
                    < old(self).pix().len() && !(x <= px < x + image.spec_width() && y <= py < y
                    + image.spec_height()) ==> pixel_at(
                    final(self).pix(),
                    old(self).spec_stride(),
                    px,
                    py,
                ) == pixel_at(old(self).pix(), old(self).spec_stride(), px, py),
    {
        let width = image.get_width();
        let height = image.get_height();
        let texture = image.get_texture();
        self.blit_texture(x, y, width, height, texture.as_slice());
    }

    /// Blends a rectangular texture over the buffer with source-over
    /// composition: each covered pixel becomes the overlay of the texture's
    /// texel onto what the buffer held there.
    pub fn blit_texture_blend(
        &mut self,
        x: usize,
        y: usize,
        width: usize,
        height: usize,
        texture: &[u32],
    )
        requires
            0 < old(self).spec_stride(),
            x + width <= old(self).spec_stride(),
            (y + height) * old(self).spec_stride() <= old(self).pix().len(),
            texture@.len() >= width * height,
        ensures
            final(self).wf_like(old(self)),
            forall|px: int, py: int|
                x <= px < x + width && y <= py < y + height ==> pixel_at(
                    final(self).pix(),
                    old(self).spec_stride(),
                    px,
                    py,
                ) == spec_overlay(
                    pixel_at(old(self).pix(), old(self).spec_stride(), px, py),
                    texture@[(py - y) * width + (px - x)],
                ),
            forall|px: int, py: int|
                0 <= px < old(self).spec_stride() && 0 <= py && py * old(self).spec_stride() + px
                    < old(self).pix().len() && !(x <= px < x + width && y <= py < y + height)
                    ==> pixel_at(final(self).pix(), old(self).spec_stride(), px, py) == pixel_at(
                    old(self).pix(),
                    old(self).spec_stride(),
                    px,
                    py,
                ),
    {
        let n = self.buffer.len();
        let tex_len = texture.len();
        let ghost stride = self.spec_stride();
        proof {
            assert(y + height <= (y + height) * stride) by (nonlinear_arith)
                requires
                    stride >= 1,
                    y + height >= 0,
            ;
        }
        let mut row: usize = 0;
        while row < height
            invariant
                self.wf_like(old(self)),
                stride == old(self).spec_stride(),
                0 < stride,
                row <= height,
                x + width <= stride,
                (y + height) * stride <= old(self).pix().len(),
                y + height <= old(self).pix().len(),
                old(self).pix().len() <= usize::MAX,
                texture@.len() >= width * height,
                texture@.len() <= usize::MAX,
                forall|px: int, qy: int|
                    x <= px < x + width && y <= qy < y + row ==> pixel_at(
                        self.pix(),
                        stride,
                        px,
                        qy,
                    ) == spec_overlay(
                        pixel_at(old(self).pix(), stride, px, qy),
                        texture@[(qy - y) * width + (px - x)],
                    ),
                forall|px: int, qy: int|
                    0 <= px < stride && 0 <= qy && qy * stride + px < old(self).pix().len() && !(x
                        <= px < x + width && y <= qy < y + height) ==> pixel_at(
                        self.pix(),
                        stride,
                        px,
                        qy,
                    ) == pixel_at(old(self).pix(), stride, px, qy),
                forall|px: int, qy: int|
                    x <= px < x + width && y + row <= qy < y + height ==> pixel_at(
                        self.pix(),
                        stride,
                        px,
                        qy,
                    ) == pixel_at(old(self).pix(), stride, px, qy),
            decreases height - row,
        {
            let py = y + row;
            let mut col: usize = 0;
            proof {
                assert((py + 1) * stride <= (y + height) * stride) by (nonlinear_arith)
                    requires
                        py + 1 <= y + height,
                        stride > 0,
                ;
                assert((row + 1) * width <= height * width) by (nonlinear_arith)
                    requires
                        row + 1 <= height,
                        width >= 0,
                ;
                assert(height * width == width * height) by (nonlinear_arith);
            }
            while col < width
                invariant
                    self.wf_like(old(self)),
                    stride == old(self).spec_stride(),
                    0 < stride,
                    col <= width,
                    py == y + row,
                    row < height,
                    x + width <= stride,
                    (y + height) * stride <= old(self).pix().len(),
                    (py + 1) * stride <= old(self).pix().len(),
                    old(self).pix().len() <= usize::MAX,
                    texture@.len() >= width * height,
                    texture@.len() <= usize::MAX,
                    (row + 1) * width <= texture@.len(),
                    forall|qx: int, qy: int|
                        x <= qx < x + width && y <= qy < y + row ==> pixel_at(
                            self.pix(),
                            stride,
                            qx,
                            qy,
                        ) == spec_overlay(
                            pixel_at(old(self).pix(), stride, qx, qy),
                            texture@[(qy - y) * width + (qx - x)],
                        ),
                    forall|qx: int|
                        x <= qx < x + col ==> pixel_at(self.pix(), stride, qx, py as int)
                            == spec_overlay(
                            pixel_at(old(self).pix(), stride, qx, py as int),
                            texture@[(py - y) * width + (qx - x)],
                        ),
                    forall|px: int, qy: int|
                        0 <= px < stride && 0 <= qy && qy * stride + px < old(self).pix().len()
                            && !(x <= px < x + width && y <= qy < y + height) ==> pixel_at(
                            self.pix(),
                            stride,
                            px,
                            qy,
                        ) == pixel_at(old(self).pix(), stride, px, qy),
                    forall|qx: int, qy: int|
                        x <= qx < x + width && y + row <= qy < y + height && !(qy == py && qx < x
                            + col) ==> pixel_at(self.pix(), stride, qx, qy) == pixel_at(
                            old(self).pix(),
                            stride,
                            qx,
                            qy,
                        ),
                decreases width - col,
            {
                let px = x + col;
                proof {
                    assert(py * stride + px < (py + 1) * stride) by (nonlinear_arith)
                        requires
                            px < stride,
                            stride > 0,
                            py >= 0,
                    ;
                    assert(row * width + col < (row + 1) * width) by (nonlinear_arith)
                        requires
                            col < width,
                    ;
                }
                let below = self.get_pixel(px, py);
                let texel = texture[row * width + col];
                let blended = self.overlay_color(below, texel);
                self.set_pixel(px, py, blended);
                proof {
                    let len = old(self).pix().len() as int;
                    assert forall|qx: int, qy: int|
                        x <= qx < x + width && y <= qy < y + row implies pixel_at(
                        self.pix(),
                        stride,
                        qx,
                        qy,
                    ) == spec_overlay(
                        pixel_at(old(self).pix(), stride, qx, qy),
                        texture@[(qy - y) * width + (qx - x)],
                    ) by {
                        lemma_rect_index(stride, qy, qx, y + height, len);
                    }
                    assert forall|qx: int| x <= qx < x + col + 1 implies pixel_at(
                        self.pix(),
                        stride,
                        qx,
                        py as int,
                    ) == spec_overlay(
                        pixel_at(old(self).pix(), stride, qx, py as int),
                        texture@[(py - y) * width + (qx - x)],
                    ) by {
                        lemma_rect_index(stride, py as int, qx, y + height, len);
                    }
                    assert forall|qx: int, qy: int|
                        x <= qx < x + width && y + row <= qy < y + height && !(qy == py && qx < x
                            + col + 1) implies pixel_at(self.pix(), stride, qx, qy) == pixel_at(
                        old(self).pix(),
                        stride,
                        qx,
                        qy,
                    ) by {
                        lemma_rect_index(stride, qy, qx, y + height, len);
                    }
                }
                col = col + 1;
            }
            row = row + 1;
        }
    }

    /// Source-over composition of `foreground` onto `background`.
    pub fn overlay_color(&self, background: u32, foreground: u32) -> (r: u32)
        ensures
            r == spec_overlay(background, foreground),
    {
        let fg_a = (foreground / 0x100_0000) % 0x100;
        let bg_a = (background / 0x100_0000) % 0x100;
        if fg_a == 0 {
            background
        } else if fg_a == 255 {
            foreground
        } else {
            let fg_b = foreground % 0x100;
            let fg_g = (foreground / 0x100) % 0x100;
            let fg_r = (foreground / 0x1_0000) % 0x100;
            let bg_b = background % 0x100;
            let bg_g = (background / 0x100) % 0x100;
            let bg_r = (background / 0x1_0000) % 0x100;
            let value_a = fg_a + mul255(bg_a, 255 - fg_a);
            let b = clamp255(div255(mul255(fg_b, fg_a) + mul255(mul255(bg_b, bg_a), 255 - fg_a), value_a));
            let g = clamp255(div255(mul255(fg_g, fg_a) + mul255(mul255(bg_g, bg_a), 255 - fg_a), value_a));
            let r = clamp255(div255(mul255(fg_r, fg_a) + mul255(mul255(bg_r, bg_a), 255 - fg_a), value_a));
            let a = clamp255(value_a);
            b + g * 0x100 + r * 0x1_0000 + a * 0x100_0000
        }
    }

    /// Picks the color later clears paint with.
    pub fn set_clear_color(&mut self, color: u32)
        ensures
            final(self).spec_clear_color() == color,
            final(self).pix() == old(self).pix(),
            final(self).spec_stride() == old(self).spec_stride(),
            final(self).spec_format() == old(self).spec_format(),
    {
        self.clear_color = color;
    }

    /// Paints the whole back buffer with the clear color.
    pub fn clear_screen(&mut self)
        ensures
            final(self).pix().len() == old(self).pix().len(),
            forall|i: int|
                0 <= i < final(self).pix().len() ==> final(self).pix()[i] == old(
                    self,
                ).spec_clear_color(),
            final(self).spec_stride() == old(self).spec_stride(),
            final(self).spec_format() == old(self).spec_format(),
            final(self).spec_clear_color() == old(self).spec_clear_color(),
    {
        let mut i: usize = 0;
        let n = self.buffer.len();
        while i < n
            invariant
                n == self.buffer@.len(),
                i <= n,
                self.clear_color == old(self).spec_clear_color(),
                self.stride == old(self).stride,
                self.format == old(self).format,
                self.bpp == old(self).bpp,
                forall|j: int| 0 <= j < i ==> self.buffer@[j] == old(self).spec_clear_color(),
            decreases n - i,
        {
            let c = self.clear_color;
            self.buffer[i] = c;
            i = i + 1;
        }
    }
}

/// One rectangle of the boot splash, in screen coordinates.
#[derive(Debug, Clone, Copy, PartialEq, Eq, Structural)]
pub struct SplashRect {
    pub x: usize,
    pub y: usize,
    pub width: usize,
    pub height: usize,
    pub color: u32,
}

/// The five rectangles of the boot splash - two red bars and three light
/// strokes - centered on a 200 by 200 logo box.
pub fn splash_rects(screen_width: usize, screen_height: usize) -> (v: Vec<SplashRect>)
    requires
        screen_width >= 200,
        screen_height >= 200,
    ensures
        ({
            let cx = screen_width as int / 2;
            let cy = screen_height as int / 2;
            let left = cx - 100;
            let top = cy - 100;
            v@ == seq![
                SplashRect {
                    x: left as usize,
                    y: top as usize,
                    width: 200,
                    height: 20,
                    color: 0xffda0037,
                },
                SplashRect {
                    x: left as usize,
                    y: (top + 180) as usize,
                    width: 200,
                    height: 20,
                    color: 0xffda0037,
                },
                SplashRect {
                    x: (left + 50) as usize,
                    y: (cy - 10) as usize,
                    width: 100,
                    height: 20,
                    color: 0xffd3d3d3,
                },
                SplashRect {
                    x: (left + 50) as usize,
                    y: (top + 40) as usize,
                    width: 20,
                    height: 120,
                    color: 0xffd3d3d3,
                },
                SplashRect {
                    x: (left + 130) as usize,
                    y: (top + 40) as usize,
                    width: 20,
                    height: 120,
                    color: 0xffd3d3d3,
                },
            ]
        }),
{
    let center_x = screen_width / 2;
    let center_y = screen_height / 2;
    let logo_top = center_y - 100;
    let logo_left = center_x - 100;
    let logo_right = logo_left + 200;
    let logo_bottom = logo_top + 200;
    let mut v: Vec<SplashRect> = Vec::new();
    v.push(SplashRect { x: logo_left, y: logo_top, width: 200, height: 20, color: 0xffda0037 });
    v.push(
        SplashRect { x: logo_left, y: logo_bottom - 20, width: 200, height: 20, color: 0xffda0037 },
    );
    v.push(
        SplashRect {
            x: logo_left + 50,
            y: center_y - 10,
            width: 100,
            height: 20,
            color: 0xffd3d3d3,
        },
    );
    v.push(
        SplashRect {
            x: logo_left + 50,
            y: logo_top + 40,
            width: 20,
            height: 120,
            color: 0xffd3d3d3,
        },
    );
    v.push(
        SplashRect {
            x: logo_right - 50 - 20,
            y: logo_top + 40,
            width: 20,
            height: 120,
            color: 0xffd3d3d3,
        },
    );
    proof {
        assert(v@ =~= seq![
            SplashRect {
                x: (screen_width as int / 2 - 100) as usize,
                y: (screen_height as int / 2 - 100) as usize,
                width: 200,
                height: 20,
                color: 0xffda0037,
            },
            SplashRect {
                x: (screen_width as int / 2 - 100) as usize,
                y: (screen_height as int / 2 + 80) as usize,
                width: 200,
                height: 20,
                color: 0xffda0037,
            },
            SplashRect {
                x: (screen_width as int / 2 - 50) as usize,
                y: (screen_height as int / 2 - 10) as usize,
                width: 100,
                height: 20,
                color: 0xffd3d3d3,
            },
            SplashRect {
                x: (screen_width as int / 2 - 50) as usize,
                y: (screen_height as int / 2 - 60) as usize,
                width: 20,
                height: 120,
                color: 0xffd3d3d3,
            },
            SplashRect {
                x: (screen_width as int / 2 + 30) as usize,
                y: (screen_height as int / 2 - 60) as usize,
                width: 20,
                height: 120,
                color: 0xffd3d3d3,
            },
        ]);
    }
    v
}

} // verus!
