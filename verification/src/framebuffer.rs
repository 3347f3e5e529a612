//! The abstract framebuffer a boot collaborator hands the kernel: its
//! geometry and pixel format, and the start address of its pixel memory.
//! Writing through that address is the renderer's unverifiable edge; the
//! geometry and all index arithmetic are verified against this description.

use vstd::prelude::*;

verus! {

/// Layout of one pixel in framebuffer memory.
#[derive(Debug, Clone, Copy, PartialEq, Eq, Structural)]
pub enum PixelFormat {
    RGB,
    BGR,
    U8,
}

/// Geometry of a framebuffer: visible size, bytes per pixel, the row stride
/// in pixels, and the pixel format.
#[derive(Debug, Clone, Copy, PartialEq, Eq, Structural)]
pub struct FrameBufferInfo {
    pub width: usize,
    pub height: usize,
    pub bytes_per_pixel: usize,
    pub stride: usize,
    pub pixel_format: PixelFormat,
}

/// A framebuffer as the rest of the kernel sees it: a description and the
/// address pixel memory starts at. The address is only data here - the
/// presentation layer outside this crate does the copying.
pub trait FrameBuffer {
    spec fn spec_info(&self) -> FrameBufferInfo;

    spec fn spec_start_address(&self) -> u64;

    fn info(&self) -> (i: FrameBufferInfo)
        ensures
            i == self.spec_info(),
    ;

    fn get_start_address(&self) -> (a: u64)
        ensures
            a == self.spec_start_address(),
    ;
}

} // verus!
