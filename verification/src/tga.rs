//! Loader for uncompressed true-color TGA images: an 18-byte little-endian
//! header followed by 32-bit texels.

use vstd::prelude::*;

verus! {

/// Why a byte sequence is not a loadable TGA image.
#[derive(Debug, Clone, Copy, PartialEq, Eq, Structural)]
pub enum TGAImageParsingError {
    InvalidMagicNumber,
    UnsupportedEncoding,
    UnexpectedEOF,
}

/// A 16-bit little-endian field.
pub open spec fn spec_u16_le(lo: u8, hi: u8) -> u16 {
    (lo + hi * 256) as u16
}

fn u16_le(lo: u8, hi: u8) -> (v: u16)
    ensures
        v == spec_u16_le(lo, hi),
{
    lo as u16 + hi as u16 * 256
}

/// A 32-bit texel read from four bytes, least significant first.
pub open spec fn spec_u32_le(b0: u8, b1: u8, b2: u8, b3: u8) -> u32 {
    (b0 + b1 * 0x100 + b2 * 0x1_0000 + b3 * 0x100_0000) as u32
}

fn u32_le(b0: u8, b1: u8, b2: u8, b3: u8) -> (v: u32)
    ensures
        v == spec_u32_le(b0, b1, b2, b3),
{
    b0 as u32 + b1 as u32 * 0x100 + b2 as u32 * 0x1_0000 + b3 as u32 * 0x100_0000
}

/// The raw TGA file header. Fields keep the wire names and order.
#[derive(Debug, Clone, Copy, PartialEq, Eq, Structural)]
pub struct TGAImageHeader {
    pub magic1: u8,
    pub colormap: u8,
    pub encoding: u8,
    pub cmaporig: u16,
    pub cmaplen: u16,
    pub cmapent: u8,
    pub x: u16,
    pub y: u16,
    pub h: u16,
    pub w: u16,
    pub bpp: u8,
    pub pixeltype: u8,
}

/// The number of bytes a header occupies.
pub open spec fn spec_header_len() -> int {
    18
}

/// The header read from `bytes` starting at `p`.
pub open spec fn spec_parse_header(bytes: Seq<u8>, p: int) -> TGAImageHeader {
    TGAImageHeader {
        magic1: bytes[p],
        colormap: bytes[p + 1],
        encoding: bytes[p + 2],
        cmaporig: spec_u16_le(bytes[p + 3], bytes[p + 4]),
        cmaplen: spec_u16_le(bytes[p + 5], bytes[p + 6]),
        cmapent: bytes[p + 7],
        x: spec_u16_le(bytes[p + 8], bytes[p + 9]),
        y: spec_u16_le(bytes[p + 10], bytes[p + 11]),
        h: spec_u16_le(bytes[p + 12], bytes[p + 13]),
        w: spec_u16_le(bytes[p + 14], bytes[p + 15]),
        bpp: bytes[p + 16],
        pixeltype: bytes[p + 17],
    }
}

impl TGAImageHeader {
    /// Reads one header from `bytes` at `*pos`, advancing the position past
    /// what was consumed. Only encoding 2 (uncompressed true-color) is
    /// supported; that field is checked as soon as it is read, so a short
    /// input fails with end-of-input and an unsupported encoding fails
    /// before the rest of the header is touched.
    pub fn from_byte_iterator(bytes: &[u8], pos: &mut usize) -> (r: Result<
        TGAImageHeader,
        TGAImageParsingError,
    >)
        requires
            *old(pos) <= bytes@.len(),
        ensures
            *final(pos) <= bytes@.len(),
            match r {
                Ok(h) => {
                    &&& *old(pos) + spec_header_len() <= bytes@.len()
                    &&& bytes@[*old(pos) + 2] == 2
                    &&& h == spec_parse_header(bytes@, *old(pos) as int)
                    &&& *final(pos) == *old(pos) + spec_header_len()
                },
                Err(e) => match e {
                    TGAImageParsingError::UnsupportedEncoding => {
                        &&& *old(pos) + 3 <= bytes@.len()
                        &&& bytes@[*old(pos) + 2] != 2
                    },
                    TGAImageParsingError::UnexpectedEOF => {
                        ||| *old(pos) + 3 > bytes@.len()
                        ||| (bytes@[*old(pos) + 2] == 2 && *old(pos) + spec_header_len()
                            > bytes@.len())
                    },
                    TGAImageParsingError::InvalidMagicNumber => false,
                },
            },
    {
        if bytes.len() - *pos < 3 {
            *pos = bytes.len();
            return Err(TGAImageParsingError::UnexpectedEOF);
        }
        let p = *pos;
        let magic1 = bytes[p];
        let colormap = bytes[p + 1];
        let encoding = bytes[p + 2];
        if encoding != 2 {
            *pos = p + 3;
            return Err(TGAImageParsingError::UnsupportedEncoding);
        }
        if bytes.len() - p < 18 {
            *pos = bytes.len();
            return Err(TGAImageParsingError::UnexpectedEOF);
        }
        let header = TGAImageHeader {
            magic1,
            colormap,
            encoding,
            cmaporig: u16_le(bytes[p + 3], bytes[p + 4]),
            cmaplen: u16_le(bytes[p + 5], bytes[p + 6]),
            cmapent: bytes[p + 7],
            x: u16_le(bytes[p + 8], bytes[p + 9]),
            y: u16_le(bytes[p + 10], bytes[p + 11]),
            h: u16_le(bytes[p + 12], bytes[p + 13]),
            w: u16_le(bytes[p + 14], bytes[p + 15]),
            bpp: bytes[p + 16],
            pixeltype: bytes[p + 17],
        };
        *pos = p + 18;
        Ok(header)
    }
}

/// The texels read from `bytes` starting at `p`, four bytes each, least
/// significant byte first, until fewer than four bytes remain.
pub open spec fn spec_texels(bytes: Seq<u8>, p: int) -> Seq<u32>
    decreases bytes.len() - p,
{
    if p < 0 || p + 4 > bytes.len() {
        Seq::empty()
    } else {
        seq![spec_u32_le(bytes[p], bytes[p + 1], bytes[p + 2], bytes[p + 3])] + spec_texels(
            bytes,
            p + 4,
        )
    }
}

/// A raster image: its dimensions and its 32-bit texels in row order.
pub trait Image {
    spec fn spec_width(&self) -> int;

    spec fn spec_height(&self) -> int;

    spec fn spec_texture(&self) -> Seq<u32>;

    fn get_width(&self) -> (w: usize)
        ensures
            w == self.spec_width(),
    ;

    fn get_height(&self) -> (h: usize)
        ensures
            h == self.spec_height(),
    ;

    fn get_texture(&self) -> (t: Vec<u32>)
        ensures
            t@ == self.spec_texture(),
    ;
}

/// A parsed TGA file: its header and its decoded texels.
pub struct TGAImageFile {
    header: TGAImageHeader,
    data: Vec<u32>,
}

impl TGAImageFile {
    /// The header the file was parsed from.
    pub closed spec fn spec_header(&self) -> TGAImageHeader {
        self.header
    }

    /// Parses a whole TGA file: the header, then every following texel.
    /// The texel bytes must come in whole groups of four.
    pub fn from_bytes(bytes: &[u8]) -> (r: Result<TGAImageFile, TGAImageParsingError>)
        requires
            bytes@.len() >= spec_header_len() && bytes@[2] == 2 ==> (bytes@.len()
                - spec_header_len()) % 4 == 0,
        ensures
            match r {
                Ok(f) => {
                    &&& bytes@.len() >= spec_header_len()
                    &&& bytes@[2] == 2
                    &&& f.spec_header() == spec_parse_header(bytes@, 0)
                    &&& f.spec_width() == f.spec_header().w
                    &&& f.spec_height() == f.spec_header().h
                    &&& f.spec_texture() == spec_texels(bytes@, spec_header_len())
                },
                Err(e) => match e {
                    TGAImageParsingError::UnsupportedEncoding => {
                        &&& bytes@.len() >= 3
                        &&& bytes@[2] != 2
                    },
                    TGAImageParsingError::UnexpectedEOF => {
                        ||| bytes@.len() < 3
                        ||| (bytes@[2] == 2 && bytes@.len() < spec_header_len())
                    },
                    TGAImageParsingError::InvalidMagicNumber => false,
                },
            },
    {
        let mut pos: usize = 0;
        let header = match TGAImageHeader::from_byte_iterator(bytes, &mut pos) {
            Ok(h) => h,
            Err(e) => {
                return Err(e);
            },
        };
        let mut data: Vec<u32> = Vec::new();
        let mut p: usize = pos;
        proof {
            assert(spec_texels(bytes@, 18) == data@ + spec_texels(bytes@, p as int)) by {
                assert(data@ + spec_texels(bytes@, 18) =~= spec_texels(bytes@, 18));
            }
        }
        while bytes.len() - p >= 4
            invariant
                18 <= p <= bytes@.len(),
                (bytes@.len() - 18) % 4 == 0,
                (p - 18) % 4 == 0,
                spec_texels(bytes@, 18) == data@ + spec_texels(bytes@, p as int),
            decreases bytes@.len() - p,
        {
            let texel = u32_le(bytes[p], bytes[p + 1], bytes[p + 2], bytes[p + 3]);
            data.push(texel);
            proof {
                assert(data@ + spec_texels(bytes@, p + 4) =~= data@.drop_last() + spec_texels(
                    bytes@,
                    p as int,
                ));
            }
            p = p + 4;
        }
        proof {
            assert(spec_texels(bytes@, p as int) =~= Seq::<u32>::empty());
            assert(data@ =~= spec_texels(bytes@, 18));
        }
        Ok(TGAImageFile { header, data })
    }
}

impl Image for TGAImageFile {
    closed spec fn spec_width(&self) -> int {
        self.header.w as int
    }

    closed spec fn spec_height(&self) -> int {
        self.header.h as int
    }

    closed spec fn spec_texture(&self) -> Seq<u32> {
        self.data@
    }

    fn get_width(&self) -> (w: usize) {
        self.header.w as usize
    }

    fn get_height(&self) -> (h: usize) {
        self.header.h as usize
    }

    fn get_texture(&self) -> (t: Vec<u32>) {
        self.data.clone()
    }
}

} // verus!
