//! Decoder for raw device-independent-bitmap buffers, as found on the OS
//! clipboard.
//!
//! A DIB buffer holds a little-endian header (size, width, signed height, bit
//! depth, compression mode), an optional color palette, optional bit-field
//! masks, and then pixel rows.  The decoder validates the header bounds
//! before allocating anything, then converts the supported bit depths
//! (32, 24, 16 and palette-indexed 8) into a canonical top-down RGBA raster.
//! A stored height that is negative marks the input as already top-down;
//! otherwise rows are stored bottom-up and are reordered.  Rows whose byte
//! range falls outside the buffer are left as transparent black rather than
//! faulting.

use vstd::prelude::*;

use vstd::bytes::{spec_u16_from_le_bytes, spec_u32_from_le_bytes, u16_from_le_bytes, u32_from_le_bytes};

verus! {

/// Largest accepted width or height, in pixels.
pub const MAX_DIMENSION: u32 = 4096;

/// Largest accepted total pixel count: a memory-exhaustion guard against
/// corrupted or malicious headers.
pub const MAX_PIXELS: u64 = 16_000_000;

/// A decoded image: RGBA bytes, four per pixel, rows top-down.
pub struct Raster {
    pub width: u32,
    pub height: u32,
    pub pixels: Vec<u8>,
}

impl Raster {
    /// A well-formed raster: dimensions within bounds and exactly four bytes
    /// per pixel.
    pub open spec fn wf(&self) -> bool {
        &&& 1 <= self.width <= MAX_DIMENSION
        &&& 1 <= self.height <= MAX_DIMENSION
        &&& self.pixels@.len() == self.width * self.height * 4
    }
}

/// The 16-bit little-endian field at `off`.
pub open spec fn dib_u16(d: Seq<u8>, off: int) -> u16 {
    spec_u16_from_le_bytes(d.subrange(off, off + 2))
}

/// The 32-bit little-endian field at `off`.
pub open spec fn dib_u32(d: Seq<u8>, off: int) -> u32 {
    spec_u32_from_le_bytes(d.subrange(off, off + 4))
}

/// Header size field.
pub open spec fn dib_header_size(d: Seq<u8>) -> u32 {
    dib_u32(d, 0)
}

/// Width field, as the raw unsigned value (a negative stored width shows up
/// as a value of at least 2^31 and is rejected).
pub open spec fn dib_width(d: Seq<u8>) -> u32 {
    dib_u32(d, 4)
}

/// Height field, as the raw unsigned value of the stored signed height.
pub open spec fn dib_height_raw(d: Seq<u8>) -> u32 {
    dib_u32(d, 8)
}

/// Bit depth field.
pub open spec fn dib_bit_count(d: Seq<u8>) -> u16 {
    dib_u16(d, 14)
}

/// Compression field: 0 is uncompressed, 3 is bit-fields.
pub open spec fn dib_compression(d: Seq<u8>) -> u32 {
    dib_u32(d, 16)
}

/// Colors-used field, read for palette-indexed images.
pub open spec fn dib_colors_used(d: Seq<u8>) -> u32 {
    dib_u32(d, 32)
}

/// True when the stored height is negative, so the rows are already top-down.
pub open spec fn dib_top_down(d: Seq<u8>) -> bool {
    dib_height_raw(d) >= 0x8000_0000
}

/// The height magnitude: the stored height when positive, its two's
/// complement negation when negative.
pub open spec fn dib_abs_height(d: Seq<u8>) -> int {
    if dib_top_down(d) {
        0x1_0000_0000 - dib_height_raw(d)
    } else {
        dib_height_raw(d) as int
    }
}

/// Number of palette entries for an 8-bit image: the colors-used field, or
/// 256 when that field is zero.
pub open spec fn dib_palette_count(d: Seq<u8>) -> int {
    if dib_colors_used(d) == 0 {
        256
    } else {
        dib_colors_used(d) as int
    }
}

/// Byte offset of the pixel rows: past the header, past the palette for
/// 8-bit images, and past the three bit-field masks when a short header is
/// combined with bit-field compression.
pub open spec fn dib_pixel_offset(d: Seq<u8>) -> int {
    let hs = dib_header_size(d) as int;
    if dib_compression(d) == 3 && dib_header_size(d) < 52 {
        hs + 12
    } else if dib_bit_count(d) == 8 {
        hs + dib_palette_count(d) * 4
    } else {
        hs
    }
}

/// Dimension bounds: positive width and height, both at most the maximum,
/// and a bounded total pixel count.
pub open spec fn dib_dims_ok(d: Seq<u8>) -> bool {
    &&& 1 <= dib_width(d) <= MAX_DIMENSION
    &&& 1 <= dib_abs_height(d) <= MAX_DIMENSION
    &&& dib_width(d) * dib_abs_height(d) <= MAX_PIXELS
}

/// The whole acceptance condition of the decoder: a full header, dimensions
/// within bounds, a supported compression mode and bit depth, pixel rows
/// starting inside the buffer, and, for palette images, a palette that lies
/// within the buffer.
pub open spec fn dib_ok(d: Seq<u8>) -> bool {
    &&& d.len() >= 40
    &&& dib_dims_ok(d)
    &&& (dib_compression(d) == 0 || dib_compression(d) == 3)
    &&& (dib_bit_count(d) == 32 || dib_bit_count(d) == 24 || dib_bit_count(d) == 16
        || dib_bit_count(d) == 8)
    &&& dib_pixel_offset(d) < d.len()
    &&& (dib_bit_count(d) == 8 ==> dib_header_size(d) + dib_palette_count(d) * 4 <= d.len())
}

/// Bytes per stored pixel row, padded to a four-byte boundary for the depths
/// that need it.
pub open spec fn dib_row_bytes(d: Seq<u8>) -> int {
    let w = dib_width(d) as int;
    if dib_bit_count(d) == 32 {
        w * 4
    } else if dib_bit_count(d) == 24 {
        ((w * 3 + 3) / 4) * 4
    } else if dib_bit_count(d) == 16 {
        ((w * 2 + 3) / 4) * 4
    } else {
        ((w + 3) / 4) * 4
    }
}

/// The stored row that output row `y` comes from: `y` itself for top-down
/// input, the mirrored row for bottom-up input.
pub open spec fn dib_src_row(d: Seq<u8>, y: int) -> int {
    if dib_top_down(d) {
        y
    } else {
        dib_abs_height(d) - 1 - y
    }
}

/// Bytes of row data the decoder actually reads for one row.
pub open spec fn dib_row_need(d: Seq<u8>) -> int {
    let w = dib_width(d) as int;
    if dib_bit_count(d) == 32 {
        dib_row_bytes(d)
    } else if dib_bit_count(d) == 24 {
        w * 3
    } else if dib_bit_count(d) == 16 {
        w * 2
    } else {
        w
    }
}

/// True when the byte range of output row `y` lies inside the buffer.
pub open spec fn dib_row_fits(d: Seq<u8>, y: int) -> bool {
    dib_pixel_offset(d) + dib_src_row(d, y) * dib_row_bytes(d) + dib_row_need(d) <= d.len()
}

/// A five-bit channel value rescaled linearly to eight bits.
pub open spec fn scale5(v: int) -> u8 {
    ((v * 255) / 31) as u8
}

/// Channel `c` (0 red, 1 green, 2 blue, 3 alpha) of output pixel `(x, y)`.
/// Rows outside the buffer decode as transparent black, as do palette
/// indices past the palette.  A 32-bit zero alpha byte is normalized to
/// fully opaque, since many producers store zero to mean opaque.
pub open spec fn dib_pixel_byte(d: Seq<u8>, x: int, y: int, c: int) -> u8 {
    if !dib_row_fits(d, y) {
        0
    } else {
        let base = dib_pixel_offset(d) + dib_src_row(d, y) * dib_row_bytes(d);
        if dib_bit_count(d) == 32 {
            let off = base + x * 4;
            if c == 0 {
                d[off + 2]
            } else if c == 1 {
                d[off + 1]
            } else if c == 2 {
                d[off]
            } else {
                if d[off + 3] == 0 {
                    255
                } else {
                    d[off + 3]
                }
            }
        } else if dib_bit_count(d) == 24 {
            let off = base + x * 3;
            if c == 0 {
                d[off + 2]
            } else if c == 1 {
                d[off + 1]
            } else if c == 2 {
                d[off]
            } else {
                255
            }
        } else if dib_bit_count(d) == 16 {
            let p = dib_u16(d, base + x * 2);
            if c == 0 {
                scale5(((p >> 10) & 0x1f) as int)
            } else if c == 1 {
                scale5(((p >> 5) & 0x1f) as int)
            } else if c == 2 {
                scale5((p & 0x1f) as int)
            } else {
                255
            }
        } else {
            let idx = d[base + x] as int;
            if idx < dib_palette_count(d) {
                let po = dib_header_size(d) + idx * 4;
                if c == 0 {
                    d[po + 2]
                } else if c == 1 {
                    d[po + 1]
                } else if c == 2 {
                    d[po]
                } else {
                    255
                }
            } else {
                0
            }
        }
    }
}

/// The decoded raster as a flat byte sequence: four bytes per pixel, rows
/// top-down.
pub open spec fn dib_raster(d: Seq<u8>) -> Seq<u8> {
    let w = dib_width(d) as int;
    let h = dib_abs_height(d);
    Seq::new((w * h * 4) as nat, |i: int| dib_pixel_byte(d, (i / 4) % w, (i / 4) / w, i % 4))
}

/// Reads the 32-bit little-endian field at `off`.
fn read_u32(d: &Vec<u8>, off: usize) -> (r: u32)
    requires
        off + 4 <= d@.len(),
    ensures
        r == dib_u32(d@, off as int),
{
    let n = d.len();
    u32_from_le_bytes(&d[off..off + 4])
}

/// Reads the 16-bit little-endian field at `off`.
fn read_u16(d: &Vec<u8>, off: usize) -> (r: u16)
    requires
        off + 2 <= d@.len(),
    ensures
        r == dib_u16(d@, off as int),
{
    let n = d.len();
    u16_from_le_bytes(&d[off..off + 2])
}

/// Checks the header of a DIB buffer: true exactly when the decoder accepts
/// it.
pub fn dib_header_ok(d: &Vec<u8>) -> (r: bool)
    ensures
        r == dib_ok(d@),
{
    if d.len() < 40 {
        return false;
    }
    let header_size = read_u32(d, 0);
    let width = read_u32(d, 4);
    let height_raw = read_u32(d, 8);
    let bit_count = read_u16(d, 14);
    let compression = read_u32(d, 16);

    if width < 1 || width > MAX_DIMENSION {
        return false;
    }
    let top_down = height_raw >= 0x8000_0000;
    let abs_height: u32 = if top_down {
        ((0x1_0000_0000u64 - height_raw as u64)) as u32
    } else {
        height_raw
    };
    if abs_height < 1 || abs_height > MAX_DIMENSION {
        return false;
    }
    proof {
        assert((width as int) * (abs_height as int) <= 4096 * 4096) by (nonlinear_arith)
            requires
                1 <= width <= 4096 && 1 <= abs_height <= 4096,
        ;
    }
    if (width as u64) * (abs_height as u64) > MAX_PIXELS {
        return false;
    }
    if compression != 0 && compression != 3 {
        return false;
    }
    if bit_count != 32 && bit_count != 24 && bit_count != 16 && bit_count != 8 {
        return false;
    }
    let palette_count: u64 = if bit_count == 8 {
        let colors_used = read_u32(d, 32);
        if colors_used == 0 {
            256
        } else {
            colors_used as u64
        }
    } else {
        0
    };
    let pixel_offset: u64 = if compression == 3 && header_size < 52 {
        header_size as u64 + 12
    } else if bit_count == 8 {
        header_size as u64 + palette_count * 4
    } else {
        header_size as u64
    };
    if pixel_offset >= d.len() as u64 {
        return false;
    }
    if bit_count == 8 {
        if header_size as u64 + palette_count * 4 > d.len() as u64 {
            return false;
        }
    }
    true
}

/// Row-size bounds that the decoder's loops lean on.
proof fn lemma_row_bytes_bounds(d: Seq<u8>)
    requires
        1 <= dib_width(d),
    ensures
        0 <= dib_row_need(d) <= dib_row_bytes(d),
        dib_row_bytes(d) <= dib_width(d) * 4 + 4,
{
    let w = dib_width(d) as int;
    vstd::arithmetic::div_mod::lemma_fundamental_div_mod(w * 3 + 3, 4);
    vstd::arithmetic::div_mod::lemma_mod_division_less_than_divisor(w * 3 + 3, 4);
    vstd::arithmetic::div_mod::lemma_fundamental_div_mod(w * 2 + 3, 4);
    vstd::arithmetic::div_mod::lemma_mod_division_less_than_divisor(w * 2 + 3, 4);
    vstd::arithmetic::div_mod::lemma_fundamental_div_mod(w + 3, 4);
    vstd::arithmetic::div_mod::lemma_mod_division_less_than_divisor(w + 3, 4);
}

/// Decodes channel bytes of one pixel.  `base` is the byte offset of the
/// source row of `y`, and `fits` says whether that row lies in the buffer.
fn decode_pixel(d: &Vec<u8>, x: u32, y: u32, base: usize, fits: bool) -> (p: (u8, u8, u8, u8))
    requires
        dib_ok(d@),
        x < dib_width(d@),
        y < dib_abs_height(d@),
        fits == dib_row_fits(d@, y as int),
        fits ==> base == dib_pixel_offset(d@) + dib_src_row(d@, y as int) * dib_row_bytes(d@),
    ensures
        p.0 == dib_pixel_byte(d@, x as int, y as int, 0),
        p.1 == dib_pixel_byte(d@, x as int, y as int, 1),
        p.2 == dib_pixel_byte(d@, x as int, y as int, 2),
        p.3 == dib_pixel_byte(d@, x as int, y as int, 3),
{
    if !fits {
        return (0, 0, 0, 0);
    }
    let n = d.len();
    let bit_count = read_u16(d, 14);
    proof {
        lemma_row_bytes_bounds(d@);
    }
    if bit_count == 32 {
        proof {
            assert((x + 1) * 4 <= dib_width(d@) * 4) by {
                vstd::arithmetic::mul::lemma_mul_inequality(
                    x as int + 1,
                    dib_width(d@) as int,
                    4,
                );
            }
        }
        let off = base + (x as usize) * 4;
        let b = d[off];
        let g = d[off + 1];
        let r = d[off + 2];
        let a = d[off + 3];
        let alpha = if a == 0 {
            255
        } else {
            a
        };
        (r, g, b, alpha)
    } else if bit_count == 24 {
        proof {
            assert((x + 1) * 3 <= dib_width(d@) * 3) by {
                vstd::arithmetic::mul::lemma_mul_inequality(
                    x as int + 1,
                    dib_width(d@) as int,
                    3,
                );
            }
        }
        let off = base + (x as usize) * 3;
        let b = d[off];
        let g = d[off + 1];
        let r = d[off + 2];
        (r, g, b, 255)
    } else if bit_count == 16 {
        proof {
            assert((x + 1) * 2 <= dib_width(d@) * 2) by {
                vstd::arithmetic::mul::lemma_mul_inequality(
                    x as int + 1,
                    dib_width(d@) as int,
                    2,
                );
            }
        }
        let off = base + (x as usize) * 2;
        let p = read_u16(d, off);
        let r5 = (p >> 10) & 0x1f;
        let g5 = (p >> 5) & 0x1f;
        let b5 = p & 0x1f;
        assert((p >> 10) & 0x1f < 32 && (p >> 5) & 0x1f < 32 && p & 0x1f < 32) by (bit_vector);
        let r = ((r5 as u32) * 255 / 31) as u8;
        let g = ((g5 as u32) * 255 / 31) as u8;
        let b = ((b5 as u32) * 255 / 31) as u8;
        (r, g, b, 255)
    } else {
        proof {
            assert(x + 1 <= dib_width(d@));
        }
        let idx = d[base + x as usize];
        let header_size = read_u32(d, 0);
        let colors_used = read_u32(d, 32);
        let palette_count: u64 = if colors_used == 0 {
            256
        } else {
            colors_used as u64
        };
        if (idx as u64) < palette_count {
            proof {
                assert((idx as int + 1) * 4 <= dib_palette_count(d@) * 4) by {
                    vstd::arithmetic::mul::lemma_mul_inequality(
                        idx as int + 1,
                        dib_palette_count(d@),
                        4,
                    );
                }
            }
            let po = (header_size as usize) + (idx as usize) * 4;
            let b = d[po];
            let g = d[po + 1];
            let r = d[po + 2];
            (r, g, b, 255)
        } else {
            (0, 0, 0, 0)
        }
    }
}

/// Relates the flat raster index of channel `c` of pixel `(x, y)` to the
/// per-pixel formula.
proof fn lemma_raster_byte(d: Seq<u8>, x: int, y: int, c: int)
    requires
        1 <= dib_width(d),
        0 <= x < dib_width(d),
        0 <= y < dib_abs_height(d),
        0 <= c < 4,
    ensures
        0 <= y * (dib_width(d) * 4) + x * 4 + c < dib_width(d) * dib_abs_height(d) * 4,
        dib_raster(d)[y * (dib_width(d) * 4) + x * 4 + c] == dib_pixel_byte(d, x, y, c),
{
    let w = dib_width(d) as int;
    let h = dib_abs_height(d);
    let i: int = y * (w * 4) + x * 4 + c;
    assert(y * (w * 4) == (y * w) * 4) by (nonlinear_arith);
    assert(i == (y * w + x) * 4 + c);
    assert(y * w >= 0) by (nonlinear_arith)
        requires
            y >= 0 && w >= 1,
    ;
    vstd::arithmetic::div_mod::lemma_fundamental_div_mod_converse(i, 4, y * w + x, c);
    vstd::arithmetic::div_mod::lemma_fundamental_div_mod_converse(y * w + x, w, y, x);
    assert(i < w * h * 4) by (nonlinear_arith)
        requires
            0 <= x < w && 0 <= y < h && 0 <= c < 4 && i == y * (w * 4) + x * 4 + c,
    ;
}

/// Decodes a DIB buffer into a top-down RGBA raster.  Returns `None` exactly
/// when the header is rejected: short buffer, out-of-bounds dimensions, an
/// unsupported compression mode or bit depth, or pixel data starting outside
/// the buffer.  No raster memory is allocated on rejection.
pub fn decode_dib(d: &Vec<u8>) -> (r: Option<Raster>)
    ensures
        r is Some <==> dib_ok(d@),
        r is Some ==> r->Some_0.wf(),
        r is Some ==> r->Some_0.width == dib_width(d@),
        r is Some ==> r->Some_0.height == dib_abs_height(d@),
        r is Some ==> r->Some_0.pixels@ == dib_raster(d@),
{
    if !dib_header_ok(d) {
        return None;
    }
    let width = read_u32(d, 4);
    let height_raw = read_u32(d, 8);
    let bit_count = read_u16(d, 14);
    let compression = read_u32(d, 16);
    let header_size = read_u32(d, 0);
    let top_down = height_raw >= 0x8000_0000;
    let abs_height: u32 = if top_down {
        ((0x1_0000_0000u64 - height_raw as u64)) as u32
    } else {
        height_raw
    };
    let palette_count: u64 = if bit_count == 8 {
        let colors_used = read_u32(d, 32);
        if colors_used == 0 {
            256
        } else {
            colors_used as u64
        }
    } else {
        0
    };
    let pixel_offset_64: u64 = if compression == 3 && header_size < 52 {
        header_size as u64 + 12
    } else if bit_count == 8 {
        header_size as u64 + palette_count * 4
    } else {
        header_size as u64
    };
    let dlen = d.len();
    assert(pixel_offset_64 as int == dib_pixel_offset(d@));
    assert(pixel_offset_64 < dlen as u64);
    let pixel_offset = pixel_offset_64 as usize;
    assert(pixel_offset == dib_pixel_offset(d@));

    let row_bytes: usize = if bit_count == 32 {
        (width as usize) * 4
    } else if bit_count == 24 {
        (((width as usize) * 3 + 3) / 4) * 4
    } else if bit_count == 16 {
        (((width as usize) * 2 + 3) / 4) * 4
    } else {
        (((width as usize) + 3) / 4) * 4
    };
    assert(row_bytes == dib_row_bytes(d@));
    let row_need: usize = if bit_count == 32 {
        row_bytes
    } else if bit_count == 24 {
        (width as usize) * 3
    } else if bit_count == 16 {
        (width as usize) * 2
    } else {
        width as usize
    };
    assert(row_need == dib_row_need(d@));

    let ghost dsq = d@;
    let w = width as usize;
    let h = abs_height as usize;
    let mut pixels: Vec<u8> = Vec::new();
    let mut y: usize = 0;
    while y < h
        invariant
            dib_ok(dsq),
            dsq == d@,
            dlen == dsq.len(),
            w == dib_width(dsq),
            h == dib_abs_height(dsq),
            1 <= w <= MAX_DIMENSION,
            1 <= h <= MAX_DIMENSION,
            pixel_offset == dib_pixel_offset(dsq),
            row_bytes == dib_row_bytes(dsq),
            row_need == dib_row_need(dsq),
            top_down == dib_top_down(dsq),
            0 <= y <= h,
            pixels@.len() == y * (w * 4),
            forall|i: int| 0 <= i < pixels@.len() ==> pixels@[i] == dib_raster(dsq)[i],
        decreases h - y,
    {
        let src_y: usize = if top_down {
            y
        } else {
            h - 1 - y
        };
        assert(src_y == dib_src_row(dsq, y as int));
        proof {
            lemma_row_bytes_bounds(dsq);
            assert(row_bytes <= 4096 * 4 + 4) by {
                assert(dib_width(dsq) * 4 <= 4096 * 4) by (nonlinear_arith)
                    requires
                        dib_width(dsq) <= 4096,
                ;
            }
            assert(src_y * row_bytes <= (h - 1) * row_bytes) by {
                vstd::arithmetic::mul::lemma_mul_inequality(
                    src_y as int,
                    h as int - 1,
                    row_bytes as int,
                );
            }
            assert((h as int - 1) * row_bytes <= 4096 * (4096 * 4 + 4)) by (nonlinear_arith)
                requires
                    1 <= h <= 4096 && 0 <= row_bytes <= 4096 * 4 + 4,
            ;
        }
        let row_start_rel: usize = src_y * row_bytes;
        let fits = (pixel_offset as u64) + (row_start_rel as u64) + (row_need as u64) <= (dlen
            as u64);
        assert(fits == dib_row_fits(dsq, y as int));
        let base: usize = if fits {
            pixel_offset + row_start_rel
        } else {
            0
        };

        let mut x: usize = 0;
        while x < w
            invariant
                dib_ok(dsq),
                dsq == d@,
                w == dib_width(dsq),
                h == dib_abs_height(dsq),
                0 <= y < h,
                0 <= x <= w,
                fits == dib_row_fits(dsq, y as int),
                fits ==> base == dib_pixel_offset(dsq) + dib_src_row(dsq, y as int)
                    * dib_row_bytes(dsq),
                pixels@.len() == y * (w * 4) + x * 4,
                forall|i: int| 0 <= i < pixels@.len() ==> pixels@[i] == dib_raster(dsq)[i],
            decreases w - x,
        {
            let (pr, pg, pb, pa) = decode_pixel(d, x as u32, y as u32, base, fits);
            proof {
                lemma_raster_byte(dsq, x as int, y as int, 0);
                lemma_raster_byte(dsq, x as int, y as int, 1);
                lemma_raster_byte(dsq, x as int, y as int, 2);
                lemma_raster_byte(dsq, x as int, y as int, 3);
                assert(y * (dib_width(dsq) * 4) + x * 4 < dib_width(dsq) * dib_abs_height(dsq)
                    * 4);
            }
            pixels.push(pr);
            pixels.push(pg);
            pixels.push(pb);
            pixels.push(pa);
            x += 1;
        }
        proof {
            assert(y * (w * 4) + w * 4 == (y + 1) * (w * 4)) by (nonlinear_arith);
        }
        y += 1;
    }
    proof {
        assert(h * (w * 4) == w * h * 4) by (nonlinear_arith);
        assert(pixels@ =~= dib_raster(dsq));
    }
    Some(Raster { width, height: abs_height, pixels })
}

/// The source channel that stored channel `c` of a BGRA pixel comes from in
/// an RGBA pixel: red and blue trade places.
pub open spec fn bgra_channel(c: int) -> int {
    if c == 0 {
        2
    } else if c == 2 {
        0
    } else {
        c
    }
}

/// The fixed 40-byte header of a 32-bit uncompressed DIB: header size,
/// width, positive (bottom-up) height, one plane, 32 bits per pixel, and
/// zeroed remaining fields.
pub open spec fn dib32_header(w: u32, h: u32) -> Seq<u8> {
    vstd::bytes::spec_u32_to_le_bytes(40) + vstd::bytes::spec_u32_to_le_bytes(w)
        + vstd::bytes::spec_u32_to_le_bytes(h) + vstd::bytes::spec_u16_to_le_bytes(1)
        + vstd::bytes::spec_u16_to_le_bytes(32) + vstd::bytes::spec_u32_to_le_bytes(0)
        + vstd::bytes::spec_u32_to_le_bytes(0) + vstd::bytes::spec_u32_to_le_bytes(0)
        + vstd::bytes::spec_u32_to_le_bytes(0) + vstd::bytes::spec_u32_to_le_bytes(0)
        + vstd::bytes::spec_u32_to_le_bytes(0)
}

/// The pixel area of a 32-bit DIB built from a top-down RGBA raster: rows
/// bottom-up, four bytes per pixel in BGRA order.
pub open spec fn dib32_pixels(w: u32, h: u32, px: Seq<u8>) -> Seq<u8> {
    Seq::new(
        (w * h * 4) as nat,
        |i: int| px[((h - 1 - (i / 4) / (w as int)) * w + ((i / 4) % (w as int))) * 4
            + bgra_channel(i % 4)],
    )
}

/// A complete 32-bit bottom-up DIB for a top-down RGBA raster.
pub open spec fn dib32_of(w: u32, h: u32, px: Seq<u8>) -> Seq<u8> {
    dib32_header(w, h) + dib32_pixels(w, h, px)
}

/// Relates the flat stored-pixel index of channel `c` of stored pixel
/// `(x, j)` to the raster byte it copies.
proof fn lemma_dib32_pixel_index(w: u32, h: u32, px: Seq<u8>, x: int, j: int, c: int)
    requires
        1 <= w,
        1 <= h,
        0 <= x < w,
        0 <= j < h,
        0 <= c < 4,
        px.len() == w * h * 4,
    ensures
        0 <= j * (w * 4) + x * 4 + c < w * h * 4,
        0 <= ((h - 1 - j) * w + x) * 4 + bgra_channel(c) < w * h * 4,
        dib32_pixels(w, h, px)[j * (w * 4) + x * 4 + c] == px[((h - 1 - j) * w + x) * 4
            + bgra_channel(c)],
{
    let wi = w as int;
    let hi = h as int;
    let i: int = j * (wi * 4) + x * 4 + c;
    assert(j * (wi * 4) == (j * wi) * 4) by (nonlinear_arith);
    assert(i == (j * wi + x) * 4 + c);
    assert(j * wi >= 0) by (nonlinear_arith)
        requires
            j >= 0 && wi >= 1,
    ;
    vstd::arithmetic::div_mod::lemma_fundamental_div_mod_converse(i, 4, j * wi + x, c);
    vstd::arithmetic::div_mod::lemma_fundamental_div_mod_converse(j * wi + x, wi, j, x);
    assert(i < wi * hi * 4) by (nonlinear_arith)
        requires
            0 <= x < wi && 0 <= j < hi && 0 <= c < 4 && i == j * (wi * 4) + x * 4 + c,
    ;
    let s: int = ((hi - 1 - j) * wi + x) * 4 + bgra_channel(c);
    assert(0 <= s < wi * hi * 4) by (nonlinear_arith)
        requires
            0 <= x < wi && 0 <= j < hi && 0 <= bgra_channel(c) < 4 && s == ((hi - 1 - j) * wi + x)
                * 4 + bgra_channel(c) && hi - 1 - j >= 0,
    ;
}

/// Builds the 32-bit bottom-up DIB that carries a raster back to the
/// clipboard: the 40-byte header followed by BGRA rows in reversed order.
pub fn encode_dib32(r: &Raster) -> (d: Vec<u8>)
    requires
        r.wf(),
    ensures
        d@ == dib32_of(r.width, r.height, r.pixels@),
        d@.len() == 40 + r.width * r.height * 4,
{
    proof {
        vstd::bytes::lemma_auto_spec_u32_to_from_le_bytes();
        vstd::bytes::lemma_auto_spec_u16_to_from_le_bytes();
    }
    let mut d = vstd::bytes::u32_to_le_bytes(40);
    let mut part = vstd::bytes::u32_to_le_bytes(r.width);
    d.append(&mut part);
    let mut part = vstd::bytes::u32_to_le_bytes(r.height);
    d.append(&mut part);
    let mut part = vstd::bytes::u16_to_le_bytes(1);
    d.append(&mut part);
    let mut part = vstd::bytes::u16_to_le_bytes(32);
    d.append(&mut part);
    let mut zeros: usize = 0;
    while zeros < 6
        invariant
            0 <= zeros <= 6,
            d@.len() == 16 + zeros * 4,
            d@ == dib32_header(r.width, r.height).subrange(0, 16 + zeros * 4),
        decreases 6 - zeros,
    {
        let mut part = vstd::bytes::u32_to_le_bytes(0);
        d.append(&mut part);
        proof {
            vstd::bytes::lemma_auto_spec_u32_to_from_le_bytes();
            vstd::bytes::lemma_auto_spec_u16_to_from_le_bytes();
            assert(d@ =~= dib32_header(r.width, r.height).subrange(0, 16 + (zeros + 1) * 4));
        }
        zeros += 1;
    }
    proof {
        assert(d@ =~= dib32_header(r.width, r.height));
    }
    let ghost hdr = d@;
    let w = r.width as usize;
    let h = r.height as usize;
    let ghost px = r.pixels@;
    let mut j: usize = 0;
    while j < h
        invariant
            1 <= w <= MAX_DIMENSION,
            1 <= h <= MAX_DIMENSION,
            w == r.width && h == r.height,
            px == r.pixels@,
            px.len() == w * h * 4,
            hdr == dib32_header(r.width, r.height),
            hdr.len() == 40,
            0 <= j <= h,
            d@.len() == 40 + j * (w * 4),
            d@.subrange(0, 40) == hdr,
            forall|i: int|
                40 <= i < d@.len() ==> d@[i] == dib32_pixels(r.width, r.height, px)[i - 40],
        decreases h - j,
    {
        let src_row = h - 1 - j;
        let mut x: usize = 0;
        while x < w
            invariant
                1 <= w <= MAX_DIMENSION,
                1 <= h <= MAX_DIMENSION,
                w == r.width && h == r.height,
                px == r.pixels@,
                px.len() == w * h * 4,
                hdr == dib32_header(r.width, r.height),
                hdr.len() == 40,
                0 <= j < h,
                src_row == h - 1 - j,
                0 <= x <= w,
                d@.len() == 40 + j * (w * 4) + x * 4,
                d@.subrange(0, 40) == hdr,
                forall|i: int|
                    40 <= i < d@.len() ==> d@[i] == dib32_pixels(r.width, r.height, px)[i - 40],
            decreases w - x,
        {
            proof {
                lemma_dib32_pixel_index(r.width, r.height, px, x as int, j as int, 0);
                lemma_dib32_pixel_index(r.width, r.height, px, x as int, j as int, 1);
                lemma_dib32_pixel_index(r.width, r.height, px, x as int, j as int, 2);
                lemma_dib32_pixel_index(r.width, r.height, px, x as int, j as int, 3);
                assert((src_row * w + x) * 4 + 3 < w * h * 4) by (nonlinear_arith)
                    requires
                        0 <= x < w && 0 <= src_row < h,
                ;
                assert(w * h * 4 <= 4096 * 4096 * 4) by (nonlinear_arith)
                    requires
                        1 <= w <= 4096 && 1 <= h <= 4096,
                ;
                assert((h - 1 - j) * (w as int) == src_row * (w as int));
            }
            let src = (src_row * w + x) * 4;
            let ghost old_d = d@;
            d.push(r.pixels[src + 2]);
            d.push(r.pixels[src + 1]);
            d.push(r.pixels[src]);
            d.push(r.pixels[src + 3]);
            proof {
                assert(d@.subrange(0, 40) =~= hdr);
            }
            x += 1;
        }
        proof {
            assert(j * (w * 4) + w * 4 == (j + 1) * (w * 4)) by (nonlinear_arith);
        }
        j += 1;
    }
    proof {
        assert(h * (w * 4) == w * h * 4) by (nonlinear_arith);
        assert(d@ =~= dib32_of(r.width, r.height, px));
    }
    d
}

/// Round trip through the 32-bit DIB form: encoding a well-formed raster
/// whose alpha bytes are all nonzero and decoding the result gives back the
/// raster unchanged — the header is accepted, the bottom-up rows are
/// reordered to top-down again, and red and blue swap back.  (Zero alpha is
/// excluded because the decoder normalizes it to fully opaque.)
pub proof fn lemma_dib32_round_trip(w: u32, h: u32, px: Seq<u8>)
    requires
        1 <= w <= MAX_DIMENSION,
        1 <= h <= MAX_DIMENSION,
        w * h <= MAX_PIXELS,
        px.len() == w * h * 4,
        forall|p: int| 0 <= p < w * h ==> px[#[trigger] (p * 4) + 3] != 0,
    ensures
        dib_ok(dib32_of(w, h, px)),
        dib_width(dib32_of(w, h, px)) == w,
        dib_abs_height(dib32_of(w, h, px)) == h,
        !dib_top_down(dib32_of(w, h, px)),
        dib_raster(dib32_of(w, h, px)) == px,
{
    vstd::bytes::lemma_auto_spec_u32_to_from_le_bytes();
    vstd::bytes::lemma_auto_spec_u16_to_from_le_bytes();
    let d = dib32_of(w, h, px);
    let wi = w as int;
    let hi = h as int;
    assert(dib32_header(w, h).len() == 40);
    assert(wi * hi * 4 >= 4) by (nonlinear_arith)
        requires
            wi >= 1 && hi >= 1,
    ;
    assert(d.len() == 40 + wi * hi * 4);

    assert(d.subrange(0, 4) =~= vstd::bytes::spec_u32_to_le_bytes(40));
    assert(dib_header_size(d) == 40);
    assert(d.subrange(4, 8) =~= vstd::bytes::spec_u32_to_le_bytes(w));
    assert(dib_width(d) == w);
    assert(d.subrange(8, 12) =~= vstd::bytes::spec_u32_to_le_bytes(h));
    assert(dib_height_raw(d) == h);
    assert(!dib_top_down(d));
    assert(dib_abs_height(d) == hi);
    assert(d.subrange(14, 16) =~= vstd::bytes::spec_u16_to_le_bytes(32));
    assert(dib_bit_count(d) == 32);
    assert(d.subrange(16, 20) =~= vstd::bytes::spec_u32_to_le_bytes(0));
    assert(dib_compression(d) == 0);
    assert(dib_pixel_offset(d) == 40);
    assert(dib_ok(d));
    assert(dib_row_bytes(d) == wi * 4);

    assert forall|y: int| 0 <= y < hi implies dib_row_fits(d, y) by {
        assert(dib_src_row(d, y) == hi - 1 - y);
        assert((hi - 1 - y) * (wi * 4) + wi * 4 <= hi * (wi * 4)) by (nonlinear_arith)
            requires
                0 <= y < hi && wi >= 1,
        ;
        assert(hi * (wi * 4) == wi * hi * 4) by (nonlinear_arith);
    }

    assert(dib_raster(d).len() == px.len());
    assert forall|i: int| 0 <= i < wi * hi * 4 implies dib_raster(d)[i] == px[i] by {
        let q = i / 4;
        let c = i % 4;
        vstd::arithmetic::div_mod::lemma_fundamental_div_mod(i, 4);
        vstd::arithmetic::div_mod::lemma_mod_division_less_than_divisor(i, 4);
        assert(wi * hi * 4 == (wi * hi) * 4) by (nonlinear_arith);
        assert(q < wi * hi);
        let x = q % wi;
        let y = q / wi;
        vstd::arithmetic::div_mod::lemma_fundamental_div_mod(q, wi);
        vstd::arithmetic::div_mod::lemma_mod_division_less_than_divisor(q, wi);
        assert(y >= 0) by (nonlinear_arith)
            requires
                q >= 0 && wi >= 1 && q == wi * y + x && 0 <= x < wi,
        ;
        assert(y < hi) by (nonlinear_arith)
            requires
                wi * y + x < wi * hi && 0 <= x < wi && wi >= 1 && y >= 0,
        ;
        assert(dib_raster(d)[i] == dib_pixel_byte(d, x, y, c));
        assert(dib_row_fits(d, y));
        let base = 40 + (hi - 1 - y) * (wi * 4);
        let m = (hi - 1 - y) * (wi * 4) + x * 4;
        lemma_dib32_pixel_index(w, h, px, x, hi - 1 - y, 0);
        lemma_dib32_pixel_index(w, h, px, x, hi - 1 - y, 1);
        lemma_dib32_pixel_index(w, h, px, x, hi - 1 - y, 2);
        lemma_dib32_pixel_index(w, h, px, x, hi - 1 - y, 3);
        assert(hi - 1 - (hi - 1 - y) == y);
        assert forall|k: int| 0 <= k < 4 implies d[base + x * 4 + k] == px[(y * wi + x) * 4
            + bgra_channel(k)] by {
            assert(d[base + x * 4 + k] == dib32_pixels(w, h, px)[m + k]);
        }
        assert(i == (wi * y + x) * 4 + c);
        assert((y * wi + x) * 4 == (wi * y + x) * 4) by (nonlinear_arith);
        if c == 0 {
            assert(dib_pixel_byte(d, x, y, c) == d[base + x * 4 + 2]);
            assert(px[(y * wi + x) * 4 + bgra_channel(2)] == px[i]);
        } else if c == 1 {
            assert(dib_pixel_byte(d, x, y, c) == d[base + x * 4 + 1]);
            assert(px[(y * wi + x) * 4 + bgra_channel(1)] == px[i]);
        } else if c == 2 {
            assert(dib_pixel_byte(d, x, y, c) == d[base + x * 4]);
            assert(px[(y * wi + x) * 4 + bgra_channel(0)] == px[i]);
        } else {
            assert(0 <= y * wi + x < wi * hi) by (nonlinear_arith)
                requires
                    0 <= x < wi && 0 <= y < hi,
            ;
            assert(px[(y * wi + x) * 4 + 3] != 0);
            assert(d[base + x * 4 + 3] == px[(y * wi + x) * 4 + 3]);
            assert(dib_pixel_byte(d, x, y, c) == d[base + x * 4 + 3]);
            assert(px[(y * wi + x) * 4 + bgra_channel(3)] == px[i]);
        }
    }
    assert(dib_raster(d) =~= px);
}

/// What the PNG encoder produces for a raster of the given size and pixel
/// bytes; the encoding depends on these alone.
pub uninterp spec fn png_of(width: u32, height: u32, pixels: Seq<u8>) -> Seq<u8>;

/// Relies on image::RgbaImage::from_raw and ImageBuffer::write_to with the
/// PNG format: encoding is a pure function of the dimensions and pixel
/// bytes, and it succeeds on every nonempty raster of the right size —
/// the encoder fails only on a zero dimension or a buffer-size mismatch,
/// and the in-memory write cannot fail.
#[verifier::external_body]
fn encode_png(width: u32, height: u32, pixels: &Vec<u8>) -> (r: Option<Vec<u8>>)
    requires
        1 <= width,
        1 <= height,
        pixels@.len() == width * height * 4,
    ensures
        r is Some,
        r->Some_0@ == png_of(width, height, pixels@),
{
    let img = image::RgbaImage::from_raw(width, height, pixels.clone())?;
    let mut buf = Vec::new();
    img.write_to(&mut std::io::Cursor::new(&mut buf), image::ImageFormat::Png).ok()?;
    Some(buf)
}

/// Decodes a DIB buffer and encodes the raster as PNG bytes: `Some`
/// exactly when the header is accepted, and then exactly the PNG encoding
/// of the decoded raster.
pub fn dib_to_png(dib: &Vec<u8>) -> (r: Option<Vec<u8>>)
    ensures
        r is Some <==> dib_ok(dib@),
        r is Some ==> r->Some_0@ == png_of(
            dib_width(dib@),
            dib_abs_height(dib@) as u32,
            dib_raster(dib@),
        ),
{
    match decode_dib(dib) {
        Some(raster) => encode_png(raster.width, raster.height, &raster.pixels),
        None => None,
    }
}

} // verus!


