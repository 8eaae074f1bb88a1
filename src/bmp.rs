//! The bitmap encoder: a file header, a core header, a palette of 256 colours and the rows of
//! palette indices, written in that order.

use vstd::prelude::*;

use crate::le::{le16, le32, le_i32, push_i32, push_u16, push_u32};

verus! {

/// Number of entries in the palette.
pub const PALETTE_LEN: usize = 256;

/// Number of palette entries that `push_color` can fill; the last entry is reached only by
/// `insert_color`.
pub const APPENDABLE: u8 = 255;

/// Byte offset of the pixel data: file header, core header and the full palette.
pub const PIXEL_DATA_OFFSET: u32 = 14 + 12 + 256 * 3;

/// The signature of a bitmap file, "BM" read as a little-endian 16-bit value.
pub const SIGNATURE: u16 = 0x4D42;

/// What an encoder holds, as plain values.
pub struct BmpModel {
    pub width: u16,
    pub height: u16,
    /// The palette entries as (red, green, blue).
    pub palette: Seq<(u8, u8, u8)>,
    /// The next slot that `push_color` fills.
    pub cursor: nat,
    /// The rows of palette indices, as given at construction.
    pub rows: Seq<Seq<u8>>,
}

/// A palette of 256 black entries.
pub open spec fn black_palette() -> Seq<(u8, u8, u8)> {
    Seq::new(256, |_i: int| (0u8, 0u8, 0u8))
}

/// The encoder after `push_color(c)` has succeeded on it.
pub open spec fn appended(m: BmpModel, c: (u8, u8, u8)) -> BmpModel {
    BmpModel { palette: m.palette.update(m.cursor as int, c), cursor: m.cursor + 1, ..m }
}

/// The encoder after `insert_color(c, ind)`.
pub open spec fn with_color(m: BmpModel, ind: int, c: (u8, u8, u8)) -> BmpModel {
    BmpModel { palette: m.palette.update(ind, c), ..m }
}

/// A palette entry as written: blue, green, red.
pub open spec fn bgr(c: (u8, u8, u8)) -> Seq<u8> {
    seq![c.2, c.1, c.0]
}

/// The palette section: each entry's three bytes, in table order.
pub open spec fn palette_bytes(p: Seq<(u8, u8, u8)>) -> Seq<u8> {
    p.map_values(|c: (u8, u8, u8)| bgr(c)).flatten()
}

/// The file header of a `width` by `height` image: signature, file size, two reserved
/// zeros and the offset of the pixel data.
pub open spec fn file_header_bytes(width: u16, height: u16) -> Seq<u8> {
    le16(SIGNATURE) + le32(file_size(width, height) as u32) + le16(0) + le16(0) + le32(
        PIXEL_DATA_OFFSET,
    )
}

/// The core header of a `width` by `height` image: its own size, the dimensions, one plane
/// and eight bits per pixel.
pub open spec fn core_header_bytes(width: u16, height: u16) -> Seq<u8> {
    le32(12) + le16(width) + le16(height) + le16(1) + le16(8)
}

/// The whole file: file header, core header, palette, then the rows back to back.
pub open spec fn bitmap_bytes(m: BmpModel) -> Seq<u8> {
    file_header_bytes(m.width, m.height) + core_header_bytes(m.width, m.height) + palette_bytes(
        m.palette,
    ) + m.rows.flatten()
}

/// An RGB colour with one byte per channel.
#[derive(Clone, Copy, Debug, PartialEq, Eq, Structural)]
pub struct RGBTRIPLE {
    red: u8,
    green: u8,
    blue: u8,
}

impl View for RGBTRIPLE {
    type V = (u8, u8, u8);

    /// The colour as (red, green, blue).
    closed spec fn view(&self) -> (u8, u8, u8) {
        (self.red, self.green, self.blue)
    }
}

impl RGBTRIPLE {
    pub fn new(red: u8, green: u8, blue: u8) -> (r: Self)
        ensures
            r@ == (red, green, blue),
    {
        Self { red, green, blue }
    }

    fn write_bytes(&self, out: &mut Vec<u8>)
        ensures
            final(out)@ == old(out)@ + bgr(self@),
    {
        out.push(self.blue);
        out.push(self.green);
        out.push(self.red);
        assert(final(out)@ =~= old(out)@ + bgr(self@));
    }
}

/// The 14-byte file header.
struct BitMapFileHeader {
    signature: u16,
    size: i32,
    reserved1: u16,
    reserved2: u16,
    offset_bits: i32,
}

impl BitMapFileHeader {
    fn new(file_size: i32, offset_bits: i32) -> (r: Self)
        ensures
            r.signature == SIGNATURE,
            r.size == file_size,
            r.reserved1 == 0,
            r.reserved2 == 0,
            r.offset_bits == offset_bits,
    {
        Self { signature: SIGNATURE, size: file_size, reserved1: 0, reserved2: 0, offset_bits }
    }

    spec fn bytes(&self) -> Seq<u8> {
        le16(self.signature) + le_i32(self.size) + le16(self.reserved1) + le16(self.reserved2)
            + le_i32(self.offset_bits)
    }

    fn write_bytes(&self, out: &mut Vec<u8>)
        ensures
            final(out)@ == old(out)@ + self.bytes(),
    {
        push_u16(out, self.signature);
        push_i32(out, self.size);
        push_u16(out, self.reserved1);
        push_u16(out, self.reserved2);
        push_i32(out, self.offset_bits);
        assert(final(out)@ =~= old(out)@ + self.bytes());
    }
}

/// The 12-byte core header.
struct BitMapCoreHeader {
    size: u32,
    width: u16,
    height: u16,
    planes: u16,
    bitcount: u16,
}

impl BitMapCoreHeader {
    fn new(width: u16, height: u16) -> (r: Self)
        ensures
            r.size == 12,
            r.width == width,
            r.height == height,
            r.planes == 1,
            r.bitcount == 8,
    {
        Self { size: 12, width, height, planes: 1, bitcount: 8 }
    }

    spec fn bytes(&self) -> Seq<u8> {
        le32(self.size) + le16(self.width) + le16(self.height) + le16(self.planes) + le16(
            self.bitcount,
        )
    }

    fn write_bytes(&self, out: &mut Vec<u8>)
        ensures
            final(out)@ == old(out)@ + self.bytes(),
    {
        push_u32(out, self.size);
        push_u16(out, self.width);
        push_u16(out, self.height);
        push_u16(out, self.planes);
        push_u16(out, self.bitcount);
        assert(final(out)@ =~= old(out)@ + self.bytes());
    }
}

/// The palette: 256 entries and the slot that the next append fills.
struct ColorTable {
    table: [RGBTRIPLE; 256],
    write_ind: u8,
}

impl ColorTable {
    spec fn colors(&self) -> Seq<(u8, u8, u8)> {
        self.table@.map_values(|c: RGBTRIPLE| c@)
    }

    fn new() -> (r: Self)
        ensures
            r.colors() == black_palette(),
            r.write_ind == 0,
    {
        let black = RGBTRIPLE::new(0, 0, 0);
        let r = Self { table: [black; 256], write_ind: 0 };
        assert(r.colors() =~= black_palette());
        r
    }

    fn push_color(&mut self, color: RGBTRIPLE) -> (r: Result<u8, &'static str>)
        ensures
            old(self).write_ind < APPENDABLE ==> {
                &&& r == Ok::<u8, &'static str>(old(self).write_ind)
                &&& final(self).colors() == old(self).colors().update(
                    old(self).write_ind as int,
                    color@,
                )
                &&& final(self).write_ind == old(self).write_ind + 1
            },
            old(self).write_ind >= APPENDABLE ==> {
                &&& r == Err::<u8, &'static str>("cannot push color")
                &&& final(self).colors() == old(self).colors()
                &&& final(self).write_ind == old(self).write_ind
            },
    {
        if self.write_ind < APPENDABLE {
            let ind = self.write_ind;
            self.table[ind as usize] = color;
            self.write_ind = ind + 1;
            assert(self.colors() =~= old(self).colors().update(ind as int, color@));
            Ok(ind)
        } else {
            Err("cannot push color")
        }
    }

    fn insert_color(&mut self, color: RGBTRIPLE, ind: u8)
        ensures
            final(self).colors() == old(self).colors().update(ind as int, color@),
            final(self).write_ind == old(self).write_ind,
    {
        self.table[ind as usize] = color;
        assert(self.colors() =~= old(self).colors().update(ind as int, color@));
    }

    fn write_bytes(&self, out: &mut Vec<u8>)
        ensures
            final(out)@ == old(out)@ + palette_bytes(self.colors()),
    {
        let ghost start = out@;
        let mut i: usize = 0;
        while i < PALETTE_LEN
            invariant
                i <= PALETTE_LEN,
                out@ == start + palette_bytes(self.colors().take(i as int)),
            decreases PALETTE_LEN - i,
        {
            let ghost before = self.colors().take(i as int);
            self.table[i].write_bytes(out);
            proof {
                let f = |c: (u8, u8, u8)| bgr(c);
                assert(self.colors().take(i + 1) =~= before.push(self.table[i as int]@));
                assert(before.push(self.table[i as int]@).map_values(f) =~= before.map_values(
                    f,
                ).push(bgr(self.table[i as int]@)));
                before.map_values(f).lemma_flatten_push(bgr(self.table[i as int]@));
            }
            i = i + 1;
        }
        assert(self.colors().take(256) =~= self.colors());
    }
}

/// The rows of palette indices.
struct BitMapArray {
    buf: Vec<Vec<u8>>,
}

impl BitMapArray {
    spec fn rows(&self) -> Seq<Seq<u8>> {
        self.buf@.map_values(|r: Vec<u8>| r@)
    }

    fn new(data: Vec<Vec<u8>>) -> (r: Self)
        ensures
            r.buf@ == data@,
    {
        Self { buf: data }
    }

    fn write_bytes(&self, out: &mut Vec<u8>)
        ensures
            final(out)@ == old(out)@ + self.rows().flatten(),
    {
        let ghost start = out@;
        let mut i: usize = 0;
        while i < self.buf.len()
            invariant
                i <= self.buf.len(),
                out@ == start + self.rows().take(i as int).flatten(),
            decreases self.buf.len() - i,
        {
            let ghost before = self.rows().take(i as int);
            let ghost prev = out@;
            out.extend_from_slice(self.buf[i].as_slice());
            proof {
                assert(out@ =~= prev + self.buf[i as int]@);
                assert(self.rows().take(i + 1) =~= before.push(self.buf[i as int]@));
                before.lemma_flatten_push(self.buf[i as int]@);
            }
            i = i + 1;
        }
        assert(self.rows().take(self.buf.len() as int) =~= self.rows());
    }
}

/// The encoder: the two headers, the palette and the rows, with the image's dimensions.
pub struct BMP {
    bit_map_file_header: BitMapFileHeader,
    bit_map_core_header: BitMapCoreHeader,
    color_table: ColorTable,
    bit_map_array: BitMapArray,
    width: u16,
    height: u16,
}

/// Size in bytes of a file for a `width` by `height` image.
pub open spec fn file_size(width: u16, height: u16) -> int {
    PIXEL_DATA_OFFSET + width * height
}

/// The shape that construction gives: `height` rows, the first of `width` bytes, a palette
/// of 256 entries and a cursor within the appendable slots.
pub open spec fn well_shaped(m: BmpModel) -> bool {
    &&& m.palette.len() == PALETTE_LEN
    &&& m.cursor <= APPENDABLE
    &&& m.rows.len() == m.height
    &&& m.height == 0 ==> m.width == 0
    &&& m.height > 0 ==> m.rows[0].len() == m.width
}

impl View for BMP {
    type V = BmpModel;

    closed spec fn view(&self) -> BmpModel {
        BmpModel {
            width: self.width,
            height: self.height,
            palette: self.color_table.colors(),
            cursor: self.color_table.write_ind as nat,
            rows: self.bit_map_array.rows(),
        }
    }
}

impl BMP {
    /// The headers agree with the dimensions, and the shape is the one construction gave.
    pub closed spec fn wf(&self) -> bool {
        let fh = self.bit_map_file_header;
        let ch = self.bit_map_core_header;
        &&& fh.signature == SIGNATURE
        &&& fh.size as u32 == file_size(self.width, self.height)
        &&& fh.reserved1 == 0
        &&& fh.reserved2 == 0
        &&& fh.offset_bits == PIXEL_DATA_OFFSET as i32
        &&& ch.size == 12
        &&& ch.width == self.width
        &&& ch.height == self.height
        &&& ch.planes == 1
        &&& ch.bitcount == 8
        &&& well_shaped(self@)
    }

    /// A well-formed encoder has the shape that construction gives.
    pub proof fn lemma_wf_shape(&self)
        requires
            self.wf(),
        ensures
            well_shaped(self@),
    {
    }

    /// Takes the rows of palette indices; each row is one line of the image and every row
    /// is expected to be as long as the first.
    pub fn new(data: Vec<Vec<u8>>) -> (r: Self)
        requires
            data.len() < 65535,
            data.len() > 0 ==> data[0].len() < 65535,
        ensures
            r.wf(),
            r@ == (BmpModel {
                width: if data.len() == 0 { 0 } else { data[0].len() as u16 },
                height: data.len() as u16,
                palette: black_palette(),
                cursor: 0,
                rows: data@.map_values(|row: Vec<u8>| row@),
            }),
    {
        let height: u16 = data.len() as u16;
        let width: u16 = if height > 0 { data[0].len() as u16 } else { 0 };
        assert((width as u32) * (height as u32) <= 65534 * 65534) by (nonlinear_arith)
            requires width < 65535, height < 65535;
        let file_size: u32 = PIXEL_DATA_OFFSET + (width as u32) * (height as u32);
        assert(((file_size as i32) as u32) == file_size) by (bit_vector);
        let r = Self {
            bit_map_file_header: BitMapFileHeader::new(file_size as i32, PIXEL_DATA_OFFSET as i32),
            bit_map_core_header: BitMapCoreHeader::new(width, height),
            color_table: ColorTable::new(),
            bit_map_array: BitMapArray::new(data),
            width,
            height,
        };
        assert(r.bit_map_array.rows() =~= data@.map_values(|row: Vec<u8>| row@));
        r
    }

    /// Stores `color` in the next free appendable slot and returns that slot; fails once the
    /// 255 appendable slots are used, leaving the encoder unchanged.
    pub fn push_color(&mut self, color: RGBTRIPLE) -> (r: Result<u8, &'static str>)
        requires
            old(self).wf(),
        ensures
            final(self).wf(),
            old(self)@.cursor < APPENDABLE ==> r == Ok::<u8, &'static str>(
                old(self)@.cursor as u8,
            ) && final(self)@ == appended(old(self)@, color@),
            old(self)@.cursor >= APPENDABLE ==> r == Err::<u8, &'static str>("cannot push color")
                && final(self)@ == old(self)@,
    {
        self.color_table.push_color(color)
    }

    /// Overwrites palette entry `ind`, whatever the append cursor; the cursor is unchanged.
    pub fn insert_color(&mut self, color: RGBTRIPLE, ind: u8)
        requires
            old(self).wf(),
        ensures
            final(self).wf(),
            final(self)@ == with_color(old(self)@, ind as int, color@),
    {
        self.color_table.insert_color(color, ind);
    }

    /// The encoded file: file header, core header, the 256 palette entries in blue-green-red
    /// order, then the rows back to back with no padding.
    pub fn to_bytes(&self) -> (r: Vec<u8>)
        requires
            self.wf(),
        ensures
            r@ == bitmap_bytes(self@),
    {
        let mut out: Vec<u8> = Vec::new();
        self.bit_map_file_header.write_bytes(&mut out);
        self.bit_map_core_header.write_bytes(&mut out);
        self.color_table.write_bytes(&mut out);
        self.bit_map_array.write_bytes(&mut out);
        proof {
            let fh = self.bit_map_file_header;
            let offset = PIXEL_DATA_OFFSET;
            assert(((offset as i32) as u32) == offset) by (bit_vector)
                requires offset == 794u32;
            assert(fh.bytes() =~= file_header_bytes(self.width, self.height));
            assert(self.bit_map_core_header.bytes() =~= core_header_bytes(self.width, self.height));
        }
        assert(out@ =~= bitmap_bytes(self@));
        out
    }

    /// Width of the image in pixels.
    pub fn width(&self) -> (r: u16)
        ensures
            r == self@.width,
    {
        self.width
    }

    /// Height of the image in pixels.
    pub fn height(&self) -> (r: u16)
        ensures
            r == self@.height,
    {
        self.height
    }
}

} // verus!
