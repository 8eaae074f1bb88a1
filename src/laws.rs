//! Properties of the encoding that relate several calls or hold of every input.

use vstd::prelude::*;

use crate::bmp::{
    appended, bgr, bitmap_bytes, core_header_bytes, file_header_bytes, file_size, palette_bytes,
    well_shaped, with_color, BmpModel, APPENDABLE, PALETTE_LEN, PIXEL_DATA_OFFSET, SIGNATURE,
};
use crate::le::{le16, le32, lemma_read16_le16, lemma_read32_le32, read16, read32};

verus! {

/// Every row holds `width` bytes.
pub open spec fn rectangular(m: BmpModel) -> bool {
    forall|i: int| 0 <= i < m.rows.len() ==> #[trigger] m.rows[i].len() == m.width
}

/// The encoder after `push_color` has succeeded once for each of `colors`, in order.
pub open spec fn append_all(m: BmpModel, colors: Seq<(u8, u8, u8)>) -> BmpModel
    decreases colors.len(),
{
    if colors.len() == 0 {
        m
    } else {
        appended(append_all(m, colors.drop_last()), colors.last())
    }
}

/// Flattening pieces of one length `k`: the length is the count times `k`, and byte `j` of
/// piece `i` stands at `i * k + j`.
proof fn lemma_flatten_uniform<A>(s: Seq<Seq<A>>, k: nat)
    requires
        forall|i: int| 0 <= i < s.len() ==> #[trigger] s[i].len() == k,
    ensures
        s.flatten().len() == s.len() * k,
        forall|i: int, j: int|
            0 <= i < s.len() && 0 <= j < k ==> s.flatten()[i * k + j] == #[trigger] s[i][j],
    decreases s.len(),
{
    if s.len() > 0 {
        let t = s.drop_first();
        assert forall|i: int| 0 <= i < t.len() implies #[trigger] t[i].len() == k by {
            assert(t[i] == s[i + 1]);
        }
        lemma_flatten_uniform(t, k);
        assert(s.flatten() == s.first() + t.flatten());
        assert(s.len() * k == k + t.len() * k) by (nonlinear_arith)
            requires s.len() == t.len() + 1;
        assert forall|i: int, j: int| 0 <= i < s.len() && 0 <= j < k implies s.flatten()[i * k
            + j] == #[trigger] s[i][j] by {
            if i > 0 {
                assert(i * k + j == k + ((i - 1) * k + j)) by (nonlinear_arith);
                assert((i - 1) * k + j < t.len() * k) by (nonlinear_arith)
                    requires i - 1 < t.len(), 0 <= j < k, i >= 1;
                assert(0 <= (i - 1) * k) by (nonlinear_arith)
                    requires i >= 1;
                assert(t[i - 1] == s[i]);
            } else {
                assert(i * k + j == j) by (nonlinear_arith)
                    requires i == 0;
            }
        }
    }
}

/// The palette section holds three bytes for each entry, entry `i` at `3 * i` in
/// blue-green-red order.
proof fn lemma_palette_bytes(p: Seq<(u8, u8, u8)>)
    ensures
        palette_bytes(p).len() == 3 * p.len(),
        forall|i: int, j: int|
            0 <= i < p.len() && 0 <= j < 3 ==> palette_bytes(p)[i * 3 + j] == #[trigger] bgr(
                p[i],
            )[j],
{
    let s = p.map_values(|c: (u8, u8, u8)| bgr(c));
    assert forall|i: int| 0 <= i < s.len() implies #[trigger] s[i].len() == 3 by {
        assert(s[i] == bgr(p[i]));
    }
    lemma_flatten_uniform(s, 3);
    assert forall|i: int, j: int| 0 <= i < p.len() && 0 <= j < 3 implies palette_bytes(p)[i * 3
        + j] == #[trigger] bgr(p[i])[j] by {
        assert(s[i] == bgr(p[i]));
        assert(s.flatten()[i * 3 + j] == s[i][j]);
    }
}

/// A rectangular grid of `height` rows of `width` bytes encodes to exactly
/// `794 + width * height` bytes.
pub proof fn lemma_encoded_length(m: BmpModel)
    requires
        well_shaped(m),
        rectangular(m),
    ensures
        bitmap_bytes(m).len() == file_size(m.width, m.height),
{
    lemma_palette_bytes(m.palette);
    lemma_flatten_uniform(m.rows, m.width as nat);
    assert(file_header_bytes(m.width, m.height).len() == 14);
    assert(core_header_bytes(m.width, m.height).len() == 12);
}

/// Reading the header fields back from the encoding gives the signature, the file size, the
/// reserved zeros, the pixel data offset, the core header's size, the width and height that
/// the encoder holds, one plane and eight bits per pixel.
pub proof fn lemma_header_round_trip(m: BmpModel)
    requires
        well_shaped(m),
    ensures
        read16(bitmap_bytes(m), 0) == SIGNATURE,
        read32(bitmap_bytes(m), 2) == file_size(m.width, m.height),
        read16(bitmap_bytes(m), 6) == 0,
        read16(bitmap_bytes(m), 8) == 0,
        read32(bitmap_bytes(m), 10) == PIXEL_DATA_OFFSET,
        read32(bitmap_bytes(m), 14) == 12,
        read16(bitmap_bytes(m), 18) == m.width,
        read16(bitmap_bytes(m), 20) == m.height,
        read16(bitmap_bytes(m), 22) == 1,
        read16(bitmap_bytes(m), 24) == 8,
{
    let b = bitmap_bytes(m);
    let size = file_size(m.width, m.height);
    assert(m.width * m.height <= 65535 * 65535) by (nonlinear_arith)
        requires m.width <= 65535, m.height <= 65535, 0 <= m.width, 0 <= m.height;
    assert(0 <= size < 0x1_0000_0000);
    let size32 = size as u32;
    lemma_read16_le16(SIGNATURE);
    lemma_read32_le32(size32);
    lemma_read16_le16(0);
    lemma_read32_le32(PIXEL_DATA_OFFSET);
    lemma_read32_le32(12);
    lemma_read16_le16(m.width);
    lemma_read16_le16(m.height);
    lemma_read16_le16(1);
    lemma_read16_le16(8);
    assert(b.subrange(0, 2) =~= le16(SIGNATURE));
    assert(b.subrange(2, 6) =~= le32(size32));
    assert(b.subrange(6, 8) =~= le16(0));
    assert(b.subrange(8, 10) =~= le16(0));
    assert(b.subrange(10, 14) =~= le32(PIXEL_DATA_OFFSET));
    assert(b.subrange(14, 18) =~= le32(12));
    assert(b.subrange(18, 20) =~= le16(m.width));
    assert(b.subrange(20, 22) =~= le16(m.height));
    assert(b.subrange(22, 24) =~= le16(1));
    assert(b.subrange(24, 26) =~= le16(8));
}

/// From a fresh palette, 255 appends in a row all succeed, the call numbered `i` (from zero)
/// finding the cursor at `i` and so returning index `i`, each colour landing in its slot;
/// afterwards the cursor is at the end of the appendable slots, so the next append fails.
pub proof fn lemma_appends_fill_palette(m: BmpModel, colors: Seq<(u8, u8, u8)>)
    requires
        well_shaped(m),
        m.cursor == 0,
        colors.len() == APPENDABLE,
    ensures
        forall|i: int| 0 <= i < colors.len() ==> (#[trigger] append_all(m, colors.take(i))).cursor == i,
        append_all(m, colors).cursor == APPENDABLE,
        append_all(m, colors).palette == colors.push(m.palette[255]),
        well_shaped(append_all(m, colors)),
{
    assert forall|n: int| 0 <= n <= colors.len() implies {
        let a = #[trigger] append_all(m, colors.take(n));
        &&& a.cursor == n
        &&& a.palette == colors.take(n) + m.palette.subrange(n, PALETTE_LEN as int)
        &&& a.width == m.width && a.height == m.height && a.rows == m.rows
    } by {
        lemma_append_prefix(m, colors, n);
    }
    assert(colors.take(255) =~= colors);
    assert(colors.take(255) + m.palette.subrange(255, 256) =~= colors.push(m.palette[255]));
}

/// After the first `n` of the appends, the cursor is at `n`, the first `n` colours fill the
/// first `n` slots, and the rest of the encoder is as it was.
proof fn lemma_append_prefix(m: BmpModel, colors: Seq<(u8, u8, u8)>, n: int)
    requires
        m.palette.len() == PALETTE_LEN,
        m.cursor == 0,
        colors.len() == APPENDABLE,
        0 <= n <= colors.len(),
    ensures
        append_all(m, colors.take(n)).cursor == n,
        append_all(m, colors.take(n)).palette == colors.take(n) + m.palette.subrange(
            n,
            PALETTE_LEN as int,
        ),
        append_all(m, colors.take(n)).width == m.width,
        append_all(m, colors.take(n)).height == m.height,
        append_all(m, colors.take(n)).rows == m.rows,
    decreases n,
{
    if n == 0 {
        assert(colors.take(0) =~= Seq::<(u8, u8, u8)>::empty());
        assert(m.palette.subrange(0, 256) =~= m.palette);
        assert(colors.take(0) + m.palette =~= m.palette);
    } else {
        lemma_append_prefix(m, colors, n - 1);
        assert(colors.take(n).drop_last() =~= colors.take(n - 1));
        assert(colors.take(n).last() == colors[n - 1]);
        let prev = append_all(m, colors.take(n - 1));
        assert((colors.take(n - 1) + m.palette.subrange(n - 1, 256)).update(n - 1, colors[n - 1])
            =~= colors.take(n) + m.palette.subrange(n, 256));
    }
}

/// Once the appendable slots are used, `insert_color` still sets the last entry, and leaves
/// the cursor where it was.
pub proof fn lemma_insert_last_when_full(m: BmpModel, c: (u8, u8, u8))
    requires
        well_shaped(m),
        m.cursor == APPENDABLE,
    ensures
        with_color(m, 255, c).palette[255] == c,
        with_color(m, 255, c).cursor == APPENDABLE,
        well_shaped(with_color(m, 255, c)),
{
}

/// Palette entry `i` is written at byte `26 + 3 * i` as blue, green, red.
pub proof fn lemma_palette_order(m: BmpModel, i: int)
    requires
        well_shaped(m),
        0 <= i < PALETTE_LEN,
    ensures
        bitmap_bytes(m).subrange(26 + 3 * i, 29 + 3 * i) == seq![
            m.palette[i].2,
            m.palette[i].1,
            m.palette[i].0,
        ],
{
    lemma_palette_bytes(m.palette);
    let b = bitmap_bytes(m);
    let p = palette_bytes(m.palette);
    assert(file_header_bytes(m.width, m.height).len() == 14);
    assert(core_header_bytes(m.width, m.height).len() == 12);
    assert forall|j: int| 0 <= j < 3 implies b[26 + 3 * i + j] == #[trigger] bgr(m.palette[i])[j] by {
        assert(p[i * 3 + j] == bgr(m.palette[i])[j]);
        assert(b[26 + 3 * i + j] == p[3 * i + j]);
    }
    assert(b.subrange(26 + 3 * i, 29 + 3 * i) =~= bgr(m.palette[i]));
}

} // verus!
