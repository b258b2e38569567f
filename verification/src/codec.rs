//! Byte encodings of the canvas: its RGBA pixels, PNG images of it, gzip
//! framing of a saved canvas, and SHA-256 digests.

use vstd::prelude::*;
use std::io::{Read, Write};
use sha2::Digest;
use image::ImageEncoder;
use crate::error::Error;
use crate::model::{Color, PixelWithLocation, cell_color, shown_color};
use crate::place::{Place, grid};

verus! {

#[verifier::external_type_specification]
#[verifier::external_body]
pub struct ExIoError(std::io::Error);

#[verifier::external_type_specification]
#[verifier::external_body]
pub struct ExImageError(image::ImageError);

/// The gzip stream that flate2 writes for `data` at its default compression
/// level, with no file name, modification time 0 and operating system 255;
/// `None` where its compressor reports an error.
pub uninterp spec fn gzip_compressed(data: Seq<u8>) -> Option<Seq<u8>>;

/// The bytes that flate2 reads out of the gzip stream `data`; `None` where
/// its decoder reports an error.
pub uninterp spec fn gunzipped(data: Seq<u8>) -> Option<Seq<u8>>;

/// The PNG file that image's `PngEncoder` (default compression and filter)
/// writes for an 8-bit RGBA picture of the given size; `None` where it
/// reports an error.
pub uninterp spec fn png_encoded(width: u32, height: u32, rgba: Seq<u8>) -> Option<Seq<u8>>;

/// The SHA-256 digest of `data`.
pub uninterp spec fn sha256(data: Seq<u8>) -> Seq<u8>;

/// Compresses `data` into a gzip stream in memory: flate2's
/// `write::GzEncoder::new` at `Compression::default()` over a `Vec`, then
/// `write_all` and `finish`. The output is a `Vec`, whose writes do not
/// fail; the compressor's own error path ("corrupt deflate stream") is not
/// ruled out by the source, so whether it succeeds is part of the named
/// result, which depends on the bytes alone.
#[verifier::external_body]
fn gzip_encode(data: &[u8]) -> (r: Result<Vec<u8>, std::io::Error>)
    ensures
        r is Ok <==> gzip_compressed(data@) is Some,
        r matches Ok(v) ==> gzip_compressed(data@) == Some(v@),
{
    let mut encoder = flate2::write::GzEncoder::new(Vec::new(), flate2::Compression::default());
    encoder.write_all(data)?;
    encoder.finish()
}

/// Decompresses the gzip stream `data` in memory: flate2's
/// `read::GzDecoder::new` over the bytes, then `read_to_end`. A stream that
/// flate2 itself wrote for some bytes reads back as those bytes; on other
/// input the decoder may fail. Whether it does is part of the named result,
/// which depends on the bytes alone.
#[verifier::external_body]
fn gzip_decode(data: &[u8]) -> (r: Result<Vec<u8>, std::io::Error>)
    ensures
        r is Ok <==> gunzipped(data@) is Some,
        r matches Ok(v) ==> gunzipped(data@) == Some(v@),
        r is Err ==> forall|s: Seq<u8>| gzip_compressed(s) != Some(data@),
        r matches Ok(v) ==> forall|s: Seq<u8>| gzip_compressed(s) == Some(data@) ==> v@ == s,
{
    let mut decoder = flate2::read::GzDecoder::new(data);
    let mut out = Vec::new();
    decoder.read_to_end(&mut out)?;
    Ok(out)
}

/// The text of an I/O error (`ToString::to_string`).
#[verifier::external_body]
fn io_error_text(e: &std::io::Error) -> String {
    e.to_string()
}

/// Encodes an 8-bit RGBA picture as PNG in memory: image's
/// `PngEncoder::new(..).write_image(.., ColorType::Rgba8)`, which panics
/// unless the buffer holds exactly `width * height * 4` bytes. png's writer
/// refuses a zero width or height; past that it writes into a `Vec` through
/// flate2's compressor, whose error path the source does not rule out, so
/// success otherwise is part of the named result.
#[verifier::external_body]
fn png_encode(rgba: &[u8], width: u32, height: u32) -> (r: Result<Vec<u8>, image::ImageError>)
    requires
        rgba@.len() == width * height * 4,
    ensures
        width == 0 || height == 0 ==> r is Err,
        r is Ok <==> png_encoded(width, height, rgba@) is Some,
        r matches Ok(v) ==> png_encoded(width, height, rgba@) == Some(v@),
{
    let mut out = Vec::new();
    match image::codecs::png::PngEncoder::new(&mut out).write_image(
        rgba,
        width,
        height,
        image::ColorType::Rgba8,
    ) {
        Ok(()) => Ok(out),
        Err(e) => Err(e),
    }
}

/// The text of an image error (`ToString::to_string`).
#[verifier::external_body]
fn image_error_text(e: &image::ImageError) -> String {
    e.to_string()
}

/// The SHA-256 digest of `data` (sha2's `Sha256::digest`), 32 bytes long.
#[verifier::external_body]
pub(crate) fn sha256_digest(data: &[u8]) -> (d: Vec<u8>)
    ensures
        d@ == sha256(data@),
        d@.len() == 32,
{
    sha2::Sha256::digest(data).to_vec()
}

/// Compresses a saved canvas (its serialised bytes) into a gzip stream.
pub fn gzip_bytes(data: &[u8]) -> (r: Result<Vec<u8>, Error>)
    ensures
        r is Ok <==> gzip_compressed(data@) is Some,
        r matches Ok(v) ==> gzip_compressed(data@) == Some(v@),
        r matches Err(e) ==> e is Codec,
{
    match gzip_encode(data) {
        Ok(v) => Ok(v),
        Err(e) => Err(Error::Codec(io_error_text(&e))),
    }
}

/// Decompresses a gzip stream back into the serialised canvas.
pub fn gunzip_bytes(data: &[u8]) -> (r: Result<Vec<u8>, Error>)
    ensures
        r is Ok <==> gunzipped(data@) is Some,
        r matches Ok(v) ==> gunzipped(data@) == Some(v@),
        r matches Err(e) ==> e is Codec,
        r is Err ==> forall|s: Seq<u8>| gzip_compressed(s) != Some(data@),
        r matches Ok(v) ==> forall|s: Seq<u8>| gzip_compressed(s) == Some(data@) ==> v@ == s,
{
    match gzip_decode(data) {
        Ok(v) => Ok(v),
        Err(e) => Err(Error::Codec(io_error_text(&e))),
    }
}

/// The four RGBA bytes of an opaque colour.
pub open spec fn color_rgba(c: Color) -> Seq<u8> {
    seq![c.r, c.g, c.b, 255u8]
}

/// The RGBA bytes of a row of cells, opaque, left to right.
pub open spec fn row_rgba(row: Seq<PixelWithLocation>) -> Seq<u8>
    decreases row.len(),
{
    if row.len() == 0 {
        Seq::empty()
    } else {
        row_rgba(row.drop_last()) + color_rgba(shown_color(row.last()))
    }
}

/// The RGBA bytes of a grid, row after row.
pub open spec fn rows_rgba(rows: Seq<Seq<PixelWithLocation>>) -> Seq<u8>
    decreases rows.len(),
{
    if rows.len() == 0 {
        Seq::empty()
    } else {
        rows_rgba(rows.drop_last()) + row_rgba(rows.last())
    }
}

/// The RGBA bytes of a row on a canvas `w` wide: its cells, opaque, then
/// transparent black up to the width.
pub open spec fn padded_row_rgba(row: Seq<PixelWithLocation>, w: nat) -> Seq<u8>
    decreases w,
{
    if w == 0 {
        Seq::empty()
    } else {
        padded_row_rgba(row, (w - 1) as nat) + if w - 1 < row.len() {
            color_rgba(shown_color(row[w - 1]))
        } else {
            seq![0u8, 0u8, 0u8, 0u8]
        }
    }
}

/// The RGBA bytes of a canvas `w` wide, row after row.
pub open spec fn canvas_rgba(rows: Seq<Seq<PixelWithLocation>>, w: nat) -> Seq<u8>
    decreases rows.len(),
{
    if rows.len() == 0 {
        Seq::empty()
    } else {
        canvas_rgba(rows.drop_last(), w) + padded_row_rgba(rows.last(), w)
    }
}

proof fn lemma_padded_len(row: Seq<PixelWithLocation>, w: nat)
    ensures
        padded_row_rgba(row, w).len() == 4 * w,
    decreases w,
{
    if w > 0 {
        lemma_padded_len(row, (w - 1) as nat);
    }
}

proof fn lemma_canvas_len(rows: Seq<Seq<PixelWithLocation>>, w: nat)
    ensures
        canvas_rgba(rows, w).len() == 4 * w * rows.len(),
    decreases rows.len(),
{
    if rows.len() > 0 {
        lemma_canvas_len(rows.drop_last(), w);
        lemma_padded_len(rows.last(), w);
        assert(4 * w * rows.len() == 4 * w * (rows.len() - 1) + 4 * w) by (nonlinear_arith);
    }
}

proof fn lemma_subrange_of_concat(a: Seq<u8>, b: Seq<u8>, i: int, j: int)
    requires
        0 <= i <= j <= a.len() + b.len(),
    ensures
        j <= a.len() ==> (a + b).subrange(i, j) == a.subrange(i, j),
        a.len() <= i ==> (a + b).subrange(i, j) == b.subrange(i - a.len(), j - a.len()),
{
    if j <= a.len() {
        assert((a + b).subrange(i, j) =~= a.subrange(i, j));
    }
    if a.len() <= i {
        assert((a + b).subrange(i, j) =~= b.subrange(i - a.len(), j - a.len()));
    }
}

/// The four bytes at `4 * x` of a row on a canvas `w` wide are the colour of
/// cell `x` of that row, opaque, where the row has such a cell, and
/// transparent black where it is shorter.
pub proof fn lemma_padded_pixel(row: Seq<PixelWithLocation>, w: nat, x: int)
    requires
        0 <= x < w,
    ensures
        padded_row_rgba(row, w).subrange(4 * x, 4 * x + 4) == if x < row.len() {
            color_rgba(shown_color(row[x]))
        } else {
            seq![0u8, 0u8, 0u8, 0u8]
        },
    decreases w,
{
    let prev = padded_row_rgba(row, (w - 1) as nat);
    let last = if w - 1 < row.len() {
        color_rgba(shown_color(row[w - 1]))
    } else {
        seq![0u8, 0u8, 0u8, 0u8]
    };
    lemma_padded_len(row, (w - 1) as nat);
    assert(padded_row_rgba(row, w) == prev + last);
    lemma_subrange_of_concat(prev, last, 4 * x, 4 * x + 4);
    if x == w - 1 {
        assert(last.subrange(0, 4) =~= last);
    } else {
        lemma_padded_pixel(row, (w - 1) as nat, x);
    }
}

/// The four bytes at `4 * (y * w + x)` of a canvas `w` wide are those of
/// cell `(x, y)`: its colour, opaque, where row `y` has that cell, and
/// transparent black where the row is shorter.
pub proof fn lemma_canvas_pixel(rows: Seq<Seq<PixelWithLocation>>, w: nat, y: int, x: int)
    requires
        0 <= y < rows.len(),
        0 <= x < w,
    ensures
        canvas_rgba(rows, w).subrange(4 * (y * w + x), 4 * (y * w + x) + 4) == if x < rows[y].len() {
            color_rgba(shown_color(rows[y][x]))
        } else {
            seq![0u8, 0u8, 0u8, 0u8]
        },
    decreases rows.len(),
{
    let n = rows.len() - 1;
    let prev = canvas_rgba(rows.drop_last(), w);
    let last = padded_row_rgba(rows.last(), w);
    lemma_canvas_len(rows.drop_last(), w);
    lemma_padded_len(rows.last(), w);
    assert(canvas_rgba(rows, w) == prev + last);
    let off = 4 * (y * w + x);
    if y == n {
        assert(off == 4 * w * n + 4 * x) by (nonlinear_arith)
            requires
                off == 4 * (y * w + x),
                y == n,
        ;
        lemma_subrange_of_concat(prev, last, off, off + 4);
        lemma_padded_pixel(rows.last(), w, x);
    } else {
        assert(off + 4 <= 4 * w * n) by (nonlinear_arith)
            requires
                off == 4 * (y * w + x),
                0 <= y < n,
                0 <= x < w,
        ;
        assert(off >= 0) by (nonlinear_arith)
            requires
                off == 4 * (y * w + x),
                0 <= y,
                0 <= x,
                w >= 0,
        ;
        lemma_subrange_of_concat(prev, last, off, off + 4);
        lemma_canvas_pixel(rows.drop_last(), w, y, x);
        assert(rows.drop_last()[y] == rows[y]);
    }
}

/// The number of cells in the rows before row `y`.
pub open spec fn cells_before(rows: Seq<Seq<PixelWithLocation>>, y: int) -> nat
    decreases y,
{
    if y <= 0 {
        0
    } else {
        cells_before(rows, y - 1) + rows[y - 1].len()
    }
}

proof fn lemma_row_len(row: Seq<PixelWithLocation>)
    ensures
        row_rgba(row).len() == 4 * row.len(),
    decreases row.len(),
{
    if row.len() > 0 {
        lemma_row_len(row.drop_last());
    }
}

proof fn lemma_rows_len(rows: Seq<Seq<PixelWithLocation>>)
    ensures
        rows_rgba(rows).len() == 4 * cells_before(rows, rows.len() as int),
    decreases rows.len(),
{
    if rows.len() > 0 {
        lemma_rows_len(rows.drop_last());
        lemma_row_len(rows.last());
        lemma_cells_before_prefix(rows, rows.len() - 1);
    }
}

proof fn lemma_cells_before_prefix(rows: Seq<Seq<PixelWithLocation>>, y: int)
    requires
        0 <= y < rows.len(),
    ensures
        cells_before(rows.drop_last(), y) == cells_before(rows, y),
    decreases y,
{
    if y > 0 {
        lemma_cells_before_prefix(rows, y - 1);
        assert(rows.drop_last()[y - 1] == rows[y - 1]);
    }
}

/// The four bytes at `4 * x` of a row's picture are the colour of its cell
/// `x`, opaque.
pub proof fn lemma_row_pixel(row: Seq<PixelWithLocation>, x: int)
    requires
        0 <= x < row.len(),
    ensures
        row_rgba(row).subrange(4 * x, 4 * x + 4) == color_rgba(shown_color(row[x])),
    decreases row.len(),
{
    let prev = row_rgba(row.drop_last());
    let last = color_rgba(shown_color(row.last()));
    lemma_row_len(row.drop_last());
    assert(row_rgba(row) == prev + last);
    lemma_subrange_of_concat(prev, last, 4 * x, 4 * x + 4);
    if x == row.len() - 1 {
        assert(last.subrange(0, 4) =~= last);
    } else {
        lemma_row_pixel(row.drop_last(), x);
        assert(row.drop_last()[x] == row[x]);
    }
}

/// In the picture of a grid, the four bytes of cell `x` of row `y` come
/// right after those of every cell of the earlier rows and of the cells
/// before `x` in row `y`, and they are that cell's colour, opaque: each row
/// is drawn from its own cells, in order.
pub proof fn lemma_rows_pixel(rows: Seq<Seq<PixelWithLocation>>, y: int, x: int)
    requires
        0 <= y < rows.len(),
        0 <= x < rows[y].len(),
    ensures
        rows_rgba(rows).subrange(
            4 * (cells_before(rows, y) + x),
            4 * (cells_before(rows, y) + x) + 4,
        ) == color_rgba(shown_color(rows[y][x])),
    decreases rows.len(),
{
    let n = rows.len() - 1;
    let prev = rows_rgba(rows.drop_last());
    let last = row_rgba(rows.last());
    lemma_rows_len(rows.drop_last());
    lemma_row_len(rows.last());
    assert(rows_rgba(rows) == prev + last);
    let off = 4 * (cells_before(rows, y) + x);
    if y == n {
        lemma_cells_before_prefix(rows, n);
        assert(rows.drop_last().len() == n);
        lemma_subrange_of_concat(prev, last, off, off + 4);
        lemma_row_pixel(rows.last(), x);
    } else {
        lemma_cells_before_prefix(rows, y);
        lemma_cells_before_monotone(rows.drop_last(), y + 1, n);
        lemma_subrange_of_concat(prev, last, off, off + 4);
        lemma_rows_pixel(rows.drop_last(), y, x);
        assert(rows.drop_last()[y] == rows[y]);
    }
}

proof fn lemma_cells_before_monotone(rows: Seq<Seq<PixelWithLocation>>, i: int, j: int)
    requires
        0 <= i <= j <= rows.len(),
    ensures
        cells_before(rows, i) <= cells_before(rows, j),
    decreases j - i,
{
    if i < j {
        lemma_cells_before_monotone(rows, i, j - 1);
    }
}

fn push_color(out: &mut Vec<u8>, c: Color)
    ensures
        final(out)@ == old(out)@ + color_rgba(c),
{
    out.push(c.r);
    out.push(c.g);
    out.push(c.b);
    out.push(255u8);
    assert(final(out)@ =~= old(out)@ + color_rgba(c));
}

fn push_row(out: &mut Vec<u8>, row: &Vec<PixelWithLocation>)
    ensures
        final(out)@ == old(out)@ + row_rgba(row@),
{
    let mut j: usize = 0;
    while j < row.len()
        invariant
            j <= row.len(),
            out@ == old(out)@ + row_rgba(row@.take(j as int)),
        decreases row.len() - j,
    {
        let c = cell_color(&row[j]);
        push_color(out, c);
        j = j + 1;
        assert(row@.take(j as int).drop_last() =~= row@.take(j - 1));
        assert(out@ =~= old(out)@ + row_rgba(row@.take(j as int)));
    }
    assert(row@.take(j as int) =~= row@);
}

fn push_padded_row(out: &mut Vec<u8>, row: &Vec<PixelWithLocation>, w: usize)
    ensures
        final(out)@ == old(out)@ + padded_row_rgba(row@, w as nat),
{
    let mut x: usize = 0;
    while x < w
        invariant
            x <= w,
            out@ == old(out)@ + padded_row_rgba(row@, x as nat),
        decreases w - x,
    {
        if x < row.len() {
            let c = cell_color(&row[x]);
            push_color(out, c);
        } else {
            out.push(0u8);
            out.push(0u8);
            out.push(0u8);
            out.push(0u8);
        }
        x = x + 1;
        assert(out@ =~= old(out)@ + padded_row_rgba(row@, x as nat));
    }
}

/// The picture of a grid for display: its number of rows, the length of its
/// first row, and the RGBA bytes of all rows (opaque, row after row).
pub fn grid_rgba(data: &Vec<Vec<PixelWithLocation>>) -> (r: Result<(usize, usize, Vec<u8>), Error>)
    ensures
        data@.len() == 0 ==> r == Err::<(usize, usize, Vec<u8>), Error>(Error::EmptyImage),
        data@.len() > 0 ==> (r matches Ok((rows, cols, bytes)) && rows == data@.len() && cols
            == data@[0].len() && bytes@ == rows_rgba(grid(data@))),
{
    if data.len() == 0 {
        return Err(Error::EmptyImage);
    }
    let mut out: Vec<u8> = Vec::new();
    let mut i: usize = 0;
    while i < data.len()
        invariant
            i <= data.len(),
            out@ == rows_rgba(grid(data@).take(i as int)),
        decreases data.len() - i,
    {
        push_row(&mut out, &data[i]);
        i = i + 1;
        assert(grid(data@).take(i as int).drop_last() =~= grid(data@).take(i - 1));
    }
    assert(grid(data@).take(i as int) =~= grid(data@));
    Ok((data.len(), data[0].len(), out))
}

/// The picture of a grid as a canvas `w` wide (the length of its first row):
/// row after row, each row's cells opaque and transparent black after its
/// end.
fn canvas_bytes(data: &Vec<Vec<PixelWithLocation>>, w: usize) -> (out: Vec<u8>)
    ensures
        out@ == canvas_rgba(grid(data@), w as nat),
{
    let mut out: Vec<u8> = Vec::new();
    let mut i: usize = 0;
    while i < data.len()
        invariant
            i <= data.len(),
            out@ == canvas_rgba(grid(data@).take(i as int), w as nat),
        decreases data.len() - i,
    {
        push_padded_row(&mut out, &data[i], w);
        i = i + 1;
        assert(grid(data@).take(i as int).drop_last() =~= grid(data@).take(i - 1));
    }
    assert(grid(data@).take(i as int) =~= grid(data@));
    out
}

impl Place {
    /// The canvas is drawable as a picture: it has rows, none longer than
    /// the first, and its sizes fit the picture's 32-bit dimensions and
    /// memory.
    pub open spec fn drawable(&self) -> bool {
        &&& self.data@.len() > 0
        &&& forall|i: int| 0 <= i < self.data@.len() ==> (#[trigger] self.data@[i]).len() <= self.data@[0].len()
        &&& self.data@.len() <= u32::MAX
        &&& self.data@[0].len() <= u32::MAX
        &&& 4 * self.data@[0].len() * self.data@.len() <= usize::MAX
    }

    /// A PNG picture of the canvas, as wide as its first row and as high as
    /// its number of rows; cells beyond the end of a shorter row are
    /// transparent. A canvas of zero width has no picture.
    pub fn png_image(&self) -> (r: Result<Vec<u8>, Error>)
        requires
            self.drawable(),
        ensures
            self.data@[0].len() == 0 ==> r is Err,
            r is Ok <==> png_encoded(
                self.data@[0].len() as u32,
                self.data@.len() as u32,
                canvas_rgba(self.cells(), self.data@[0].len() as nat),
            ) is Some,
            r matches Ok(v) ==> png_encoded(
                self.data@[0].len() as u32,
                self.data@.len() as u32,
                canvas_rgba(self.cells(), self.data@[0].len() as nat),
            ) == Some(v@),
            r matches Err(e) ==> e is Codec,
    {
        let w = self.data[0].len();
        let h = self.data.len();
        let bytes = canvas_bytes(&self.data, w);
        proof {
            lemma_canvas_len(self.cells(), w as nat);
            assert(4 * w * h == w * h * 4) by (nonlinear_arith);
        }
        match png_encode(bytes.as_slice(), w as u32, h as u32) {
            Ok(v) => Ok(v),
            Err(e) => Err(Error::Codec(image_error_text(&e))),
        }
    }
}

} // verus!
