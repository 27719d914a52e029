use crate::color::Color;
use crate::ppm::{
    as_chars, ascii, decimal, end_row, header, lay_row, lemma_decimal_len, lemma_rows_lines,
    lines_within, ppm_text, push_decimal, rows_text, LF, LINE_LIMIT, SP,
};
use vstd::prelude::*;

verus! {

/// A grid of colours, stored row by row from the top.
#[derive(Debug)]
pub struct Canvas {
    pub width: usize,
    pub height: usize,
    pub data: Vec<Color>,
}

/// The text that `String::from_utf8` makes of ASCII bytes: one character
/// per byte, with the byte's value as its code. Bytes below 128 are
/// always valid UTF-8, so the conversion does not fail on them.
#[verifier::external_body]
fn ascii_text(bytes: Vec<u8>) -> (s: String)
    requires
        ascii(bytes@),
    ensures
        s@ == as_chars(bytes@),
{
    match String::from_utf8(bytes) {
        Ok(s) => s,
        Err(_) => String::new(),
    }
}

impl Canvas {
    /// Whether the buffer holds one colour for each pixel.
    pub open spec fn wf(&self) -> bool {
        self.data@.len() == self.width * self.height
    }

    /// The colour in column `col` of row `row`.
    pub open spec fn pixel(&self, col: int, row: int) -> Color {
        self.data@[row * self.width + col]
    }

    /// Whether `levels` holds three numbers for each pixel.
    pub open spec fn fits(&self, levels: Seq<u8>) -> bool {
        levels.len() == 3 * self.width * self.height
    }

    /// A canvas of the given size with every pixel black.
    pub fn new(width: usize, height: usize) -> (r: Canvas)
        requires
            width * height <= usize::MAX,
        ensures
            r.wf(),
            r.width == width,
            r.height == height,
            forall|i: int| 0 <= i < r.data@.len() ==> r.data@[i] == Color::black(),
    {
        let mut c = Canvas { width, height, data: Vec::new() };
        c.fill(Color::black());
        c
    }

    /// Paints every pixel with `color`.
    pub fn fill(&mut self, color: Color)
        requires
            old(self).width * old(self).height <= usize::MAX,
        ensures
            final(self).wf(),
            final(self).width == old(self).width,
            final(self).height == old(self).height,
            forall|i: int| 0 <= i < final(self).data@.len() ==> final(self).data@[i] == color,
    {
        let n: usize = self.width * self.height;
        let mut data: Vec<Color> = Vec::new();
        let mut i: usize = 0;
        while i < n
            invariant
                i <= n,
                data@.len() == i,
                forall|k: int| 0 <= k < i ==> data@[k] == color,
            decreases n - i,
        {
            data.push(color);
            i = i + 1;
        }
        self.data = data;
    }

    /// Sets the pixel in column `col` of row `row`.
    pub fn write_pixel(&mut self, col: usize, row: usize, color: Color)
        requires
            old(self).wf(),
            col < old(self).width,
            row < old(self).height,
        ensures
            final(self).wf(),
            final(self).width == old(self).width,
            final(self).height == old(self).height,
            final(self).data@ == old(self).data@.update(row * old(self).width + col, color),
            final(self).pixel(col as int, row as int) == color,
            forall|c: int, r: int|
                0 <= c < old(self).width && 0 <= r < old(self).height && (c != col || r != row)
                    ==> #[trigger] final(self).pixel(c, r) == old(self).pixel(c, r),
    {
        proof {
            lemma_cell_in_grid(col as int, row as int, self.width as int, self.height as int);
            assert(self.data@.len() == self.data.len());
        }
        let at: usize = row * self.width + col;
        self.data[at] = color;
        proof {
            assert forall|c: int, r: int|
                0 <= c < old(self).width && 0 <= r < old(self).height && (c != col || r
                    != row) implies #[trigger] self.pixel(c, r) == old(self).pixel(c, r) by {
                lemma_cell_in_grid(c, r, self.width as int, self.height as int);
                if r * self.width + c == row * self.width + col {
                    lemma_cells_distinct(c, r, col as int, row as int, self.width as int);
                }
            }
        }
    }

    /// The pixel in column `col` of row `row`.
    pub fn pixel_at(&self, col: usize, row: usize) -> (r: Color)
        requires
            self.wf(),
            col < self.width,
            row < self.height,
        ensures
            r == self.pixel(col as int, row as int),
    {
        proof {
            lemma_cell_in_grid(col as int, row as int, self.width as int, self.height as int);
            assert(self.data@.len() == self.data.len());
        }
        self.data[row * self.width + col]
    }

    /// The header of the image as plain PPM text.
    pub fn get_ppm_header(&self) -> (r: Vec<u8>)
        ensures
            r@ == header(self.width as nat, self.height as nat),
            ascii(r@),
    {
        let mut out: Vec<u8> = Vec::new();
        out.push(80u8);
        out.push(51u8);
        out.push(LF);
        push_decimal(&mut out, self.width);
        out.push(SP);
        push_decimal(&mut out, self.height);
        out.push(LF);
        out.push(50u8);
        out.push(53u8);
        out.push(53u8);
        out.push(LF);
        proof {
            assert(out@ =~= header(self.width as nat, self.height as nat));
        }
        out
    }

    /// The pixel data of the image as plain PPM text.
    ///
    /// `levels` holds the channel values of the pixels, scaled to the range
    /// from 0 to 255: row by row, and red, green and blue for each pixel.
    /// Every image row starts a new line of text, and no line has more than
    /// [`LINE_LIMIT`] characters before its line feed.
    pub fn get_ppm_pixel_values(&self, levels: &Vec<u8>) -> (r: Vec<u8>)
        requires
            self.fits(levels@),
        ensures
            r@ == rows_text(levels@, 3 * self.width as nat, self.height as nat),
            ascii(r@),
            lines_within(r@, LINE_LIMIT as nat),
    {
        proof {
            lemma_rows_lines(levels@, 3 * self.width as nat, self.height as nat);
        }
        let mut pixels: Vec<u8> = Vec::new();
        if self.height == 0 {
            return pixels;
        }
        proof {
            lemma_row_in_grid(0, 3 * self.width, self.height as int);
            assert(levels@.len() == levels.len());
        }
        let per_row: usize = 3 * self.width;
        let mut row: usize = 0;
        while row < self.height
            invariant
                row <= self.height,
                per_row == 3 * self.width,
                levels@.len() == per_row * self.height,
                pixels@ == rows_text(levels@, per_row as nat, row as nat),
                ascii(pixels@),
            decreases self.height - row,
        {
            proof {
                lemma_row_in_grid(row as int, per_row as int, self.height as int);
                assert(levels@.len() == levels.len());
            }
            let base: usize = row * per_row;
            let ghost before = pixels@;
            let ghost row_levels = levels@.subrange(base as int, base + per_row);
            let mut line: Vec<u8> = Vec::new();
            let mut k: usize = 0;
            while k < per_row
                invariant
                    k <= per_row,
                    base + per_row <= levels@.len() <= usize::MAX,
                    row_levels == levels@.subrange(base as int, base + per_row),
                    pixels@ == before + lay_row(row_levels.take(k as int)).0,
                    line@ == lay_row(row_levels.take(k as int)).1,
                    line@.len() <= LINE_LIMIT + 1,
                    ascii(pixels@),
                    ascii(line@),
                decreases per_row - k,
            {
                let level: u8 = levels[base + k];
                let ghost done = row_levels.take(k as int);
                let ghost next = row_levels.take(k + 1);
                proof {
                    assert(next.drop_last() =~= done);
                    assert(next.last() == level);
                    lemma_decimal_len(level as nat);
                }
                let mut token: Vec<u8> = Vec::new();
                push_decimal(&mut token, level as usize);
                proof {
                    assert(token@ =~= decimal(level as nat));
                }
                if line.len() + token.len() > LINE_LIMIT {
                    line.pop();
                    line.push(LF);
                    proof {
                        assert(line@ =~= lay_row(done).1.drop_last().push(LF));
                        assert(pixels@ + line@ =~= before + lay_row(next).0);
                    }
                    pixels.append(&mut line);
                }
                proof {
                    assert(line@ + token@.push(SP) =~= lay_row(next).1);
                }
                token.push(SP);
                line.append(&mut token);
                k = k + 1;
            }
            proof {
                assert(row_levels.take(per_row as int) =~= row_levels);
                assert(base == (row + 1 - 1) * per_row);
                assert(base + per_row == (row + 1) * per_row) by (nonlinear_arith)
                    requires
                        base == row * per_row,
                ;
                assert(pixels@ + line@ =~= before + lay_row(row_levels).0 + lay_row(row_levels).1);
            }
            pixels.append(&mut line);
            pixels.pop();
            pixels.push(LF);
            proof {
                assert(pixels@ =~= end_row(before + lay_row(row_levels).0 + lay_row(row_levels).1));
            }
            row = row + 1;
        }
        pixels
    }

    /// The image as plain PPM text: the header, then the pixel data.
    ///
    /// `levels` holds the channel values of the pixels, scaled to the range
    /// from 0 to 255: row by row, and red, green and blue for each pixel.
    pub fn get_ppm(&self, levels: &Vec<u8>) -> (r: String)
        requires
            self.fits(levels@),
        ensures
            r@ == as_chars(ppm_text(self.width as nat, self.height as nat, levels@)),
    {
        let mut text: Vec<u8> = self.get_ppm_header();
        let mut pixels: Vec<u8> = self.get_ppm_pixel_values(levels);
        text.append(&mut pixels);
        ascii_text(text)
    }
}

/// A cell of a grid has its place within the grid's buffer.
pub proof fn lemma_cell_in_grid(col: int, row: int, width: int, height: int)
    requires
        0 <= col < width,
        0 <= row < height,
    ensures
        0 <= row * width + col < width * height,
{
    assert(row * width + col < width * height) by (nonlinear_arith)
        requires
            0 <= col < width,
            0 <= row < height,
    ;
    assert(0 <= row * width) by (nonlinear_arith)
        requires
            0 <= row,
            0 <= width,
    ;
}

/// Two cells of a grid that share their place in the buffer are the same
/// cell.
pub proof fn lemma_cells_distinct(c1: int, r1: int, c2: int, r2: int, width: int)
    requires
        0 <= c1 < width,
        0 <= c2 < width,
        0 <= r1,
        0 <= r2,
        r1 * width + c1 == r2 * width + c2,
    ensures
        c1 == c2,
        r1 == r2,
{
    if r1 < r2 {
        assert(r2 * width >= (r1 + 1) * width) by (nonlinear_arith)
            requires
                r1 < r2,
                width > 0,
        ;
        assert((r1 + 1) * width == r1 * width + width) by (nonlinear_arith);
    } else if r2 < r1 {
        assert(r1 * width >= (r2 + 1) * width) by (nonlinear_arith)
            requires
                r2 < r1,
                width > 0,
        ;
        assert((r2 + 1) * width == r2 * width + width) by (nonlinear_arith);
    }
}

/// A row of a grid lies within the grid's buffer.
pub proof fn lemma_row_in_grid(row: int, width: int, height: int)
    requires
        0 <= width,
        0 <= row < height,
    ensures
        0 <= row * width,
        row * width + width <= width * height,
        width <= width * height,
{
    assert(row * width + width <= width * height && 0 <= row * width && width <= width * height)
        by (nonlinear_arith)
        requires
            0 <= width,
            0 <= row < height,
    ;
}

} // verus!
