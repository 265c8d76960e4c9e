//! The decoded image record: a fixed-size row-major pixel buffer with
//! verified accessors that expose it as a flat byte view, a genuinely
//! two-dimensional copy, and a bottom-to-top row order for graphical
//! consumers.

use vstd::prelude::*;

verus! {

/// One row of a row-major pixel buffer: the `width` bytes starting at
/// `j * width`.
pub open spec fn row_of(s: Seq<u8>, width: int, j: int) -> Seq<u8> {
    s.subrange(j * width, (j + 1) * width)
}

/// A row's bounds, written without the `(j + 1) * width` product.
proof fn lemma_row_of_unfold(s: Seq<u8>, width: int, j: int)
    ensures
        row_of(s, width, j) == s.subrange(j * width, j * width + width),
{
    assert((j + 1) * width == j * width + width) by (nonlinear_arith);
}

/// Copies a flat row-major buffer into one vector per row, preserving the
/// value and order of every byte.
fn copy_rows(s: &[u8], width: usize, height: usize) -> (rows: Vec<Vec<u8>>)
    requires
        s@.len() == width * height,
    ensures
        rows@.len() == height,
        forall|j: int| 0 <= j < height ==> rows@[j]@ == row_of(s@, width as int, j),
{
    let total = s.len();
    let mut rows: Vec<Vec<u8>> = Vec::new();
    let mut j: usize = 0;
    let mut offset: usize = 0;
    while j < height
        invariant
            j <= height,
            offset == j * width,
            total == s@.len() <= usize::MAX,
            total == width * height,
            rows@.len() == j,
            forall|q: int| 0 <= q < j ==> rows@[q]@ == row_of(s@, width as int, q),
        decreases height - j,
    {
        proof {
            assert(offset + width == (j + 1) * width) by (nonlinear_arith)
                requires
                    offset == j * width,
            ;
            assert((j + 1) * width <= height * width) by (nonlinear_arith)
                requires
                    j + 1 <= height,
                    width >= 0,
            ;
        }
        let mut row: Vec<u8> = Vec::new();
        let mut k: usize = 0;
        while k < width
            invariant
                k <= width,
                offset + width <= total == s@.len() <= usize::MAX,
                row@ =~= s@.subrange(offset as int, offset + k),
            decreases width - k,
        {
            row.push(s[offset + k]);
            k = k + 1;
        }
        assert(row@ =~= row_of(s@, width as int, j as int));
        rows.push(row);
        offset = offset + width;
        j = j + 1;
    }
    rows
}

/// Reassembles a row-major buffer from its rows, preserving the value and
/// order of every byte. The grid is the canonical one.
pub fn flatten_image(image: &Vec<Vec<u8>>) -> (r: Vec<u8>)
    requires
        image@.len() == crate::IMAGE_HEIGHT,
        forall|j: int| 0 <= j < image@.len() ==> image@[j]@.len() == crate::IMAGE_WIDTH,
    ensures
        r@.len() == crate::NPIXELS,
        forall|j: int|
            0 <= j < image@.len() ==> row_of(r@, crate::IMAGE_WIDTH as int, j) == image@[j]@,
{
    let width: usize = crate::IMAGE_WIDTH as usize;
    let height = image.len();
    let mut r: Vec<u8> = Vec::new();
    let mut j: usize = 0;
    while j < height
        invariant
            j <= height == image@.len(),
            forall|q: int| 0 <= q < image@.len() ==> image@[q]@.len() == width,
            r@.len() == j * width,
            forall|q: int| 0 <= q < j ==> row_of(r@, width as int, q) == image@[q]@,
        decreases height - j,
    {
        let row = &image[j];
        let ghost r_before = r@;
        let mut k: usize = 0;
        while k < row.len()
            invariant
                k <= row@.len(),
                row@ == image@[j as int]@,
                r@ =~= r_before + row@.subrange(0, k as int),
            decreases row@.len() - k,
        {
            r.push(row[k]);
            k = k + 1;
        }
        proof {
            let w = width as int;
            assert(r@ == r_before + image@[j as int]@);
            assert((j + 1) * w == j * w + w) by (nonlinear_arith);
            assert forall|q: int| 0 <= q < j + 1 implies row_of(r@, w, q) == image@[q]@ by {
                lemma_row_of_unfold(r@, w, q);
                lemma_row_of_unfold(r_before, w, q);
                assert(0 <= q * w && q * w + w <= (j + 1) * w) by (nonlinear_arith)
                    requires
                        0 <= q < j + 1,
                        w >= 0,
                ;
                if q < j {
                    assert(q * w + w <= j * w) by (nonlinear_arith)
                        requires
                            0 <= q < j,
                            w >= 0,
                    ;
                    assert(r@.subrange(q * w, q * w + w) =~= r_before.subrange(q * w, q * w + w));
                } else {
                    assert(r@.subrange(j * w, j * w + w) =~= image@[j as int]@);
                }
            }
        }
        j = j + 1;
    }
    r
}

/// Splits the canonical row-major buffer back into its rows, preserving
/// the value and order of every byte. The buffer must hold exactly the
/// canonical pixel count; a shorter or longer buffer is excluded by
/// contract rather than answered.
pub fn unflatten_image(image: &[u8]) -> (rows: Vec<Vec<u8>>)
    requires
        image@.len() == crate::NPIXELS,
    ensures
        rows@.len() == crate::IMAGE_HEIGHT,
        forall|j: int|
            0 <= j < rows@.len() ==> rows@[j]@ == row_of(image@, crate::IMAGE_WIDTH as int, j),
{
    copy_rows(image, crate::IMAGE_WIDTH as usize, crate::IMAGE_HEIGHT as usize)
}

/// The display glyph of one pixel: its intensity mapped into one of five
/// buckets, darkest glyph last.
pub open spec fn spec_glyph(b: u8) -> char {
    let bucket = (b as int) * 5 / 256;
    if bucket == 0 {
        ' '
    } else if bucket == 1 {
        '.'
    } else if bucket == 2 {
        ':'
    } else if bucket == 3 {
        '*'
    } else {
        '@'
    }
}

/// The rendering of the first `n` pixels of a row-major buffer: one glyph
/// per pixel, with a line break after every full row of `width` pixels.
pub open spec fn spec_ascii_prefix(s: Seq<u8>, width: int, n: int) -> Seq<char>
    decreases n,
{
    if n <= 0 {
        Seq::empty()
    } else {
        let prev = spec_ascii_prefix(s, width, n - 1).push(spec_glyph(s[n - 1]));
        if width > 0 && n % width == 0 {
            prev.push('\n')
        } else {
            prev
        }
    }
}

/// The full rendering of a row-major buffer as ASCII art.
pub open spec fn spec_ascii(s: Seq<u8>, width: int) -> Seq<char> {
    spec_ascii_prefix(s, width, s.len() as int)
}

/// A single decoded image.
///
/// The buffer holds exactly `width * height` unsigned 8-bit intensity
/// values in row-major order, row 0 first. Images are created only by the
/// image decoder or by an explicit constructor, and are immutable after
/// construction.
#[derive(Debug)]
pub struct Image {
    width: usize,
    height: usize,
    pixels: Vec<u8>,
}

impl View for Image {
    type V = Seq<u8>;

    closed spec fn view(&self) -> Seq<u8> {
        self.pixels@
    }
}

impl Image {
    /// Column count of the pixel grid.
    pub closed spec fn spec_width(&self) -> usize {
        self.width
    }

    /// Row count of the pixel grid.
    pub closed spec fn spec_height(&self) -> usize {
        self.height
    }

    /// The buffer holds exactly one byte per pixel of the declared grid.
    pub open spec fn wf(&self) -> bool {
        self@.len() == self.spec_width() * self.spec_height()
    }

    #[verifier::when_used_as_spec(spec_width)]
    pub fn width(&self) -> (w: usize)
        ensures
            w == self.spec_width(),
    {
        self.width
    }

    #[verifier::when_used_as_spec(spec_height)]
    pub fn height(&self) -> (h: usize)
        ensures
            h == self.spec_height(),
    {
        self.height
    }

    /// Builds an image of the given grid directly from a row-major pixel
    /// buffer. Returns `None` exactly when the buffer does not hold one byte
    /// per pixel of the grid.
    pub fn from_bytes(width: usize, height: usize, pixels: Vec<u8>) -> (result: Option<Image>)
        ensures
            result is Some <==> pixels@.len() == width * height,
            result matches Some(img) ==> {
                &&& img@ == pixels@
                &&& img.width() == width
                &&& img.height() == height
                &&& img.wf()
            },
    {
        let len = pixels.len();
        match width.checked_mul(height) {
            Some(n) => {
                if len == n {
                    Some(Image { width, height, pixels })
                } else {
                    None
                }
            },
            None => None,
        }
    }

    /// The raw pixel buffer, unchanged, in row-major order.
    pub fn as_u8_array(&self) -> (r: &[u8])
        ensures
            r@ == self@,
    {
        self.pixels.as_slice()
    }

    /// The pixel buffer copied into a genuinely two-dimensional structure:
    /// one inner vector per row, in the same top-to-bottom, row-major order
    /// as the flat buffer.
    pub fn as_2d_array(&self) -> (rows: Vec<Vec<u8>>)
        requires
            self.wf(),
        ensures
            rows@.len() == self.height(),
            forall|j: int|
                0 <= j < self.height() ==> rows@[j]@ == row_of(self@, self.width() as int, j),
    {
        copy_rows(self.pixels.as_slice(), self.width, self.height)
    }

    /// The human-readable rendering of the image: one glyph per pixel,
    /// from five intensity buckets, one line per row. Used only for
    /// inspection, never for computation.
    pub fn to_ascii(&self) -> (r: String)
        ensures
            r@ == spec_ascii(self@, self.width() as int),
    {
        let width = self.width;
        let n = self.pixels.len();
        let mut r = String::new();
        let mut i: usize = 0;
        while i < n
            invariant
                i <= n == self@.len(),
                width == self.width(),
                r@ == spec_ascii_prefix(self@, width as int, i as int),
            decreases n - i,
        {
            let p = self.pixels[i];
            let bucket = (p as usize) * 5 / 256;
            let ghost prev = r@.push(spec_glyph(self@[i as int]));
            if bucket == 0 {
                proof {
                    reveal_strlit(" ");
                    assert(" "@ =~= seq![' ']);
                }
                r.append(" ");
            } else if bucket == 1 {
                proof {
                    reveal_strlit(".");
                    assert("."@ =~= seq!['.']);
                }
                r.append(".");
            } else if bucket == 2 {
                proof {
                    reveal_strlit(":");
                    assert(":"@ =~= seq![':']);
                }
                r.append(":");
            } else if bucket == 3 {
                proof {
                    reveal_strlit("*");
                    assert("*"@ =~= seq!['*']);
                }
                r.append("*");
            } else {
                proof {
                    reveal_strlit("@");
                    assert("@"@ =~= seq!['@']);
                }
                r.append("@");
            }
            assert(r@ =~= prev);
            if width > 0 && (i + 1) % width == 0 {
                proof {
                    reveal_strlit("\n");
                    assert("\n"@ =~= seq!['\n']);
                }
                r.append("\n");
                assert(r@ =~= prev.push('\n'));
            }
            i = i + 1;
        }
        r
    }

    /// The pixel buffer with its rows in reverse order: the bottom row of
    /// the image first. Graphical consumers that draw from the bottom-left
    /// take their data in this order; the decoders themselves always deliver
    /// top-to-bottom.
    pub fn rows_bottom_up(&self) -> (r: Vec<u8>)
        requires
            self.wf(),
        ensures
            r@.len() == self@.len(),
            forall|j: int|
                0 <= j < self.height() ==> row_of(r@, self.width() as int, j) == row_of(
                    self@,
                    self.width() as int,
                    self.height() - 1 - j,
                ),
    {
        let width = self.width;
        let height = self.height;
        let total = self.pixels.len();
        let mut r: Vec<u8> = Vec::new();
        let mut j: usize = 0;
        while j < height
            invariant
                j <= height,
                total == self@.len() <= usize::MAX,
                total == width * height,
                r@.len() == j * width,
                forall|q: int|
                    0 <= q < j ==> row_of(r@, width as int, q) == row_of(
                        self@,
                        width as int,
                        height - 1 - q,
                    ),
            decreases height - j,
        {
            let src_row = height - 1 - j;
            let offset = {
                proof {
                    assert(src_row * width + width <= height * width) by (nonlinear_arith)
                        requires
                            src_row + 1 <= height,
                            width >= 0,
                    ;
                }
                src_row * width
            };
            let ghost r_before = r@;
            let mut k: usize = 0;
            while k < width
                invariant
                    k <= width,
                    offset == src_row * width,
                    offset + width <= total == self@.len() <= usize::MAX,
                    r@ =~= r_before + self@.subrange(offset as int, offset + k),
                decreases width - k,
            {
                r.push(self.pixels[offset + k]);
                k = k + 1;
            }
            proof {
                let w = width as int;
                let suffix = self@.subrange(offset as int, offset + w);
                assert(r@ == r_before + suffix);
                assert(r@.len() == j * w + w);
                assert((j + 1) * w == j * w + w) by (nonlinear_arith);
                assert forall|q: int| 0 <= q < j + 1 implies row_of(r@, w, q) == row_of(
                    self@,
                    w,
                    height - 1 - q,
                ) by {
                    lemma_row_of_unfold(r@, w, q);
                    lemma_row_of_unfold(r_before, w, q);
                    lemma_row_of_unfold(self@, w, height - 1 - q);
                    assert(0 <= q * w && q * w + w <= (j + 1) * w && (j + 1) * w == j * w + w)
                        by (nonlinear_arith)
                        requires
                            0 <= q < j + 1,
                            w >= 0,
                    ;
                    if q < j {
                        assert(q * w + w <= j * w) by (nonlinear_arith)
                            requires
                                0 <= q < j,
                                w >= 0,
                        ;
                        assert(r@.subrange(q * w, q * w + w) =~= r_before.subrange(
                            q * w,
                            q * w + w,
                        ));
                    } else {
                        assert(q == j);
                        assert((height - 1 - j) * w == offset) by (nonlinear_arith)
                            requires
                                offset == src_row * w,
                                src_row == height - 1 - j,
                        ;
                        assert(r@.subrange(j * w, j * w + w) =~= suffix);
                    }
                }
            }
            j = j + 1;
        }
        proof {
            assert(j * width == total) by (nonlinear_arith)
                requires
                    j == height,
                    total == width * height,
            ;
        }
        r
    }
}

} // verus!
