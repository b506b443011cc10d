use vstd::prelude::*;
use crate::color::{Pixel, MyLevel, index_spec, lookup_spec};

verus! {

/// An RGBA raster image: `pixels` holds the rows top to bottom, each row
/// left to right.
pub struct Image {
    pub width: usize,
    pub height: usize,
    pub pixels: Vec<Pixel>,
}

impl Image {
    /// A well-formed image holds exactly one pixel per coordinate.
    pub open spec fn wf(self) -> bool {
        self.pixels@.len() == self.width * self.height
    }

    /// The pixel at column `x`, row `y`.
    pub open spec fn pixel_at(self, x: int, y: int) -> Pixel {
        self.pixels@[y * self.width + x]
    }

    /// An image of the given size with every pixel set to `fill`.
    pub fn new(width: usize, height: usize, fill: Pixel) -> (img: Image)
        requires
            width * height <= usize::MAX,
        ensures
            img.wf(),
            img.width == width,
            img.height == height,
            forall|k: int| 0 <= k < img.pixels@.len() ==> img.pixels@[k] == fill,
    {
        let n = checked_area(width, height);
        let mut pixels: Vec<Pixel> = Vec::new();
        let mut k: usize = 0;
        while k < n
            invariant
                k <= n,
                pixels@.len() == k,
                forall|j: int| 0 <= j < k ==> pixels@[j] == fill,
            decreases n - k,
        {
            pixels.push(fill);
            k = k + 1;
        }
        Image { width, height, pixels }
    }

    /// The pixel at column `x`, row `y`.
    pub fn get(&self, x: usize, y: usize) -> (p: Pixel)
        requires
            self.wf(),
            x < self.width,
            y < self.height,
        ensures
            p == self.pixel_at(x as int, y as int),
    {
        let n = self.pixels.len();
        proof {
            lemma_row_major_bound(x as int, y as int, self.width as int, self.height as int);
            assert(y * self.width + x < n);
        }
        self.pixels[y * self.width + x]
    }
}

/// `width * height`, which fits in usize by the precondition.
fn checked_area(width: usize, height: usize) -> (n: usize)
    requires
        width * height <= usize::MAX,
    ensures
        n == width * height,
{
    width * height
}

/// A row-major index from in-range coordinates stays below the pixel
/// count.
proof fn lemma_row_major_bound(x: int, y: int, width: int, height: int)
    requires
        0 <= x < width,
        0 <= y < height,
    ensures
        0 <= y * width + x < width * height,
{
    assert(y * width + x < width * height) by (nonlinear_arith)
        requires
            0 <= x < width,
            0 <= y < height,
    ;
    assert(0 <= y * width + x) by (nonlinear_arith)
        requires
            0 <= x < width,
            0 <= y,
    ;
}

/// The source pixel a cropped cell `(a, b)` is copied from, for a crop
/// whose clamped origin is `(cx, cy)`.
spec fn src_at(img: Image, cx: int, cy: int, a: int, b: int) -> Pixel {
    img.pixel_at(cx + a, cy + b)
}

/// A row-major index within the first `rows` rows of a `cw`-wide grid
/// stays below `rows * cw`.
proof fn lemma_grid_index(a: int, b: int, cw: int, rows: int)
    requires
        0 <= a < cw,
        0 <= b < rows,
    ensures
        0 <= b * cw + a,
        b * cw + a < rows * cw,
{
    assert(0 <= b * cw + a && b * cw + a < rows * cw) by (nonlinear_arith)
        requires
            0 <= a < cw,
            0 <= b < rows,
    ;
}

/// The sub-rectangle of `img` at origin `(x, y)` with the requested size,
/// clamped to the image bounds: the origin is moved inside the image and
/// the size shrunk so the rectangle fits.  The pixel at `(i, j)` of the
/// result is the pixel at `(x + i, y + j)` of the source.
pub fn crop(img: &Image, x: usize, y: usize, w: usize, h: usize) -> (out: Image)
    requires
        img.wf(),
    ensures
        out.wf(),
        out.width == if x <= img.width { if w <= img.width - x { w as int } else { img.width - x } } else { 0 },
        out.height == if y <= img.height { if h <= img.height - y { h as int } else { img.height - y } } else { 0 },
        forall|i: int, j: int|
            0 <= i < out.width && 0 <= j < out.height ==> out.pixel_at(i, j) == img.pixel_at(
                x + i,
                y + j,
            ),
{
    let total = img.pixels.len();
    let cx = if x <= img.width { x } else { img.width };
    let cy = if y <= img.height { y } else { img.height };
    let cw = if w <= img.width - cx { w } else { img.width - cx };
    let ch = if h <= img.height - cy { h } else { img.height - cy };
    proof {
        assert(cw * ch <= img.width * img.height) by (nonlinear_arith)
            requires
                0 <= cw <= img.width,
                0 <= ch <= img.height,
        ;
        assert(cw * ch <= total);
    }
    let mut pixels: Vec<Pixel> = Vec::new();
    let mut j: usize = 0;
    while j < ch
        invariant
            img.wf(),
            j <= ch,
            cx + cw <= img.width,
            cy + ch <= img.height,
            cw * ch <= usize::MAX,
            pixels@.len() == j * cw,
            forall|a: int, b: int|
                0 <= a < cw && 0 <= b < j ==> pixels@[b * cw + a] == #[trigger] src_at(
                    *img,
                    cx as int,
                    cy as int,
                    a,
                    b,
                ),
        decreases ch - j,
    {
        let mut i: usize = 0;
        proof {
            assert((j + 1) * cw <= ch * cw && ch * cw == cw * ch && j * cw + cw == (j + 1) * cw
                && j * cw >= 0) by (nonlinear_arith)
                requires
                    0 <= j < ch,
                    0 <= cw,
            ;
        }
        while i < cw
            invariant
                img.wf(),
                i <= cw,
                j < ch,
                cx + cw <= img.width,
                cy + ch <= img.height,
                0 <= j * cw,
                j * cw + cw <= usize::MAX,
                pixels@.len() == j * cw + i,
                forall|a: int, b: int|
                    0 <= a < cw && 0 <= b < j ==> pixels@[b * cw + a] == #[trigger] src_at(
                        *img,
                        cx as int,
                        cy as int,
                        a,
                        b,
                    ),
                forall|a: int|
                    0 <= a < i ==> pixels@[j * cw + a] == #[trigger] src_at(
                        *img,
                        cx as int,
                        cy as int,
                        a,
                        j as int,
                    ),
            decreases cw - i,
        {
            let p = img.get(cx + i, cy + j);
            let ghost old_pixels = pixels@;
            pixels.push(p);
            proof {
                assert(src_at(*img, cx as int, cy as int, i as int, j as int) == p);
                assert forall|a: int, b: int| 0 <= a < cw && 0 <= b < j implies pixels@[b * cw + a]
                    == #[trigger] src_at(*img, cx as int, cy as int, a, b) by {
                    lemma_grid_index(a, b, cw as int, j as int);
                    assert(pixels@[b * cw + a] == old_pixels[b * cw + a]);
                }
                assert forall|a: int| 0 <= a < i + 1 implies pixels@[j * cw + a]
                    == #[trigger] src_at(*img, cx as int, cy as int, a, j as int) by {
                    if a < i {
                        assert(pixels@[j * cw + a] == old_pixels[j * cw + a]);
                    } else {
                        assert(pixels@[j * cw + a] == p);
                    }
                }
            }
            i = i + 1;
        }
        proof {
            assert(pixels@.len() == (j + 1) * cw);
            assert forall|a: int, b: int| 0 <= a < cw && 0 <= b < j + 1 implies pixels@[b * cw + a]
                == #[trigger] src_at(*img, cx as int, cy as int, a, b) by {
                if b == j {
                    assert(pixels@[j * cw + a] == src_at(*img, cx as int, cy as int, a, j as int));
                }
            }
        }
        j = j + 1;
    }
    let out = Image { width: cw, height: ch, pixels };
    proof {
        assert(out.pixels@.len() == ch * cw && ch * cw == cw * ch) by (nonlinear_arith)
            requires
                out.pixels@.len() == ch * cw,
        ;
        assert forall|i: int, j2: int| 0 <= i < out.width && 0 <= j2 < out.height implies out.pixel_at(
            i,
            j2,
        ) == img.pixel_at(x + i, y + j2) by {
            assert(out.pixels@[j2 * cw + i] == src_at(*img, cx as int, cy as int, i, j2));
            assert(out.pixel_at(i, j2) == out.pixels@[j2 * cw + i]);
            assert(cx == x && cy == y);
        }
    }
    out
}

/// The two-color quantization of `img`: every pixel above the luminance
/// threshold becomes the white palette entry, every other pixel the black
/// one.  Dimensions are kept.
pub fn binarize(img: &Image) -> (out: Image)
    requires
        img.wf(),
    ensures
        out.wf(),
        out.width == img.width,
        out.height == img.height,
        out.pixels@.len() == img.pixels@.len(),
        forall|k: int|
            0 <= k < out.pixels@.len() ==> out.pixels@[k] == lookup_spec(
                index_spec(img.pixels@[k]),
            )->0,
{
    let level = MyLevel;
    let mut pixels: Vec<Pixel> = Vec::new();
    let mut k: usize = 0;
    while k < img.pixels.len()
        invariant
            k <= img.pixels@.len(),
            pixels@.len() == k,
            forall|m: int|
                0 <= m < k ==> pixels@[m] == lookup_spec(index_spec(img.pixels@[m]))->0,
        decreases img.pixels@.len() - k,
    {
        let p = img.pixels[k];
        let idx = level.index_of(&p);
        let mapped = level.lookup(idx);
        let q = match mapped {
            Some(q) => q,
            None => {
                proof {
                    assert(false);
                }
                p
            },
        };
        pixels.push(q);
        k = k + 1;
    }
    Image { width: img.width, height: img.height, pixels }
}

/// The OCR preprocessing of a captured frame: crop to the configured
/// rectangle (clamped to the frame), then quantize every pixel to black
/// or white along the luminance threshold.
pub fn preprocess(img: &Image, x: usize, y: usize, w: usize, h: usize) -> (out: Image)
    requires
        img.wf(),
    ensures
        out.wf(),
        out.width == if x <= img.width { if w <= img.width - x { w as int } else { img.width - x } } else { 0 },
        out.height == if y <= img.height { if h <= img.height - y { h as int } else { img.height - y } } else { 0 },
        forall|i: int, j: int|
            0 <= i < out.width && 0 <= j < out.height ==> out.pixel_at(i, j) == lookup_spec(
                index_spec(img.pixel_at(x + i, y + j)),
            )->0,
{
    let cropped = crop(img, x, y, w, h);
    let out = binarize(&cropped);
    proof {
        assert forall|i: int, j: int| 0 <= i < out.width && 0 <= j < out.height implies out.pixel_at(
            i,
            j,
        ) == lookup_spec(index_spec(img.pixel_at(x + i, y + j)))->0 by {
            lemma_grid_index(i, j, out.width as int, out.height as int);
            assert(out.height * out.width == out.width * out.height) by (nonlinear_arith);
            assert(j * out.width + i < out.pixels@.len());
            assert(out.pixel_at(i, j) == out.pixels@[j * out.width + i]);
            assert(cropped.pixel_at(i, j) == cropped.pixels@[j * out.width + i]);
        }
    }
    out
}

} // verus!
