use vstd::prelude::*;

verus! {

/// One RGBA pixel with 8-bit channels.
#[derive(Clone, Copy, PartialEq, Eq, Structural, Debug)]
pub struct Pixel {
    pub r: u8,
    pub g: u8,
    pub b: u8,
    pub a: u8,
}

/// Luminance values strictly above this (out of 255) map to the bright
/// palette entry.  The value is a tunable parameter of the binarizer,
/// calibrated for subtitle text on the captured material.
pub const BRIGHT_THRESHOLD: u32 = 195;

/// Integer luminance of a pixel under the ITU-R weighting
/// `(299 R + 587 G + 114 B) / 1000`, truncating.
pub open spec fn luminance(p: Pixel) -> int {
    (299 * p.r + 587 * p.g + 114 * p.b) / 1000
}

/// The dark palette entry: solid black.  Alpha is 1, not 255: the palette
/// keeps the value the OCR pipeline was calibrated with.
pub open spec fn black_pixel() -> Pixel {
    Pixel { r: 0, g: 0, b: 0, a: 1 }
}

/// The bright palette entry: solid white, with the same alpha convention
/// as `black_pixel`.
pub open spec fn white_pixel() -> Pixel {
    Pixel { r: 255, g: 255, b: 255, a: 1 }
}

/// Palette index a pixel is quantized to: 1 above the luminance threshold,
/// 0 at or below it.
pub open spec fn index_spec(p: Pixel) -> usize {
    if luminance(p) > BRIGHT_THRESHOLD as int {
        1
    } else {
        0
    }
}

/// Palette entry behind an index: black at 0, white at 1, nothing else.
pub open spec fn lookup_spec(idx: usize) -> Option<Pixel> {
    if idx == 0 {
        Some(black_pixel())
    } else if idx == 1 {
        Some(white_pixel())
    } else {
        None
    }
}

/// The two-entry black/white color map used to quantize a captured frame
/// before OCR.
#[derive(Clone, Copy)]
pub struct MyLevel;

impl MyLevel {
    /// Quantizes one pixel to its palette index by its luminance.
    pub fn index_of(&self, color: &Pixel) -> (idx: usize)
        ensures
            idx == index_spec(*color),
            idx <= 1,
    {
        let brightness = ((color.r as u32) * 299 + (color.g as u32) * 587 + (color.b as u32) * 114)
            / 1000;
        if brightness > BRIGHT_THRESHOLD {
            1
        } else {
            0
        }
    }

    /// Palette entry for an index; `None` on any index outside the
    /// two-entry palette, which callers treat as a logic error.
    pub fn lookup(&self, idx: usize) -> (c: Option<Pixel>)
        ensures
            c == lookup_spec(idx),
    {
        match idx {
            0 => Some(Pixel { r: 0, g: 0, b: 0, a: 1 }),
            1 => Some(Pixel { r: 255, g: 255, b: 255, a: 1 }),
            _ => None,
        }
    }

    /// This color map implements `lookup` for every index it emits.
    pub fn has_lookup(&self) -> (b: bool)
        ensures
            b,
    {
        true
    }

    /// In-place variant used when only a one-channel image is needed:
    /// writes the quantized value (0 or 255) into the red channel and
    /// leaves the other channels alone.
    pub fn map_color(&self, color: &mut Pixel)
        ensures
            final(color).r == (if luminance(*old(color)) > BRIGHT_THRESHOLD as int {
                255u8
            } else {
                0u8
            }),
            final(color).g == old(color).g,
            final(color).b == old(color).b,
            final(color).a == old(color).a,
    {
        let current = *color;
        let idx = self.index_of(&current);
        let new_color = 0xFF * (idx as u8);
        color.r = new_color;
    }
}

/// The index function is monotone in luminance: a pixel at least as bright
/// as another never maps to a smaller palette index.
pub proof fn lemma_index_monotonic(p: Pixel, q: Pixel)
    requires
        luminance(p) <= luminance(q),
    ensures
        index_spec(p) <= index_spec(q),
{
}

/// Palette lookup on any index outside the two palette entries fails
/// rather than returning a color.
pub proof fn lemma_lookup_out_of_range(idx: usize)
    requires
        idx != 0,
        idx != 1,
    ensures
        lookup_spec(idx) is None,
{
}

/// Looking up a pixel's own index always succeeds and always yields one of
/// exactly two colors: white above the luminance threshold, black otherwise.
pub proof fn lemma_palette_roundtrip(p: Pixel)
    ensures
        lookup_spec(index_spec(p)) == Some(
            if luminance(p) > BRIGHT_THRESHOLD as int {
                white_pixel()
            } else {
                black_pixel()
            },
        ),
{
}

} // verus!
