//! Decoded images, the palette drawn from an image, and the threads that
//! stand for a palette.

use crate::embroidery::colors::{
    first_match, nearest_position, Catalog, DmcColor, LabColor, RgbColor,
};
use crate::error::CanvasError;
use vstd::prelude::*;

verus! {

/// The most pixels an image may have: ten times 2^24, so that the palette
/// extraction, which counts every tenth pixel, counts at most 2^24.
pub const MAX_PIXELS: u64 = 167_772_160;

/// Of how many pixels the palette extraction counts one.
pub const PALETTE_QUALITY: u8 = 10;

/// What a raster is in contracts.
pub ghost struct RasterView {
    pub width: int,
    pub height: int,
    /// Row after row, three bytes a pixel: red, green, blue.
    pub pixels: Seq<u8>,
}

/// The colour of the pixel in column `x` of row `y`.
pub open spec fn pixel_at(raster: RasterView, x: int, y: int) -> RgbColor {
    let at = 3 * (y * raster.width + x);
    RgbColor { red: raster.pixels[at], green: raster.pixels[at + 1], blue: raster.pixels[at + 2] }
}

/// A decoded image: its size and its pixels, three bytes each.
#[derive(Debug, Clone)]
pub struct Raster {
    width: u32,
    height: u32,
    pixels: Vec<u8>,
}

impl View for Raster {
    type V = RasterView;

    closed spec fn view(&self) -> RasterView {
        RasterView {
            width: self.width as int,
            height: self.height as int,
            pixels: self.pixels@,
        }
    }
}

impl Raster {
    /// There are three bytes for each pixel.
    pub open spec fn wf(&self) -> bool {
        &&& 0 <= self@.width <= u32::MAX
        &&& 0 <= self@.height <= u32::MAX
        &&& self@.pixels.len() == 3 * (self@.width * self@.height)
    }

    /// A raster of the given size and bytes; none unless there are three
    /// bytes for each pixel.
    pub fn new(width: u32, height: u32, pixels: Vec<u8>) -> (raster: Option<Raster>)
        ensures
            raster.is_some() <==> pixels@.len() == 3 * (width * height),
            raster matches Some(r) ==> r.wf() && r@.width == width && r@.height == height
                && r@.pixels == pixels@,
    {
        assert(0 <= width * height <= 0xffff_ffff * 0xffff_ffff) by (nonlinear_arith)
            requires
                0 <= width <= 0xffff_ffff,
                0 <= height <= 0xffff_ffff,
        ;
        let expected: u128 = 3 * ((width as u128) * (height as u128));
        if pixels.len() as u128 == expected {
            Some(Raster { width, height, pixels })
        } else {
            None
        }
    }

    /// A raster of bytes that are known to be three for each pixel.
    pub(crate) fn assemble(width: u32, height: u32, pixels: Vec<u8>) -> (raster: Raster)
        requires
            pixels@.len() == 3 * (width * height),
        ensures
            raster.wf(),
            raster@.width == width,
            raster@.height == height,
            raster@.pixels == pixels@,
    {
        Raster { width, height, pixels }
    }

    /// The number of pixels in a row.
    pub fn width(&self) -> (w: u32)
        ensures
            w == self@.width,
    {
        self.width
    }

    /// The number of rows.
    pub fn height(&self) -> (h: u32)
        ensures
            h == self@.height,
    {
        self.height
    }

    /// The bytes, row after row, three for each pixel.
    pub fn pixels(&self) -> (bytes: &Vec<u8>)
        ensures
            bytes@ == self@.pixels,
    {
        &self.pixels
    }

    /// The colour of the pixel in column `x` of row `y`.
    pub fn pixel(&self, x: u32, y: u32) -> (color: RgbColor)
        requires
            self.wf(),
            x < self@.width,
            y < self@.height,
        ensures
            color == pixel_at(self@, x as int, y as int),
    {
        assert(0 <= y * self.width <= y * self.width + x < self.width * self.height) by (
        nonlinear_arith)
            requires
                0 <= x < self.width,
                0 <= y < self.height,
        ;
        assert(self.pixels.len() == 3 * (self.width * self.height));
        let at: usize = 3 * ((y as usize) * (self.width as usize) + (x as usize));
        RgbColor { red: self.pixels[at], green: self.pixels[at + 1], blue: self.pixels[at + 2] }
    }
}

/// The colours that `palette_extract`'s modified median cut draws from
/// `pixels`, read as three bytes a pixel, counting one pixel in `quality`
/// and asked for `max_colors` colours.
pub uninterp spec fn extracted_palette(pixels: Seq<u8>, quality: u8, max_colors: u8) -> Seq<
    RgbColor,
>;

/// Calls `palette_extract::get_palette_with_options` for three bytes a pixel
/// and with no pixel filtered out. The result depends on the arguments alone,
/// and the contract gives it its name. The inputs left out are those on which
/// the crate's counters overflow or its loop does not advance: no pixel, more
/// than 2^24 pixels counted, a step of zero, fewer than two colours asked for.
#[verifier::external_body]
fn extract_palette(pixels: &Vec<u8>, quality: u8, max_colors: u8) -> (palette: Vec<RgbColor>)
    requires
        quality >= 1,
        max_colors >= 2,
        3 <= pixels@.len(),
        pixels@.len() / 3 <= 0x100_0000 * quality,
    ensures
        palette@ == extracted_palette(pixels@, quality, max_colors),
{
    let colors = palette_extract::get_palette_with_options(
        pixels,
        palette_extract::PixelEncoding::Rgb,
        palette_extract::Quality::new(quality),
        palette_extract::MaxColors::new(max_colors),
        palette_extract::PixelFilter::None,
    );
    colors.iter().map(|c| RgbColor { red: c.r, green: c.g, blue: c.b }).collect()
}

/// How many colours the extraction is asked for so that it returns
/// `n_colors`: one fewer below four, where it returns one more than asked,
/// and one more from eight on, where it returns one fewer.
pub open spec fn colors_to_ask(n_colors: u8) -> int {
    if n_colors > 7 {
        n_colors + 1
    } else if n_colors < 4 {
        n_colors - 1
    } else {
        n_colors as int
    }
}

/// Why no palette is drawn from an image of `pixels` bytes, if none is.
pub open spec fn palette_refusal(pixels: Seq<u8>, n_colors: u8) -> Option<CanvasError> {
    if n_colors <= 2 {
        Some(CanvasError::TooFewColors)
    } else if n_colors > 200 {
        Some(CanvasError::TooManyColors)
    } else if pixels.len() < 3 || pixels.len() / 3 > MAX_PIXELS {
        Some(CanvasError::ImageSize)
    } else {
        None
    }
}

/// What `get_rgb_palette` returns for an image of `pixels` bytes.
pub open spec fn is_rgb_palette(
    pixels: Seq<u8>,
    n_colors: u8,
    palette: Result<Vec<RgbColor>, CanvasError>,
) -> bool {
    match palette {
        Ok(colors) => palette_refusal(pixels, n_colors).is_none() && colors@ == extracted_palette(
            pixels,
            PALETTE_QUALITY,
            colors_to_ask(n_colors) as u8,
        ),
        Err(e) => palette_refusal(pixels, n_colors) == Some(e),
    }
}

/// An image from which a palette can be drawn.
pub trait ImagePalette {
    /// The image's bytes, three a pixel.
    spec fn rgb_bytes(&self) -> Seq<u8>;

    /// The image is in order.
    spec fn in_order(&self) -> bool;

    /// The colours that stand for the image's pixels, about `n_colors` of
    /// them. Fewer than three colours, or more than two hundred, are refused,
    /// and so is an image without pixels or with more than `MAX_PIXELS`.
    fn get_rgb_palette(&self, n_colors: u8) -> (palette: Result<Vec<RgbColor>, CanvasError>)
        requires
            self.in_order(),
        ensures
            is_rgb_palette(self.rgb_bytes(), n_colors, palette),
    ;
}

impl ImagePalette for Raster {
    open spec fn rgb_bytes(&self) -> Seq<u8> {
        self@.pixels
    }

    open spec fn in_order(&self) -> bool {
        self.wf()
    }

    fn get_rgb_palette(&self, n_colors: u8) -> (palette: Result<Vec<RgbColor>, CanvasError>) {
        if n_colors <= 2 {
            return Err(CanvasError::TooFewColors);
        }
        if n_colors > 200 {
            return Err(CanvasError::TooManyColors);
        }
        if self.pixels.len() < 3 || (self.pixels.len() / 3) as u64 > MAX_PIXELS {
            return Err(CanvasError::ImageSize);
        }
        let mut ask: u8 = n_colors;
        if n_colors > 7 {
            ask = n_colors + 1;
        } else if n_colors < 4 {
            ask = n_colors - 1;
        }
        Ok(extract_palette(&self.pixels, PALETTE_QUALITY, ask))
    }
}

/// A colour of an image's palette together with what was measured of it:
/// its Lab coordinates and its distance to each thread of the catalog, in
/// the catalog's order.
#[derive(Debug, Clone)]
pub struct Swatch {
    pub rgb: RgbColor,
    pub lab: LabColor,
    pub diffs: Vec<i32>,
}

impl Swatch {
    /// The swatch holds a distance for each of `threads`, or has exactly the
    /// colour of one of them, in which case no distance is read.
    pub open spec fn fits(&self, threads: Seq<DmcColor>) -> bool {
        first_match(threads, self.rgb) == threads.len() ==> self.diffs@.len() == threads.len()
    }

    /// The thread that stands for the swatch.
    pub open spec fn thread(&self, threads: Seq<DmcColor>) -> DmcColor {
        threads[nearest_position(threads, self.rgb, self.diffs@)]
    }
}

/// Every swatch fits the threads.
pub open spec fn all_fit(swatches: Seq<Swatch>, threads: Seq<DmcColor>) -> bool {
    forall|k: int| 0 <= k < swatches.len() ==> (#[trigger] swatches[k]).fits(threads)
}

/// The thread that stands for each swatch, in the swatches' order.
pub open spec fn threads_of(threads: Seq<DmcColor>, swatches: Seq<Swatch>) -> Seq<DmcColor> {
    Seq::new(swatches.len(), |k: int| swatches[k].thread(threads))
}

/// Some thread of `list` has the colour `rgb`.
pub open spec fn has_color(list: Seq<DmcColor>, rgb: RgbColor) -> bool {
    exists|i: int| 0 <= i < list.len() && (#[trigger] list[i]).rgb == rgb
}

/// `list` without the threads whose colour an earlier thread has.
pub open spec fn distinct_colors(list: Seq<DmcColor>) -> Seq<DmcColor>
    decreases list.len(),
{
    if list.len() == 0 {
        list
    } else {
        let front = distinct_colors(list.drop_last());
        if has_color(front, list.last().rgb) {
            front
        } else {
            front.push(list.last())
        }
    }
}

/// No two threads of `distinct_colors(list)` have one colour, each of them is
/// a thread of `list`, and the colour of every thread of `list` is among them.
pub proof fn lemma_distinct_colors(list: Seq<DmcColor>)
    ensures
        distinct_colors(list).len() <= list.len(),
        forall|i: int, j: int|
            0 <= i < j < distinct_colors(list).len() ==> (#[trigger] distinct_colors(list)[i]).rgb
                != (#[trigger] distinct_colors(list)[j]).rgb,
        forall|i: int|
            0 <= i < distinct_colors(list).len() ==> list.contains(
                #[trigger] distinct_colors(list)[i],
            ),
        forall|k: int|
            0 <= k < list.len() ==> has_color(distinct_colors(list), (#[trigger] list[k]).rgb),
    decreases list.len(),
{
    if list.len() > 0 {
        let front_list = list.drop_last();
        let front = distinct_colors(front_list);
        let all = distinct_colors(list);
        lemma_distinct_colors(front_list);
        assert forall|i: int| 0 <= i < all.len() implies list.contains(#[trigger] all[i]) by {
            if i < front.len() {
                assert(front_list.contains(front[i]));
                let at = choose|at: int| 0 <= at < front_list.len() && front_list[at] == front[i];
                assert(list[at] == front[i]);
            } else {
                assert(list[list.len() - 1] == all[i]);
            }
        }
        assert forall|k: int| 0 <= k < list.len() implies has_color(
            all,
            (#[trigger] list[k]).rgb,
        ) by {
            if k < list.len() - 1 {
                assert(front_list[k] == list[k]);
                assert(has_color(front, front_list[k].rgb));
                let at = choose|at: int| 0 <= at < front.len() && front[at].rgb == list[k].rgb;
                assert(all[at].rgb == list[k].rgb);
            } else if has_color(front, list.last().rgb) {
            } else {
                assert(all[all.len() - 1].rgb == list[k].rgb);
            }
        }
    }
}

/// Whether some thread of `list` has the colour `rgb`.
pub fn contains_color(list: &Vec<DmcColor>, rgb: RgbColor) -> (found: bool)
    ensures
        found == has_color(list@, rgb),
{
    let mut i: usize = 0;
    while i < list.len()
        invariant
            i <= list.len(),
            forall|j: int| 0 <= j < i ==> (#[trigger] list@[j]).rgb != rgb,
        decreases list.len() - i,
    {
        if list[i].rgb == rgb {
            return true;
        }
        i += 1;
    }
    false
}

/// Leaves out the threads whose colour an earlier thread has.
pub fn distinct_threads(list: &Vec<DmcColor>) -> (colors: Vec<DmcColor>)
    ensures
        colors@ == distinct_colors(list@),
{
    let mut colors: Vec<DmcColor> = Vec::new();
    let mut k: usize = 0;
    while k < list.len()
        invariant
            k <= list.len(),
            colors@ == distinct_colors(list@.take(k as int)),
        decreases list.len() - k,
    {
        proof {
            let next = list@.take(k + 1);
            assert(next.drop_last() =~= list@.take(k as int));
            assert(next.last() == list@[k as int]);
        }
        if !contains_color(&colors, list[k].rgb) {
            colors.push(list[k]);
        }
        k += 1;
    }
    proof {
        assert(list@.take(list.len() as int) =~= list@);
    }
    colors
}

/// Whether every swatch fits the catalog.
pub fn swatches_fit(catalog: &Catalog, swatches: &Vec<Swatch>) -> (ok: bool)
    ensures
        ok == all_fit(swatches@, catalog@),
{
    let mut k: usize = 0;
    while k < swatches.len()
        invariant
            k <= swatches.len(),
            forall|j: int| 0 <= j < k ==> (#[trigger] swatches@[j]).fits(catalog@),
        decreases swatches.len() - k,
    {
        if catalog.exact(swatches[k].rgb).is_none() && swatches[k].diffs.len() != catalog.len() {
            return false;
        }
        k += 1;
    }
    true
}

/// The threads that stand for the swatches, each colour once, in the order
/// in which the swatches first give them.
pub fn convert_rgb_to_dmc(catalog: &Catalog, swatches: &Vec<Swatch>) -> (colors: Vec<DmcColor>)
    requires
        catalog.wf(),
        all_fit(swatches@, catalog@),
    ensures
        colors@ == distinct_colors(threads_of(catalog@, swatches@)),
{
    let mut colors: Vec<DmcColor> = Vec::new();
    let mut k: usize = 0;
    let ghost threads = threads_of(catalog@, swatches@);
    while k < swatches.len()
        invariant
            k <= swatches.len(),
            catalog.wf(),
            all_fit(swatches@, catalog@),
            threads == threads_of(catalog@, swatches@),
            colors@ == distinct_colors(threads.take(k as int)),
        decreases swatches.len() - k,
    {
        let thread = catalog.nearest(swatches[k].rgb, &swatches[k].diffs);
        proof {
            let next = threads.take(k + 1);
            assert(next.drop_last() =~= threads.take(k as int));
            assert(next.last() == thread);
        }
        if !contains_color(&colors, thread.rgb) {
            colors.push(thread);
        }
        k += 1;
    }
    proof {
        assert(threads.take(swatches.len() as int) =~= threads);
    }
    colors
}

} // verus!
