//! The colour that stands for a cell by majority: the most frequent among
//! the cell's pixels.

use crate::embroidery::canvas::lemma_row_major;
use crate::embroidery::colors::RgbColor;
use crate::embroidery::image::{pixel_at, Raster, RasterView};
use std::collections::HashMap;
use vstd::prelude::*;

verus! {

broadcast use vstd::std_specs::hash::group_hash_axioms;

/// A colour as one number: red, green and blue, eight bits each.
pub open spec fn packed(color: RgbColor) -> u32 {
    (color.red * 65536 + color.green * 256 + color.blue) as u32
}

/// Computes a colour as one number.
pub fn pack(color: RgbColor) -> (n: u32)
    ensures
        n == packed(color),
{
    (color.red as u32) * 65536 + (color.green as u32) * 256 + (color.blue as u32)
}

/// How many of the pixels `x0..x1` of row `y` have the colour `rgb`.
pub open spec fn same_in_run(image: RasterView, y: int, x0: int, x1: int, rgb: RgbColor) -> int
    decreases x1 - x0,
{
    if x1 <= x0 {
        0
    } else {
        same_in_run(image, y, x0, x1 - 1, rgb) + if pixel_at(image, x1 - 1, y) == rgb {
            1int
        } else {
            0int
        }
    }
}

/// How many of the pixels of the rectangle `x0..x1` by `y0..y1` have the
/// colour `rgb`.
pub open spec fn same_in_cell(
    image: RasterView,
    x0: int,
    x1: int,
    y0: int,
    y1: int,
    rgb: RgbColor,
) -> int
    decreases y1 - y0,
{
    if y1 <= y0 {
        0
    } else {
        same_in_cell(image, x0, x1, y0, y1 - 1, rgb) + same_in_run(image, y1 - 1, x0, x1, rgb)
    }
}

/// A rectangle of pixels of an image, with a b coordinate for each pixel of
/// the image.
pub ghost struct Cell {
    pub image: RasterView,
    pub b_keys: Seq<i32>,
    pub x0: int,
    pub x1: int,
    pub y0: int,
    pub y1: int,
}

impl Cell {
    /// The rectangle holds a pixel, lies in the image, and every pixel of
    /// the image has its b coordinate.
    pub open spec fn wf(self) -> bool {
        &&& 0 <= self.x0 < self.x1 <= self.image.width
        &&& 0 <= self.y0 < self.y1 <= self.image.height
        &&& self.image.pixels.len() == 3 * (self.image.width * self.image.height)
        &&& self.b_keys.len() == self.image.width * self.image.height
    }

    /// The pixel (`x`, `y`) lies in the rectangle.
    pub open spec fn holds(self, x: int, y: int) -> bool {
        self.x0 <= x < self.x1 && self.y0 <= y < self.y1
    }

    /// How many pixels of the rectangle have the colour of pixel `p`.
    pub open spec fn count(self, p: (int, int)) -> int {
        same_in_cell(self.image, self.x0, self.x1, self.y0, self.y1, pixel_at(self.image, p.0, p.1))
    }

    /// The b coordinate of pixel `p`.
    pub open spec fn key(self, p: (int, int)) -> i32 {
        self.b_keys[p.1 * self.image.width + p.0]
    }

    /// Pixel `p` is preferred to pixel `q`: its colour is more frequent in
    /// the rectangle, or as frequent with a smaller b coordinate.
    pub open spec fn outdoes(self, p: (int, int), q: (int, int)) -> bool {
        self.count(p) > self.count(q) || (self.count(p) == self.count(q) && self.key(p)
            < self.key(q))
    }

    /// The pixel to which none of `x0..x1` of row `y` is preferred, nor
    /// `seed`; of several, `seed` or else the first.
    pub open spec fn best_in_run(self, y: int, x1: int, seed: (int, int)) -> (int, int)
        decreases x1 - self.x0,
    {
        if x1 <= self.x0 {
            seed
        } else {
            let best = self.best_in_run(y, x1 - 1, seed);
            if self.outdoes((x1 - 1, y), best) {
                (x1 - 1, y)
            } else {
                best
            }
        }
    }

    /// The pixel of the rows `y0..y1` to which none is preferred; of
    /// several, the first, row by row.
    pub open spec fn best_in_rows(self, y1: int) -> (int, int)
        decreases y1 - self.y0,
    {
        if y1 <= self.y0 {
            (self.x0, self.y0)
        } else {
            self.best_in_run(y1 - 1, self.x1, self.best_in_rows(y1 - 1))
        }
    }

    /// The colour that stands for the rectangle: the most frequent among its
    /// pixels, of several the one with the least b coordinate.
    pub open spec fn major_color(self) -> RgbColor {
        let best = self.best_in_rows(self.y1);
        pixel_at(self.image, best.0, best.1)
    }

    /// The best pixel of a run is the seed or a pixel of the run.
    pub proof fn lemma_best_in_run(self, y: int, x1: int, seed: (int, int))
        ensures
            self.best_in_run(y, x1, seed) == seed || ({
                let best = self.best_in_run(y, x1, seed);
                best.1 == y && self.x0 <= best.0 < x1
            }),
        decreases x1 - self.x0,
    {
        if x1 > self.x0 {
            self.lemma_best_in_run(y, x1 - 1, seed);
        }
    }

    /// None of the pixels `x0..x1` of row `y` is preferred to the best pixel
    /// of the run, nor is the seed, nor any pixel to which the seed is
    /// preferred or equal.
    pub proof fn lemma_none_outdoes_run(self, y: int, x1: int, seed: (int, int), q: (int, int))
        requires
            !self.outdoes(q, seed) || (q.1 == y && self.x0 <= q.0 < x1),
        ensures
            !self.outdoes(q, self.best_in_run(y, x1, seed)),
        decreases x1 - self.x0,
    {
        if x1 > self.x0 {
            if q == (x1 - 1, y) {
            } else {
                self.lemma_none_outdoes_run(y, x1 - 1, seed, q);
            }
        }
    }

    /// No pixel of the rows `y0..y1` of the rectangle is preferred to the
    /// best pixel of those rows.
    pub proof fn lemma_none_outdoes(self, y1: int, q: (int, int))
        requires
            self.x0 <= q.0 < self.x1,
            self.y0 <= q.1 < y1,
        ensures
            !self.outdoes(q, self.best_in_rows(y1)),
        decreases y1 - self.y0,
    {
        if q.1 < y1 - 1 {
            self.lemma_none_outdoes(y1 - 1, q);
        }
        self.lemma_none_outdoes_run(y1 - 1, self.x1, self.best_in_rows(y1 - 1), q);
    }

    /// The best pixel of the rectangle's rows lies in the rectangle.
    pub proof fn lemma_best_in_rows(self, y1: int)
        requires
            self.wf(),
            y1 <= self.y1,
        ensures
            self.holds(self.best_in_rows(y1).0, self.best_in_rows(y1).1),
        decreases y1 - self.y0,
    {
        if y1 > self.y0 {
            self.lemma_best_in_rows(y1 - 1);
            self.lemma_best_in_run(y1 - 1, self.x1, self.best_in_rows(y1 - 1));
        }
    }
}

/// A colour does not occur more often in a run than the run has pixels.
pub proof fn lemma_same_in_run(image: RasterView, y: int, x0: int, x1: int, rgb: RgbColor)
    requires
        x0 <= x1,
    ensures
        0 <= same_in_run(image, y, x0, x1, rgb) <= x1 - x0,
    decreases x1 - x0,
{
    if x1 > x0 {
        lemma_same_in_run(image, y, x0, x1 - 1, rgb);
    }
}

/// The colour of a pixel of a run occurs in the run.
pub proof fn lemma_same_in_run_holds(image: RasterView, y: int, x0: int, x1: int, x: int)
    requires
        x0 <= x < x1,
    ensures
        same_in_run(image, y, x0, x1, pixel_at(image, x, y)) >= 1,
    decreases x1 - x0,
{
    lemma_same_in_run(image, y, x0, x1 - 1, pixel_at(image, x, y));
    if x < x1 - 1 {
        lemma_same_in_run_holds(image, y, x0, x1 - 1, x);
    }
}

/// A colour does not occur a negative number of times.
pub proof fn lemma_same_in_cell(
    image: RasterView,
    x0: int,
    x1: int,
    y0: int,
    y1: int,
    rgb: RgbColor,
)
    requires
        x0 <= x1,
    ensures
        0 <= same_in_cell(image, x0, x1, y0, y1, rgb),
    decreases y1 - y0,
{
    if y1 > y0 {
        lemma_same_in_cell(image, x0, x1, y0, y1 - 1, rgb);
        lemma_same_in_run(image, y1 - 1, x0, x1, rgb);
    }
}

/// The colour of a pixel of a rectangle occurs in the rectangle.
pub proof fn lemma_same_in_cell_holds(
    image: RasterView,
    x0: int,
    x1: int,
    y0: int,
    y1: int,
    x: int,
    y: int,
)
    requires
        x0 <= x < x1,
        y0 <= y < y1,
    ensures
        same_in_cell(image, x0, x1, y0, y1, pixel_at(image, x, y)) >= 1,
    decreases y1 - y0,
{
    let rgb = pixel_at(image, x, y);
    lemma_same_in_cell(image, x0, x1, y0, y1 - 1, rgb);
    lemma_same_in_run(image, y1 - 1, x0, x1, rgb);
    if y < y1 - 1 {
        lemma_same_in_cell_holds(image, x0, x1, y0, y1 - 1, x, y);
    } else {
        lemma_same_in_run_holds(image, y, x0, x1, x);
    }
}

/// Counts how often each colour occurs in a rectangle of an image.
fn count_colors(image: &Raster, x0: u32, x1: u32, y0: u32, y1: u32) -> (counts: HashMap<u32, u64>)
    requires
        image.wf(),
        x0 <= x1 <= image@.width,
        y0 <= y1 <= image@.height,
    ensures
        forall|rgb: RgbColor|
            counts@.contains_key(#[trigger] packed(rgb)) <==> same_in_cell(
                image@,
                x0 as int,
                x1 as int,
                y0 as int,
                y1 as int,
                rgb,
            ) > 0,
        forall|rgb: RgbColor|
            counts@.contains_key(#[trigger] packed(rgb)) ==> counts@[packed(rgb)] == same_in_cell(
                image@,
                x0 as int,
                x1 as int,
                y0 as int,
                y1 as int,
                rgb,
            ),
{
    let mut counts: HashMap<u32, u64> = HashMap::new();
    let ghost view = image@;
    let width = image.width();
    let mut y: u32 = y0;
    while y < y1
        invariant
            image.wf(),
            view == image@,
            width == view.width,
            x0 <= x1 <= view.width,
            y0 <= y <= y1 <= view.height,
            forall|rgb: RgbColor|
                counts@.contains_key(#[trigger] packed(rgb)) <==> same_in_cell(
                    view,
                    x0 as int,
                    x1 as int,
                    y0 as int,
                    y as int,
                    rgb,
                ) > 0,
            forall|rgb: RgbColor|
                counts@.contains_key(#[trigger] packed(rgb)) ==> counts@[packed(rgb)]
                    == same_in_cell(view, x0 as int, x1 as int, y0 as int, y as int, rgb)
                    && counts@[packed(rgb)] <= y * width,
        decreases y1 - y,
    {
        let mut x: u32 = x0;
        assert(0 <= y * width && y * width + width <= view.height * width) by (nonlinear_arith)
            requires
                0 <= y < view.height,
                0 <= width,
        ;
        while x < x1
            invariant
                image.wf(),
                view == image@,
                width == view.width,
                x0 <= x <= x1 <= view.width,
                y0 <= y < y1 <= view.height,
                0 <= y * width,
                y * width + width <= view.height * width,
                forall|rgb: RgbColor|
                    counts@.contains_key(#[trigger] packed(rgb)) <==> same_in_cell(
                        view,
                        x0 as int,
                        x1 as int,
                        y0 as int,
                        y as int,
                        rgb,
                    ) + same_in_run(view, y as int, x0 as int, x as int, rgb) > 0,
                forall|rgb: RgbColor|
                    counts@.contains_key(#[trigger] packed(rgb)) ==> counts@[packed(rgb)]
                        == same_in_cell(view, x0 as int, x1 as int, y0 as int, y as int, rgb)
                        + same_in_run(view, y as int, x0 as int, x as int, rgb) && counts@[packed(
                        rgb,
                    )] <= y * width + x,
            decreases x1 - x,
        {
            let color = image.pixel(x, y);
            let key = pack(color);
            let seen: u64 = match counts.get(&key) {
                Some(n) => *n,
                None => 0,
            };
            let ghost before = counts@;
            proof {
                assert(view.height * width <= 0xffff_ffff * 0xffff_ffff) by (nonlinear_arith)
                    requires
                        0 <= view.height <= 0xffff_ffff,
                        0 <= width <= 0xffff_ffff,
                ;
                assert(before.contains_key(packed(color)) ==> seen <= y * width + x);
            }
            counts.insert(key, seen + 1);
            proof {
                assert forall|rgb: RgbColor|
                    counts@.contains_key(#[trigger] packed(rgb)) <==> same_in_cell(
                        view,
                        x0 as int,
                        x1 as int,
                        y0 as int,
                        y as int,
                        rgb,
                    ) + same_in_run(view, y as int, x0 as int, x + 1, rgb) > 0 by {
                    lemma_same_in_cell(view, x0 as int, x1 as int, y0 as int, y as int, rgb);
                    lemma_same_in_run(view, y as int, x0 as int, x as int, rgb);
                    if rgb != color {
                        assert(packed(rgb) != packed(color));
                        assert(before.contains_key(packed(rgb)) == counts@.contains_key(
                            packed(rgb),
                        ));
                    }
                }
                assert forall|rgb: RgbColor|
                    counts@.contains_key(#[trigger] packed(rgb)) implies counts@[packed(rgb)]
                    == same_in_cell(view, x0 as int, x1 as int, y0 as int, y as int, rgb)
                    + same_in_run(view, y as int, x0 as int, x + 1, rgb) && counts@[packed(rgb)]
                    <= y * width + (x + 1) by {
                    lemma_same_in_cell(view, x0 as int, x1 as int, y0 as int, y as int, rgb);
                    lemma_same_in_run(view, y as int, x0 as int, x as int, rgb);
                    if rgb != color {
                        assert(packed(rgb) != packed(color));
                        assert(before.contains_key(packed(rgb)));
                        assert(counts@[packed(rgb)] == before[packed(rgb)]);
                    } else if before.contains_key(packed(color)) {
                        assert(seen == before[packed(color)]);
                    }
                }
            }
            x += 1;
        }
        proof {
            assert((y + 1) * width == y * width + width) by (nonlinear_arith);
        }
        y += 1;
    }
    counts
}

/// The colour that stands for a rectangle of an image: the most frequent
/// among its pixels, and of several the one whose pixel has the least b
/// coordinate, the first such pixel row by row. `b_keys` holds the b
/// coordinate of each pixel of the image, row after row.
pub fn get_major_color_in_cell(
    image: &Raster,
    b_keys: &Vec<i32>,
    x_start: u32,
    x_end: u32,
    y_start: u32,
    y_end: u32,
) -> (color: RgbColor)
    requires
        image.wf(),
        b_keys@.len() == image@.width * image@.height,
        x_start < x_end <= image@.width,
        y_start < y_end <= image@.height,
    ensures
        color == (Cell {
            image: image@,
            b_keys: b_keys@,
            x0: x_start as int,
            x1: x_end as int,
            y0: y_start as int,
            y1: y_end as int,
        }).major_color(),
{
    let ghost cell = Cell {
        image: image@,
        b_keys: b_keys@,
        x0: x_start as int,
        x1: x_end as int,
        y0: y_start as int,
        y1: y_end as int,
    };
    let counts = count_colors(image, x_start, x_end, y_start, y_end);
    let width = image.width();
    let mut best_color = image.pixel(x_start, y_start);
    proof {
        lemma_row_major(width as int, x_start as int, y_start as int, image@.height);
        assert(image@.height * width == image@.width * image@.height) by (nonlinear_arith)
            requires
                width == image@.width,
        ;
        lemma_same_in_cell_holds(
            image@,
            x_start as int,
            x_end as int,
            y_start as int,
            y_end as int,
            x_start as int,
            y_start as int,
        );
        assert(counts@.contains_key(packed(best_color)));
        assert(b_keys.len() == image@.width * image@.height);
    }
    let mut best_count: u64 = match counts.get(&pack(best_color)) {
        Some(n) => *n,
        None => 0,
    };
    let mut best_key: i32 = b_keys[(y_start as usize) * (width as usize) + (x_start as usize)];
    let ghost mut best: (int, int) = (x_start as int, y_start as int);
    let mut y: u32 = y_start;
    while y < y_end
        invariant
            image.wf(),
            cell.wf(),
            cell.image == image@,
            cell.b_keys == b_keys@,
            cell.x0 == x_start,
            cell.x1 == x_end,
            cell.y0 == y_start,
            cell.y1 == y_end,
            width == image@.width,
            y_start <= y <= y_end,
            forall|rgb: RgbColor|
                counts@.contains_key(#[trigger] packed(rgb)) <==> same_in_cell(
                    image@,
                    x_start as int,
                    x_end as int,
                    y_start as int,
                    y_end as int,
                    rgb,
                ) > 0,
            forall|rgb: RgbColor|
                counts@.contains_key(#[trigger] packed(rgb)) ==> counts@[packed(rgb)]
                    == same_in_cell(
                    image@,
                    x_start as int,
                    x_end as int,
                    y_start as int,
                    y_end as int,
                    rgb,
                ),
            best == cell.best_in_rows(y as int),
            cell.holds(best.0, best.1),
            best_color == pixel_at(image@, best.0, best.1),
            best_count == cell.count(best),
            best_key == cell.key(best),
        decreases y_end - y,
    {
        let ghost seed = best;
        let mut x: u32 = x_start;
        while x < x_end
            invariant
                image.wf(),
                cell.wf(),
                cell.image == image@,
                cell.b_keys == b_keys@,
                cell.x0 == x_start,
                cell.x1 == x_end,
                cell.y0 == y_start,
                cell.y1 == y_end,
                width == image@.width,
                y_start <= y < y_end,
                x_start <= x <= x_end,
                forall|rgb: RgbColor|
                    counts@.contains_key(#[trigger] packed(rgb)) <==> same_in_cell(
                        image@,
                        x_start as int,
                        x_end as int,
                        y_start as int,
                        y_end as int,
                        rgb,
                    ) > 0,
                forall|rgb: RgbColor|
                    counts@.contains_key(#[trigger] packed(rgb)) ==> counts@[packed(rgb)]
                        == same_in_cell(
                        image@,
                        x_start as int,
                        x_end as int,
                        y_start as int,
                        y_end as int,
                        rgb,
                    ),
                best == cell.best_in_run(y as int, x as int, seed),
                cell.holds(best.0, best.1),
                best_color == pixel_at(image@, best.0, best.1),
                best_count == cell.count(best),
                best_key == cell.key(best),
            decreases x_end - x,
        {
            let color = image.pixel(x, y);
            proof {
                lemma_row_major(width as int, x as int, y as int, image@.height);
                assert(image@.height * width == image@.width * image@.height) by (nonlinear_arith)
                    requires
                        width == image@.width,
                ;
                lemma_same_in_cell_holds(
                    image@,
                    x_start as int,
                    x_end as int,
                    y_start as int,
                    y_end as int,
                    x as int,
                    y as int,
                );
                assert(counts@.contains_key(packed(color)));
                assert(b_keys.len() == image@.width * image@.height);
            }
            let count: u64 = match counts.get(&pack(color)) {
                Some(n) => *n,
                None => 0,
            };
            let key: i32 = b_keys[(y as usize) * (width as usize) + (x as usize)];
            proof {
                assert(count == cell.count((x as int, y as int)));
                assert(key == cell.key((x as int, y as int)));
            }
            if count > best_count || (count == best_count && key < best_key) {
                best_color = color;
                best_count = count;
                best_key = key;
                proof {
                    best = (x as int, y as int);
                }
            }
            x += 1;
        }
        y += 1;
    }
    best_color
}

} // verus!
