//! The configuration of a pattern, the pattern itself, and its rendering.

use crate::embroidery::cells::{
    cell_at, cell_of, lemma_cell_of_bound, lemma_sample_columns, lemma_sample_rows, round_at,
    row_count, sample_end, sample_start, samples, samples_its_fill,
};
use crate::embroidery::colors::{
    lemma_nearest_of_catalog_color, lemma_nearest_position, nearest_position, Catalog, DmcColor,
    RgbColor,
};
use crate::embroidery::image::{
    all_fit, convert_rgb_to_dmc, distinct_colors, distinct_threads, has_color,
    lemma_distinct_colors, pixel_at, swatches_fit, threads_of, Raster, RasterView, Swatch,
    MAX_PIXELS,
};
use crate::embroidery::major::{get_major_color_in_cell, Cell};
use crate::embroidery::votes::{cell_votes, count_votes, prefer, preferred};
use crate::error::CanvasError;
use vstd::prelude::*;

verus! {

/// The number of cells in a row where none is given.
pub const DEFAULT_COLUMNS: u8 = 32;

/// The number of colours where none is given.
pub const DEFAULT_COLORS: u8 = 20;

/// Why an image and these numbers make no configuration, if they make none.
pub open spec fn config_refusal(img: RasterView, columns: u8, n_colors: u8) -> Option<
    CanvasError,
> {
    if columns == 0 {
        Some(CanvasError::NoColumns)
    } else if columns > img.width {
        Some(CanvasError::TooManyColumns)
    } else if n_colors <= 2 {
        Some(CanvasError::TooFewColors)
    } else if n_colors > 200 {
        Some(CanvasError::TooManyColors)
    } else if img.width * img.height > MAX_PIXELS {
        Some(CanvasError::ImageSize)
    } else if row_count(img.width, img.height, columns as int) == 0 {
        Some(CanvasError::NoRows)
    } else {
        None
    }
}

/// An image with the grid that is laid over it: `columns` cells in a row,
/// square cells of side `width / columns`, and as many rows as the height
/// holds, to the nearest integer.
#[derive(Debug, Clone)]
pub struct CanvasConfig {
    pub img: Raster,
    pub width: u32,
    pub height: u32,
    pub rows: u32,
    pub columns: u32,
    pub n_colors: u8,
}

impl CanvasConfig {
    /// The numbers belong to the image and are within their ranges.
    pub open spec fn wf(&self) -> bool {
        &&& self.img.wf()
        &&& self.width == self.img@.width
        &&& self.height == self.img@.height
        &&& 1 <= self.columns <= self.width
        &&& self.columns <= u8::MAX
        &&& 1 <= self.rows
        &&& self.rows == row_count(self.width as int, self.height as int, self.columns as int)
        &&& 3 <= self.n_colors <= 200
        &&& self.width * self.height <= MAX_PIXELS
    }

    /// The configuration for an image, with 32 cells in a row and 20 colours
    /// where the number is not given. It is refused where a number is out of
    /// range: no cell or more cells in a row than pixels, fewer than three
    /// colours or more than two hundred, more than `MAX_PIXELS` pixels, or an
    /// image too flat for one row of cells.
    pub fn new(img: Raster, n_cells_in_width: Option<u8>, n_colors: Option<u8>) -> (config: Result<
        CanvasConfig,
        CanvasError,
    >)
        requires
            img.wf(),
        ensures
            match config {
                Ok(c) => {
                    &&& config_refusal(
                        img@,
                        n_cells_in_width.unwrap_or(DEFAULT_COLUMNS),
                        n_colors.unwrap_or(DEFAULT_COLORS),
                    ).is_none()
                    &&& c.wf()
                    &&& c.img@ == img@
                    &&& c.columns == n_cells_in_width.unwrap_or(DEFAULT_COLUMNS)
                    &&& c.n_colors == n_colors.unwrap_or(DEFAULT_COLORS)
                },
                Err(e) => config_refusal(
                    img@,
                    n_cells_in_width.unwrap_or(DEFAULT_COLUMNS),
                    n_colors.unwrap_or(DEFAULT_COLORS),
                ) == Some(e),
            },
    {
        let columns: u8 = match n_cells_in_width {
            Some(c) => c,
            None => DEFAULT_COLUMNS,
        };
        let colors: u8 = match n_colors {
            Some(c) => c,
            None => DEFAULT_COLORS,
        };
        let width = img.width();
        let height = img.height();
        if columns == 0 {
            return Err(CanvasError::NoColumns);
        }
        if columns as u32 > width {
            return Err(CanvasError::TooManyColumns);
        }
        if colors <= 2 {
            return Err(CanvasError::TooFewColors);
        }
        if colors > 200 {
            return Err(CanvasError::TooManyColors);
        }
        assert(0 <= width * height <= 0xffff_ffff * 0xffff_ffff) by (nonlinear_arith)
            requires
                0 <= width <= 0xffff_ffff,
                0 <= height <= 0xffff_ffff,
        ;
        if (width as u64) * (height as u64) > MAX_PIXELS {
            return Err(CanvasError::ImageSize);
        }
        let rows: u64 = round_at(height, columns as u32, width);
        if rows == 0 {
            return Err(CanvasError::NoRows);
        }
        proof {
            lemma_sample_rows(0, width as int, height as int, columns as int);
        }
        Ok(
            CanvasConfig {
                img,
                width,
                height,
                rows: rows as u32,
                columns: columns as u32,
                n_colors: colors,
            },
        )
    }

    /// The pixels of a row that the cells of column `col` sample.
    pub fn sampled_columns(&self, col: u32) -> (span: (u32, u32))
        requires
            self.wf(),
            col < self.columns,
        ensures
            span.0 == sample_start(col as int, self.width as int, self.columns as int),
            span.1 == sample_end(
                col as int,
                self.width as int,
                self.columns as int,
                self.width as int,
            ),
            span.0 < span.1 <= self.width,
    {
        proof {
            lemma_sample_columns(col as int, self.width as int, self.columns as int);
        }
        let start = round_at(col, self.width, self.columns);
        let next = round_at(col + 1, self.width, self.columns);
        let end = if next < self.width as u64 {
            next
        } else {
            self.width as u64
        };
        (start as u32, end as u32)
    }

    /// The rows of pixels that the cells of row `row` sample.
    pub fn sampled_rows(&self, row: u32) -> (span: (u32, u32))
        requires
            self.wf(),
            row < self.rows,
        ensures
            span.0 == sample_start(row as int, self.width as int, self.columns as int),
            span.1 == sample_end(
                row as int,
                self.width as int,
                self.columns as int,
                self.height as int,
            ),
            span.0 < span.1 <= self.height,
    {
        proof {
            lemma_sample_rows(
                row as int,
                self.width as int,
                self.height as int,
                self.columns as int,
            );
        }
        let start = round_at(row, self.width, self.columns);
        let next = round_at(row + 1, self.width, self.columns);
        let end = if next < self.height as u64 {
            next
        } else {
            self.height as u64
        };
        (start as u32, end as u32)
    }

    /// The pixels that cell (`row`, `col`) samples, with a b coordinate for
    /// each pixel of the image.
    pub open spec fn cell(&self, b_keys: Seq<i32>, row: int, col: int) -> Cell {
        Cell {
            image: self.img@,
            b_keys,
            x0: sample_start(col, self.width as int, self.columns as int),
            x1: sample_end(col, self.width as int, self.columns as int, self.width as int),
            y0: sample_start(row, self.width as int, self.columns as int),
            y1: sample_end(row, self.width as int, self.columns as int, self.height as int),
        }
    }

    /// The colour that stands for each cell: the most frequent among the
    /// pixels that the cell samples, and of several the one with the least b
    /// coordinate. `b_keys` holds the b coordinate of each pixel of the
    /// image, row after row.
    pub fn major_colors(&self, b_keys: &Vec<i32>) -> (cells: Vec<Vec<RgbColor>>)
        requires
            self.wf(),
            b_keys@.len() == self.width * self.height,
        ensures
            cells@.len() == self.rows,
            forall|r: int| 0 <= r < self.rows ==> (#[trigger] cells@[r])@.len() == self.columns,
            forall|r: int, c: int|
                0 <= r < self.rows && 0 <= c < self.columns ==> #[trigger] cells@[r]@[c]
                    == self.cell(b_keys@, r, c).major_color(),
    {
        let mut cells: Vec<Vec<RgbColor>> = Vec::new();
        let mut row: u32 = 0;
        while row < self.rows
            invariant
                row <= self.rows,
                self.wf(),
                b_keys@.len() == self.width * self.height,
                cells@.len() == row,
                forall|r: int| 0 <= r < row ==> (#[trigger] cells@[r])@.len() == self.columns,
                forall|r: int, c: int|
                    0 <= r < row && 0 <= c < self.columns ==> #[trigger] cells@[r]@[c]
                        == self.cell(b_keys@, r, c).major_color(),
            decreases self.rows - row,
        {
            let (y0, y1) = self.sampled_rows(row);
            let mut colors: Vec<RgbColor> = Vec::new();
            let mut col: u32 = 0;
            while col < self.columns
                invariant
                    col <= self.columns,
                    row < self.rows,
                    self.wf(),
                    b_keys@.len() == self.width * self.height,
                    y0 == sample_start(row as int, self.width as int, self.columns as int),
                    y1 == sample_end(
                        row as int,
                        self.width as int,
                        self.columns as int,
                        self.height as int,
                    ),
                    y0 < y1 <= self.height,
                    colors@.len() == col,
                    forall|c: int|
                        0 <= c < col ==> #[trigger] colors@[c] == self.cell(
                            b_keys@,
                            row as int,
                            c,
                        ).major_color(),
                decreases self.columns - col,
            {
                let (x0, x1) = self.sampled_columns(col);
                colors.push(get_major_color_in_cell(&self.img, b_keys, x0, x1, y0, y1));
                col += 1;
            }
            cells.push(colors);
            row += 1;
        }
        cells
    }
}

/// The measured cells are as many as the grid's, row by row, and each fits
/// the threads.
pub open spec fn cells_fit(
    threads: Seq<DmcColor>,
    config: CanvasConfig,
    cells: Seq<Vec<Swatch>>,
) -> bool {
    &&& cells.len() == config.rows
    &&& forall|r: int|
        0 <= r < cells.len() ==> (#[trigger] cells[r])@.len() == config.columns && all_fit(
            cells[r]@,
            threads,
        )
}

/// The threads that stand for the cells, row after row.
pub open spec fn flat_threads(threads: Seq<DmcColor>, cells: Seq<Vec<Swatch>>) -> Seq<DmcColor>
    decreases cells.len(),
{
    if cells.len() == 0 {
        Seq::empty()
    } else {
        flat_threads(threads, cells.drop_last()) + threads_of(threads, cells.last()@)
    }
}

/// The swatch that wins cell (`row`, `col`): the one to which most of the
/// cell's pixels are attributed, of several the one with the least b
/// coordinate, and of several of those the first.
pub open spec fn cell_swatch(
    config: CanvasConfig,
    swatches: Seq<Swatch>,
    pixel_diffs: Seq<i32>,
    row: int,
    col: int,
) -> int {
    preferred(
        cell_votes(
            pixel_diffs,
            swatches.len() as int,
            config.width as int,
            sample_start(col, config.width as int, config.columns as int),
            sample_end(col, config.width as int, config.columns as int, config.width as int),
            sample_start(row, config.width as int, config.columns as int),
            sample_end(row, config.width as int, config.columns as int, config.height as int),
        ),
        swatches,
    )
}

/// The colour of cell (`row`, `col`): that of the thread that stands for the
/// swatch that wins the cell.
pub open spec fn cell_color(
    threads: Seq<DmcColor>,
    config: CanvasConfig,
    swatches: Seq<Swatch>,
    pixel_diffs: Seq<i32>,
    row: int,
    col: int,
) -> RgbColor {
    swatches[cell_swatch(config, swatches, pixel_diffs, row, col)].thread(threads).rgb
}

/// Why these measurements make no canvas, if they make none.
pub open spec fn canvas_refusal(
    threads: Seq<DmcColor>,
    config: CanvasConfig,
    swatches: Seq<Swatch>,
    pixel_diffs: Seq<i32>,
) -> Option<CanvasError> {
    if swatches.len() == 0 {
        Some(CanvasError::DmcNotFound)
    } else if !all_fit(swatches, threads) || pixel_diffs.len() != (config.width * config.height)
        * swatches.len() {
        Some(CanvasError::Measurements)
    } else {
        None
    }
}

/// A pixel of a row lies before every pixel of the rows below.
pub proof fn lemma_row_major(width: int, x: int, y: int, below: int)
    requires
        0 <= x < width,
        0 <= y < below,
    ensures
        0 <= y * width <= y * width + x < below * width,
        y * width + width <= below * width,
{
    assert(0 <= y * width && y * width + width <= below * width) by (nonlinear_arith)
        requires
            0 <= y,
            y + 1 <= below,
            0 < width,
    ;
}

/// The colour of a pixel that no cell fills.
pub open spec fn blank() -> RgbColor {
    RgbColor { red: 0, green: 0, blue: 0 }
}

/// The colour whose three bytes start at `at`.
pub open spec fn color_at(pixels: Seq<u8>, at: int) -> RgbColor {
    RgbColor { red: pixels[at], green: pixels[at + 1], blue: pixels[at + 2] }
}

/// An embroidery pattern: the grid of cells, each in a thread's colour, the
/// threads to choose from, and the configuration it was made for.
#[derive(Debug, Clone)]
pub struct Canvas {
    pub embroidery: Vec<Vec<RgbColor>>,
    pub colors: Vec<DmcColor>,
    pub config: CanvasConfig,
}

impl Canvas {
    /// The grid has the configuration's rows and columns, every cell has the
    /// colour of one of the threads, and no two threads have one colour.
    pub open spec fn wf(&self) -> bool {
        &&& self.config.wf()
        &&& self.embroidery@.len() == self.config.rows
        &&& forall|r: int|
            0 <= r < self.embroidery@.len() ==> (#[trigger] self.embroidery@[r])@.len()
                == self.config.columns
        &&& forall|r: int, c: int|
            0 <= r < self.embroidery@.len() && 0 <= c < self.config.columns ==> has_color(
                self.colors@,
                #[trigger] self.embroidery@[r]@[c],
            )
        &&& forall|i: int, j: int|
            0 <= i < j < self.colors@.len() ==> (#[trigger] self.colors@[i]).rgb
                != (#[trigger] self.colors@[j]).rgb
    }

    /// The colour of the pixel in column `x` of row `y` of the rendering:
    /// that of the cell whose fill holds the pixel, and blank below the last
    /// row of cells.
    pub open spec fn rendered(&self, x: int, y: int) -> RgbColor {
        let row = cell_of(y, self.config.width as int, self.config.columns as int);
        let col = cell_of(x, self.config.width as int, self.config.columns as int);
        if row < self.config.rows {
            self.embroidery@[row]@[col]
        } else {
            blank()
        }
    }

    /// The rendering of the pattern at the image's size: every cell filled
    /// with its colour from `fill_start` to `fill_end` both ways, so that a
    /// pixel has the colour of the cell `cell_of` gives for its row and its
    /// column, and is blank where that row is beyond the last.
    pub fn get_bytes(&self) -> (image: Raster)
        requires
            self.wf(),
        ensures
            image.wf(),
            image@.width == self.config.width,
            image@.height == self.config.height,
            forall|x: int, y: int|
                0 <= x < self.config.width && 0 <= y < self.config.height ==> #[trigger] pixel_at(
                    image@,
                    x,
                    y,
                ) == self.rendered(x, y),
    {
        let width = self.config.width;
        let height = self.config.height;
        let columns = self.config.columns;
        let ghost w = width as int;
        let mut column_of: Vec<usize> = Vec::new();
        let mut x: u32 = 0;
        while x < width
            invariant
                x <= width,
                0 < columns,
                column_of@.len() == x,
                forall|i: int|
                    0 <= i < x ==> #[trigger] column_of@[i] == cell_of(
                        i,
                        width as int,
                        columns as int,
                    ),
            decreases width - x,
        {
            proof {
                lemma_cell_of_bound(x as int, width as int, columns as int);
            }
            column_of.push(cell_at(x, width, columns) as usize);
            x += 1;
        }
        let mut pixels: Vec<u8> = Vec::new();
        let mut y: u32 = 0;
        assert(0 * w == 0);
        while y < height
            invariant
                y <= height,
                self.wf(),
                width == self.config.width,
                height == self.config.height,
                columns == self.config.columns,
                w == width,
                column_of@.len() == width,
                forall|i: int|
                    0 <= i < width ==> #[trigger] column_of@[i] == cell_of(
                        i,
                        width as int,
                        columns as int,
                    ),
                pixels@.len() == 3 * (y * w),
                forall|xx: int, yy: int|
                    0 <= xx < width && 0 <= yy < y ==> color_at(pixels@, 3 * (yy * w + xx))
                        == #[trigger] self.rendered(xx, yy),
            decreases height - y,
        {
            let row = cell_at(y, width, columns);
            let ghost before = pixels@;
            let mut x: u32 = 0;
            while x < width
                invariant
                    x <= width,
                    y < height,
                    self.wf(),
                    width == self.config.width,
                    height == self.config.height,
                    columns == self.config.columns,
                    w == width,
                    row == cell_of(y as int, width as int, columns as int),
                    column_of@.len() == width,
                    forall|i: int|
                        0 <= i < width ==> #[trigger] column_of@[i] == cell_of(
                            i,
                            width as int,
                            columns as int,
                        ),
                    before.len() == 3 * (y * w),
                    pixels@.len() == before.len() + 3 * x,
                    pixels@.take(before.len() as int) == before,
                    forall|xx: int|
                        0 <= xx < x ==> color_at(pixels@, before.len() + 3 * xx)
                            == #[trigger] self.rendered(xx, y as int),
                decreases width - x,
            {
                proof {
                    lemma_cell_of_bound(x as int, width as int, columns as int);
                }
                let color = if row < self.config.rows as u64 {
                    self.embroidery[row as usize][column_of[x as usize]]
                } else {
                    RgbColor { red: 0, green: 0, blue: 0 }
                };
                let ghost row_before = pixels@;
                pixels.push(color.red);
                pixels.push(color.green);
                pixels.push(color.blue);
                proof {
                    assert(pixels@.take(before.len() as int) =~= row_before.take(
                        before.len() as int,
                    ));
                    assert forall|xx: int| 0 <= xx < x + 1 implies color_at(
                        pixels@,
                        before.len() + 3 * xx,
                    ) == #[trigger] self.rendered(xx, y as int) by {
                        if xx < x {
                            assert(color_at(row_before, before.len() + 3 * xx) == self.rendered(
                                xx,
                                y as int,
                            ));
                        }
                    }
                }
                x += 1;
            }
            proof {
                assert((y + 1) * w == y * w + w) by (nonlinear_arith);
                assert forall|xx: int, yy: int| 0 <= xx < width && 0 <= yy < y + 1 implies color_at(
                    pixels@,
                    3 * (yy * w + xx),
                ) == #[trigger] self.rendered(xx, yy) by {
                    if yy < y {
                        lemma_row_major(w, xx, yy, y as int);
                        assert(color_at(before, 3 * (yy * w + xx)) == self.rendered(xx, yy));
                        let at = 3 * (yy * w + xx);
                        assert(before[at] == pixels@.take(before.len() as int)[at]);
                        assert(before[at + 1] == pixels@.take(before.len() as int)[at + 1]);
                        assert(before[at + 2] == pixels@.take(before.len() as int)[at + 2]);
                    }
                }
            }
            y += 1;
        }
        assert(height * w == width * height) by (nonlinear_arith)
            requires
                w == width,
        ;
        let image = Raster::assemble(width, height, pixels);
        proof {
            assert forall|x: int, y: int|
                0 <= x < width && 0 <= y < height implies #[trigger] pixel_at(image@, x, y)
                == self.rendered(x, y) by {
                assert(color_at(pixels@, 3 * (y * w + x)) == self.rendered(x, y));
            }
        }
        image
    }

    /// The pattern whose cells are given, each as the colour that stands for
    /// it with what was measured of that colour: each cell takes the colour
    /// of the thread that stands for its colour. Cells that are not as many
    /// as the grid's, or do not fit the catalog, are refused.
    pub fn from_cells(config: CanvasConfig, catalog: &Catalog, cells: &Vec<Vec<Swatch>>) -> (canvas:
        Result<Canvas, CanvasError>)
        requires
            config.wf(),
            catalog.wf(),
        ensures
            match canvas {
                Ok(c) => {
                    &&& cells_fit(catalog@, config, cells@)
                    &&& c.wf()
                    &&& c.config == config
                    &&& c.colors@ == distinct_colors(flat_threads(catalog@, cells@))
                    &&& forall|row: int, col: int|
                        0 <= row < config.rows && 0 <= col < config.columns
                            ==> #[trigger] c.embroidery@[row]@[col] == cells@[row]@[col].thread(
                            catalog@,
                        ).rgb
                    &&& forall|row: int, col: int|
                        0 <= row < config.rows && 0 <= col < config.columns ==> has_color(
                            catalog@,
                            #[trigger] c.embroidery@[row]@[col],
                        )
                },
                Err(e) => !cells_fit(catalog@, config, cells@) && e == CanvasError::Measurements,
            },
    {
        if cells.len() != config.rows as usize {
            return Err(CanvasError::Measurements);
        }
        let mut all: Vec<DmcColor> = Vec::new();
        let mut embroidery: Vec<Vec<RgbColor>> = Vec::new();
        let mut row: usize = 0;
        while row < cells.len()
            invariant
                row <= cells.len(),
                cells@.len() == config.rows,
                config.wf(),
                catalog.wf(),
                forall|r: int|
                    0 <= r < row ==> (#[trigger] cells@[r])@.len() == config.columns && all_fit(
                        cells@[r]@,
                        catalog@,
                    ),
                all@ == flat_threads(catalog@, cells@.take(row as int)),
                embroidery@.len() == row,
                forall|r: int|
                    0 <= r < row ==> (#[trigger] embroidery@[r])@.len() == config.columns,
                forall|r: int, c: int|
                    0 <= r < row && 0 <= c < config.columns ==> #[trigger] embroidery@[r]@[c]
                        == cells@[r]@[c].thread(catalog@).rgb,
                forall|r: int, c: int|
                    0 <= r < row && 0 <= c < config.columns ==> has_color(
                        all@,
                        #[trigger] embroidery@[r]@[c],
                    ),
                forall|r: int, c: int|
                    0 <= r < row && 0 <= c < config.columns ==> has_color(
                        catalog@,
                        #[trigger] embroidery@[r]@[c],
                    ),
            decreases cells.len() - row,
        {
            let swatches = &cells[row];
            if swatches.len() != config.columns as usize || !swatches_fit(catalog, swatches) {
                return Err(CanvasError::Measurements);
            }
            let ghost before = all@;
            let ghost threads = threads_of(catalog@, swatches@);
            let mut colors: Vec<RgbColor> = Vec::new();
            let mut col: usize = 0;
            while col < swatches.len()
                invariant
                    col <= swatches.len(),
                    catalog.wf(),
                    all_fit(swatches@, catalog@),
                    threads == threads_of(catalog@, swatches@),
                    all@ == before + threads.take(col as int),
                    colors@.len() == col,
                    forall|c: int|
                        0 <= c < col ==> #[trigger] colors@[c] == swatches@[c].thread(catalog@).rgb,
                    forall|c: int| 0 <= c < col ==> has_color(catalog@, #[trigger] colors@[c]),
                decreases swatches.len() - col,
            {
                let thread = catalog.nearest(swatches[col].rgb, &swatches[col].diffs);
                proof {
                    catalog.lemma_wf();
                    lemma_nearest_position(
                        catalog@,
                        swatches@[col as int].rgb,
                        swatches@[col as int].diffs@,
                    );
                    assert(thread == threads[col as int]);
                    assert((before + threads.take(col as int)).push(thread) =~= before
                        + threads.take(col + 1));
                }
                all.push(thread);
                colors.push(thread.rgb);
                col += 1;
            }
            proof {
                assert(threads.take(swatches.len() as int) =~= threads);
                let next = cells@.take(row + 1);
                assert(next.drop_last() =~= cells@.take(row as int));
                assert(next.last() == *swatches);
                assert forall|r: int, c: int|
                    0 <= r < row && 0 <= c < config.columns implies has_color(
                    all@,
                    #[trigger] embroidery@[r]@[c],
                ) by {
                    assert(has_color(before, embroidery@[r]@[c]));
                    let at = choose|at: int|
                        0 <= at < before.len() && (#[trigger] before[at]).rgb
                            == embroidery@[r]@[c];
                    assert(all@[at] == before[at]);
                }
                assert forall|c: int| 0 <= c < config.columns implies has_color(
                    all@,
                    #[trigger] colors@[c],
                ) by {
                    assert(all@[before.len() + c] == threads[c]);
                    assert(all@[before.len() + c].rgb == colors@[c]);
                }
            }
            embroidery.push(colors);
            row += 1;
        }
        proof {
            assert(cells@.take(cells.len() as int) =~= cells@);
            lemma_distinct_colors(all@);
            assert forall|r: int, c: int|
                0 <= r < embroidery@.len() && 0 <= c < config.columns implies has_color(
                distinct_colors(all@),
                #[trigger] embroidery@[r]@[c],
            ) by {
                assert(has_color(all@, embroidery@[r]@[c]));
                let at = choose|at: int|
                    0 <= at < all@.len() && (#[trigger] all@[at]).rgb == embroidery@[r]@[c];
                assert(has_color(distinct_colors(all@), all@[at].rgb));
            }
        }
        let colors = distinct_threads(&all);
        Ok(Canvas { embroidery, colors, config })
    }

    /// The pattern of an image, from the swatches of its palette and, for
    /// each pixel in turn, its distance to each swatch. Each pixel votes for
    /// the first swatch at the least distance, and each cell takes the colour
    /// of the thread that stands for the swatch that wins its pixels' votes.
    /// Without a swatch no thread is found; measurements that do not fit the
    /// image, the swatches and the catalog are refused.
    pub fn new(
        config: CanvasConfig,
        catalog: &Catalog,
        swatches: &Vec<Swatch>,
        pixel_diffs: &Vec<i32>,
    ) -> (canvas: Result<Canvas, CanvasError>)
        requires
            config.wf(),
            catalog.wf(),
        ensures
            match canvas {
                Ok(c) => {
                    &&& canvas_refusal(catalog@, config, swatches@, pixel_diffs@).is_none()
                    &&& c.wf()
                    &&& c.config == config
                    &&& c.colors@ == distinct_colors(threads_of(catalog@, swatches@))
                    &&& forall|row: int, col: int|
                        0 <= row < config.rows && 0 <= col < config.columns
                            ==> #[trigger] c.embroidery@[row]@[col] == cell_color(
                            catalog@,
                            config,
                            swatches@,
                            pixel_diffs@,
                            row,
                            col,
                        )
                    &&& forall|row: int, col: int|
                        0 <= row < config.rows && 0 <= col < config.columns ==> has_color(
                            catalog@,
                            #[trigger] c.embroidery@[row]@[col],
                        )
                },
                Err(e) => canvas_refusal(catalog@, config, swatches@, pixel_diffs@) == Some(e),
            },
    {
        let palette = swatches.len();
        if palette == 0 {
            return Err(CanvasError::DmcNotFound);
        }
        if !swatches_fit(catalog, swatches) {
            return Err(CanvasError::Measurements);
        }
        assert(0 <= config.width * config.height) by (nonlinear_arith)
            requires
                0 <= config.width,
                0 <= config.height,
        ;
        assert(0 <= (config.width * config.height) * palette <= 167_772_160
            * 0xffff_ffff_ffff_ffff) by (nonlinear_arith)
            requires
                0 <= config.width * config.height <= 167_772_160,
                0 <= palette <= 0xffff_ffff_ffff_ffff,
        ;
        let expected: u128 = (((config.width as u64) * (config.height as u64)) as u128) * (
        palette as u128);
        if pixel_diffs.len() as u128 != expected {
            return Err(CanvasError::Measurements);
        }
        let colors = convert_rgb_to_dmc(catalog, swatches);
        let ghost threads = threads_of(catalog@, swatches@);
        proof {
            lemma_distinct_colors(threads);
        }
        let mut embroidery: Vec<Vec<RgbColor>> = Vec::new();
        let mut row: u32 = 0;
        while row < config.rows
            invariant
                row <= config.rows,
                config.wf(),
                catalog.wf(),
                palette == swatches@.len(),
                palette > 0,
                all_fit(swatches@, catalog@),
                pixel_diffs@.len() == (config.width * config.height) * palette,
                threads == threads_of(catalog@, swatches@),
                colors@ == distinct_colors(threads),
                forall|k: int|
                    0 <= k < threads.len() ==> has_color(colors@, (#[trigger] threads[k]).rgb),
                embroidery@.len() == row,
                forall|r: int|
                    0 <= r < row ==> (#[trigger] embroidery@[r])@.len() == config.columns,
                forall|r: int, c: int|
                    0 <= r < row && 0 <= c < config.columns ==> #[trigger] embroidery@[r]@[c]
                        == cell_color(catalog@, config, swatches@, pixel_diffs@, r, c),
                forall|r: int, c: int|
                    0 <= r < row && 0 <= c < config.columns ==> has_color(
                        colors@,
                        #[trigger] embroidery@[r]@[c],
                    ),
                forall|r: int, c: int|
                    0 <= r < row && 0 <= c < config.columns ==> has_color(
                        catalog@,
                        #[trigger] embroidery@[r]@[c],
                    ),
            decreases config.rows - row,
        {
            let (y0, y1) = config.sampled_rows(row);
            let mut cells: Vec<RgbColor> = Vec::new();
            let mut col: u32 = 0;
            while col < config.columns
                invariant
                    col <= config.columns,
                    row < config.rows,
                    config.wf(),
                    catalog.wf(),
                    palette == swatches@.len(),
                    palette > 0,
                    all_fit(swatches@, catalog@),
                    pixel_diffs@.len() == (config.width * config.height) * palette,
                    threads == threads_of(catalog@, swatches@),
                    forall|k: int|
                        0 <= k < threads.len() ==> has_color(colors@, (#[trigger] threads[k]).rgb),
                    y0 == sample_start(row as int, config.width as int, config.columns as int),
                    y1 == sample_end(
                        row as int,
                        config.width as int,
                        config.columns as int,
                        config.height as int,
                    ),
                    y0 < y1 <= config.height,
                    cells@.len() == col,
                    forall|c: int|
                        0 <= c < col ==> #[trigger] cells@[c] == cell_color(
                            catalog@,
                            config,
                            swatches@,
                            pixel_diffs@,
                            row as int,
                            c,
                        ),
                    forall|c: int| 0 <= c < col ==> has_color(colors@, #[trigger] cells@[c]),
                    forall|c: int| 0 <= c < col ==> has_color(catalog@, #[trigger] cells@[c]),
                decreases config.columns - col,
            {
                let (x0, x1) = config.sampled_columns(col);
                let votes = count_votes(
                    pixel_diffs,
                    palette,
                    config.width,
                    config.height,
                    x0,
                    x1,
                    y0,
                    y1,
                );
                let winner = prefer(&votes, swatches);
                assert(swatches@[winner as int].fits(catalog@));
                let thread = catalog.nearest(swatches[winner].rgb, &swatches[winner].diffs);
                proof {
                    catalog.lemma_wf();
                    lemma_nearest_position(
                        catalog@,
                        swatches@[winner as int].rgb,
                        swatches@[winner as int].diffs@,
                    );
                    assert(thread == threads[winner as int]);
                    assert(has_color(colors@, threads[winner as int].rgb));
                }
                cells.push(thread.rgb);
                col += 1;
            }
            embroidery.push(cells);
            row += 1;
        }
        Ok(Canvas { embroidery, colors, config })
    }
}

/// Rendering a pattern and sampling the rendering gives the pattern back,
/// where every cell samples only pixels that it fills, as it does where the
/// image's width is a multiple of the number of columns: the colour that
/// stands for a cell of the rendering is the cell's colour, whatever the b
/// coordinates, and the thread that stands for that colour has that colour,
/// whatever the distances, if the catalog has the colour.
pub proof fn lemma_render_then_sample(
    canvas: Canvas,
    threads: Seq<DmcColor>,
    image: RasterView,
    b_keys: Seq<i32>,
    diffs: Seq<i32>,
    row: int,
    col: int,
)
    requires
        canvas.wf(),
        samples_its_fill(
            canvas.config.width as int,
            canvas.config.columns as int,
            canvas.config.columns as int,
            canvas.config.width as int,
        ),
        samples_its_fill(
            canvas.config.width as int,
            canvas.config.columns as int,
            canvas.config.rows as int,
            canvas.config.height as int,
        ),
        image.width == canvas.config.width,
        image.height == canvas.config.height,
        image.pixels.len() == 3 * (image.width * image.height),
        forall|x: int, y: int|
            0 <= x < image.width && 0 <= y < image.height ==> #[trigger] pixel_at(image, x, y)
                == canvas.rendered(x, y),
        b_keys.len() == image.width * image.height,
        0 <= row < canvas.config.rows,
        0 <= col < canvas.config.columns,
        has_color(threads, canvas.embroidery@[row]@[col]),
    ensures
        ({
            let cell = Cell { image, ..canvas.config.cell(b_keys, row, col) };
            &&& cell.major_color() == canvas.embroidery@[row]@[col]
            &&& threads[nearest_position(threads, cell.major_color(), diffs)].rgb
                == cell.major_color()
        }),
{
    let config = canvas.config;
    let cell = Cell { image, ..config.cell(b_keys, row, col) };
    let width = config.width as int;
    let columns = config.columns as int;
    lemma_sample_columns(col, width, columns);
    lemma_sample_rows(row, width, config.height as int, columns);
    cell.lemma_best_in_rows(cell.y1);
    let best = cell.best_in_rows(cell.y1);
    assert(samples(col, best.0, width, columns, width));
    assert(samples(row, best.1, width, columns, config.height as int));
    assert(pixel_at(image, best.0, best.1) == canvas.rendered(best.0, best.1));
    let color = canvas.embroidery@[row]@[col];
    let at = choose|at: int| 0 <= at < threads.len() && (#[trigger] threads[at]).rgb == color;
    lemma_nearest_of_catalog_color(threads, at, diffs);
}

} // verus!
