use lab::Lab;
use pixify::embroidery::canvas::{Canvas, CanvasConfig};
use pixify::embroidery::colors::{Catalog, DmcColor, LabColor, RgbColor};
use pixify::embroidery::image::{
    contains_color, convert_rgb_to_dmc, distinct_threads, swatches_fit, ImagePalette, Raster,
    Swatch,
};
use pixify::embroidery::major::get_major_color_in_cell;
use pixify::embroidery::palette::{identifier, sort_by_lab};
use pixify::error::CanvasError;
use std::cmp::Ordering;
use std::f32::consts::PI;

fn degrees_to_radians(degrees: f32) -> f32 {
    degrees * (PI / 180.0)
}

fn radians_to_degrees(radians: f32) -> f32 {
    radians * (180.0 / PI)
}

fn get_h_prime_fn(x: f32, y: f32) -> f32 {
    if x == 0.0 && y == 0.0 {
        return 0.0;
    }
    let mut hue_angle = radians_to_degrees(x.atan2(y));
    if hue_angle < 0.0 {
        hue_angle += 360.0;
    }
    hue_angle
}

fn get_a_prime(a: f32, c_bar: f32) -> f32 {
    a + a / 2.0 * (1.0 - (c_bar.powi(7) / (c_bar.powi(7) + 25_f32.powi(7))).sqrt())
}

fn get_delta_h_prime(c1: f32, c2: f32, h_prime_1: f32, h_prime_2: f32) -> f32 {
    if 0.0 == c1 || 0.0 == c2 {
        return 0.0;
    }
    if (h_prime_1 - h_prime_2).abs() <= 180.0 {
        return h_prime_2 - h_prime_1;
    }
    if h_prime_2 <= h_prime_1 {
        return h_prime_2 - h_prime_1 + 360.0;
    }
    h_prime_2 - h_prime_1 - 360.0
}

fn get_uppercase_h_bar_prime(h_prime_1: f32, h_prime_2: f32) -> f32 {
    if (h_prime_1 - h_prime_2).abs() > 180.0 {
        return (h_prime_1 + h_prime_2 + 360.0) / 2.0;
    }
    (h_prime_1 + h_prime_2) / 2.0
}

fn get_uppercase_t(uppercase_h_bar_prime: f32) -> f32 {
    1.0 - 0.17 * degrees_to_radians(uppercase_h_bar_prime - 30.0).cos()
        + 0.24 * degrees_to_radians(2.0 * uppercase_h_bar_prime).cos()
        + 0.32 * degrees_to_radians(3.0 * uppercase_h_bar_prime + 6.0).cos()
        - 0.20 * degrees_to_radians(4.0 * uppercase_h_bar_prime - 63.0).cos()
}

fn get_r_sub_t(c_bar_prime: f32, uppercase_h_bar_prime: f32) -> f32 {
    -2.0 * (c_bar_prime.powi(7) / (c_bar_prime.powi(7) + 25f32.powi(7))).sqrt()
        * degrees_to_radians(60.0 * (-((uppercase_h_bar_prime - 275.0) / 25.0).powi(2)).exp())
            .sin()
}

fn calculate_diff(lab: Lab, lab_2: Lab) -> f32 {
    let c1 = (lab.a.powi(2) + lab.b.powi(2)).sqrt();
    let c2 = (lab_2.a.powi(2) + lab_2.b.powi(2)).sqrt();
    let c_bar = (c1 + c2) / 2.0;

    let delta_l_prime = lab_2.l - lab.l;
    let l_bar = (lab.l + lab_2.l) / 2.0;
    let a_prime_1 = get_a_prime(lab.a, c_bar);
    let a_prime_2 = get_a_prime(lab_2.a, c_bar);
    let c_prime_1 = (a_prime_1.powf(2.0) + lab.b.powf(2.0)).sqrt();
    let c_prime_2 = (a_prime_2.powf(2.0) + lab_2.b.powf(2.0)).sqrt();
    let c_bar_prime = (c_prime_1 + c_prime_2) / 2.0;
    let delta_c_prime = c_prime_2 - c_prime_1;
    let s_sub_l =
        1.0 + (0.015 * (l_bar - 50.0).powf(2.0)) / (20.0 + (l_bar - 50.0).powf(2.0)).sqrt();
    let s_sub_c = 1.0 + 0.045 * c_bar_prime;

    let h_prime_1 = get_h_prime_fn(lab.b, a_prime_1);
    let h_prime_2 = get_h_prime_fn(lab_2.b, a_prime_2);

    let delta_h_prime = get_delta_h_prime(c1, c2, h_prime_1, h_prime_2);

    let delta_uppercase_h_prime =
        2.0 * (c_prime_1 * c_prime_2).sqrt() * (degrees_to_radians(delta_h_prime) / 2.0).sin();

    let uppercase_h_bar_prime = get_uppercase_h_bar_prime(h_prime_1, h_prime_2);
    let uppercase_t = get_uppercase_t(uppercase_h_bar_prime);
    let s_sub_uppercase_h = 1.0 + 0.015 * c_bar_prime * uppercase_t;
    let r_sub_t = get_r_sub_t(c_bar_prime, uppercase_h_bar_prime);

    let lightness: f32 = delta_l_prime / (1.0 * s_sub_l);
    let chroma: f32 = delta_c_prime / (1.0 * s_sub_c);
    let hue: f32 = delta_uppercase_h_prime / (1.0 * s_sub_uppercase_h);

    (lightness.powi(2) + chroma.powi(2) + hue.powi(2) + r_sub_t * chroma * hue).sqrt()
}

fn lab_of(color: RgbColor) -> Lab {
    Lab::from_rgb(&[color.red, color.green, color.blue])
}

fn lab_of_thread(thread: &DmcColor) -> Lab {
    let (l, a, b) = thread.lab.to_bits();
    Lab { l: f32::from_bits(l), a: f32::from_bits(a), b: f32::from_bits(b) }
}

fn keys_of(lab: Lab) -> LabColor {
    LabColor::from_bits(lab.l.to_bits(), lab.a.to_bits(), lab.b.to_bits())
}

fn diffs_to_catalog(color: RgbColor, catalog: &Catalog) -> Vec<i32> {
    let lab = lab_of(color);
    (0..catalog.len())
        .map(|i| calculate_diff(lab, lab_of_thread(&catalog.get(i))) as i32)
        .collect()
}

fn swatches_of(palette: &[RgbColor], catalog: &Catalog) -> Vec<Swatch> {
    palette
        .iter()
        .map(|&rgb| Swatch { rgb, lab: keys_of(lab_of(rgb)), diffs: diffs_to_catalog(rgb, catalog) })
        .collect()
}

fn pixel_diffs_of(image: &Raster, palette: &[RgbColor]) -> Vec<i32> {
    let labs: Vec<Lab> = palette.iter().map(|&c| lab_of(c)).collect();
    let mut diffs = Vec::new();
    for y in 0..image.height() {
        for x in 0..image.width() {
            let lab = lab_of(image.pixel(x, y));
            for other in &labs {
                diffs.push(calculate_diff(lab, *other) as i32);
            }
        }
    }
    diffs
}

fn compare_lab(color_1: &DmcColor, color_2: &DmcColor) -> Ordering {
    let lab_1 = lab_of(color_1.rgb);
    let lab_2 = lab_of(color_2.rgb);
    (lab_1.l, lab_1.a, lab_1.b)
        .partial_cmp(&(lab_2.l, lab_2.a, lab_2.b))
        .unwrap_or(Ordering::Equal)
}

fn generate_image() -> Raster {
    let mut pixels = Vec::new();
    for y in 0..10u32 {
        for x in 0..10u32 {
            if (x + y) % 2 == 0 {
                pixels.extend_from_slice(&[0, 0, 0]);
            } else {
                pixels.extend_from_slice(&[255, 255, 255]);
            }
        }
    }
    Raster::new(10, 10, pixels).unwrap()
}

fn generate_gradient(width: Option<u32>, height: Option<u32>) -> Raster {
    let width = width.unwrap_or(50);
    let height = height.unwrap_or(50);
    let mut pixels = Vec::new();
    for y in 0..height {
        for x in 0..width {
            pixels.push(((x % 256) + 20) as u8);
            pixels.push(((y % 256) + 30) as u8);
            pixels.push(((x + y) % 256) as u8);
        }
    }
    Raster::new(width, height, pixels).unwrap()
}

fn make_canvas(image: Raster, n_cells_in_width: u8, n_colors: u8) -> Canvas {
    let catalog = Catalog::dmc();
    let config = CanvasConfig::new(image, Some(n_cells_in_width), Some(n_colors)).unwrap();
    let palette = config.img.get_rgb_palette(config.n_colors).unwrap();
    let swatches = swatches_of(&palette, &catalog);
    let pixel_diffs = pixel_diffs_of(&config.img, &palette);
    Canvas::new(config, &catalog, &swatches, &pixel_diffs).unwrap()
}

#[test]
fn colors_it_gets_dmc_color() {
    let catalog = Catalog::dmc();
    let color = RgbColor { red: 255, green: 29, blue: 30 };
    let DmcColor { rgb, .. } = color.find_dmc(&catalog, &diffs_to_catalog(color, &catalog));
    assert_eq!(rgb.red, 204);
    assert_eq!(rgb.green, 63);
    assert_eq!(rgb.blue, 24);
}

#[test]
fn colors_it_gets_existing_color() {
    let catalog = Catalog::dmc();
    let color = RgbColor { red: 255, green: 255, blue: 255 };
    let DmcColor { rgb, .. } = color.find_dmc(&catalog, &Vec::new());
    assert_eq!(rgb.red, 255);
    assert_eq!(rgb.green, 255);
    assert_eq!(rgb.blue, 255);
}

#[test]
fn it_gets_rgb_palette() {
    let image = generate_image();
    let palette = image.get_rgb_palette(3).unwrap();
    assert_eq!(palette.len(), 3)
}

#[test]
fn it_gets_rgb_palette_invalid_input() {
    let image = generate_image();
    let err = image.get_rgb_palette(2).unwrap_err();
    assert_eq!(err.to_string(), "Number of colors should be bigger than 2");
    assert_eq!(err, CanvasError::TooFewColors);
}

#[test]
fn it_gets_dmc_palette() {
    let catalog = Catalog::dmc();
    let image = generate_image();
    let palette = image.get_rgb_palette(3).unwrap();
    let mut colors = convert_rgb_to_dmc(&catalog, &swatches_of(&palette, &catalog));
    colors.sort_by(compare_lab);
    assert_eq!(colors.len(), 3);
    assert_eq!(colors[0].name, "310");
    assert_eq!(colors[1].name, "13");
    assert_eq!(colors[2].name, "B5200");
}

#[test]
fn it_gets_canvas() {
    let n_cells_in_width: u8 = 10;
    let n_colors: u8 = 5;

    let canvas = make_canvas(generate_gradient(None, None), n_cells_in_width, n_colors);
    let canvas_palette = canvas.get_dmc_palette();

    assert_eq!(canvas.embroidery[0].len(), n_cells_in_width as usize);
    assert_eq!(canvas_palette.len(), n_colors as usize);
}

#[test]
fn it_gets_canvas_bytes() {
    let n_cells_in_width: u8 = 10;
    let n_colors: u8 = 5;

    let canvas = make_canvas(generate_gradient(Some(10), Some(10)), n_cells_in_width, n_colors);
    let image = canvas.get_bytes();

    assert_eq!(image.width(), 10);
    assert_eq!(image.height(), 10);
    assert_eq!(image.pixels().len(), 300);
}

fn b_keys_of(image: &Raster) -> Vec<i32> {
    let mut keys = Vec::new();
    for y in 0..image.height() {
        for x in 0..image.width() {
            keys.push(keys_of(lab_of(image.pixel(x, y))).b);
        }
    }
    keys
}

fn measure_cells(colors: &[Vec<RgbColor>], catalog: &Catalog) -> Vec<Vec<Swatch>> {
    colors.iter().map(|row| swatches_of(row, catalog)).collect()
}

fn make_canvas_by_majority(image: Raster, n_cells_in_width: u8, catalog: &Catalog) -> Canvas {
    let config = CanvasConfig::new(image, Some(n_cells_in_width), None).unwrap();
    let majors = config.major_colors(&b_keys_of(&config.img));
    Canvas::from_cells(config, catalog, &measure_cells(&majors, catalog)).unwrap()
}

fn thread(name: &'static str, red: u8, green: u8, blue: u8, l: i32) -> DmcColor {
    DmcColor { name, rgb: RgbColor { red, green, blue }, lab: LabColor { l, a: 0, b: 0 } }
}

fn flat_image(width: u32, height: u32, color: [u8; 3]) -> Raster {
    let mut pixels = Vec::new();
    for _ in 0..width * height {
        pixels.extend_from_slice(&color);
    }
    Raster::new(width, height, pixels).unwrap()
}

#[test]
fn every_thread_stands_for_its_own_color() {
    let catalog = Catalog::dmc();
    assert_eq!(catalog.len(), 487);
    for i in 0..catalog.len() {
        let entry = catalog.get(i);
        let first = (0..i).find(|&j| catalog.get(j).rgb == entry.rgb);
        let found = catalog.nearest(entry.rgb, &Vec::new());
        assert_eq!(found.rgb, entry.rgb);
        match first {
            None => {
                assert_eq!(found.name, entry.name);
                assert_eq!(catalog.nearest_index(entry.rgb, &Vec::new()), i);
            }
            Some(j) => assert_eq!(found.name, catalog.get(j).name),
        }
    }
}

#[test]
fn a_color_under_two_names_gives_the_first() {
    let catalog = Catalog::dmc();
    let twice = RgbColor { red: 129, green: 74, blue: 126 };
    assert_eq!(catalog.get(42).rgb, twice);
    assert_eq!(catalog.get(484).rgb, twice);
    assert_eq!(catalog.exact(twice), Some(42));
    assert_eq!(twice.find_dmc(&catalog, &Vec::new()).name, "776");
}

#[test]
fn white_is_the_white_thread_at_no_distance() {
    let catalog = Catalog::dmc();
    let white = RgbColor { red: 255, green: 255, blue: 255 };
    let found = white.find_dmc(&catalog, &diffs_to_catalog(white, &catalog));
    assert_eq!(found.name, "B5200");
    assert_eq!(found.rgb, white);
    assert_eq!(catalog.exact(white), Some(0));
    assert_eq!(calculate_diff(lab_of(white), lab_of_thread(&found)), 0.0);
}

#[test]
fn a_strong_red_is_thread_608() {
    let catalog = Catalog::dmc();
    let color = RgbColor { red: 255, green: 29, blue: 30 };
    let diffs = diffs_to_catalog(color, &catalog);
    assert_eq!(catalog.exact(color), None);
    assert_eq!(catalog.nearest_index(color, &diffs), 342);
    assert_eq!(catalog.nearest(color, &diffs).name, "608");
}

#[test]
fn the_first_of_equal_distances_wins() {
    let catalog = Catalog::new(vec![
        thread("a", 10, 10, 10, 1),
        thread("b", 20, 20, 20, 2),
        thread("c", 30, 30, 30, 3),
    ])
    .unwrap();
    let color = RgbColor { red: 1, green: 2, blue: 3 };
    assert_eq!(catalog.nearest(color, &vec![7, 4, 4]).name, "b");
    assert_eq!(catalog.nearest(color, &vec![4, 4, 4]).name, "a");
    assert_eq!(catalog.nearest(color, &vec![9, 8, -1]).name, "c");
    assert_eq!(pixify::embroidery::colors::first_min_index(&vec![5, 3, 3, 7]), 1);
}

#[test]
fn an_exact_match_is_taken_whatever_the_distances() {
    let catalog = Catalog::new(vec![
        thread("a", 10, 10, 10, 1),
        thread("b", 20, 20, 20, 2),
    ])
    .unwrap();
    let color = RgbColor { red: 20, green: 20, blue: 20 };
    assert_eq!(catalog.nearest(color, &vec![0, 100]).name, "b");
}

#[test]
fn a_catalog_holds_a_thread() {
    assert!(Catalog::new(Vec::new()).is_none());
    let catalog = Catalog::new(vec![thread("a", 10, 10, 10, 1)]).unwrap();
    assert_eq!(catalog.len(), 1);
    assert_eq!(catalog.get(0).name, "a");
}

#[test]
fn keys_order_as_the_coordinates_do() {
    let values: [f32; 9] = [-128.0, -17.882734, -1.0e-30, -0.0, 0.0, 1.0e-30, 5.332482, 100.0, 127.5];
    let keys: Vec<i32> = values
        .iter()
        .map(|v| pixify::embroidery::colors::key_from_bits(v.to_bits()))
        .collect();
    for i in 0..values.len() {
        for j in 0..values.len() {
            assert_eq!(values[i] < values[j], keys[i] < keys[j]);
            assert_eq!(values[i] == values[j], keys[i] == keys[j]);
        }
    }
    assert_eq!(pixify::embroidery::colors::key_from_bits(0), 0);
    assert_eq!(pixify::embroidery::colors::key_from_bits(0x8000_0000), 0);
    assert_eq!(pixify::embroidery::colors::key_from_bits(0x42c8_0000), 1120403456);
    assert_eq!(pixify::embroidery::colors::key_from_bits(0x8000_0001), -1);
    assert_eq!(pixify::embroidery::colors::key_to_bits(-1), 0x8000_0001);
    assert_eq!(pixify::embroidery::colors::key_to_bits(1120403456), 0x42c8_0000);
    assert_eq!(pixify::embroidery::colors::key_to_bits(i32::MIN), 0);
}

#[test]
fn the_table_holds_the_coordinates_of_its_colors() {
    let catalog = Catalog::dmc();
    let white = catalog.get(0);
    assert_eq!(white.lab, LabColor::from_bits(100.0f32.to_bits(), 0, 0));
    let black = catalog.get(451);
    assert_eq!(black.name, "310");
    assert_eq!(black.lab, LabColor { l: 0, a: 0, b: 0 });
    let thread = catalog.get(1);
    assert_eq!(thread.name, "3713");
    assert_eq!(thread.lab.to_bits().0, 85.80929f32.to_bits());
    assert_eq!(thread.lab.to_bits().1, 12.811243f32.to_bits());
    assert_eq!(thread.lab.to_bits().2, 5.332482f32.to_bits());
}

#[test]
fn lab_order_is_lexicographic() {
    let a = LabColor { l: 1, a: 5, b: 9 };
    let b = LabColor { l: 1, a: 6, b: 0 };
    let c = LabColor { l: 1, a: 6, b: 1 };
    let d = LabColor { l: 2, a: -7, b: -7 };
    assert!(a.precedes(&b) && b.precedes(&c) && c.precedes(&d) && a.precedes(&d));
    assert!(!b.precedes(&a) && !a.precedes(&a) && !d.precedes(&c));
}

#[test]
fn colors_are_kept_once_in_first_order() {
    let list = vec![
        thread("a", 1, 1, 1, 0),
        thread("b", 2, 2, 2, 0),
        thread("c", 1, 1, 1, 0),
        thread("d", 3, 3, 3, 0),
        thread("e", 2, 2, 2, 0),
    ];
    let names: Vec<&str> = distinct_threads(&list).iter().map(|t| t.name).collect();
    assert_eq!(names, vec!["a", "b", "d"]);
    assert!(contains_color(&list, RgbColor { red: 3, green: 3, blue: 3 }));
    assert!(!contains_color(&list, RgbColor { red: 4, green: 3, blue: 3 }));
}

#[test]
fn swatches_give_their_threads_once() {
    let catalog = Catalog::new(vec![
        thread("a", 10, 10, 10, 1),
        thread("b", 20, 20, 20, 2),
        thread("c", 30, 30, 30, 3),
    ])
    .unwrap();
    let lab = LabColor { l: 0, a: 0, b: 0 };
    let swatches = vec![
        Swatch { rgb: RgbColor { red: 1, green: 1, blue: 1 }, lab, diffs: vec![3, 2, 1] },
        Swatch { rgb: RgbColor { red: 10, green: 10, blue: 10 }, lab, diffs: vec![] },
        Swatch { rgb: RgbColor { red: 2, green: 2, blue: 2 }, lab, diffs: vec![9, 9, 0] },
    ];
    assert!(swatches_fit(&catalog, &swatches));
    let names: Vec<&str> =
        convert_rgb_to_dmc(&catalog, &swatches).iter().map(|t| t.name).collect();
    assert_eq!(names, vec!["c", "a"]);
    let short = vec![Swatch { rgb: RgbColor { red: 1, green: 1, blue: 1 }, lab, diffs: vec![3] }];
    assert!(!swatches_fit(&catalog, &short));
}

#[test]
fn a_raster_has_three_bytes_a_pixel() {
    assert!(Raster::new(2, 2, vec![0; 12]).is_some());
    assert!(Raster::new(2, 2, vec![0; 11]).is_none());
    assert!(Raster::new(0, 5, Vec::new()).is_some());
    let image = Raster::new(2, 2, vec![1, 2, 3, 4, 5, 6, 7, 8, 9, 10, 11, 12]).unwrap();
    assert_eq!(image.pixel(1, 0), RgbColor { red: 4, green: 5, blue: 6 });
    assert_eq!(image.pixel(0, 1), RgbColor { red: 7, green: 8, blue: 9 });
    assert_eq!((image.width(), image.height()), (2, 2));
}

#[test]
fn a_palette_is_refused_out_of_range() {
    let image = generate_image();
    assert_eq!(image.get_rgb_palette(0).unwrap_err(), CanvasError::TooFewColors);
    assert_eq!(image.get_rgb_palette(1).unwrap_err(), CanvasError::TooFewColors);
    assert_eq!(image.get_rgb_palette(201).unwrap_err(), CanvasError::TooManyColors);
    assert_eq!(image.get_rgb_palette(255).unwrap_err(), CanvasError::TooManyColors);
    let empty = Raster::new(0, 0, Vec::new()).unwrap();
    assert_eq!(empty.get_rgb_palette(5).unwrap_err(), CanvasError::ImageSize);
    assert!(image.get_rgb_palette(200).is_ok());
}

#[test]
fn a_palette_has_the_colors_asked_for() {
    let image = generate_gradient(None, None);
    for n in 3..=12u8 {
        assert_eq!(image.get_rgb_palette(n).unwrap().len(), n as usize);
    }
    let again = image.get_rgb_palette(5).unwrap();
    assert_eq!(again, image.get_rgb_palette(5).unwrap());
}

#[test]
fn a_flat_image_has_one_color() {
    let image = flat_image(4, 4, [200, 10, 10]);
    let palette = image.get_rgb_palette(5).unwrap();
    assert!(!palette.is_empty());
    assert_eq!(palette[0], RgbColor { red: 204, green: 12, blue: 12 });
}

#[test]
fn a_configuration_is_refused_out_of_range() {
    let config = |w: u32, h: u32, cells: Option<u8>, colors: Option<u8>| {
        CanvasConfig::new(flat_image(w, h, [1, 2, 3]), cells, colors).map(|c| (c.rows, c.columns))
    };
    assert_eq!(config(10, 10, Some(0), Some(5)).unwrap_err(), CanvasError::NoColumns);
    assert_eq!(config(10, 10, Some(11), Some(5)).unwrap_err(), CanvasError::TooManyColumns);
    assert_eq!(config(10, 10, None, Some(5)).unwrap_err(), CanvasError::TooManyColumns);
    assert_eq!(config(0, 10, Some(1), Some(5)).unwrap_err(), CanvasError::TooManyColumns);
    assert_eq!(config(10, 10, Some(10), Some(1)).unwrap_err(), CanvasError::TooFewColors);
    assert_eq!(config(10, 10, Some(10), Some(2)).unwrap_err(), CanvasError::TooFewColors);
    assert_eq!(config(10, 10, Some(10), Some(201)).unwrap_err(), CanvasError::TooManyColors);
    assert_eq!(config(100, 1, Some(1), Some(5)).unwrap_err(), CanvasError::NoRows);
    assert_eq!(config(10, 0, Some(1), Some(5)).unwrap_err(), CanvasError::NoRows);
    assert_eq!(config(0, 10, Some(0), Some(1)).unwrap_err(), CanvasError::NoColumns);
    assert_eq!(config(10, 10, Some(10), Some(3)).unwrap(), (10, 10));
    assert_eq!(config(10, 10, Some(10), Some(200)).unwrap(), (10, 10));
}

#[test]
fn a_configuration_has_its_defaults() {
    let config = CanvasConfig::new(flat_image(64, 48, [1, 2, 3]), None, None).unwrap();
    assert_eq!(config.columns, 32);
    assert_eq!(config.n_colors, 20);
    assert_eq!(config.rows, 24);
    assert_eq!((config.width, config.height), (64, 48));
}

#[test]
fn rows_are_the_height_over_the_side_rounded() {
    let rows = |w: u32, h: u32, cells: u8| {
        CanvasConfig::new(flat_image(w, h, [1, 2, 3]), Some(cells), Some(5)).unwrap().rows
    };
    assert_eq!(rows(50, 50, 10), 10);
    assert_eq!(rows(10, 14, 1), 1);
    assert_eq!(rows(10, 15, 1), 2);
    assert_eq!(rows(10, 16, 1), 2);
    assert_eq!(rows(3, 2, 2), 1);
    assert_eq!(rows(5, 2, 4), 2);
    assert_eq!(rows(12, 8, 4), 3);
    assert_eq!(rows(100, 50, 1), 1);
}

#[test]
fn cells_sample_rounded_bounds() {
    let config = CanvasConfig::new(flat_image(5, 5, [1, 2, 3]), Some(4), Some(5)).unwrap();
    assert_eq!(config.rows, 4);
    let columns: Vec<(u32, u32)> = (0..4).map(|c| config.sampled_columns(c)).collect();
    assert_eq!(columns, vec![(0, 1), (1, 3), (3, 4), (4, 5)]);
    let rows: Vec<(u32, u32)> = (0..4).map(|r| config.sampled_rows(r)).collect();
    assert_eq!(rows, vec![(0, 1), (1, 3), (3, 4), (4, 5)]);
    let tall = CanvasConfig::new(flat_image(10, 16, [1, 2, 3]), Some(1), Some(5)).unwrap();
    assert_eq!(tall.sampled_rows(0), (0, 10));
    assert_eq!(tall.sampled_rows(1), (10, 16));
    assert_eq!(tall.sampled_columns(0), (0, 10));
}

#[test]
fn a_canvas_is_refused_without_fitting_measurements() {
    let catalog = Catalog::dmc();
    let image = generate_gradient(Some(10), Some(10));
    let config = CanvasConfig::new(image, Some(5), Some(5)).unwrap();
    let palette = config.img.get_rgb_palette(5).unwrap();
    let swatches = swatches_of(&palette, &catalog);
    let pixel_diffs = pixel_diffs_of(&config.img, &palette);

    let none = Canvas::new(config.clone(), &catalog, &Vec::new(), &Vec::new());
    assert_eq!(none.unwrap_err(), CanvasError::DmcNotFound);

    let mut short = pixel_diffs.clone();
    short.pop();
    let refused = Canvas::new(config.clone(), &catalog, &swatches, &short);
    assert_eq!(refused.unwrap_err(), CanvasError::Measurements);

    let mut unmeasured = swatches.clone();
    unmeasured[0].diffs.pop();
    let refused = Canvas::new(config.clone(), &catalog, &unmeasured, &pixel_diffs);
    assert_eq!(refused.unwrap_err(), CanvasError::Measurements);

    assert!(Canvas::new(config, &catalog, &swatches, &pixel_diffs).is_ok());
}

#[test]
fn a_cell_takes_the_thread_of_the_swatch_with_most_votes() {
    let catalog = Catalog::new(vec![
        thread("a", 10, 10, 10, 1),
        thread("b", 20, 20, 20, 2),
        thread("c", 30, 30, 30, 3),
    ])
    .unwrap();
    let config = CanvasConfig::new(flat_image(4, 2, [0, 0, 0]), Some(2), Some(3)).unwrap();
    assert_eq!((config.rows, config.columns), (1, 2));
    let swatch = |rgb: u8, b: i32, diffs: Vec<i32>| Swatch {
        rgb: RgbColor { red: rgb, green: rgb, blue: rgb },
        lab: LabColor { l: 0, a: 0, b },
        diffs,
    };
    let swatches = vec![
        swatch(1, 5, vec![1, 2, 3]),
        swatch(2, 4, vec![3, 1, 2]),
        swatch(3, 4, vec![3, 2, 1]),
    ];
    // Pixels in rows of four; the left cell holds columns 0 and 1.
    let pixel_diffs = vec![
        0, 9, 9, /**/ 0, 9, 9, /**/ 9, 0, 9, /**/ 9, 9, 0, //
        0, 9, 9, /**/ 9, 0, 9, /**/ 9, 0, 9, /**/ 9, 9, 0,
    ];
    let canvas = Canvas::new(config, &catalog, &swatches, &pixel_diffs).unwrap();
    // Left: swatch 0 has three votes. Right: swatches 1 and 2 have two each
    // and the same b coordinate, so the first of them wins.
    assert_eq!(canvas.embroidery, vec![vec![catalog.get(0).rgb, catalog.get(1).rgb]]);
    let names: Vec<&str> = canvas.colors.iter().map(|t| t.name).collect();
    assert_eq!(names, vec!["a", "b", "c"]);
    let palette = canvas.get_dmc_palette();
    assert_eq!(palette.len(), 2);
    assert_eq!((palette[0].identifier.as_str(), palette[0].color.name, palette[0].n_stitches), ("01", "a", 1));
    assert_eq!((palette[1].identifier.as_str(), palette[1].color.name, palette[1].n_stitches), ("02", "b", 1));
}

#[test]
fn of_equal_votes_the_smaller_b_wins() {
    let catalog = Catalog::new(vec![
        thread("a", 10, 10, 10, 1),
        thread("b", 20, 20, 20, 2),
    ])
    .unwrap();
    let config = CanvasConfig::new(flat_image(2, 1, [0, 0, 0]), Some(1), Some(3)).unwrap();
    assert_eq!((config.rows, config.columns), (1, 1));
    let swatches = vec![
        Swatch { rgb: RgbColor { red: 1, green: 1, blue: 1 }, lab: LabColor { l: 0, a: 0, b: 7 }, diffs: vec![0, 1] },
        Swatch { rgb: RgbColor { red: 2, green: 2, blue: 2 }, lab: LabColor { l: 9, a: 9, b: -7 }, diffs: vec![1, 0] },
    ];
    let canvas = Canvas::new(config, &catalog, &swatches, &vec![0, 5, 5, 0]).unwrap();
    assert_eq!(canvas.embroidery, vec![vec![catalog.get(1).rgb]]);
    // A pixel at equal distances votes for the first swatch.
    let config = CanvasConfig::new(flat_image(2, 1, [0, 0, 0]), Some(1), Some(3)).unwrap();
    let canvas = Canvas::new(config, &catalog, &swatches, &vec![5, 5, 5, 5]).unwrap();
    assert_eq!(canvas.embroidery, vec![vec![catalog.get(0).rgb]]);
}

#[test]
fn stitches_add_up_to_the_cells() {
    for (width, height, cells, colors) in [(50, 50, 10, 5), (37, 23, 7, 8), (10, 14, 1, 3), (16, 9, 16, 20)] {
        let canvas = make_canvas(generate_gradient(Some(width), Some(height)), cells, colors);
        let palette = canvas.get_dmc_palette();
        let total: u32 = palette.iter().map(|entry| entry.n_stitches).sum();
        assert_eq!(total, canvas.config.rows * canvas.config.columns);
        assert_eq!(canvas.embroidery.len() as u32, canvas.config.rows);
        for entry in &palette {
            assert!(entry.n_stitches > 0);
            assert_eq!(entry.n_stitches, canvas.calculate_stitches(entry.color.rgb));
        }
    }
}

#[test]
fn a_manifest_is_numbered_and_sorted() {
    let canvas = make_canvas(generate_gradient(None, None), 10, 12);
    let palette = canvas.get_dmc_palette();
    assert!(palette.len() > 1);
    for (i, entry) in palette.iter().enumerate() {
        assert_eq!(entry.identifier, format!("{:02}", i + 1));
    }
    for pair in palette.windows(2) {
        assert_ne!(compare_lab(&pair[0].color, &pair[1].color), Ordering::Greater);
        assert_ne!(pair[0].identifier, pair[1].identifier);
        assert_ne!(pair[0].color.rgb, pair[1].color.rgb);
    }
}

#[test]
fn identifiers_have_two_digits_at_least() {
    assert_eq!(identifier(1), "01");
    assert_eq!(identifier(9), "09");
    assert_eq!(identifier(10), "10");
    assert_eq!(identifier(99), "99");
    assert_eq!(identifier(100), "100");
    assert_eq!(identifier(201), "201");
    assert_eq!(identifier(0), "00");
}

#[test]
fn sorting_keeps_equal_threads_in_order() {
    let list = vec![
        thread("a", 1, 1, 1, 5),
        thread("b", 2, 2, 2, 3),
        thread("c", 3, 3, 3, 5),
        thread("d", 4, 4, 4, -1),
        thread("e", 5, 5, 5, 3),
    ];
    let names: Vec<&str> = sort_by_lab(&list).iter().map(|t| t.name).collect();
    assert_eq!(names, vec!["d", "b", "e", "a", "c"]);
    assert!(sort_by_lab(&Vec::new()).is_empty());
}

#[test]
fn every_cell_has_the_color_of_a_thread() {
    let catalog = Catalog::dmc();
    let canvas = make_canvas(generate_gradient(Some(40), Some(30)), 8, 6);
    for row in &canvas.embroidery {
        assert_eq!(row.len(), 8);
        for &cell in row {
            assert!(catalog.exact(cell).is_some());
            assert!(contains_color(&canvas.colors, cell));
        }
    }
}

#[test]
fn a_rendering_fills_each_cell() {
    let catalog = Catalog::dmc();
    let canvas = make_canvas_by_majority(generate_gradient(Some(5), Some(5)), 4, &catalog);
    let image = canvas.get_bytes();
    assert_eq!((image.width(), image.height()), (5, 5));
    // Cells fill from the ceiling of their bounds: 0, 2, 3, 4, 5.
    let cell_of = [0usize, 0, 1, 2, 3];
    for y in 0..5u32 {
        for x in 0..5u32 {
            assert_eq!(image.pixel(x, y), canvas.embroidery[cell_of[y as usize]][cell_of[x as usize]]);
        }
    }
}

#[test]
fn a_rendering_is_blank_below_the_last_row() {
    let catalog = Catalog::dmc();
    let canvas = make_canvas_by_majority(flat_image(10, 14, [200, 10, 10]), 1, &catalog);
    assert_eq!(canvas.embroidery.len(), 1);
    let image = canvas.get_bytes();
    assert_eq!((image.width(), image.height()), (10, 14));
    for y in 0..14u32 {
        for x in 0..10u32 {
            let expected =
                if y < 10 { canvas.embroidery[0][0] } else { RgbColor { red: 0, green: 0, blue: 0 } };
            assert_eq!(image.pixel(x, y), expected);
        }
    }
}

#[test]
fn the_major_color_is_the_most_frequent() {
    let image = Raster::new(
        3,
        2,
        vec![
            9, 9, 9, /**/ 1, 1, 1, /**/ 2, 2, 2, //
            2, 2, 2, /**/ 1, 1, 1, /**/ 1, 1, 1,
        ],
    )
    .unwrap();
    let keys = vec![0; 6];
    let one = RgbColor { red: 1, green: 1, blue: 1 };
    let two = RgbColor { red: 2, green: 2, blue: 2 };
    let nine = RgbColor { red: 9, green: 9, blue: 9 };
    assert_eq!(get_major_color_in_cell(&image, &keys, 0, 3, 0, 2), one);
    assert_eq!(get_major_color_in_cell(&image, &keys, 0, 1, 0, 1), nine);
    // Of two colours with one pixel each, the first pixel's.
    assert_eq!(get_major_color_in_cell(&image, &keys, 0, 2, 0, 1), nine);
    // Of two colours with as many pixels, the one with the smaller b.
    assert_eq!(get_major_color_in_cell(&image, &vec![5, 4, 3, 3, 4, 4], 0, 2, 0, 1), one);
    assert_eq!(get_major_color_in_cell(&image, &vec![5, 4, 3, 3, 4, 4], 0, 3, 0, 1), two);
    assert_eq!(get_major_color_in_cell(&image, &keys, 2, 3, 0, 2), two);
    assert_eq!(get_major_color_in_cell(&image, &vec![0, 0, 7, 7, 0, 6], 2, 3, 0, 2), one);
}

#[test]
fn a_canvas_from_cells_takes_their_threads() {
    let catalog = Catalog::dmc();
    let image = generate_gradient(Some(12), Some(8));
    let config = CanvasConfig::new(image, Some(4), None).unwrap();
    let majors = config.major_colors(&b_keys_of(&config.img));
    assert_eq!(majors.len(), 3);
    let cells = measure_cells(&majors, &catalog);
    let canvas = Canvas::from_cells(config.clone(), &catalog, &cells).unwrap();
    for (r, row) in canvas.embroidery.iter().enumerate() {
        for (c, &cell) in row.iter().enumerate() {
            let color = majors[r][c];
            assert_eq!(cell, color.find_dmc(&catalog, &diffs_to_catalog(color, &catalog)).rgb);
        }
    }
    let total: u32 = canvas.get_dmc_palette().iter().map(|entry| entry.n_stitches).sum();
    assert_eq!(total, 12);

    let mut short = cells.clone();
    short.pop();
    let refused = Canvas::from_cells(config.clone(), &catalog, &short);
    assert_eq!(refused.unwrap_err(), CanvasError::Measurements);
    let mut narrow = cells.clone();
    narrow[1].pop();
    let refused = Canvas::from_cells(config.clone(), &catalog, &narrow);
    assert_eq!(refused.unwrap_err(), CanvasError::Measurements);
    let mut unmeasured = cells;
    unmeasured[2][3].diffs = vec![1, 2, 3];
    unmeasured[2][3].rgb = RgbColor { red: 1, green: 2, blue: 3 };
    let refused = Canvas::from_cells(config, &catalog, &unmeasured);
    assert_eq!(refused.unwrap_err(), CanvasError::Measurements);
}

#[test]
fn a_rendering_sampled_again_gives_the_pattern() {
    let catalog = Catalog::dmc();
    for (width, height, cells) in [(12, 8, 4), (50, 50, 10), (30, 45, 15), (7, 7, 7)] {
        let canvas =
            make_canvas_by_majority(generate_gradient(Some(width), Some(height)), cells, &catalog);
        let rendering = canvas.get_bytes();
        let again = make_canvas_by_majority(rendering, cells, &catalog);
        assert_eq!(again.embroidery, canvas.embroidery);
    }
}

#[test]
fn errors_say_what_went_wrong() {
    assert_eq!(CanvasError::DmcNotFound.to_string(), "Error during DMC determination");
    assert_eq!(CanvasError::TooFewColors.to_string(), "Number of colors should be bigger than 2");
    assert_eq!(
        CanvasError::TooManyColors.to_string(),
        "Number of colors should not be bigger than 200"
    );
    assert_eq!(
        CanvasError::NoColumns.to_string(),
        "Number of cells in width should be bigger than 0"
    );
    assert_eq!(
        CanvasError::TooManyColumns.to_string(),
        "Number of cells in width should not be bigger than the width"
    );
    assert_eq!(CanvasError::NoRows.to_string(), "The image is too flat for a row of cells");
    assert_eq!(
        CanvasError::ImageSize.to_string(),
        "The image should have between 1 and 167772160 pixels"
    );
    assert_eq!(CanvasError::Measurements.to_string(), "The measurements do not fit the image");
}
