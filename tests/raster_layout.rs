use mandelbrot::color::Color;
use mandelbrot::escape::CalcResult;
use mandelbrot::raster::{render_grid, render_results};

fn rgb(red: u8, green: u8, blue: u8) -> Color {
    Color { red, green, blue }
}

fn sample_grid() -> Vec<CalcResult> {
    vec![
        CalcResult::Bounded,
        CalcResult::BailedOut(0),
        CalcResult::BailedOut(5),
        CalcResult::BailedOut(9),
        CalcResult::Bounded,
        CalcResult::BailedOut(1),
    ]
}

#[test]
fn render_places_colors_row_major() {
    let raster = render_results(3, 2, &sample_grid(), 10);
    assert_eq!(raster.dimensions(), (3, 2));
    assert_eq!(raster.color_at(0, 0), rgb(0, 0, 0));
    assert_eq!(raster.color_at(1, 0), rgb(0, 0, 0));
    assert_eq!(raster.color_at(2, 0), rgb(255, 127, 0));
    assert_eq!(raster.color_at(0, 1), rgb(255, 255, 178));
    assert_eq!(raster.color_at(1, 1), rgb(0, 0, 0));
    assert_eq!(raster.color_at(2, 1), rgb(76, 0, 0));
}

#[test]
fn frame_buffer_packs_each_pixel() {
    let raster = render_results(3, 2, &sample_grid(), 10);
    assert_eq!(
        raster.frame_buffer(),
        vec![0, 0, 0x00FF_7F00, 0x00FF_FFB2, 0, 0x004C_0000]
    );
}

#[test]
fn samples_hold_three_bytes_per_pixel() {
    let raster = render_results(3, 2, &sample_grid(), 10);
    assert_eq!(
        raster.samples(),
        vec![0, 0, 0, 0, 0, 0, 255, 127, 0, 255, 255, 178, 0, 0, 0, 76, 0, 0]
    );
}

#[test]
fn empty_grid_renders_empty() {
    let raster = render_results(0, 0, &Vec::new(), 10);
    assert_eq!(raster.dimensions(), (0, 0));
    assert!(raster.frame_buffer().is_empty());
    assert!(raster.samples().is_empty());
    let wide = render_results(4, 0, &Vec::new(), 10);
    assert_eq!(wide.dimensions(), (4, 0));
    assert!(wide.frame_buffer().is_empty());
}

#[test]
fn single_column_grid() {
    let results = vec![CalcResult::BailedOut(1), CalcResult::BailedOut(2)];
    let raster = render_results(1, 2, &results, 3);
    assert_eq!(raster.color_at(0, 0), rgb(255, 0, 0));
    assert_eq!(raster.color_at(0, 1), rgb(255, 255, 0));
    assert_eq!(raster.frame_buffer(), vec![0x00FF_0000, 0x00FF_FF00]);
}

#[test]
fn grid_is_row_major() {
    let cells = render_grid(3, 2, |x, y| (x, y));
    assert_eq!(cells, vec![(0, 0), (1, 0), (2, 0), (0, 1), (1, 1), (2, 1)]);
}

#[test]
fn empty_grid_has_no_cells() {
    assert!(render_grid(0, 5, |x, y| x + y).is_empty());
    assert!(render_grid(5, 0, |x, y| x + y).is_empty());
}

#[test]
fn grid_feeds_the_painter() {
    let results = render_grid(2, 2, |x, y| {
        if x == y {
            CalcResult::Bounded
        } else {
            CalcResult::BailedOut((x + 2 * y) as u16)
        }
    });
    assert!(results.iter().all(|r| r.is_within_budget(3)));
    assert!(!CalcResult::BailedOut(3).is_within_budget(3));
    let raster = render_results(2, 2, &results, 3);
    assert_eq!(raster.frame_buffer(), vec![0, 0x00FF_0000, 0x00FF_FF00, 0]);
}
