use std::f64::consts::PI;

use ray_tracer::color::Color;
use ray_tracer::image::Image;
use ray_tracer::tracer::{nearest_hit, pixel_color, RayTracer};

fn gradient(x: u32, y: u32) -> Color {
    Color { r: x as i32, g: y as i32, b: (x * 10 + y) as i32 }
}

#[test]
fn new_image_is_black() {
    let img = Image::new(3, 2);
    assert_eq!(img.width, 3);
    assert_eq!(img.height, 2);
    assert_eq!(img.matrix.len(), 2);
    for row in &img.matrix {
        assert_eq!(row.len(), 3);
        for c in row {
            assert_eq!(*c, Color { r: 0, g: 0, b: 0 });
        }
    }
}

#[test]
fn empty_image_has_no_bytes() {
    let img = Image::new(0, 0);
    assert!(img.convert_to_one_row_array().is_empty());
    let img = Image::new(4, 0);
    assert!(img.convert_to_one_row_array().is_empty());
}

#[test]
fn bytes_are_row_major_rgb() {
    let img = Image {
        width: 2,
        height: 2,
        matrix: vec![
            vec![Color { r: 1, g: 2, b: 3 }, Color { r: 4, g: 5, b: 6 }],
            vec![Color { r: 7, g: 8, b: 9 }, Color { r: 10, g: 11, b: 12 }],
        ],
    };
    assert_eq!(img.convert_to_one_row_array(), vec![1, 2, 3, 4, 5, 6, 7, 8, 9, 10, 11, 12]);
}

#[test]
fn bytes_truncate_channels() {
    let img = Image {
        width: 1,
        height: 1,
        matrix: vec![vec![Color { r: 256, g: -1, b: 255 }]],
    };
    assert_eq!(img.convert_to_one_row_array(), vec![0, 255, 255]);
}

#[test]
fn sequential_render_places_each_pixel() {
    let img = RayTracer {}.ray_trace(3, 2, gradient);
    assert_eq!(img.width, 3);
    assert_eq!(img.height, 2);
    assert_eq!(img.matrix.len(), 2);
    assert_eq!(img.matrix[1][2], Color { r: 2, g: 1, b: 21 });
    assert_eq!(img.matrix[0][1], Color { r: 1, g: 0, b: 10 });
}

#[test]
fn parallel_render_places_each_pixel() {
    let img = RayTracer {}.ray_trace_par(5, 4, gradient);
    assert_eq!(img.width, 5);
    assert_eq!(img.height, 4);
    for y in 0..4u32 {
        assert_eq!(img.matrix[y as usize].len(), 5);
        for x in 0..5u32 {
            assert_eq!(img.matrix[y as usize][x as usize], gradient(x, y));
        }
    }
}

#[test]
fn parallel_and_sequential_renders_agree() {
    let seq = RayTracer {}.ray_trace(17, 9, gradient);
    let par = RayTracer {}.ray_trace_par(17, 9, gradient);
    assert_eq!(seq.matrix, par.matrix);
    assert_eq!(seq.convert_to_one_row_array(), par.convert_to_one_row_array());
}

#[test]
fn pixel_without_hit_is_black() {
    assert_eq!(pixel_color(None), Color { r: 0, g: 0, b: 0 });
    assert_eq!(pixel_color(Some(Color { r: 255, g: 0, b: 0 })), Color { r: 255, g: 0, b: 0 });
    // Nothing is hit anywhere: the whole raster is background.
    let img = RayTracer {}.ray_trace_par(4, 3, |_x, _y| pixel_color(None));
    assert!(img.convert_to_one_row_array().iter().all(|b| *b == 0));
}

#[test]
fn nearest_hit_of_nothing() {
    assert_eq!(nearest_hit(&vec![]), None);
    assert_eq!(nearest_hit(&vec![None, None, None]), None);
}

#[test]
fn nearest_hit_takes_smallest_key() {
    assert_eq!(nearest_hit(&vec![Some(9), None, Some(3), Some(5)]), Some(2));
    assert_eq!(nearest_hit(&vec![None, Some(u64::MAX)]), Some(1));
    assert_eq!(nearest_hit(&vec![Some(0), Some(1)]), Some(0));
}

#[test]
fn nearest_hit_first_of_equal_keys() {
    assert_eq!(nearest_hit(&vec![Some(7), Some(4), None, Some(4)]), Some(1));
}

#[test]
fn nearest_hit_orders_float_distances_by_bits() {
    // Positive finite distances order as their bit patterns do.
    let ts = [19.0f64, 0.5, 1.0e4, 2.25];
    let keys: Vec<Option<u64>> = ts.iter().map(|t| Some(t.to_bits())).collect();
    assert_eq!(nearest_hit(&keys), Some(1));
}

#[test]
fn test_trig_funcs() {
    let close = |a: f64, b: f64| (a - b).abs() <= f64::EPSILON;
    assert_eq!((PI / 2.0).sin(), 1.0);
    assert_eq!(0.0f64.sin(), 0.0);
    assert!(close((PI / 6.0).sin(), 0.5));
    assert!(close(PI.sin(), 0.0));
    assert!(close(1.0, 1.0));
    assert!(close((PI / 6.0).sin(), 0.5));
}
