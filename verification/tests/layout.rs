use breeze::layout::{
    calculate_scaling_factor, choose_sampling_mode, rect_vertex_indices, screen_rect_to_vertices,
    Extent, FitResult, Fraction, LayoutConfig, Offset, Ratio, SamplingMode, Size, Vertex,
};

fn ratio(numerator: i128, denominator: i128) -> Ratio {
    Ratio { numerator, denominator }
}

fn value(ratio: Ratio) -> f64 {
    ratio.numerator as f64 / ratio.denominator as f64
}

#[test]
fn scaling_factor_is_the_smaller_quotient() {
    assert_eq!(ratio(600, 100), calculate_scaling_factor(600, 450, 100, 50));
    assert_eq!(ratio(450, 100), calculate_scaling_factor(600, 450, 100, 100));
    assert_eq!(ratio(300, 400), calculate_scaling_factor(300, 300, 400, 200));
    assert_eq!(4.5, value(calculate_scaling_factor(600, 450, 100, 100)));
}

#[test]
fn scaling_factor_prefers_width_on_a_tie() {
    assert_eq!(ratio(200, 100), calculate_scaling_factor(200, 100, 100, 50));
}

#[test]
fn scaling_factor_of_an_empty_area_is_zero() {
    assert_eq!(0.0, value(calculate_scaling_factor(0, 10, 5, 5)));
    assert_eq!(0.0, value(calculate_scaling_factor(10, 0, 5, 5)));
}

#[test]
fn scaling_factor_at_the_limits() {
    let factor = calculate_scaling_factor(u64::MAX, u64::MAX, 1, u64::MAX);
    assert_eq!(ratio(i128::from(u64::MAX), i128::from(u64::MAX)), factor);
}

#[test]
fn fitted_content_stays_in_the_usable_box() {
    let cases: [(u64, u64, u64, u64); 6] = [
        (600, 450, 100, 100),
        (600, 450, 100, 50),
        (1, 1, 7, 3),
        (1920, 1080, 333, 777),
        (5, 1000, 1000, 5),
        (123_456_789, 987_654_321, 1_000_003, 999_983),
    ];
    for (usable_width, usable_height, width, height) in cases {
        let factor = calculate_scaling_factor(usable_width, usable_height, width, height);
        let across = factor.numerator * i128::from(width);
        let down = factor.numerator * i128::from(height);
        assert!(across <= i128::from(usable_width) * factor.denominator);
        assert!(down <= i128::from(usable_height) * factor.denominator);
        assert!(
            across == i128::from(usable_width) * factor.denominator
                || down == i128::from(usable_height) * factor.denominator
        );
    }
}

#[test]
fn sampling_changes_at_the_threshold() {
    let threshold = Fraction { numerator: 4, denominator: 1 };
    assert_eq!(SamplingMode::NearestNeighbour, choose_sampling_mode(ratio(4, 1), threshold));
    assert_eq!(SamplingMode::NearestNeighbour, choose_sampling_mode(ratio(400, 100), threshold));
    assert_eq!(SamplingMode::NearestNeighbour, choose_sampling_mode(ratio(401, 100), threshold));
    assert_eq!(SamplingMode::HighQuality, choose_sampling_mode(ratio(399, 100), threshold));
    assert_eq!(SamplingMode::HighQuality, choose_sampling_mode(ratio(1, 1), threshold));
    assert_eq!(SamplingMode::HighQuality, choose_sampling_mode(ratio(0, 1), threshold));
    let half = Fraction { numerator: 1, denominator: 2 };
    assert_eq!(SamplingMode::NearestNeighbour, choose_sampling_mode(ratio(2, 4), half));
    assert_eq!(SamplingMode::HighQuality, choose_sampling_mode(ratio(49, 100), half));
}

#[test]
fn configurations() {
    let plain = LayoutConfig::three_quarters();
    assert_eq!(Fraction { numerator: 3, denominator: 4 }, plain.usable_width);
    assert_eq!(Fraction { numerator: 3, denominator: 4 }, plain.usable_height);
    assert_eq!(Fraction { numerator: 4, denominator: 1 }, plain.sampling_threshold);
    let golden = LayoutConfig::golden_section();
    assert_eq!(golden.usable_width, golden.usable_height);
    let part = f64::from(golden.usable_width.numerator) / f64::from(golden.usable_width.denominator);
    assert!((part - 0.618_033_988_749_894_9).abs() < 1e-9);
    assert_eq!(Fraction { numerator: 4, denominator: 1 }, golden.sampling_threshold);
}

#[test]
fn usable_area_is_a_fraction_of_each_axis() {
    let config = LayoutConfig {
        usable_width: Fraction { numerator: 3, denominator: 4 },
        usable_height: Fraction { numerator: 1, denominator: 2 },
        sampling_threshold: Fraction { numerator: 4, denominator: 1 },
    };
    let (width, height) = config.usable_area(Extent { width: 800, height: 600 });
    assert_eq!(ratio(2400, 4), width);
    assert_eq!(ratio(600, 2), height);
}

#[test]
fn image_is_centred_on_both_axes() {
    let config = LayoutConfig::three_quarters();
    let fit = config.fit_image(Extent { width: 800, height: 600 }, Extent { width: 100, height: 100 });
    assert_eq!(
        FitResult {
            scale: ratio(7200, 1600),
            position: Offset { x: 560_000, y: 240_000 },
            effective_bounds: Size { width: 1_440_000, height: 1_440_000 },
            subdivision: 3200,
            sampling_mode: SamplingMode::NearestNeighbour,
        },
        fit
    );
    assert_eq!(4.5, value(fit.scale));
    assert_eq!(175.0, value(ratio(fit.position.x, fit.subdivision)));
    assert_eq!(75.0, value(ratio(fit.position.y, fit.subdivision)));
    assert_eq!(450.0, value(ratio(fit.effective_bounds.width, fit.subdivision)));
    assert_eq!(450.0, value(ratio(fit.effective_bounds.height, fit.subdivision)));
}

#[test]
fn wide_image_is_limited_by_width() {
    let config = LayoutConfig::three_quarters();
    let fit = config.fit_image(Extent { width: 800, height: 600 }, Extent { width: 1200, height: 300 });
    assert_eq!(0.5, value(fit.scale));
    assert_eq!(100.0, value(ratio(fit.position.x, fit.subdivision)));
    assert_eq!(225.0, value(ratio(fit.position.y, fit.subdivision)));
    assert_eq!(600.0, value(ratio(fit.effective_bounds.width, fit.subdivision)));
    assert_eq!(150.0, value(ratio(fit.effective_bounds.height, fit.subdivision)));
    assert_eq!(SamplingMode::HighQuality, fit.sampling_mode);
}

#[test]
fn image_at_exactly_four_times_is_nearest_neighbour() {
    let config = LayoutConfig::three_quarters();
    let window = Extent { width: 1600, height: 1600 };
    let at = config.fit_image(window, Extent { width: 300, height: 300 });
    assert_eq!(4.0, value(at.scale));
    assert_eq!(SamplingMode::NearestNeighbour, at.sampling_mode);
    let below = config.fit_image(window, Extent { width: 301, height: 300 });
    assert!(value(below.scale) < 4.0);
    assert_eq!(SamplingMode::HighQuality, below.sampling_mode);
}

#[test]
fn text_is_anchored_at_half_height() {
    let config = LayoutConfig::three_quarters();
    let window = Extent { width: 800, height: 600 };
    let natural = Extent { width: 200, height: 50 };
    let fit = config.fit_text(window, natural);
    assert_eq!(3.0, value(fit.scale));
    assert_eq!(100.0, value(ratio(fit.position.x, fit.subdivision)));
    assert_eq!(300.0, value(ratio(fit.position.y, fit.subdivision)));
    assert_eq!(600.0, value(ratio(fit.effective_bounds.width, fit.subdivision)));
    assert_eq!(150.0, value(ratio(fit.effective_bounds.height, fit.subdivision)));
    let image = config.fit_image(window, natural);
    assert_eq!(image.scale, fit.scale);
    assert_eq!(image.position.x, fit.position.x);
    assert_eq!(image.effective_bounds, fit.effective_bounds);
}

#[test]
fn fit_at_the_largest_sizes() {
    let config = LayoutConfig {
        usable_width: Fraction { numerator: u16::MAX, denominator: u16::MAX },
        usable_height: Fraction { numerator: u16::MAX, denominator: 1 },
        sampling_threshold: Fraction { numerator: u16::MAX, denominator: 1 },
    };
    let largest = Extent { width: u32::MAX, height: u32::MAX };
    let fit = config.fit_image(largest, largest);
    assert_eq!(1.0, value(fit.scale));
    assert_eq!(0, fit.position.x);
    let vertices = screen_rect_to_vertices(
        u32::MAX,
        u32::MAX,
        fit.position.x,
        fit.position.y,
        fit.effective_bounds.width,
        fit.effective_bounds.height,
        fit.subdivision,
    );
    assert_eq!(1.0, value(vertices[0].x));
    assert_eq!(-1.0, value(vertices[1].x));
}

#[test]
fn rectangle_corners_in_normalised_space() {
    let vertices = screen_rect_to_vertices(800, 600, 200, 150, 400, 300, 1);
    let corners: Vec<(f64, f64, u8, u8)> =
        vertices.iter().map(|corner| (value(corner.x), value(corner.y), corner.u, corner.v)).collect();
    assert_eq!(
        vec![
            (0.5, -0.5, 1, 1),
            (-0.5, -0.5, 0, 1),
            (-0.5, 0.5, 0, 0),
            (0.5, 0.5, 1, 0),
        ],
        corners
    );
    assert_eq!(
        Vertex { x: ratio(400, 800), y: ratio(-300, 600), u: 1, v: 1 },
        vertices[0]
    );
}

#[test]
fn whole_screen_maps_to_the_unit_square() {
    let vertices = screen_rect_to_vertices(640, 480, 0, 0, 1280, 960, 2);
    assert_eq!((1.0, -1.0), (value(vertices[0].x), value(vertices[0].y)));
    assert_eq!((-1.0, -1.0), (value(vertices[1].x), value(vertices[1].y)));
    assert_eq!((-1.0, 1.0), (value(vertices[2].x), value(vertices[2].y)));
    assert_eq!((1.0, 1.0), (value(vertices[3].x), value(vertices[3].y)));
}

#[test]
fn fitted_image_gives_its_corners() {
    let config = LayoutConfig::three_quarters();
    let fit = config.fit_image(Extent { width: 800, height: 600 }, Extent { width: 100, height: 100 });
    let vertices = screen_rect_to_vertices(
        800,
        600,
        fit.position.x,
        fit.position.y,
        fit.effective_bounds.width,
        fit.effective_bounds.height,
        fit.subdivision,
    );
    assert_eq!(0.5625, value(vertices[0].x));
    assert_eq!(-0.75, value(vertices[0].y));
    assert_eq!(-0.5625, value(vertices[2].x));
    assert_eq!(0.75, value(vertices[2].y));
}

#[test]
fn two_triangles_share_a_diagonal() {
    assert_eq!([0, 1, 2, 2, 3, 0], rect_vertex_indices());
}
