//! The fit engine: how content of a natural size is scaled and placed in a
//! window, and how an image is sampled.
//!
//! Every quantity is an exact rational number, held as integers. Lengths may
//! be measured in any unit, pixels or a subdivision of them, as long as one
//! call uses one unit throughout.

use vstd::prelude::*;

verus! {

/// A configured non-negative fraction.
#[derive(Clone, Copy, Debug, PartialEq, Eq, Structural)]
pub struct Fraction {
    pub numerator: u16,
    /// Never zero in a well-formed fraction.
    pub denominator: u16,
}

/// An exact rational number: `numerator / denominator`.
#[derive(Clone, Copy, Debug, PartialEq, Eq, Structural)]
pub struct Ratio {
    pub numerator: i128,
    /// Positive in every ratio that this module returns.
    pub denominator: i128,
}

/// A width and a height.
#[derive(Clone, Copy, Debug, PartialEq, Eq, Structural)]
pub struct Extent {
    pub width: u32,
    pub height: u32,
}

/// How the texels of an image are read when it is drawn.
#[derive(Clone, Copy, Debug, PartialEq, Eq, Structural)]
pub enum SamplingMode {
    /// Keeps pixel edges crisp under strong magnification.
    NearestNeighbour,
    /// Smooths reduction and mild magnification.
    HighQuality,
}

impl Ratio {
    /// `self <= other`, for ratios with positive denominators.
    pub open spec fn at_most(self, other: Ratio) -> bool {
        self.numerator * other.denominator <= other.numerator * self.denominator
    }

    /// `self * length <= bound`, for a ratio with a positive denominator.
    pub open spec fn scales_within(self, length: int, bound: int) -> bool {
        self.numerator * length <= bound * self.denominator
    }

    /// `self * length == bound`, for a ratio with a positive denominator.
    pub open spec fn scales_onto(self, length: int, bound: int) -> bool {
        self.numerator * length == bound * self.denominator
    }
}

/// Whether the width is the axis that limits the fit: the width ratio is
/// not above the height ratio.
pub open spec fn width_limits(
    usable_width: int,
    usable_height: int,
    unscaled_width: int,
    unscaled_height: int,
) -> bool {
    usable_width * unscaled_height <= usable_height * unscaled_width
}

/// The largest factor by which content of the unscaled size still fits the
/// usable size: the smaller of `usable_width / unscaled_width` and
/// `usable_height / unscaled_height`.
pub open spec fn scaling_factor(
    usable_width: int,
    usable_height: int,
    unscaled_width: int,
    unscaled_height: int,
) -> Ratio {
    if width_limits(usable_width, usable_height, unscaled_width, unscaled_height) {
        Ratio { numerator: usable_width as i128, denominator: unscaled_width as i128 }
    } else {
        Ratio { numerator: usable_height as i128, denominator: unscaled_height as i128 }
    }
}

/// The sampling for a scaling factor: nearest neighbour from the threshold
/// on, high quality below it.
pub open spec fn sampling_for(factor: Ratio, threshold: Fraction) -> SamplingMode {
    if factor.numerator * threshold.denominator >= threshold.numerator * factor.denominator {
        SamplingMode::NearestNeighbour
    } else {
        SamplingMode::HighQuality
    }
}

/// A product of two bounded naturals is bounded by the product of the bounds.
proof fn lemma_product_bound(a: int, b: int, a_max: int, b_max: int)
    requires
        0 <= a <= a_max,
        0 <= b <= b_max,
    ensures
        0 <= a * b <= a_max * b_max,
{
    assert(0 <= a * b <= a_max * b_max) by (nonlinear_arith)
        requires
            0 <= a <= a_max,
            0 <= b <= b_max,
    ;
}

/// Computes the factor that fits content of the unscaled size into the
/// usable size. Both unscaled lengths must be positive.
pub fn calculate_scaling_factor(
    usable_width: u64,
    usable_height: u64,
    unscaled_width: u64,
    unscaled_height: u64,
) -> (factor: Ratio)
    requires
        unscaled_width > 0,
        unscaled_height > 0,
    ensures
        factor == scaling_factor(
            usable_width as int,
            usable_height as int,
            unscaled_width as int,
            unscaled_height as int,
        ),
        factor.numerator >= 0,
        factor.denominator > 0,
{
    proof {
        lemma_product_bound(
            usable_width as int,
            unscaled_height as int,
            u64::MAX as int,
            u64::MAX as int,
        );
        lemma_product_bound(
            usable_height as int,
            unscaled_width as int,
            u64::MAX as int,
            u64::MAX as int,
        );
    }
    let across: u128 = usable_width as u128 * unscaled_height as u128;
    let down: u128 = usable_height as u128 * unscaled_width as u128;
    if across <= down {
        Ratio { numerator: usable_width as i128, denominator: unscaled_width as i128 }
    } else {
        Ratio { numerator: usable_height as i128, denominator: unscaled_height as i128 }
    }
}

/// Chooses the sampling for an image that is drawn at `factor`.
pub fn choose_sampling_mode(factor: Ratio, threshold: Fraction) -> (mode: SamplingMode)
    requires
        0 <= factor.numerator <= u64::MAX,
        0 < factor.denominator <= u64::MAX,
    ensures
        mode == sampling_for(factor, threshold),
{
    proof {
        lemma_product_bound(
            factor.numerator as int,
            threshold.denominator as int,
            u64::MAX as int,
            u16::MAX as int,
        );
        lemma_product_bound(
            threshold.numerator as int,
            factor.denominator as int,
            u16::MAX as int,
            u64::MAX as int,
        );
    }
    let reached = factor.numerator * (threshold.denominator as i128) >= (
    threshold.numerator as i128) * factor.denominator;
    if reached {
        SamplingMode::NearestNeighbour
    } else {
        SamplingMode::HighQuality
    }
}

/// Content scaled by the fitting factor never exceeds the usable size on
/// either axis, and on the limiting axis it fills the usable length
/// exactly.
pub proof fn lemma_scaling_factor_fits(
    usable_width: int,
    usable_height: int,
    unscaled_width: int,
    unscaled_height: int,
)
    requires
        0 <= usable_width <= u64::MAX,
        0 <= usable_height <= u64::MAX,
        0 < unscaled_width <= u64::MAX,
        0 < unscaled_height <= u64::MAX,
    ensures
        ({
            let factor = scaling_factor(
                usable_width,
                usable_height,
                unscaled_width,
                unscaled_height,
            );
            &&& factor.denominator > 0
            &&& factor.scales_within(unscaled_width, usable_width)
            &&& factor.scales_within(unscaled_height, usable_height)
            &&& factor.scales_onto(unscaled_width, usable_width) || factor.scales_onto(
                unscaled_height,
                usable_height,
            )
        }),
{
    assert(usable_width * unscaled_height == unscaled_height * usable_width)
        by (nonlinear_arith);
    assert(usable_height * unscaled_width == unscaled_width * usable_height)
        by (nonlinear_arith);
    assert(usable_width * unscaled_width == unscaled_width * usable_width)
        by (nonlinear_arith);
    assert(usable_height * unscaled_height == unscaled_height * usable_height)
        by (nonlinear_arith);
}

/// A factor equal to the threshold selects nearest-neighbour sampling, and
/// so does every larger one; every factor below it selects high quality.
pub proof fn lemma_sampling_boundary(factor: Ratio, threshold: Fraction)
    requires
        factor.denominator > 0,
        threshold.denominator > 0,
    ensures
        ({
            let limit = Ratio {
                numerator: threshold.numerator as i128,
                denominator: threshold.denominator as i128,
            };
            &&& limit.at_most(factor) <==> sampling_for(factor, threshold)
                == SamplingMode::NearestNeighbour
            &&& !limit.at_most(factor) <==> sampling_for(factor, threshold)
                == SamplingMode::HighQuality
            &&& sampling_for(limit, threshold) == SamplingMode::NearestNeighbour
        }),
{
    assert(factor.numerator * threshold.denominator == threshold.denominator * factor.numerator)
        by (nonlinear_arith);
    assert(threshold.numerator * factor.denominator == threshold.numerator * factor.denominator);
    assert(threshold.numerator * threshold.denominator == threshold.denominator
        * threshold.numerator) by (nonlinear_arith);
}

/// The constants of the fit engine.
#[derive(Clone, Copy, Debug, PartialEq, Eq, Structural)]
pub struct LayoutConfig {
    /// The part of the window's width that content may fill.
    pub usable_width: Fraction,
    /// The part of the window's height that content may fill.
    pub usable_height: Fraction,
    /// The scaling factor from which images are sampled by nearest
    /// neighbour.
    pub sampling_threshold: Fraction,
}

impl LayoutConfig {
    /// No fraction of a well-formed configuration has a zero denominator.
    pub open spec fn well_formed(self) -> bool {
        &&& self.usable_width.denominator > 0
        &&& self.usable_height.denominator > 0
        &&& self.sampling_threshold.denominator > 0
    }

    /// The number of fine units in one unit of length. In fine units the
    /// usable area of every window measures a whole number.
    pub open spec fn fine_units(self) -> int {
        self.usable_width.denominator * self.usable_height.denominator
    }

    /// The usable width of a window, in fine units.
    pub open spec fn usable_width_of(self, window: Extent) -> int {
        window.width * self.usable_width.numerator * self.usable_height.denominator
    }

    /// The usable height of a window, in fine units.
    pub open spec fn usable_height_of(self, window: Extent) -> int {
        window.height * self.usable_height.numerator * self.usable_width.denominator
    }

    /// The factor that fits content of size `natural` into the usable area
    /// of `window`.
    pub open spec fn factor_for(self, window: Extent, natural: Extent) -> Ratio {
        scaling_factor(
            self.usable_width_of(window),
            self.usable_height_of(window),
            natural.width * self.fine_units(),
            natural.height * self.fine_units(),
        )
    }

    /// Three quarters of each axis are usable; images magnified four times
    /// or more are sampled by nearest neighbour.
    pub fn three_quarters() -> (config: LayoutConfig)
        ensures
            config.well_formed(),
            config.usable_width == (Fraction { numerator: 3, denominator: 4 }),
            config.usable_height == (Fraction { numerator: 3, denominator: 4 }),
            config.sampling_threshold == (Fraction { numerator: 4, denominator: 1 }),
    {
        LayoutConfig {
            usable_width: Fraction { numerator: 3, denominator: 4 },
            usable_height: Fraction { numerator: 3, denominator: 4 },
            sampling_threshold: Fraction { numerator: 4, denominator: 1 },
        }
    }

    /// The usable part of each axis is its golden section, taken as the
    /// quotient of two neighbouring Fibonacci numbers; images magnified four
    /// times or more are sampled by nearest neighbour.
    pub fn golden_section() -> (config: LayoutConfig)
        ensures
            config.well_formed(),
            config.usable_width == (Fraction { numerator: 28657, denominator: 46368 }),
            config.usable_height == (Fraction { numerator: 28657, denominator: 46368 }),
            config.sampling_threshold == (Fraction { numerator: 4, denominator: 1 }),
    {
        LayoutConfig {
            usable_width: Fraction { numerator: 28657, denominator: 46368 },
            usable_height: Fraction { numerator: 28657, denominator: 46368 },
            sampling_threshold: Fraction { numerator: 4, denominator: 1 },
        }
    }

    /// The usable area of a window: the configured fraction of each axis.
    pub fn usable_area(&self, window: Extent) -> (area: (Ratio, Ratio))
        requires
            self.well_formed(),
        ensures
            area.0.numerator == window.width * self.usable_width.numerator,
            area.0.denominator == self.usable_width.denominator,
            area.1.numerator == window.height * self.usable_height.numerator,
            area.1.denominator == self.usable_height.denominator,
    {
        proof {
            lemma_product_bound(
                window.width as int,
                self.usable_width.numerator as int,
                u32::MAX as int,
                u16::MAX as int,
            );
            lemma_product_bound(
                window.height as int,
                self.usable_height.numerator as int,
                u32::MAX as int,
                u16::MAX as int,
            );
        }
        (
            Ratio {
                numerator: (window.width as i128) * (self.usable_width.numerator as i128),
                denominator: self.usable_width.denominator as i128,
            },
            Ratio {
                numerator: (window.height as i128) * (self.usable_height.numerator as i128),
                denominator: self.usable_height.denominator as i128,
            },
        )
    }

    /// Computes the factor that fits content of size `natural`, which must
    /// be positive on both axes, into the usable area of `window`.
    pub fn fit_factor(&self, window: Extent, natural: Extent) -> (factor: Ratio)
        requires
            self.well_formed(),
            natural.width > 0,
            natural.height > 0,
        ensures
            factor == self.factor_for(window, natural),
            0 <= factor.numerator <= u64::MAX,
            0 < factor.denominator <= u64::MAX,
    {
        let across = self.usable_width.denominator as u64;
        let down = self.usable_height.denominator as u64;
        proof {
            lemma_product_bound(across as int, down as int, u16::MAX as int, u16::MAX as int);
            lemma_product_bound(
                window.width as int,
                self.usable_width.numerator as int,
                u32::MAX as int,
                u16::MAX as int,
            );
            lemma_product_bound(
                window.height as int,
                self.usable_height.numerator as int,
                u32::MAX as int,
                u16::MAX as int,
            );
            lemma_product_bound(
                window.width * self.usable_width.numerator,
                down as int,
                u32::MAX * u16::MAX,
                u16::MAX as int,
            );
            lemma_product_bound(
                window.height * self.usable_height.numerator,
                across as int,
                u32::MAX * u16::MAX,
                u16::MAX as int,
            );
            lemma_product_bound(
                natural.width as int,
                across * down,
                u32::MAX as int,
                u16::MAX * u16::MAX,
            );
            lemma_product_bound(
                natural.height as int,
                across * down,
                u32::MAX as int,
                u16::MAX * u16::MAX,
            );
            assert(natural.width * (across * down) > 0) by (nonlinear_arith)
                requires
                    natural.width > 0,
                    across > 0,
                    down > 0,
            ;
            assert(natural.height * (across * down) > 0) by (nonlinear_arith)
                requires
                    natural.height > 0,
                    across > 0,
                    down > 0,
            ;
        }
        let fine: u64 = across * down;
        calculate_scaling_factor(
            (window.width as u64) * (self.usable_width.numerator as u64) * down,
            (window.height as u64) * (self.usable_height.numerator as u64) * across,
            (natural.width as u64) * fine,
            (natural.height as u64) * fine,
        )
    }
}

/// The numerators of a point; the denominator is kept beside it.
#[derive(Clone, Copy, Debug, PartialEq, Eq, Structural)]
pub struct Offset {
    pub x: i128,
    pub y: i128,
}

/// The numerators of a size; the denominator is kept beside it.
#[derive(Clone, Copy, Debug, PartialEq, Eq, Structural)]
pub struct Size {
    pub width: i128,
    pub height: i128,
}

/// Where fitted content goes and how large it is drawn.
///
/// Positions and bounds are numerators over the common denominator
/// `subdivision`: a position of `(x, y)` stands for the point
/// `(x / subdivision, y / subdivision)`.
#[derive(Clone, Copy, Debug, PartialEq, Eq, Structural)]
pub struct FitResult {
    /// The factor by which the natural size is scaled.
    pub scale: Ratio,
    /// The anchor of the content in the window.
    pub position: Offset,
    /// The size of the scaled content.
    pub effective_bounds: Size,
    /// The common denominator of `position` and `effective_bounds`.
    pub subdivision: i128,
    /// The sampling that suits `scale`.
    pub sampling_mode: SamplingMode,
}

/// The largest magnitude of a coordinate that can still be mapped to
/// normalised space without overflow.
pub open spec fn coordinate_limit() -> int {
    0x10_0000_0000_0000_0000_0000_0000
}

/// The largest subdivision that can still be mapped to normalised space
/// without overflow.
pub open spec fn subdivision_limit() -> int {
    0x100_0000_0000_0000_0000_0000
}

impl FitResult {
    /// The subdivision is positive, and the rectangle from `position` to
    /// `position + effective_bounds` can be mapped to normalised space.
    pub open spec fn well_formed(self) -> bool {
        &&& 0 <= self.scale.numerator <= u64::MAX
        &&& 0 < self.scale.denominator <= u64::MAX
        &&& 0 < self.subdivision <= subdivision_limit()
        &&& -coordinate_limit() <= self.position.x <= coordinate_limit()
        &&& -coordinate_limit() <= self.position.y <= coordinate_limit()
        &&& -coordinate_limit() <= self.position.x + self.effective_bounds.width
            <= coordinate_limit()
        &&& -coordinate_limit() <= self.position.y + self.effective_bounds.height
            <= coordinate_limit()
    }
}

/// The scaled size of content of size `natural` at `factor`, and the
/// position that centres it on both axes of `window`:
/// `((W - w·f) / 2, (H - h·f) / 2)` with bounds `(w·f, h·f)`.
pub open spec fn centred_fit(
    factor: Ratio,
    window: Extent,
    natural: Extent,
    threshold: Fraction,
) -> FitResult {
    FitResult {
        scale: factor,
        position: Offset {
            x: (window.width * factor.denominator - natural.width * factor.numerator) as i128,
            y: (window.height * factor.denominator - natural.height * factor.numerator) as i128,
        },
        effective_bounds: Size {
            width: (2 * natural.width * factor.numerator) as i128,
            height: (2 * natural.height * factor.numerator) as i128,
        },
        subdivision: (2 * factor.denominator) as i128,
        sampling_mode: sampling_for(factor, threshold),
    }
}

/// The fit of an image: centred on both axes of the window.
pub open spec fn image_fit(config: LayoutConfig, window: Extent, natural: Extent) -> FitResult {
    centred_fit(config.factor_for(window, natural), window, natural, config.sampling_threshold)
}

/// The fit of a text block. Its horizontal position centres the scaled
/// block in the window; its vertical position is the middle of the window,
/// about which the text is aligned.
pub open spec fn text_fit(config: LayoutConfig, window: Extent, natural: Extent) -> FitResult {
    let centred = image_fit(config, window, natural);
    FitResult {
        position: Offset {
            x: centred.position.x,
            y: (window.height * centred.scale.denominator) as i128,
        },
        ..centred
    }
}

fn scaled_bounds(
    factor: Ratio,
    window: Extent,
    natural: Extent,
) -> (bounds: (i128, i128, i128, i128))
    requires
        0 <= factor.numerator <= u64::MAX,
        0 < factor.denominator <= u64::MAX,
    ensures
        bounds.0 == window.width * factor.denominator,
        bounds.1 == window.height * factor.denominator,
        bounds.2 == natural.width * factor.numerator,
        bounds.3 == natural.height * factor.numerator,
        0 <= bounds.0 <= 0xffff_ffff_ffff_ffff_ffff_ffff,
        0 <= bounds.1 <= 0xffff_ffff_ffff_ffff_ffff_ffff,
        0 <= bounds.2 <= 0xffff_ffff_ffff_ffff_ffff_ffff,
        0 <= bounds.3 <= 0xffff_ffff_ffff_ffff_ffff_ffff,
{
    assert(u32::MAX * u64::MAX <= 0xffff_ffff_ffff_ffff_ffff_ffff) by (nonlinear_arith);
    proof {
        lemma_product_bound(
            window.width as int,
            factor.denominator as int,
            u32::MAX as int,
            u64::MAX as int,
        );
        lemma_product_bound(
            window.height as int,
            factor.denominator as int,
            u32::MAX as int,
            u64::MAX as int,
        );
        lemma_product_bound(
            natural.width as int,
            factor.numerator as int,
            u32::MAX as int,
            u64::MAX as int,
        );
        lemma_product_bound(
            natural.height as int,
            factor.numerator as int,
            u32::MAX as int,
            u64::MAX as int,
        );
    }
    (
        (window.width as i128) * factor.denominator,
        (window.height as i128) * factor.denominator,
        (natural.width as i128) * factor.numerator,
        (natural.height as i128) * factor.numerator,
    )
}

impl LayoutConfig {
    /// Fits an image of size `natural`, which must be positive on both
    /// axes, into `window`.
    pub fn fit_image(&self, window: Extent, natural: Extent) -> (fit: FitResult)
        requires
            self.well_formed(),
            natural.width > 0,
            natural.height > 0,
        ensures
            fit == image_fit(*self, window, natural),
            fit.well_formed(),
    {
        let factor = self.fit_factor(window, natural);
        let (window_width, window_height, width, height) = scaled_bounds(factor, window, natural);
        assert(2 * natural.width * factor.numerator == 2 * (natural.width * factor.numerator))
            by (nonlinear_arith);
        assert(2 * natural.height * factor.numerator == 2 * (natural.height * factor.numerator))
            by (nonlinear_arith);
        FitResult {
            scale: factor,
            position: Offset { x: window_width - width, y: window_height - height },
            effective_bounds: Size { width: 2 * width, height: 2 * height },
            subdivision: 2 * factor.denominator,
            sampling_mode: choose_sampling_mode(factor, self.sampling_threshold),
        }
    }

    /// Fits a text block whose natural size, measured without wrapping, is
    /// `natural`, which must be positive on both axes, into `window`.
    pub fn fit_text(&self, window: Extent, natural: Extent) -> (fit: FitResult)
        requires
            self.well_formed(),
            natural.width > 0,
            natural.height > 0,
        ensures
            fit == text_fit(*self, window, natural),
            fit.well_formed(),
    {
        let centred = self.fit_image(window, natural);
        proof {
            lemma_product_bound(
                window.height as int,
                centred.scale.denominator as int,
                u32::MAX as int,
                u64::MAX as int,
            );
            lemma_product_bound(
                natural.height as int,
                centred.scale.numerator as int,
                u32::MAX as int,
                u64::MAX as int,
            );
            assert(u32::MAX * u64::MAX <= 0xffff_ffff_ffff_ffff_ffff_ffff) by (nonlinear_arith);
            assert(2 * natural.height * centred.scale.numerator == 2 * (natural.height
                * centred.scale.numerator)) by (nonlinear_arith);
        }
        FitResult {
            scale: centred.scale,
            position: Offset {
                x: centred.position.x,
                y: (window.height as i128) * centred.scale.denominator,
            },
            effective_bounds: centred.effective_bounds,
            subdivision: centred.subdivision,
            sampling_mode: centred.sampling_mode,
        }
    }
}

/// A corner of a textured rectangle.
#[derive(Clone, Copy, Debug, PartialEq, Eq, Structural)]
pub struct Vertex {
    /// Horizontal position in normalised space, from -1 to 1 across the
    /// screen.
    pub x: Ratio,
    /// Vertical position in normalised space, from -1 to 1 across the
    /// screen.
    pub y: Ratio,
    /// Horizontal texture coordinate, 0 or 1.
    pub u: u8,
    /// Vertical texture coordinate, 0 or 1.
    pub v: u8,
}

/// The normalised coordinate of the point `coordinate / subdivision` on an
/// axis of the given length: `(point / length) * 2 - 1`.
pub open spec fn normalised(coordinate: int, length: int, subdivision: int) -> Ratio {
    Ratio {
        numerator: (2 * coordinate - length * subdivision) as i128,
        denominator: (length * subdivision) as i128,
    }
}

/// The corners of a rectangle in normalised space with their texture
/// coordinates, in the order top right, top left, bottom left, bottom
/// right.
pub open spec fn rect_vertices(
    screen_width: int,
    screen_height: int,
    x: int,
    y: int,
    width: int,
    height: int,
    subdivision: int,
) -> Seq<Vertex> {
    let left = normalised(x, screen_width, subdivision);
    let right = normalised(x + width, screen_width, subdivision);
    let top = normalised(y, screen_height, subdivision);
    let bottom = normalised(y + height, screen_height, subdivision);
    seq![
        Vertex { x: right, y: top, u: 1, v: 1 },
        Vertex { x: left, y: top, u: 0, v: 1 },
        Vertex { x: left, y: bottom, u: 0, v: 0 },
        Vertex { x: right, y: bottom, u: 1, v: 0 },
    ]
}

/// The order in which the corners of a rectangle make two triangles that
/// share the diagonal from the first corner to the third.
pub open spec fn rect_indices() -> Seq<u16> {
    seq![0u16, 1u16, 2u16, 2u16, 3u16, 0u16]
}

fn normalise(coordinate: i128, length: u32, subdivision: i128) -> (ratio: Ratio)
    requires
        length > 0,
        0 < subdivision <= subdivision_limit(),
        -coordinate_limit() <= coordinate <= coordinate_limit(),
    ensures
        ratio == normalised(coordinate as int, length as int, subdivision as int),
        ratio.denominator > 0,
{
    proof {
        lemma_product_bound(
            length as int,
            subdivision as int,
            u32::MAX as int,
            subdivision_limit(),
        );
        assert(u32::MAX * subdivision_limit() <= 0xffff_ffff_0000_0000_0000_0000_0000_00)
            by (nonlinear_arith);
        assert(length * subdivision > 0) by (nonlinear_arith)
            requires
                length > 0,
                subdivision > 0,
        ;
    }
    let span: i128 = (length as i128) * subdivision;
    Ratio { numerator: 2 * coordinate - span, denominator: span }
}

/// Maps a rectangle given in screen coordinates, as numerators over
/// `subdivision`, to its four corners in normalised space. The screen must
/// not be empty.
pub fn screen_rect_to_vertices(
    screen_width: u32,
    screen_height: u32,
    x: i128,
    y: i128,
    width: i128,
    height: i128,
    subdivision: i128,
) -> (vertices: [Vertex; 4])
    requires
        screen_width > 0,
        screen_height > 0,
        0 < subdivision <= subdivision_limit(),
        -coordinate_limit() <= x <= coordinate_limit(),
        -coordinate_limit() <= y <= coordinate_limit(),
        -coordinate_limit() <= x + width <= coordinate_limit(),
        -coordinate_limit() <= y + height <= coordinate_limit(),
    ensures
        vertices@ == rect_vertices(
            screen_width as int,
            screen_height as int,
            x as int,
            y as int,
            width as int,
            height as int,
            subdivision as int,
        ),
{
    let left = normalise(x, screen_width, subdivision);
    let right = normalise(x + width, screen_width, subdivision);
    let top = normalise(y, screen_height, subdivision);
    let bottom = normalise(y + height, screen_height, subdivision);
    let vertices = [
        Vertex { x: right, y: top, u: 1, v: 1 },
        Vertex { x: left, y: top, u: 0, v: 1 },
        Vertex { x: left, y: bottom, u: 0, v: 0 },
        Vertex { x: right, y: bottom, u: 1, v: 0 },
    ];
    assert(vertices@ =~= rect_vertices(
        screen_width as int,
        screen_height as int,
        x as int,
        y as int,
        width as int,
        height as int,
        subdivision as int,
    ));
    vertices
}

/// The indices that draw the corners of a rectangle as two triangles.
pub fn rect_vertex_indices() -> (indices: [u16; 6])
    ensures
        indices@ == rect_indices(),
{
    let indices: [u16; 6] = [0, 1, 2, 2, 3, 0];
    assert(indices@ =~= rect_indices());
    indices
}

/// Content fitted by a configuration stays inside the usable area of the
/// window on both axes and fills it on the limiting one. Lengths are in
/// fine units, in which the usable area is whole.
pub proof fn lemma_fit_stays_in_usable_area(config: LayoutConfig, window: Extent, natural: Extent)
    requires
        config.well_formed(),
        natural.width > 0,
        natural.height > 0,
    ensures
        ({
            let factor = config.factor_for(window, natural);
            let width = natural.width * config.fine_units();
            let height = natural.height * config.fine_units();
            &&& factor == image_fit(config, window, natural).scale
            &&& factor == text_fit(config, window, natural).scale
            &&& factor.denominator > 0
            &&& factor.scales_within(width, config.usable_width_of(window))
            &&& factor.scales_within(height, config.usable_height_of(window))
            &&& factor.scales_onto(width, config.usable_width_of(window)) || factor.scales_onto(
                height,
                config.usable_height_of(window),
            )
        }),
{
    let across = config.usable_width.denominator as int;
    let down = config.usable_height.denominator as int;
    lemma_product_bound(across, down, u16::MAX as int, u16::MAX as int);
    lemma_product_bound(
        window.width as int,
        config.usable_width.numerator as int,
        u32::MAX as int,
        u16::MAX as int,
    );
    lemma_product_bound(
        window.height as int,
        config.usable_height.numerator as int,
        u32::MAX as int,
        u16::MAX as int,
    );
    lemma_product_bound(
        window.width * config.usable_width.numerator,
        down,
        u32::MAX * u16::MAX,
        u16::MAX as int,
    );
    lemma_product_bound(
        window.height * config.usable_height.numerator,
        across,
        u32::MAX * u16::MAX,
        u16::MAX as int,
    );
    lemma_product_bound(natural.width as int, across * down, u32::MAX as int, u16::MAX * u16::MAX);
    lemma_product_bound(
        natural.height as int,
        across * down,
        u32::MAX as int,
        u16::MAX * u16::MAX,
    );
    assert(natural.width * (across * down) > 0) by (nonlinear_arith)
        requires
            natural.width > 0,
            across > 0,
            down > 0,
    ;
    assert(natural.height * (across * down) > 0) by (nonlinear_arith)
        requires
            natural.height > 0,
            across > 0,
            down > 0,
    ;
    lemma_scaling_factor_fits(
        config.usable_width_of(window),
        config.usable_height_of(window),
        natural.width * config.fine_units(),
        natural.height * config.fine_units(),
    );
}

} // verus!
