//! The frame renderer: from a panel size and the cached capture to the bytes
//! of a frame. Each pixel is first shaded by the zone it falls in; a second
//! pass then softens the shadow zones by averaging their neighbours' opacity.

use vstd::prelude::*;
use crate::capture::{captured_pixel, frame_view, CaptureFrame, CaptureFrameView};
use crate::geometry::{
    dock_x_inset, falloff, floor_sqrt, inset_at, isqrt, lemma_inset_shrinks, shadow_falloff_i,
    DOCK_SINE_PER_MILLE, SHADOW_W_PX,
};
use crate::pixel::Pixel;

verus! {

/// Panels narrower or shorter than this are not drawn at all.
pub const MIN_PANEL_SIDE: u32 = 12;

/// Opacity of the gradient that fills the dock where no capture is at hand.
pub const FALLBACK_ALPHA: u8 = 0xE0;

/// Pixels by which the glass reads the capture further right than the dock's
/// quarter width.
pub const GLASS_X_SHIFT: u32 = 6;

/// Amount by which each channel of a reflected pixel is darkened.
pub const METAL_OVERLAY: u8 = 0;

/// Width of the band the dock occupies: half the panel.
pub open spec fn dock_width(width: int) -> int {
    width / 2
}

/// Width of the transparent strip on either side of the band.
pub open spec fn side_margin(width: int) -> int {
    (width - dock_width(width)) / 2
}

/// First column to the right of the band.
pub open spec fn band_end(width: int) -> int {
    width - side_margin(width)
}

/// Inset of the dock's slanted edge in row `y`.
pub open spec fn row_inset(height: int, y: int) -> int {
    inset_at(y, height, DOCK_SINE_PER_MILLE as int)
}

/// Distance from column `x` to the dock's left edge in row `y`; positive
/// inside the dock.
pub open spec fn left_distance(width: int, height: int, x: int, y: int) -> int {
    x - row_inset(height, y) - side_margin(width)
}

/// Distance from column `x` to the dock's right edge in row `y`; positive
/// inside the dock.
pub open spec fn right_distance(width: int, height: int, x: int, y: int) -> int {
    band_end(width) - row_inset(height, y) - x
}

/// Rows left from `y` to the lower end of the top shadow; positive inside it.
pub open spec fn top_distance(y: int) -> int {
    SHADOW_W_PX as int - y
}

/// Whether the pixel lies in a row of the panel, inside the band, and
/// strictly between the dock's slanted edges.
pub open spec fn inside_dock(width: int, height: int, x: int, y: int) -> bool {
    &&& 0 <= y < height
    &&& side_margin(width) <= x < band_end(width)
    &&& left_distance(width, height, x, y) > 0
    &&& right_distance(width, height, x, y) > 0
}

/// What a pixel is part of.
#[derive(Clone, Copy, Debug, PartialEq, Eq)]
pub enum Zone {
    /// Outside the dock: transparent.
    Outside,
    /// In the top shadow and within the shadow width of a side edge.
    Corner,
    /// In the top shadow, away from the sides.
    TopShadow,
    /// Below the top shadow, within the shadow width of a side edge.
    SideShadow,
    /// The opaque line drawn exactly the shadow width in from a side edge.
    Border,
    /// The dock's interior, filled with the reflection.
    Glass,
}

impl Zone {
    /// The zones whose opacity the second pass averages.
    pub open spec fn is_shadow(self) -> bool {
        self is Corner || self is TopShadow || self is SideShadow
    }
}

/// The zone of pixel `(x, y)`, by priority: corner, top shadow, side shadow,
/// border, glass.
pub open spec fn zone_of(width: int, height: int, x: int, y: int) -> Zone {
    let left = left_distance(width, height, x, y);
    let right = right_distance(width, height, x, y);
    let near_side = left < SHADOW_W_PX || right < SHADOW_W_PX;
    if !inside_dock(width, height, x, y) {
        Zone::Outside
    } else if 0 < top_distance(y) <= SHADOW_W_PX {
        if near_side {
            Zone::Corner
        } else {
            Zone::TopShadow
        }
    } else if near_side {
        Zone::SideShadow
    } else if left == SHADOW_W_PX || right == SHADOW_W_PX {
        Zone::Border
    } else {
        Zone::Glass
    }
}

/// The smaller of two numbers.
pub open spec fn lesser(a: int, b: int) -> int {
    if a <= b {
        a
    } else {
        b
    }
}

/// Distance from the point where the top and side shadow ramps end, for a
/// pixel in row `y` that lies `left` and `right` of the side edges: the
/// Euclidean combination of how far it is into either ramp, rounded down.
pub open spec fn corner_span(left: int, right: int, y: int) -> int {
    let dx = SHADOW_W_PX as int - lesser(left, right);
    let dy = top_distance(y);
    floor_sqrt(dx * dx + dy * dy)
}

/// Distance of the corner pixel `(x, y)` from the point where the two shadow
/// ramps end.
pub open spec fn corner_distance(width: int, height: int, x: int, y: int) -> int {
    corner_span(left_distance(width, height, x, y), right_distance(width, height, x, y), y)
}

/// Opacity of a shadow pixel before the softening pass.
pub open spec fn shadow_alpha(width: int, height: int, x: int, y: int) -> int {
    let left = left_distance(width, height, x, y);
    let right = right_distance(width, height, x, y);
    match zone_of(width, height, x, y) {
        Zone::Corner => 255 - falloff(corner_distance(width, height, x, y)),
        Zone::TopShadow => 255 - falloff(top_distance(y)),
        _ => falloff(
            if left < SHADOW_W_PX {
                left
            } else {
                right
            },
        ),
    }
}

/// `part` out of `whole`, scaled to the range of a colour channel.
pub open spec fn ramp(part: int, whole: int) -> int {
    part * 255 / whole
}

/// The diagonal gradient that stands in for the reflection.
pub open spec fn gradient(width: int, height: int, x: int, y: int) -> Pixel {
    Pixel {
        b: lesser(ramp(width - x, width), ramp(y, height)) as u8,
        g: lesser(ramp(x, width), ramp(height - y, height)) as u8,
        r: lesser(ramp(width - x, width), ramp(height - y, height)) as u8,
        a: FALLBACK_ALPHA,
    }
}

/// Row of the capture that is mirrored into row `y` of the dock.
pub open spec fn reflected_row(height: int, y: int) -> int {
    (height - y) + SHADOW_W_PX as int
}

/// Index into the capture of the pixel that is reflected at `(x, y)`.
pub open spec fn capture_index(width: int, height: int, x: int, y: int) -> int {
    reflected_row(height, y) * dock_width(width) + x + dock_width(width) / 2
        + GLASS_X_SHIFT as int
}

/// A channel darkened by `overlay`: that much less, but not below zero.
pub open spec fn darkened(channel: u8, overlay: u8) -> u8 {
    if channel >= overlay {
        (channel - overlay) as u8
    } else {
        0
    }
}

/// The fill of the dock's interior: the reflected capture pixel, darkened and
/// opaque, or the gradient where the capture has no such pixel.
pub open spec fn glass(
    width: int,
    height: int,
    capture: Option<CaptureFrameView>,
    x: int,
    y: int,
) -> Pixel {
    match captured_pixel(capture, capture_index(width, height, x, y)) {
        Some(p) => tinted(p, METAL_OVERLAY),
        None => gradient(width, height, x, y),
    }
}

/// Pixel `(x, y)` after the first pass.
#[verifier::opaque]
pub open spec fn shaded(
    width: int,
    height: int,
    capture: Option<CaptureFrameView>,
    x: int,
    y: int,
) -> Pixel {
    match zone_of(width, height, x, y) {
        Zone::Outside => Pixel::clear(),
        Zone::Border => Pixel::black(0xFF),
        Zone::Glass => glass(width, height, capture, x, y),
        _ => Pixel::black(shadow_alpha(width, height, x, y) as u8),
    }
}

/// The inset of a row is never negative and never more than the panel's
/// height, the band lies inside the panel, and a pixel inside the dock lies
/// inside the panel.
proof fn lemma_distances_bounded(width: int, height: int, x: int, y: int)
    requires
        0 <= width,
        0 <= height,
    ensures
        0 <= row_inset(height, y) <= height,
        0 <= side_margin(width) <= band_end(width) <= width,
        inside_dock(width, height, x, y) ==> 0 <= x < width && 0 <= y < height,
{
    lemma_inset_shrinks(y, height, DOCK_SINE_PER_MILLE as int);
}

/// Distances of `(x, y)` to the dock's left and right edge.
fn side_distances(width: u32, height: u32, x: u32, y: u32) -> (d: (i64, i64))
    ensures
        d.0 as int == left_distance(width as int, height as int, x as int, y as int),
        d.1 as int == right_distance(width as int, height as int, x as int, y as int),
{
    proof {
        lemma_distances_bounded(width as int, height as int, x as int, y as int);
    }
    let margin: i64 = ((width - width / 2) / 2) as i64;
    let end: i64 = width as i64 - margin;
    let inset: i64 = dock_x_inset(y, height, DOCK_SINE_PER_MILLE) as i64;
    (x as i64 - inset - margin, end - inset - x as i64)
}

/// The zone of pixel `(x, y)`. Pixels outside the panel are outside the dock.
pub fn classify(width: u32, height: u32, x: u32, y: u32) -> (zone: Zone)
    ensures
        zone == zone_of(width as int, height as int, x as int, y as int),
{
    proof {
        lemma_distances_bounded(width as int, height as int, x as int, y as int);
    }
    let (left, right) = side_distances(width, height, x, y);
    let reach: i64 = SHADOW_W_PX as i64;
    let near_side: bool = left < reach || right < reach;
    if !(y < height && left > 0 && right > 0) {
        Zone::Outside
    } else if (y as i64) < reach {
        if near_side {
            Zone::Corner
        } else {
            Zone::TopShadow
        }
    } else if near_side {
        Zone::SideShadow
    } else if left == reach || right == reach {
        Zone::Border
    } else {
        Zone::Glass
    }
}

/// A scaled share never exceeds a full channel.
proof fn lemma_ramp_bounds(part: int, whole: int)
    requires
        0 <= part <= whole,
        0 < whole,
    ensures
        0 <= ramp(part, whole) <= 255,
{
    assert(0 <= part * 255 / whole <= 255) by (nonlinear_arith)
        requires
            0 <= part <= whole,
            0 < whole,
    ;
}

/// `part` out of `whole`, scaled to a colour channel.
fn scale(part: u32, whole: u32) -> (level: u8)
    requires
        part <= whole,
        0 < whole,
    ensures
        level as int == ramp(part as int, whole as int),
{
    proof {
        lemma_ramp_bounds(part as int, whole as int);
    }
    let scaled: u64 = part as u64 * 255 / (whole as u64);
    scaled as u8
}

/// The gradient pixel at `(x, y)`.
fn gradient_pixel(width: u32, height: u32, x: u32, y: u32) -> (pixel: Pixel)
    requires
        x < width,
        y < height,
    ensures
        pixel == gradient(width as int, height as int, x as int, y as int),
{
    let from_right: u8 = scale(width - x, width);
    let from_left: u8 = scale(x, width);
    let from_bottom: u8 = scale(height - y, height);
    let from_top: u8 = scale(y, height);
    Pixel {
        b: if from_right <= from_top {
            from_right
        } else {
            from_top
        },
        g: if from_left <= from_bottom {
            from_left
        } else {
            from_bottom
        },
        r: if from_right <= from_bottom {
            from_right
        } else {
            from_bottom
        },
        a: FALLBACK_ALPHA,
    }
}

/// A channel darkened by `overlay`: that much less, but not below zero.
fn darken(channel: u8, overlay: u8) -> (out: u8)
    ensures
        out == darkened(channel, overlay),
{
    if channel >= overlay {
        channel - overlay
    } else {
        0
    }
}

/// A reflected pixel: each colour channel darkened by `overlay`, fully opaque.
pub open spec fn tinted(pixel: Pixel, overlay: u8) -> Pixel {
    Pixel {
        b: darkened(pixel.b, overlay),
        g: darkened(pixel.g, overlay),
        r: darkened(pixel.r, overlay),
        a: 0xFF,
    }
}

/// Darkening never brightens a channel, and an overlay of zero leaves it as
/// it was.
pub proof fn lemma_darkened(channel: u8, overlay: u8)
    ensures
        darkened(channel, overlay) <= channel,
        darkened(channel, overlay) + overlay == channel || darkened(channel, overlay) == 0,
        darkened(channel, 0) == channel,
{
}

/// A reflected pixel: each colour channel darkened by `overlay`, fully opaque.
fn tint(pixel: Pixel, overlay: u8) -> (out: Pixel)
    ensures
        out == tinted(pixel, overlay),
{
    Pixel {
        b: darken(pixel.b, overlay),
        g: darken(pixel.g, overlay),
        r: darken(pixel.r, overlay),
        a: 0xFF,
    }
}

/// The glass pixel at `(x, y)`.
fn glass_pixel(width: u32, height: u32, capture: Option<&CaptureFrame>, x: u32, y: u32) -> (pixel:
    Pixel)
    requires
        x < width,
        y < height,
    ensures
        pixel == glass(width as int, height as int, frame_view(capture), x as int, y as int),
{
    let row: u64 = (height - y) as u64 + SHADOW_W_PX as u64;
    let dock: u64 = (width / 2) as u64;
    assert(row * dock <= 0x1_0000_0017 * 0x7FFF_FFFF) by (nonlinear_arith)
        requires
            0 <= row <= 0x1_0000_0017,
            0 <= dock <= 0x7FFF_FFFF,
    ;
    let index: u64 = row * dock + x as u64 + dock / 2 + GLASS_X_SHIFT as u64;
    let reflected: Option<Pixel> = match capture {
        Some(frame) => frame.pixel(index),
        None => None,
    };
    match reflected {
        Some(p) => tint(p, METAL_OVERLAY),
        None => gradient_pixel(width, height, x, y),
    }
}

/// Opacity of a corner pixel in row `y` that lies `left` and `right` of the
/// side edges.
fn corner_alpha(left: i64, right: i64, y: u32) -> (alpha: u8)
    requires
        0 < left,
        0 < right,
        left < SHADOW_W_PX || right < SHADOW_W_PX,
        y < SHADOW_W_PX,
    ensures
        alpha as int == 255 - falloff(corner_span(left as int, right as int, y as int)),
{
    let nearest: i64 = if left <= right {
        left
    } else {
        right
    };
    let dx: u32 = (SHADOW_W_PX as i64 - nearest) as u32;
    let dy: u32 = SHADOW_W_PX as u32 - y;
    assert(dx * dx <= 23 * 23 && dy * dy <= 24 * 24) by (nonlinear_arith)
        requires
            0 <= dx <= 23,
            0 <= dy <= 24,
    ;
    let root: u32 = isqrt(dx * dx + dy * dy);
    assert(root <= 33) by (nonlinear_arith)
        requires
            root * root <= 1105,
            0 <= root,
    ;
    let ramp_alpha: u8 = shadow_falloff_i(root as i32);
    255 - ramp_alpha
}

/// Pixel `(x, y)` after the first pass. Pixels outside the panel are clear.
pub fn shade(width: u32, height: u32, capture: Option<&CaptureFrame>, x: u32, y: u32) -> (pixel:
    Pixel)
    ensures
        pixel == shaded(width as int, height as int, frame_view(capture), x as int, y as int),
{
    proof {
        reveal(shaded);
        lemma_distances_bounded(width as int, height as int, x as int, y as int);
    }
    let (left, right) = side_distances(width, height, x, y);
    let reach: i64 = SHADOW_W_PX as i64;
    match classify(width, height, x, y) {
        Zone::Outside => Pixel { b: 0, g: 0, r: 0, a: 0 },
        Zone::Corner => Pixel { b: 0, g: 0, r: 0, a: corner_alpha(left, right, y) },
        Zone::TopShadow => {
            let ramp_alpha: u8 = shadow_falloff_i(SHADOW_W_PX - y as i32);
            Pixel { b: 0, g: 0, r: 0, a: 255 - ramp_alpha }
        },
        Zone::SideShadow => {
            let side: i64 = if left < reach {
                left
            } else {
                right
            };
            Pixel { b: 0, g: 0, r: 0, a: shadow_falloff_i(side as i32) }
        },
        Zone::Border => Pixel { b: 0, g: 0, r: 0, a: 0xFF },
        Zone::Glass => glass_pixel(width, height, capture, x, y),
    }
}

/// The row above `y`, or `y` itself in the first row.
pub open spec fn row_above(y: int) -> int {
    if y > 0 {
        y - 1
    } else {
        0
    }
}

/// The row below `y`, or `y` itself in the last row.
pub open spec fn row_below(height: int, y: int) -> int {
    if y + 1 < height {
        y + 1
    } else {
        height - 1
    }
}

/// The column left of `x`, or `x` itself in the first column.
pub open spec fn column_before(x: int) -> int {
    if x > 0 {
        x - 1
    } else {
        0
    }
}

/// The column right of `x`, or `x` itself in the last column.
pub open spec fn column_after(width: int, x: int) -> int {
    if x + 1 < width {
        x + 1
    } else {
        width - 1
    }
}

/// Opacity of a shadow pixel after the softening pass: the plain average of
/// the opacity that the first pass gave its four neighbours.
pub open spec fn softened_alpha(
    width: int,
    height: int,
    capture: Option<CaptureFrameView>,
    x: int,
    y: int,
) -> int {
    (shaded(width, height, capture, x, row_above(y)).a + shaded(
        width,
        height,
        capture,
        x,
        row_below(height, y),
    ).a + shaded(width, height, capture, column_before(x), y).a + shaded(
        width,
        height,
        capture,
        column_after(width, x),
        y,
    ).a) / 4
}

/// Pixel `(x, y)` of the finished frame: shadow pixels take the softened
/// opacity, all others stay as the first pass left them.
pub open spec fn composed(
    width: int,
    height: int,
    capture: Option<CaptureFrameView>,
    x: int,
    y: int,
) -> Pixel {
    let first = shaded(width, height, capture, x, y);
    if zone_of(width, height, x, y).is_shadow() {
        first.with_alpha(softened_alpha(width, height, capture, x, y) as u8)
    } else {
        first
    }
}

/// Position of pixel `(x, y)` in a frame stored row by row.
pub open spec fn offset_of(width: int, x: int, y: int) -> int {
    y * width + x
}

/// Byte `i` of the finished frame.
pub open spec fn frame_byte(
    width: int,
    height: int,
    capture: Option<CaptureFrameView>,
    i: int,
) -> u8 {
    composed(width, height, capture, (i / 4) % width, (i / 4) / width).channel(i % 4)
}

/// The finished frame for a panel of the given size: nothing for a panel
/// below the minimum size, else four bytes for every pixel, row by row from
/// the top left.
pub open spec fn rendered(width: int, height: int, capture: Option<CaptureFrameView>) -> Seq<u8> {
    if width < MIN_PANEL_SIDE || height < MIN_PANEL_SIDE {
        Seq::empty()
    } else {
        Seq::new((width * height * 4) as nat, |i: int| frame_byte(width, height, capture, i))
    }
}

/// The pixel whose four bytes stand at `(x, y)` in a frame `width` pixels wide.
pub open spec fn pixel_in(frame: Seq<u8>, width: int, x: int, y: int) -> Pixel {
    let at = 4 * offset_of(width, x, y);
    Pixel { b: frame[at], g: frame[at + 1], r: frame[at + 2], a: frame[at + 3] }
}

/// A position inside the panel lies inside the frame, and its row and column
/// can be read back from it.
pub proof fn lemma_offset(width: int, height: int, x: int, y: int)
    requires
        0 <= x < width,
        0 <= y < height,
    ensures
        0 <= offset_of(width, x, y) < width * height,
        offset_of(width, x, y) / width == y,
        offset_of(width, x, y) % width == x,
{
    vstd::arithmetic::div_mod::lemma_fundamental_div_mod_converse(y * width + x, width, y, x);
    assert(0 <= y * width && y * width + width <= height * width) by (nonlinear_arith)
        requires
            0 < width,
            0 <= y < height,
    ;
    assert(height * width == width * height) by (nonlinear_arith);
}

/// Position of pixel `(x, y)` in a frame stored row by row.
fn offset(width: u32, height: u32, x: u32, y: u32) -> (at: usize)
    requires
        x < width,
        y < height,
        width * height <= usize::MAX,
    ensures
        at as int == offset_of(width as int, x as int, y as int),
        at < width * height,
{
    proof {
        lemma_offset(width as int, height as int, x as int, y as int);
        assert(0 <= y * width) by (nonlinear_arith);
    }
    (y as usize) * (width as usize) + (x as usize)
}

/// The first pass over the whole panel.
fn shade_all(width: u32, height: u32, capture: Option<&CaptureFrame>) -> (first: Vec<Pixel>)
    requires
        width > 0,
        height > 0,
        width * height <= usize::MAX,
    ensures
        first@.len() == width * height,
        forall|x: int, y: int|
            #![trigger shaded(width as int, height as int, frame_view(capture), x, y)]
            0 <= x < width && 0 <= y < height ==> first@[offset_of(width as int, x, y)] == shaded(
                width as int,
                height as int,
                frame_view(capture),
                x,
                y,
            ),
{
    let ghost w = width as int;
    let ghost h = height as int;
    let ghost cap = frame_view(capture);
    let total: usize = offset(width, height, width - 1, height - 1) + 1;
    let mut first: Vec<Pixel> = Vec::with_capacity(total);
    let mut y: u32 = 0;
    while y < height
        invariant
            w == width as int,
            h == height as int,
            cap == frame_view(capture),
            0 < width,
            width * height <= usize::MAX,
            y <= height,
            first@.len() == offset_of(w, 0, y as int),
            forall|i: int| 0 <= i < first@.len() ==> first@[i] == shaded(w, h, cap, i % w, i / w),
        decreases height - y,
    {
        let mut x: u32 = 0;
        while x < width
            invariant
                w == width as int,
                h == height as int,
                cap == frame_view(capture),
                0 < width,
                width * height <= usize::MAX,
                y < height,
                x <= width,
                first@.len() == offset_of(w, x as int, y as int),
                forall|i: int|
                    0 <= i < first@.len() ==> first@[i] == shaded(w, h, cap, i % w, i / w),
            decreases width - x,
        {
            let pixel: Pixel = shade(width, height, capture, x, y);
            proof {
                lemma_offset(w, h, x as int, y as int);
            }
            first.push(pixel);
            x = x + 1;
        }
        proof {
            assert(y * w + w == (y + 1) * w) by (nonlinear_arith);
        }
        y = y + 1;
    }
    proof {
        assert(h * w == w * h) by (nonlinear_arith);
        assert forall|x: int, y: int| 0 <= x < w && 0 <= y < h implies first@[offset_of(w, x, y)]
            == #[trigger] shaded(w, h, cap, x, y) by {
            lemma_offset(w, h, x, y);
        }
    }
    first
}

/// Opacity of the shadow pixel at `(x, y)` after the softening pass, read from
/// the untouched result of the first pass.
fn soften(
    first: &Vec<Pixel>,
    width: u32,
    height: u32,
    capture: Option<&CaptureFrame>,
    x: u32,
    y: u32,
) -> (alpha: u8)
    requires
        x < width,
        y < height,
        width * height <= usize::MAX,
        first@.len() == width * height,
        forall|cx: int, cy: int|
            #![trigger shaded(width as int, height as int, frame_view(capture), cx, cy)]
            0 <= cx < width && 0 <= cy < height ==> first@[offset_of(width as int, cx, cy)]
                == shaded(width as int, height as int, frame_view(capture), cx, cy),
    ensures
        alpha as int == softened_alpha(
            width as int,
            height as int,
            frame_view(capture),
            x as int,
            y as int,
        ),
{
    let ghost cap = frame_view(capture);
    let up: u32 = if y > 0 {
        y - 1
    } else {
        0
    };
    let down: u32 = if y + 1 < height {
        y + 1
    } else {
        height - 1
    };
    let before: u32 = if x > 0 {
        x - 1
    } else {
        0
    };
    let after: u32 = if x + 1 < width {
        x + 1
    } else {
        width - 1
    };
    let north: u8 = first[offset(width, height, x, up)].a;
    let south: u8 = first[offset(width, height, x, down)].a;
    let west: u8 = first[offset(width, height, before, y)].a;
    let east: u8 = first[offset(width, height, after, y)].a;
    proof {
        let w = width as int;
        let h = height as int;
        assert(north == shaded(w, h, cap, x as int, up as int).a);
        assert(south == shaded(w, h, cap, x as int, down as int).a);
        assert(west == shaded(w, h, cap, before as int, y as int).a);
        assert(east == shaded(w, h, cap, after as int, y as int).a);
    }
    let sum: u32 = north as u32 + south as u32 + west as u32 + east as u32;
    (sum / 4) as u8
}

/// Renders the frame for a panel of the given size over the given capture.
///
/// A panel narrower or shorter than `MIN_PANEL_SIDE` yields no bytes at all,
/// however long its other side. Otherwise the frame holds exactly four bytes
/// per pixel, in the order blue, green, red, alpha, row by row from the top
/// left; such a frame must fit a byte buffer.
pub fn render(width: u32, height: u32, capture: Option<&CaptureFrame>) -> (frame: Vec<u8>)
    requires
        width >= MIN_PANEL_SIDE && height >= MIN_PANEL_SIDE ==> width * height * 4 <= isize::MAX,
    ensures
        frame@ == rendered(width as int, height as int, frame_view(capture)),
        width >= MIN_PANEL_SIDE && height >= MIN_PANEL_SIDE ==> frame@.len() == width * height * 4,
        width < MIN_PANEL_SIDE || height < MIN_PANEL_SIDE ==> frame@.len() == 0,
{
    if width < MIN_PANEL_SIDE || height < MIN_PANEL_SIDE {
        return Vec::new();
    }
    let ghost w = width as int;
    let ghost h = height as int;
    let ghost cap = frame_view(capture);
    proof {
        assert(w * h * 4 == 4 * (w * h)) by (nonlinear_arith);
    }
    let first: Vec<Pixel> = shade_all(width, height, capture);
    let total: usize = first.len();
    let mut frame: Vec<u8> = Vec::with_capacity(total * 4);
    let mut y: u32 = 0;
    while y < height
        invariant
            w == width as int,
            h == height as int,
            cap == frame_view(capture),
            0 < width,
            w * h * 4 <= isize::MAX,
            y <= height,
            first@.len() == w * h,
            forall|cx: int, cy: int|
                #![trigger shaded(w, h, cap, cx, cy)]
                0 <= cx < w && 0 <= cy < h ==> first@[offset_of(w, cx, cy)] == shaded(
                    w,
                    h,
                    cap,
                    cx,
                    cy,
                ),
            frame@.len() == 4 * offset_of(w, 0, y as int),
            forall|i: int| 0 <= i < frame@.len() ==> frame@[i] == frame_byte(w, h, cap, i),
        decreases height - y,
    {
        let mut x: u32 = 0;
        while x < width
            invariant
                w == width as int,
                h == height as int,
                cap == frame_view(capture),
                0 < width,
                w * h * 4 <= isize::MAX,
                y < height,
                x <= width,
                first@.len() == w * h,
                forall|cx: int, cy: int|
                    #![trigger shaded(w, h, cap, cx, cy)]
                    0 <= cx < w && 0 <= cy < h ==> first@[offset_of(w, cx, cy)] == shaded(
                        w,
                        h,
                        cap,
                        cx,
                        cy,
                    ),
                frame@.len() == 4 * offset_of(w, x as int, y as int),
                forall|i: int| 0 <= i < frame@.len() ==> frame@[i] == frame_byte(w, h, cap, i),
            decreases width - x,
        {
            let at: usize = offset(width, height, x, y);
            let pixel: Pixel = first[at];
            assert(pixel == shaded(w, h, cap, x as int, y as int));
            let alpha: u8 = match classify(width, height, x, y) {
                Zone::Corner | Zone::TopShadow | Zone::SideShadow => soften(
                    &first,
                    width,
                    height,
                    capture,
                    x,
                    y,
                ),
                _ => pixel.a,
            };
            proof {
                lemma_offset(w, h, x as int, y as int);
                let done = composed(w, h, cap, x as int, y as int);
                assert(done == Pixel { b: pixel.b, g: pixel.g, r: pixel.r, a: alpha });
            }
            frame.push(pixel.b);
            frame.push(pixel.g);
            frame.push(pixel.r);
            frame.push(alpha);
            x = x + 1;
        }
        proof {
            assert(y * w + w == (y + 1) * w) by (nonlinear_arith);
        }
        y = y + 1;
    }
    proof {
        assert(h * w == w * h) by (nonlinear_arith);
        assert(frame@ =~= rendered(w, h, cap));
    }
    frame
}

/// In a frame of a panel that is large enough to be drawn, the four bytes at
/// `(x, y)` are the channels of that pixel as composed by the two passes.
pub proof fn lemma_rendered_pixel(
    width: int,
    height: int,
    capture: Option<CaptureFrameView>,
    x: int,
    y: int,
)
    requires
        MIN_PANEL_SIDE <= width,
        MIN_PANEL_SIDE <= height,
        0 <= x < width,
        0 <= y < height,
    ensures
        rendered(width, height, capture).len() == width * height * 4,
        4 * offset_of(width, x, y) + 4 <= rendered(width, height, capture).len(),
        pixel_in(rendered(width, height, capture), width, x, y) == composed(
            width,
            height,
            capture,
            x,
            y,
        ),
{
    lemma_offset(width, height, x, y);
    assert(width * height * 4 == 4 * (width * height)) by (nonlinear_arith);
    let at = 4 * offset_of(width, x, y);
    let frame = rendered(width, height, capture);
    assert(frame[at] == frame_byte(width, height, capture, at));
    assert(frame[at + 1] == frame_byte(width, height, capture, at + 1));
    assert(frame[at + 2] == frame_byte(width, height, capture, at + 2));
    assert(frame[at + 3] == frame_byte(width, height, capture, at + 3));
}

/// Every pixel left or right of the dock's band is fully transparent,
/// whatever the capture holds.
pub proof fn lemma_outside_band_is_clear(
    width: int,
    height: int,
    capture: Option<CaptureFrameView>,
    x: int,
    y: int,
)
    requires
        MIN_PANEL_SIDE <= width,
        MIN_PANEL_SIDE <= height,
        0 <= x < width,
        0 <= y < height,
        !(side_margin(width) <= x < band_end(width)),
    ensures
        pixel_in(rendered(width, height, capture), width, x, y) == Pixel::clear(),
{
    reveal(shaded);
    lemma_rendered_pixel(width, height, capture, x, y);
}

/// Below the top shadow, a pixel that lies exactly the shadow width in from
/// one side edge, and no nearer than that to the other, is opaque black.
pub proof fn lemma_border_is_opaque_black(
    width: int,
    height: int,
    capture: Option<CaptureFrameView>,
    x: int,
    y: int,
)
    requires
        MIN_PANEL_SIDE <= width,
        MIN_PANEL_SIDE <= height,
        0 <= x < width,
        SHADOW_W_PX <= y < height,
        left_distance(width, height, x, y) == SHADOW_W_PX && right_distance(width, height, x, y)
            >= SHADOW_W_PX || right_distance(width, height, x, y) == SHADOW_W_PX && left_distance(
            width,
            height,
            x,
            y,
        ) >= SHADOW_W_PX,
    ensures
        zone_of(width, height, x, y) == Zone::Border,
        pixel_in(rendered(width, height, capture), width, x, y) == Pixel::black(0xFF),
{
    reveal(shaded);
    lemma_inset_shrinks(y, height, DOCK_SINE_PER_MILLE as int);
    lemma_rendered_pixel(width, height, capture, x, y);
}

/// Rendering has no hidden input: two frames rendered for the same size over
/// the same capture are the same, byte for byte.
pub proof fn lemma_render_is_deterministic(
    width: int,
    height: int,
    capture: Option<CaptureFrameView>,
    once: Seq<u8>,
    again: Seq<u8>,
)
    requires
        once == rendered(width, height, capture),
        again == rendered(width, height, capture),
    ensures
        once == again,
{
}

} // verus!
