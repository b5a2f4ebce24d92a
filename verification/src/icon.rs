//! The tray icon: a filled circle in the colour of the session's state, with a
//! white ring and a soft edge.

use vstd::prelude::*;

verus! {

/// The icon's width and height in pixels.
pub const ICON_SIZE: usize = 32;

/// What the icon tells at a glance.
#[derive(Debug, Clone, Copy, PartialEq, Eq, Structural)]
pub enum IconState {
    /// No session: gray.
    Idle,
    /// Connecting or reconnecting: yellow.
    Busy,
    /// Streaming: green.
    Streaming,
    /// Connected, but the PC is silent: pale green.
    Silent,
    /// Stopped on an error: red.
    Failed,
}

/// A pixel: red, green, blue, and opacity.
#[derive(Debug, Clone, Copy, PartialEq, Eq, Structural)]
pub struct Pixel {
    pub r: u8,
    pub g: u8,
    pub b: u8,
    pub a: u8,
}

/// The fill colour of a state.
pub open spec fn fill(state: IconState) -> Pixel {
    match state {
        IconState::Idle => Pixel { r: 142, g: 142, b: 147, a: 255 },
        IconState::Busy => Pixel { r: 255, g: 204, b: 0, a: 255 },
        IconState::Streaming => Pixel { r: 52, g: 199, b: 89, a: 255 },
        IconState::Silent => Pixel { r: 168, g: 224, b: 182, a: 255 },
        IconState::Failed => Pixel { r: 255, g: 59, b: 48, a: 255 },
    }
}

fn fill_colour(state: IconState) -> (p: Pixel)
    ensures
        p == fill(state),
{
    match state {
        IconState::Idle => Pixel { r: 142, g: 142, b: 147, a: 255 },
        IconState::Busy => Pixel { r: 255, g: 204, b: 0, a: 255 },
        IconState::Streaming => Pixel { r: 52, g: 199, b: 89, a: 255 },
        IconState::Silent => Pixel { r: 168, g: 224, b: 182, a: 255 },
        IconState::Failed => Pixel { r: 255, g: 59, b: 48, a: 255 },
    }
}

/// Four times the square of the distance, in pixels, from the icon's centre to
/// the centre of the pixel in column `x` and row `y`.
pub open spec fn distance4(x: int, y: int) -> int {
    (2 * x - 31) * (2 * x - 31) + (2 * y - 31) * (2 * y - 31)
}

/// `a / 255` is at most `14 - d`, where `d` is the distance whose square is a
/// fourth of `q`.
pub open spec fn edge_allows(q: int, a: int) -> bool {
    65025 * q <= 4 * ((3570 - a) * (3570 - a))
}

/// The greatest opacity, no greater than `a`, that the edge allows.
pub open spec fn edge_opacity(q: int, a: int) -> int
    decreases a,
{
    if a <= 0 {
        0
    } else if edge_allows(q, a) {
        a
    } else {
        edge_opacity(q, a - 1)
    }
}

/// The pixel in column `x` and row `y`: the fill within 11 pixels of the
/// centre, a white ring from there to 13, an edge that fades out up to 14, and
/// nothing beyond.
pub open spec fn pixel(state: IconState, x: int, y: int) -> Pixel {
    let q = distance4(x, y);
    if q < 484 {
        fill(state)
    } else if q <= 676 {
        Pixel { r: 255, g: 255, b: 255, a: 255 }
    } else if q <= 784 {
        Pixel { r: 255, g: 255, b: 255, a: edge_opacity(q, 255) as u8 }
    } else {
        Pixel { r: 0, g: 0, b: 0, a: 0 }
    }
}

fn opacity_of_edge(q: i64) -> (r: u8)
    requires
        676 < q <= 784,
    ensures
        r == edge_opacity(q as int, 255),
{
    let mut a: u8 = 255;
    while a > 0
        invariant
            676 < q <= 784,
            edge_opacity(q as int, 255) == edge_opacity(q as int, a as int),
        decreases a,
    {
        let rest: i64 = 3570 - a as i64;
        proof {
            assert(0 <= rest * rest <= 3570 * 3570) by (nonlinear_arith)
                requires
                    0 <= rest <= 3570,
            ;
        }
        if 65025 * q <= 4 * (rest * rest) {
            return a;
        }
        a = a - 1;
    }
    0
}

fn pixel_at(state: IconState, x: usize, y: usize) -> (p: Pixel)
    requires
        x < ICON_SIZE,
        y < ICON_SIZE,
    ensures
        p == pixel(state, x as int, y as int),
{
    let dx: i64 = 2 * (x as i64) - 31;
    let dy: i64 = 2 * (y as i64) - 31;
    proof {
        assert(0 <= dx * dx <= 31 * 31) by (nonlinear_arith)
            requires
                -31 <= dx <= 31,
        ;
        assert(0 <= dy * dy <= 31 * 31) by (nonlinear_arith)
            requires
                -31 <= dy <= 31,
        ;
    }
    let q: i64 = dx * dx + dy * dy;
    if q < 484 {
        fill_colour(state)
    } else if q <= 676 {
        Pixel { r: 255, g: 255, b: 255, a: 255 }
    } else if q <= 784 {
        Pixel { r: 255, g: 255, b: 255, a: opacity_of_edge(q) }
    } else {
        Pixel { r: 0, g: 0, b: 0, a: 0 }
    }
}

/// The bytes of the `n`th pixel, row by row from the top, stand in their place.
pub open spec fn drawn(rgba: Seq<u8>, state: IconState, n: int) -> bool {
    let p = pixel(state, n % ICON_SIZE as int, n / ICON_SIZE as int);
    &&& rgba[4 * n] == p.r
    &&& rgba[4 * n + 1] == p.g
    &&& rgba[4 * n + 2] == p.b
    &&& rgba[4 * n + 3] == p.a
}

/// The icon of a state: four bytes a pixel, row by row from the top.
pub fn make_icon(state: IconState) -> (rgba: Vec<u8>)
    ensures
        rgba.len() == 4 * ICON_SIZE * ICON_SIZE,
        forall|n: int| 0 <= n < ICON_SIZE * ICON_SIZE ==> drawn(rgba@, state, n),
{
    let mut rgba: Vec<u8> = Vec::with_capacity(4 * ICON_SIZE * ICON_SIZE);
    let mut n: usize = 0;
    while n < ICON_SIZE * ICON_SIZE
        invariant
            n <= ICON_SIZE * ICON_SIZE,
            rgba.len() == 4 * n,
            forall|k: int| 0 <= k < n ==> drawn(rgba@, state, k),
        decreases ICON_SIZE * ICON_SIZE - n,
    {
        let p: Pixel = pixel_at(state, n % ICON_SIZE, n / ICON_SIZE);
        let ghost drawn_so_far = rgba@;
        rgba.push(p.r);
        rgba.push(p.g);
        rgba.push(p.b);
        rgba.push(p.a);
        assert forall|k: int| 0 <= k < n + 1 implies drawn(rgba@, state, k) by {
            if k < n {
                assert(drawn(drawn_so_far, state, k));
            }
        }
        n = n + 1;
    }
    rgba
}

/// The states can be told apart: no two of them have the same fill.
pub proof fn law_states_look_different(a: IconState, b: IconState)
    requires
        a != b,
    ensures
        fill(a) != fill(b),
{
}

/// The circle is the same from every side: mirrored left to right, top to
/// bottom, or along the diagonal, the icon does not change.
pub proof fn law_icon_is_symmetric(state: IconState, x: int, y: int)
    ensures
        pixel(state, 31 - x, y) == pixel(state, x, y),
        pixel(state, x, 31 - y) == pixel(state, x, y),
        pixel(state, y, x) == pixel(state, x, y),
{
    assert(distance4(31 - x, y) == distance4(x, y)) by (nonlinear_arith);
    assert(distance4(x, 31 - y) == distance4(x, y)) by (nonlinear_arith);
}

} // verus!
