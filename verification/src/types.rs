use vstd::prelude::*;

verus! {

/// A pixel position: `(x, y)`.
pub type Point = (i32, i32);

/// A pixel size: `(width, height)`.
pub type Dimensions = (i32, i32);

/// An RGBA color, eight bits per channel.
#[derive(Clone, Copy, PartialEq, Eq, Structural, Debug)]
pub struct Colour {
    pub r: u8,
    pub g: u8,
    pub b: u8,
    pub a: u8,
}

impl Colour {
    /// The color with the four channels given.
    pub fn new(r: u8, g: u8, b: u8, a: u8) -> (c: Colour)
        ensures
            c == (Colour { r, g, b, a }),
    {
        Colour { r, g, b, a }
    }

    /// The track of a slider: 200, 200, 200, opaque.
    pub open spec fn light_gray() -> Colour {
        Colour { r: 200, g: 200, b: 200, a: 255 }
    }

    /// A widget at rest: 130, 130, 130, opaque.
    pub open spec fn gray() -> Colour {
        Colour { r: 130, g: 130, b: 130, a: 255 }
    }

    /// A widget under the pointer, or an active one: 80, 80, 80, opaque.
    pub open spec fn dark_gray() -> Colour {
        Colour { r: 80, g: 80, b: 80, a: 255 }
    }

    /// Text: 245, 245, 245, opaque.
    pub open spec fn ray_white() -> Colour {
        Colour { r: 245, g: 245, b: 245, a: 255 }
    }

    /// The rule beneath a label: 0, 0, 0, opaque.
    pub open spec fn black() -> Colour {
        Colour { r: 0, g: 0, b: 0, a: 255 }
    }
}

/// The renderer's own `LIGHTGRAY`, which is `raylib::prelude::Color::LIGHTGRAY`.
/// Its channels are believed to be 200, 200, 200 and 255, as that crate
/// declares them.
#[verifier::external_body]
pub(crate) fn light_gray() -> (c: Colour)
    ensures
        c == Colour::light_gray(),
{
    let colour = raylib::prelude::Color::LIGHTGRAY;
    Colour { r: colour.r, g: colour.g, b: colour.b, a: colour.a }
}

/// The renderer's own `GRAY`, which is `raylib::prelude::Color::GRAY`.
/// Its channels are believed to be 130, 130, 130 and 255, as that crate
/// declares them.
#[verifier::external_body]
pub(crate) fn gray() -> (c: Colour)
    ensures
        c == Colour::gray(),
{
    let colour = raylib::prelude::Color::GRAY;
    Colour { r: colour.r, g: colour.g, b: colour.b, a: colour.a }
}

/// The renderer's own `DARKGRAY`, which is `raylib::prelude::Color::DARKGRAY`.
/// Its channels are believed to be 80, 80, 80 and 255, as that crate
/// declares them.
#[verifier::external_body]
pub(crate) fn dark_gray() -> (c: Colour)
    ensures
        c == Colour::dark_gray(),
{
    let colour = raylib::prelude::Color::DARKGRAY;
    Colour { r: colour.r, g: colour.g, b: colour.b, a: colour.a }
}

/// The renderer's own `RAYWHITE`, which is `raylib::prelude::Color::RAYWHITE`.
/// Its channels are believed to be 245, 245, 245 and 255, as that crate
/// declares them.
#[verifier::external_body]
pub(crate) fn ray_white() -> (c: Colour)
    ensures
        c == Colour::ray_white(),
{
    let colour = raylib::prelude::Color::RAYWHITE;
    Colour { r: colour.r, g: colour.g, b: colour.b, a: colour.a }
}

/// The renderer's own `BLACK`, which is `raylib::prelude::Color::BLACK`.
/// Its channels are believed to be 0, 0, 0 and 255, as that crate
/// declares them.
#[verifier::external_body]
pub(crate) fn black() -> (c: Colour)
    ensures
        c == Colour::black(),
{
    let colour = raylib::prelude::Color::BLACK;
    Colour { r: colour.r, g: colour.g, b: colour.b, a: colour.a }
}

/// What the pointing device reports for one frame.
#[derive(Clone, Copy, PartialEq, Eq, Debug)]
pub struct Pointer {
    /// Where the pointer is.
    pub position: Point,
    /// Whether the primary button went down during this frame.
    pub pressed: bool,
    /// Whether the primary button is down.
    pub held: bool,
}

/// The nearest value to `v` that an `i32` can hold.
pub open spec fn saturate(v: int) -> int {
    if v < i32::MIN {
        i32::MIN as int
    } else if v > i32::MAX {
        i32::MAX as int
    } else {
        v
    }
}

/// Brings a wide intermediate result back into the range of a coordinate.
pub fn saturate_i64(v: i64) -> (r: i32)
    ensures
        r == saturate(v as int),
{
    if v < i32::MIN as i64 {
        i32::MIN
    } else if v > i32::MAX as i64 {
        i32::MAX
    } else {
        v as i32
    }
}

} // verus!
