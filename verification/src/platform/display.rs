//! The display, and the sizes of the window.

use vstd::prelude::*;
use crate::platform::input::{logical, quotient, to_logical, Point};

verus! {

/// A rectangle in logical pixels, in millionths.
#[derive(Clone, Copy, Debug, PartialEq, Eq, Structural)]
pub struct Bounds {
    pub origin: Point,
    pub size: Point,
}

/// The width of the display: 1920 pixels.
pub const DISPLAY_WIDTH: i64 = 1_920_000_000;

/// The height of the display: 1080 pixels.
pub const DISPLAY_HEIGHT: i64 = 1_080_000_000;

/// The width of a window whose size was not given: 800 pixels.
pub const FALLBACK_WIDTH: u32 = 800;

/// The height of a window whose size was not given: 600 pixels.
pub const FALLBACK_HEIGHT: u32 = 600;

/// How often the events are pumped while the window is being made.
pub const MAX_PUMP_ATTEMPTS: u32 = 10;

/// The one display that the bridge knows.
#[derive(Clone, Copy, Debug, PartialEq, Eq, Structural)]
pub struct NodeDisplay {
    pub id: u32,
    pub bounds: Bounds,
}

/// Three quarters of a length.
pub open spec fn three_quarters(v: i64) -> i64 {
    (quotient(v as int, 4) * 3) as i64
}

/// The window that a display suggests: three quarters of the display
/// wide and high, in its middle.
pub open spec fn centered_default(bounds: Bounds) -> Bounds {
    let width = three_quarters(bounds.size.x);
    let height = three_quarters(bounds.size.y);
    Bounds {
        origin: Point {
            x: quotient(bounds.size.x - width, 2) as i64,
            y: quotient(bounds.size.y - height, 2) as i64,
        },
        size: Point { x: width, y: height },
    }
}

fn quarter_times_three(v: i64) -> (r: i64)
    ensures
        r == three_quarters(v),
{
    let quarter: i64 = if v >= 0 {
        v / 4
    } else if v == i64::MIN {
        i64::MIN / 4
    } else {
        -((-v) / 4)
    };
    quarter * 3
}

fn half(v: i64) -> (r: i64)
    requires
        v > i64::MIN,
    ensures
        r == quotient(v as int, 2),
{
    if v >= 0 {
        v / 2
    } else {
        -((-v) / 2)
    }
}

impl NodeDisplay {
    /// A display of 1920 by 1080 pixels at the origin.
    pub fn new() -> (d: NodeDisplay)
        ensures
            d.id == 1,
            d.bounds == (Bounds {
                origin: Point { x: 0, y: 0 },
                size: Point { x: DISPLAY_WIDTH, y: DISPLAY_HEIGHT },
            }),
    {
        NodeDisplay {
            id: 1,
            bounds: Bounds {
                origin: Point { x: 0, y: 0 },
                size: Point { x: DISPLAY_WIDTH, y: DISPLAY_HEIGHT },
            },
        }
    }

    pub fn bounds(&self) -> (b: Bounds)
        ensures
            b == self.bounds,
    {
        self.bounds
    }

    pub fn visible_bounds(&self) -> (b: Bounds)
        ensures
            b == self.bounds,
    {
        self.bounds
    }

    /// The window that the display suggests: three quarters of the display
    /// wide and high, in its middle.
    pub fn default_bounds(&self) -> (b: Bounds)
        ensures
            b == centered_default(self.bounds),
    {
        let width = quarter_times_three(self.bounds.size.x);
        let height = quarter_times_three(self.bounds.size.y);
        Bounds {
            origin: Point {
                x: half(self.bounds.size.x - width),
                y: half(self.bounds.size.y - height),
            },
            size: Point { x: width, y: height },
        }
    }
}

/// The size to open a window with: the size asked for, with 800 in place
/// of a width of zero and 600 in place of a height of zero.
pub fn window_size_or_default(width: u32, height: u32) -> (size: (u32, u32))
    ensures
        size.0 == if width == 0 {
            FALLBACK_WIDTH
        } else {
            width
        },
        size.1 == if height == 0 {
            FALLBACK_HEIGHT
        } else {
            height
        },
{
    (
        if width == 0 {
            FALLBACK_WIDTH
        } else {
            width
        },
        if height == 0 {
            FALLBACK_HEIGHT
        } else {
            height
        },
    )
}

/// The logical size of a window of a physical size.
pub fn logical_size(width: u32, height: u32, scale: i64) -> (size: Point)
    ensures
        size == (Point {
            x: to_logical((width * 1_000_000) as i64, scale),
            y: to_logical((height * 1_000_000) as i64, scale),
        }),
{
    Point {
        x: logical((width as i64) * 1_000_000, scale),
        y: logical((height as i64) * 1_000_000, scale),
    }
}

/// A number held to the range of `i32`.
pub open spec fn clamped_i32(v: int) -> i32 {
    if v > i32::MAX {
        i32::MAX
    } else if v < i32::MIN {
        i32::MIN
    } else {
        v as i32
    }
}

/// A logical length in device pixels: times the scale, cut off toward
/// zero, held to the range of `i32`.
pub open spec fn to_device(length: i64, scale: i64) -> i32 {
    clamped_i32(quotient(length * scale, 1_000_000_000_000))
}

fn device(length: i64, scale: i64) -> (r: i32)
    ensures
        r == to_device(length, scale),
{
    proof {
        assert(-0x4000_0000_0000_0000_0000_0000_0000_0000 <= (length as int) * (scale as int)
            <= 0x4000_0000_0000_0000_0000_0000_0000_0000) by (nonlinear_arith)
            requires
                -0x8000_0000_0000_0000 <= length <= 0x7fff_ffff_ffff_ffff,
                -0x8000_0000_0000_0000 <= scale <= 0x7fff_ffff_ffff_ffff,
        ;
    }
    let product: i128 = (length as i128) * (scale as i128);
    let q: i128 = if product >= 0 {
        product / 1_000_000_000_000
    } else {
        -((-product) / 1_000_000_000_000)
    };
    if q > i32::MAX as i128 {
        i32::MAX
    } else if q < i32::MIN as i128 {
        i32::MIN
    } else {
        q as i32
    }
}

/// The size of the drawable for a window of a logical size.
pub fn device_size(size: Point, scale: i64) -> (r: (i32, i32))
    ensures
        r.0 == to_device(size.x, scale),
        r.1 == to_device(size.y, scale),
{
    (device(size.x, scale), device(size.y, scale))
}

} // verus!
