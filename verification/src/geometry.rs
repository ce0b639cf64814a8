//! Screen rectangles and points.

use vstd::prelude::*;
use crate::error::Error;

verus! {

/// A rectangle in screen or window coordinates; `right` and `bottom` are exclusive.
#[derive(Debug, Clone, Copy, PartialEq, Eq, Structural)]
pub struct Rect {
    pub left: i32,
    pub top: i32,
    pub right: i32,
    pub bottom: i32,
}

/// A point in screen or window coordinates.
#[derive(Debug, Clone, Copy, PartialEq, Eq, Structural)]
pub struct Point {
    pub x: i32,
    pub y: i32,
}

/// A crop rectangle relative to the top-left corner of a monitor.
#[derive(Debug, Clone, Copy, PartialEq, Eq, Structural)]
pub struct CaptureRect {
    pub left: u32,
    pub top: u32,
    pub right: u32,
    pub bottom: u32,
}

pub open spec fn max_int(a: int, b: int) -> int {
    if a >= b {
        a
    } else {
        b
    }
}

pub open spec fn min_int(a: int, b: int) -> int {
    if a <= b {
        a
    } else {
        b
    }
}

impl Rect {
    /// Width, or 0 when `right` is not past `left`.
    pub open spec fn spec_width(self) -> nat {
        max_int(self.right - self.left, 0) as nat
    }

    /// Height, or 0 when `bottom` is not past `top`.
    pub open spec fn spec_height(self) -> nat {
        max_int(self.bottom - self.top, 0) as nat
    }

    /// A rectangle that covers no pixel.
    pub open spec fn spec_is_empty(self) -> bool {
        self.spec_width() == 0 || self.spec_height() == 0
    }

    /// Whether `self` lies within `outer`.
    pub open spec fn within(self, outer: Rect) -> bool {
        outer.left <= self.left && self.right <= outer.right && outer.top <= self.top && self.bottom
            <= outer.bottom
    }

    /// A rectangle with its corners in order whose sides fit in an `i32`:
    /// what a monitor rectangle is.
    pub open spec fn is_monitor_shaped(self) -> bool {
        &&& self.left <= self.right
        &&& self.top <= self.bottom
        &&& self.right - self.left <= i32::MAX
        &&& self.bottom - self.top <= i32::MAX
    }

    /// Width, or 0 when `right` is not past `left`.
    pub fn width(self) -> (w: u32)
        ensures
            w == self.spec_width(),
    {
        let d: i64 = self.right as i64 - self.left as i64;
        if d > 0 {
            d as u32
        } else {
            0
        }
    }

    /// Height, or 0 when `bottom` is not past `top`.
    pub fn height(self) -> (h: u32)
        ensures
            h == self.spec_height(),
    {
        let d: i64 = self.bottom as i64 - self.top as i64;
        if d > 0 {
            d as u32
        } else {
            0
        }
    }

    /// Whether the rectangle covers no pixel.
    pub fn is_empty(self) -> (b: bool)
        ensures
            b == self.spec_is_empty(),
    {
        self.width() == 0 || self.height() == 0
    }

    /// The rectangle spanned by two corners given in any order.
    pub open spec fn spec_from_points(start: Point, end: Point) -> Rect {
        Rect {
            left: min_int(start.x as int, end.x as int) as i32,
            top: min_int(start.y as int, end.y as int) as i32,
            right: max_int(start.x as int, end.x as int) as i32,
            bottom: max_int(start.y as int, end.y as int) as i32,
        }
    }

    /// The rectangle spanned by two corners given in any order.
    pub fn from_points(start: Point, end: Point) -> (r: Rect)
        ensures
            r == Rect::spec_from_points(start, end),
    {
        Rect {
            left: if start.x <= end.x { start.x } else { end.x },
            top: if start.y <= end.y { start.y } else { end.y },
            right: if start.x >= end.x { start.x } else { end.x },
            bottom: if start.y >= end.y { start.y } else { end.y },
        }
    }

    /// The rectangle shrunk by `amount` on every side.
    pub fn inset(self, amount: i32) -> (r: Rect)
        requires
            i32::MIN <= self.left + amount <= i32::MAX,
            i32::MIN <= self.top + amount <= i32::MAX,
            i32::MIN <= self.right - amount <= i32::MAX,
            i32::MIN <= self.bottom - amount <= i32::MAX,
        ensures
            r.left == self.left + amount,
            r.top == self.top + amount,
            r.right == self.right - amount,
            r.bottom == self.bottom - amount,
    {
        Rect {
            left: self.left + amount,
            top: self.top + amount,
            right: self.right - amount,
            bottom: self.bottom - amount,
        }
    }

    /// The rectangle moved by `dx` across and `dy` down.
    pub fn offset(self, dx: i32, dy: i32) -> (r: Rect)
        requires
            i32::MIN <= self.left + dx <= i32::MAX,
            i32::MIN <= self.top + dy <= i32::MAX,
            i32::MIN <= self.right + dx <= i32::MAX,
            i32::MIN <= self.bottom + dy <= i32::MAX,
        ensures
            r.left == self.left + dx,
            r.top == self.top + dy,
            r.right == self.right + dx,
            r.bottom == self.bottom + dy,
    {
        Rect {
            left: self.left + dx,
            top: self.top + dy,
            right: self.right + dx,
            bottom: self.bottom + dy,
        }
    }
}

/// The part of `target` that lies on `monitor`.
pub open spec fn spec_intersection(target: Rect, monitor: Rect) -> Rect {
    Rect {
        left: max_int(target.left as int, monitor.left as int) as i32,
        top: max_int(target.top as int, monitor.top as int) as i32,
        right: min_int(target.right as int, monitor.right as int) as i32,
        bottom: min_int(target.bottom as int, monitor.bottom as int) as i32,
    }
}

/// `target` cut to `monitor`; an error when nothing of it is left.
pub open spec fn spec_clamp_rect_to_monitor(target: Rect, monitor: Rect) -> Result<Rect, Error> {
    let r = spec_intersection(target, monitor);
    if r.spec_is_empty() {
        Err(Error::RegionOutsideMonitor)
    } else {
        Ok(r)
    }
}

/// Cuts `target` to `monitor`.
pub fn clamp_rect_to_monitor(target: Rect, monitor: Rect) -> (r: Result<Rect, Error>)
    ensures
        r == spec_clamp_rect_to_monitor(target, monitor),
{
    let rect = Rect {
        left: if target.left >= monitor.left { target.left } else { monitor.left },
        top: if target.top >= monitor.top { target.top } else { monitor.top },
        right: if target.right <= monitor.right { target.right } else { monitor.right },
        bottom: if target.bottom <= monitor.bottom { target.bottom } else { monitor.bottom },
    };
    if rect.is_empty() {
        return Err(Error::RegionOutsideMonitor);
    }
    Ok(rect)
}

/// `target` cut to `monitor`, in coordinates relative to the monitor's
/// top-left corner.
pub open spec fn spec_rect_to_capture_rect(target: Rect, monitor: Rect) -> Result<CaptureRect, Error> {
    match spec_clamp_rect_to_monitor(target, monitor) {
        Ok(r) => Ok(
            CaptureRect {
                left: (r.left - monitor.left) as u32,
                top: (r.top - monitor.top) as u32,
                right: (r.right - monitor.left) as u32,
                bottom: (r.bottom - monitor.top) as u32,
            },
        ),
        Err(e) => Err(e),
    }
}

/// The crop rectangle of `target` on `monitor`.
pub fn rect_to_capture_rect(target: Rect, monitor: Rect) -> (r: Result<CaptureRect, Error>)
    ensures
        r == spec_rect_to_capture_rect(target, monitor),
{
    let rect = match clamp_rect_to_monitor(target, monitor) {
        Ok(rect) => rect,
        Err(e) => return Err(e),
    };
    Ok(
        CaptureRect {
            left: (rect.left as i64 - monitor.left as i64) as u32,
            top: (rect.top as i64 - monitor.top as i64) as u32,
            right: (rect.right as i64 - monitor.left as i64) as u32,
            bottom: (rect.bottom as i64 - monitor.top as i64) as u32,
        },
    )
}

pub open spec fn clamp_int(v: int, lo: int, hi: int) -> int {
    if v < lo {
        lo
    } else if v > hi {
        hi
    } else {
        v
    }
}

/// `point` moved to the nearest point of `bounds` (edges included).
pub open spec fn spec_clamp_point_to_rect(point: Point, bounds: Rect) -> Point {
    Point {
        x: clamp_int(point.x as int, bounds.left as int, bounds.right as int) as i32,
        y: clamp_int(point.y as int, bounds.top as int, bounds.bottom as int) as i32,
    }
}

/// Moves `point` into `bounds`, edges included.
pub fn clamp_point_to_rect(point: Point, bounds: Rect) -> (p: Point)
    requires
        bounds.left <= bounds.right,
        bounds.top <= bounds.bottom,
    ensures
        p == spec_clamp_point_to_rect(point, bounds),
{
    Point {
        x: if point.x < bounds.left {
            bounds.left
        } else if point.x > bounds.right {
            bounds.right
        } else {
            point.x
        },
        y: if point.y < bounds.top {
            bounds.top
        } else if point.y > bounds.bottom {
            bounds.bottom
        } else {
            point.y
        },
    }
}

/// A 16-bit word read as a two's-complement signed number.
pub open spec fn signed_word(w: int) -> int {
    if w >= 0x8000 {
        w - 0x10000
    } else {
        w
    }
}

/// The client point packed in a mouse message's `LPARAM`: the low word of its
/// low 32 bits is `x`, the high word is `y`, each signed.
pub open spec fn spec_client_point_from_lparam(lparam: isize) -> Point {
    let v = (lparam as int) % 0x1_0000_0000;
    Point { x: signed_word(v % 0x10000) as i32, y: signed_word(v / 0x10000) as i32 }
}

/// Unpacks the client point of a mouse message's `LPARAM`.
pub fn client_point_from_lparam(lparam: isize) -> (p: Point)
    ensures
        p == spec_client_point_from_lparam(lparam),
{
    let value = lparam as u32;
    let lo: u32 = value & 0xFFFF;
    let hi: u32 = (value >> 16) & 0xFFFF;
    assert(lo == value % 0x10000 && hi == value / 0x10000) by (bit_vector)
        requires
            lo == value & 0xFFFF,
            hi == (value >> 16) & 0xFFFF,
    ;
    assert(value == (lparam as int) % 0x1_0000_0000) by (bit_vector)
        requires
            value == lparam as u32,
    ;
    let x: i32 = if lo >= 0x8000 {
        lo as i32 - 0x10000
    } else {
        lo as i32
    };
    let y: i32 = if hi >= 0x8000 {
        hi as i32 - 0x10000
    } else {
        hi as i32
    };
    Point { x, y }
}

} // verus!
