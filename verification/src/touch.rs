//! Touch points of the AXS5106L controller: the report it sends, and the mapping
//! of a point onto a rotated display.
use vstd::prelude::*;

use crate::status::DisplayOrientation;

verus! {

/// A point on the touch panel, in panel coordinates.
#[derive(Debug, Clone, Copy, PartialEq, Eq, Structural)]
pub struct TouchPoint {
    pub x: u16,
    pub y: u16,
}

/// The points of one touch report.
pub struct TouchData {
    pub points: Vec<TouchPoint>,
}

/// The controller reports at most this many points.
pub const MAX_TOUCH_POINTS: usize = 5;

/// The number of points that a report announces, capped at the maximum.
pub open spec fn announced_points(report: Seq<u8>) -> nat {
    if report[1] < 5 {
        report[1] as nat
    } else {
        5
    }
}

/// The twelve-bit coordinate held in a high and a low byte.
pub open spec fn coordinate(high: u8, low: u8) -> u16 {
    (((high as u16) & 0x0f) << 8) | (low as u16)
}

/// The `i`-th point of a report: six bytes per point, after a two-byte header.
pub open spec fn report_point(report: Seq<u8>, i: int) -> TouchPoint {
    TouchPoint {
        x: coordinate(report[2 + 6 * i], report[3 + 6 * i]),
        y: coordinate(report[4 + 6 * i], report[5 + 6 * i]),
    }
}

/// Reads the points of a touch report; a report that announces no point gives none.
pub fn read_touch_report(report: &[u8]) -> (r: Option<TouchData>)
    requires
        report@.len() >= 2,
        6 * announced_points(report@) <= report@.len(),
    ensures
        report@[1] == 0 ==> r is None,
        report@[1] != 0 ==> (r matches Some(data) && data.points@.len() == announced_points(report@)
            && forall|i: int| 0 <= i < data.points@.len() ==> #[trigger] data.points@[i]
                == report_point(report@, i)),
{
    let num_touches = report[1] as usize;
    if num_touches == 0 {
        return None;
    }
    let n = if num_touches < MAX_TOUCH_POINTS { num_touches } else { MAX_TOUCH_POINTS };
    let mut points: Vec<TouchPoint> = Vec::new();
    let mut i: usize = 0;
    while i < n
        invariant
            n == announced_points(report@),
            6 * n <= report@.len(),
            i <= n,
            points@.len() == i,
            forall|j: int| 0 <= j < i ==> #[trigger] points@[j] == report_point(report@, j),
        decreases n - i,
    {
        let base = 2 + i * 6;
        let x = ((report[base] as u16 & 0x0f) << 8) | report[base + 1] as u16;
        let y = ((report[base + 2] as u16 & 0x0f) << 8) | report[base + 3] as u16;
        points.push(TouchPoint { x, y });
        i = i + 1;
    }
    Some(TouchData { points })
}

/// Where a panel point lies on a display turned to an orientation.
pub open spec fn rotated(p: TouchPoint, rotation: DisplayOrientation, width: u16, height: u16) -> TouchPoint {
    match rotation {
        DisplayOrientation::Rotate0 => TouchPoint { x: (width - 1 - p.x) as u16, y: p.y },
        DisplayOrientation::Rotate90 => TouchPoint { x: p.y, y: p.x },
        DisplayOrientation::Rotate180 => TouchPoint { x: p.x, y: (height - 1 - p.y) as u16 },
        DisplayOrientation::Rotate270 => TouchPoint {
            x: (height - 1 - p.y) as u16,
            y: (width - 1 - p.x) as u16,
        },
    }
}

/// The points for which a rotation stays on the display.
pub open spec fn rotation_in_range(p: TouchPoint, rotation: DisplayOrientation, width: u16, height: u16) -> bool {
    match rotation {
        DisplayOrientation::Rotate0 => p.x < width,
        DisplayOrientation::Rotate90 => true,
        DisplayOrientation::Rotate180 => p.y < height,
        DisplayOrientation::Rotate270 => p.x < width && p.y < height,
    }
}

/// Whether a panel point can be turned onto the display (see `rotation_in_range`).
pub fn rotation_fits(point: &TouchPoint, rotation: DisplayOrientation, width: u16, height: u16) -> (r: bool)
    ensures
        r == rotation_in_range(*point, rotation, width, height),
{
    match rotation {
        DisplayOrientation::Rotate0 => point.x < width,
        DisplayOrientation::Rotate90 => true,
        DisplayOrientation::Rotate180 => point.y < height,
        DisplayOrientation::Rotate270 => point.x < width && point.y < height,
    }
}

/// Maps a panel point onto the display as it is turned.
pub fn apply_rotation(point: &TouchPoint, rotation: DisplayOrientation, width: u16, height: u16) -> (r: TouchPoint)
    requires
        rotation_in_range(*point, rotation, width, height),
    ensures
        r == rotated(*point, rotation, width, height),
{
    match rotation {
        DisplayOrientation::Rotate0 => TouchPoint { x: width - 1 - point.x, y: point.y },
        DisplayOrientation::Rotate90 => TouchPoint { x: point.y, y: point.x },
        DisplayOrientation::Rotate180 => TouchPoint { x: point.x, y: height - 1 - point.y },
        DisplayOrientation::Rotate270 => TouchPoint {
            x: height - 1 - point.y,
            y: width - 1 - point.x,
        },
    }
}

} // verus!
