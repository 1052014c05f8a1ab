//! The analog clock feature: where on the display the clock goes, and which
//! hands a redraw must erase first.
use vstd::prelude::*;

verus! {

/// A rectangle of the display: its top-left corner and its size in pixels.
#[derive(Clone, Copy, Debug, PartialEq, Eq, Structural)]
pub struct Rect {
    pub x: i32,
    pub y: i32,
    pub width: u32,
    pub height: u32,
}

/// Where the clock goes within the display's bounding box: the default, one pixel
/// in from each edge, or a rule of the board's own.
pub enum Layout<F> {
    Inset,
    Custom(F),
}

/// The default placement: one pixel in from each edge.
pub open spec fn inset_rect(r: Rect) -> Rect {
    Rect { x: (r.x + 1) as i32, y: (r.y + 1) as i32, width: (r.width - 2) as u32, height: (r.height - 2) as u32 }
}

/// Whether the default placement fits: the box is at least two pixels wide and
/// high, and its corner can move in by one.
pub open spec fn inset_fits(r: Rect) -> bool {
    r.width >= 2 && r.height >= 2 && r.x < i32::MAX && r.y < i32::MAX
}

impl<F: Fn(&Rect) -> Rect> Layout<F> {
    /// Whether the layout can place the clock within a box.
    pub open spec fn applies_to(&self, r: Rect) -> bool {
        match self {
            Layout::Inset => inset_fits(r),
            Layout::Custom(f) => call_requires(*f, (&r,)),
        }
    }

    /// The clock's rectangle within the display's bounding box.
    pub fn apply(&self, r: &Rect) -> (out: Rect)
        requires
            self.applies_to(*r),
        ensures
            match self {
                Layout::Inset => out == inset_rect(*r),
                Layout::Custom(f) => call_ensures(*f, (r,), out),
            },
    {
        match self {
            Layout::Inset => Rect { x: r.x + 1, y: r.y + 1, width: r.width - 2, height: r.height - 2 },
            Layout::Custom(f) => f(r),
        }
    }
}

/// Builds an analog clock.
pub struct AnalogClockBuilder<F> {
    pub layout: Option<F>,
}

impl<F> AnalogClockBuilder<F> {
    /// A builder with the default layout.
    pub fn new() -> (r: Self)
        ensures
            r.layout is None,
    {
        AnalogClockBuilder { layout: None }
    }

    /// Places the clock by the given rule.
    pub fn with_layout(self, layout: F) -> (r: Self)
        ensures
            r.layout == Some(layout),
    {
        AnalogClockBuilder { layout: Some(layout) }
    }

    /// The clock, placed by the chosen rule or else by the default one.
    pub fn build(self) -> (r: AnalogClock<F>)
        ensures
            match self.layout {
                Some(f) => r.layout == Layout::Custom(f),
                None => r.layout is Inset,
            },
    {
        match self.layout {
            Some(f) => AnalogClock { layout: Layout::Custom(f) },
            None => AnalogClock { layout: Layout::Inset },
        }
    }
}

/// The analog clock feature.
pub struct AnalogClock<F> {
    pub layout: Layout<F>,
}

impl<F> AnalogClock<F> {
    /// A builder with the default layout.
    pub fn builder() -> (r: AnalogClockBuilder<F>)
        ensures
            r.layout is None,
    {
        AnalogClockBuilder::new()
    }
}

/// The time that the hands show.
#[derive(Clone, Copy, Debug, PartialEq, Eq, Structural)]
pub struct HandTime {
    pub hour: u32,
    pub minute: u32,
    pub second: u32,
}

/// Which hands of the time shown must be erased before the hands of a new time
/// are drawn: the hour and minute hands when the minute changed, the second hand
/// when the second changed.
#[derive(Clone, Copy, Debug, PartialEq, Eq, Structural)]
pub struct ErasePlan {
    pub hour_and_minute: bool,
    pub second: bool,
}

impl HandTime {
    /// Which of the hands shown must be erased before `now` is drawn.
    pub fn erase_plan(&self, now: &HandTime) -> (r: ErasePlan)
        ensures
            r.hour_and_minute == (now.minute != self.minute),
            r.second == (now.second != self.second),
    {
        ErasePlan { hour_and_minute: now.minute != self.minute, second: now.second != self.second }
    }
}

} // verus!
