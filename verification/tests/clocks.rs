use sparko_embedded_std::binary_clock::{clock_digits, BinaryClockLayout, ClockTime, HIGH, LOW, MIN};
use sparko_embedded_std::clock::{AnalogClock, AnalogClockBuilder, ErasePlan, HandTime, Layout, Rect};
use sparko_embedded_std::color::Rgb8;

#[test]
fn default_clock_layout_insets_by_one_pixel() {
    let clock: AnalogClock<fn(&Rect) -> Rect> = AnalogClock::builder().build();
    let r = clock.layout.apply(&Rect { x: 0, y: 0, width: 172, height: 320 });
    assert_eq!(r, Rect { x: 1, y: 1, width: 170, height: 318 });
}

#[test]
fn custom_clock_layout_is_used() {
    fn square(rect: &Rect) -> Rect {
        let size = std::cmp::min(rect.width, rect.height);
        Rect { x: rect.x, y: rect.y, width: size, height: size }
    }
    let clock = AnalogClockBuilder::new().with_layout(square as fn(&Rect) -> Rect).build();
    assert!(matches!(clock.layout, Layout::Custom(_)));
    let r = clock.layout.apply(&Rect { x: 0, y: 0, width: 320, height: 172 });
    assert_eq!(r, Rect { x: 0, y: 0, width: 172, height: 172 });
}

#[test]
fn hands_to_erase() {
    let shown = HandTime { hour: 10, minute: 59, second: 59 };
    assert_eq!(
        shown.erase_plan(&HandTime { hour: 11, minute: 0, second: 0 }),
        ErasePlan { hour_and_minute: true, second: true }
    );
    assert_eq!(
        shown.erase_plan(&HandTime { hour: 10, minute: 59, second: 59 }),
        ErasePlan { hour_and_minute: false, second: false }
    );
    assert_eq!(
        HandTime { hour: 1, minute: 2, second: 3 }.erase_plan(&HandTime { hour: 1, minute: 2, second: 4 }),
        ErasePlan { hour_and_minute: false, second: true }
    );
}

#[test]
fn binary_clock_digits() {
    let t = ClockTime { year: 2024, month: 3, day: 17, hour: 21, minute: 5, second: 59 };
    assert_eq!(clock_digits(&t), vec![2, 1, 0, 5, 5, 9, 1, 7, 0, 3, 2, 4]);
}

#[test]
fn binary_digit_bits_most_significant_first() {
    let layout = BinaryClockLayout::default();
    let on = Rgb8 { r: HIGH, g: LOW, b: LOW };
    let off = Rgb8 { r: 0, g: 0, b: 0 };
    assert_eq!(layout.to_bits(1, 5), vec![(2, off), (3, on), (4, off), (5, on)]);
    assert_eq!(layout.to_bits(0, 2), vec![(0, Rgb8 { r: HIGH, g: 0, b: 0 }), (1, off)]);
}

#[test]
fn matrix_frame_covers_every_digit_led_once() {
    let layout = BinaryClockLayout::matrix_8_8();
    assert_eq!(layout.num_pixels, 64);
    assert_eq!(layout.digits.len(), 12);
    assert_eq!(BinaryClockLayout::default().num_pixels, 20);
    let t = ClockTime { year: 2025, month: 12, day: 31, hour: 23, minute: 59, second: 58 };
    let frame = layout.frame(&t);
    assert_eq!(frame.len(), 2 + 4 + 3 + 4 + 3 + 4 + 2 + 4 + 3 + 4 + 3 + 4);
    let mut seen = std::collections::HashSet::new();
    for (led, _) in &frame {
        assert!(*led < 64);
        assert!(seen.insert(*led));
    }
    assert_eq!(frame[0], (15, Rgb8 { r: HIGH, g: 0, b: 0 }));
    assert_eq!(frame[1], (0, Rgb8 { r: MIN, g: 0, b: 0 }));
}
