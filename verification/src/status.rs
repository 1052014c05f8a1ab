//! The platform's status while it starts and runs, and how each LED kind and the
//! display show it.
use vstd::prelude::*;

use crate::color::Rgb8;

verus! {

/// The steps of starting up.
#[derive(Debug, Clone, Copy, PartialEq, Eq, Structural)]
pub enum InitStatus {
    Starting,
    AwaitingClientIpAddress,
    AwaitingTimeSync,
    StartingFeatures,
}

/// What the platform is doing.
#[derive(Debug, Clone, Copy, PartialEq, Eq, Structural)]
pub enum Status {
    Initializing(InitStatus),
    Running,
    Setup,
    Error,
}

/// How the display is turned.
#[derive(Debug, Clone, Copy, PartialEq, Eq, Structural)]
pub enum DisplayOrientation {
    Rotate0,
    Rotate90,
    Rotate180,
    Rotate270,
}

/// The named colours that the display can be filled with.
#[derive(Debug, Clone, Copy, PartialEq, Eq, Structural)]
pub enum Color {
    Black,
    Red,
    Green,
    Blue,
    Yellow,
    Magenta,
    Cyan,
    White,
}

/// The colour that fills the display for a status; a running platform leaves the
/// display to its features.
pub fn display_status_color(status: &Status) -> (r: Option<Color>)
    ensures
        r == match *status {
            Status::Initializing(InitStatus::Starting) => Some(Color::Yellow),
            Status::Initializing(InitStatus::AwaitingClientIpAddress) => Some(Color::Magenta),
            Status::Initializing(InitStatus::AwaitingTimeSync) => Some(Color::Cyan),
            Status::Initializing(InitStatus::StartingFeatures) => Some(Color::Black),
            Status::Running => None,
            Status::Setup => Some(Color::Blue),
            Status::Error => Some(Color::Red),
        },
{
    match status {
        Status::Initializing(init_status) => match init_status {
            InitStatus::Starting => Some(Color::Yellow),
            InitStatus::AwaitingClientIpAddress => Some(Color::Magenta),
            InitStatus::AwaitingTimeSync => Some(Color::Cyan),
            InitStatus::StartingFeatures => Some(Color::Black),
        },
        Status::Running => None,
        Status::Setup => Some(Color::Blue),
        Status::Error => Some(Color::Red),
    }
}

/// The 5-6-5 bit channels of a named colour.
pub fn color_rgb565_channels(color: &Color) -> (r: (u8, u8, u8))
    ensures
        r == match *color {
            Color::Black => (0u8, 0u8, 0u8),
            Color::Red => (31u8, 0u8, 0u8),
            Color::Green => (0u8, 63u8, 0u8),
            Color::Blue => (0u8, 0u8, 31u8),
            Color::Yellow => (31u8, 63u8, 0u8),
            Color::Magenta => (31u8, 0u8, 31u8),
            Color::Cyan => (0u8, 63u8, 31u8),
            Color::White => (31u8, 63u8, 31u8),
        },
{
    match color {
        Color::Black => (0, 0, 0),
        Color::Red => (31, 0, 0),
        Color::Green => (0, 63, 0),
        Color::Blue => (0, 0, 31),
        Color::Yellow => (31, 63, 0),
        Color::Magenta => (31, 0, 31),
        Color::Cyan => (0, 63, 31),
        Color::White => (31, 63, 31),
    }
}

/// The 5-6-5 bit channels of an 8-bit colour: the top bits of each channel.
pub fn rgb565_channels_from_rgb8(color: &Rgb8) -> (r: (u8, u8, u8))
    ensures
        r == ((color.r / 8) as u8, (color.g / 4) as u8, (color.b / 8) as u8),
{
    let (r, g, b) = (color.r, color.g, color.b);
    assert(r >> 3 == r / 8) by (bit_vector);
    assert(g >> 2 == g / 4) by (bit_vector);
    assert(b >> 3 == b / 8) by (bit_vector);
    (r >> 3, g >> 2, b >> 3)
}

/// The colour that an RGB LED shows for a status.
pub fn rgb_led_status_color(status: &Status) -> (r: Rgb8)
    ensures
        r == match *status {
            Status::Initializing(_) => Rgb8 { r: 255, g: 255, b: 0 },
            Status::Running => Rgb8 { r: 0, g: 255, b: 0 },
            Status::Setup => Rgb8 { r: 0, g: 0, b: 255 },
            Status::Error => Rgb8 { r: 255, g: 0, b: 0 },
        },
{
    match status {
        Status::Initializing(_) => Rgb8 { r: 255, g: 255, b: 0 },
        Status::Running => Rgb8 { r: 0, g: 255, b: 0 },
        Status::Setup => Rgb8 { r: 0, g: 0, b: 255 },
        Status::Error => Rgb8 { r: 255, g: 0, b: 0 },
    }
}

/// Whether a single LED is lit for a status: lit except while running.
pub fn simple_led_status_on(status: &Status) -> (r: bool)
    ensures
        r == !(*status is Running),
{
    match status {
        Status::Running => false,
        _ => true,
    }
}

/// The output level that lights or darkens an LED: an inverted LED is lit by a low pin.
pub fn led_pin_high(on: bool, inverted: bool) -> (r: bool)
    ensures
        r == (on != inverted),
{
    if inverted {
        !on
    } else {
        on
    }
}

/// The duty of one channel of an RGB LED: the value scaled by the brightness, and
/// counted down from full when the LED is inverted.
pub fn rgb_led_duty(value: u8, brightness: u8, inverted: bool) -> (r: u8)
    ensures
        r == (if inverted {
            255 - (value as int * brightness as int / 255)
        } else {
            value as int * brightness as int / 255
        }),
{
    assert(value as int * brightness as int <= 255 * 255) by (nonlinear_arith)
        requires
            value <= 255,
            brightness <= 255,
    ;
    let v = (value as u16 * brightness as u16 / 255) as u8;
    if inverted {
        255 - v
    } else {
        v
    }
}

} // verus!
