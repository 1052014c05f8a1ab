//! The raw samples of the QMI8658 motion sensor: accelerometer and gyroscope
//! axes, each a little-endian 16-bit two's complement number.
use vstd::prelude::*;

verus! {

/// The signed value of a little-endian 16-bit two's complement number.
pub open spec fn le_i16(low: u8, high: u8) -> int {
    let u = low as int + 256 * high as int;
    if u >= 32768 {
        u - 65536
    } else {
        u
    }
}

/// Reads a little-endian 16-bit two's complement number.
pub fn i16_from_le(low: u8, high: u8) -> (r: i16)
    ensures
        r as int == le_i16(low, high),
{
    let u: u16 = (high as u16) * 256 + (low as u16);
    if u >= 32768 {
        (u as i32 - 65536) as i16
    } else {
        u as i16
    }
}

/// The six raw axes of one sample: accelerometer x, y, z, then gyroscope x, y, z.
#[derive(Debug, Clone, Copy, PartialEq, Eq, Structural)]
pub struct RawImuSample {
    pub ax: i16,
    pub ay: i16,
    pub az: i16,
    pub gx: i16,
    pub gy: i16,
    pub gz: i16,
}

/// Reads the twelve bytes that the sensor sends from its first accelerometer register.
pub fn decode_imu_sample(buf: &[u8; 12]) -> (r: RawImuSample)
    ensures
        r.ax as int == le_i16(buf@[0], buf@[1]),
        r.ay as int == le_i16(buf@[2], buf@[3]),
        r.az as int == le_i16(buf@[4], buf@[5]),
        r.gx as int == le_i16(buf@[6], buf@[7]),
        r.gy as int == le_i16(buf@[8], buf@[9]),
        r.gz as int == le_i16(buf@[10], buf@[11]),
{
    RawImuSample {
        ax: i16_from_le(buf[0], buf[1]),
        ay: i16_from_le(buf[2], buf[3]),
        az: i16_from_le(buf[4], buf[5]),
        gx: i16_from_le(buf[6], buf[7]),
        gy: i16_from_le(buf[8], buf[9]),
        gz: i16_from_le(buf[10], buf[11]),
    }
}

} // verus!
