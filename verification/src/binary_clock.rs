//! The binary clock: which LED of a matrix shows which bit of which digit of the
//! time and date, and the colour each LED takes.
use vstd::prelude::*;

use crate::color::Rgb8;

verus! {

/// Full brightness of a channel on the matrix.
pub const HIGH: u8 = 16;
/// Dim brightness of a channel on the matrix.
pub const LOW: u8 = 4;
/// The brightness of an unlit channel.
pub const MIN: u8 = 0;

/// One digit: its colours when a bit is clear or set, and the LEDs of its bits, most
/// significant first.
pub struct BinaryDigitConfig {
    pub off_color: Rgb8,
    pub on_color: Rgb8,
    pub bits: Vec<usize>,
}

/// The digits of a clock, in the order hours, minutes, seconds (and on a matrix, day,
/// month and year), tens before units; and how many LEDs the strip or matrix has.
pub struct BinaryClockLayout {
    pub num_pixels: usize,
    pub digits: Vec<BinaryDigitConfig>,
}

/// A digit as plain values: off colour, on colour, LED indices.
pub open spec fn digit_view(d: BinaryDigitConfig) -> (Rgb8, Rgb8, Seq<usize>) {
    (d.off_color, d.on_color, d.bits@)
}

impl BinaryClockLayout {
    /// The digits as plain values.
    pub open spec fn view_digits(&self) -> Seq<(Rgb8, Rgb8, Seq<usize>)> {
        self.digits@.map_values(|d: BinaryDigitConfig| digit_view(d))
    }
}

/// The colour with the given channels.
pub open spec fn rgb(r: u8, g: u8, b: u8) -> Rgb8 {
    Rgb8 { r, g, b }
}

/// Six digits on a strip of twenty LEDs: hours, minutes and seconds.
pub open spec fn strip_layout() -> Seq<(Rgb8, Rgb8, Seq<usize>)> {
    seq![
        (rgb(0, 0, 0), rgb(HIGH, 0, 0), seq![0usize, 1]),
        (rgb(0, 0, 0), rgb(HIGH, LOW, LOW), seq![2usize, 3, 4, 5]),
        (rgb(0, 0, 0), rgb(0, HIGH, 0), seq![6usize, 7, 8]),
        (rgb(0, 0, 0), rgb(LOW, HIGH, LOW), seq![9usize, 10, 11, 12]),
        (rgb(0, 0, 0), rgb(0, 0, HIGH), seq![13usize, 14, 15]),
        (rgb(0, 0, 0), rgb(LOW, LOW, HIGH), seq![16usize, 17, 18, 19]),
    ]
}

/// Twelve digits on an 8 x 8 matrix wired as a snake: time in the lower half, date
/// in the upper half.
pub open spec fn matrix_layout() -> Seq<(Rgb8, Rgb8, Seq<usize>)> {
    seq![
        (rgb(MIN, 0, 0), rgb(HIGH, 0, 0), seq![15usize, 0]),
        (rgb(MIN, 0, 0), rgb(HIGH, 0, 0), seq![30usize, 17, 14, 1]),
        (rgb(0, MIN, 0), rgb(0, HIGH, 0), seq![19usize, 12, 3]),
        (rgb(0, MIN, 0), rgb(0, HIGH, 0), seq![27usize, 20, 11, 4]),
        (rgb(0, 0, MIN), rgb(0, 0, HIGH), seq![22usize, 9, 6]),
        (rgb(0, 0, MIN), rgb(0, 0, HIGH), seq![24usize, 23, 8, 7]),
        (rgb(0, MIN, MIN), rgb(0, HIGH, HIGH), seq![47usize, 32]),
        (rgb(0, MIN, MIN), rgb(0, HIGH, HIGH), seq![62usize, 49, 46, 33]),
        (rgb(MIN, MIN, 0), rgb(HIGH, HIGH, 0), seq![51usize, 44, 35]),
        (rgb(MIN, MIN, 0), rgb(HIGH, HIGH, 0), seq![59usize, 52, 43, 36]),
        (rgb(MIN, 0, MIN), rgb(HIGH, 0, HIGH), seq![54usize, 41, 38]),
        (rgb(MIN, 0, MIN), rgb(HIGH, 0, HIGH), seq![56usize, 55, 40, 39]),
    ]
}

fn digit(off: Rgb8, on: Rgb8, bits: Vec<usize>) -> (r: BinaryDigitConfig)
    ensures
        digit_view(r) == (off, on, bits@),
{
    BinaryDigitConfig { off_color: off, on_color: on, bits }
}

impl BinaryClockLayout {
    /// The layout of a strip of twenty LEDs.
    pub fn default() -> (r: Self)
        ensures
            r.num_pixels == 20,
            r.view_digits() == strip_layout(),
    {
        let z = Rgb8 { r: 0, g: 0, b: 0 };
        let digits = vec![
            digit(z, Rgb8 { r: HIGH, g: 0, b: 0 }, vec![0, 1]),
            digit(z, Rgb8 { r: HIGH, g: LOW, b: LOW }, vec![2, 3, 4, 5]),
            digit(z, Rgb8 { r: 0, g: HIGH, b: 0 }, vec![6, 7, 8]),
            digit(z, Rgb8 { r: LOW, g: HIGH, b: LOW }, vec![9, 10, 11, 12]),
            digit(z, Rgb8 { r: 0, g: 0, b: HIGH }, vec![13, 14, 15]),
            digit(z, Rgb8 { r: LOW, g: LOW, b: HIGH }, vec![16, 17, 18, 19]),
        ];
        let r = BinaryClockLayout { num_pixels: 20, digits };
        assert(r.view_digits() =~= strip_layout());
        r
    }

    /// The layout of an 8 x 8 matrix.
    pub fn matrix_8_8() -> (r: Self)
        ensures
            r.num_pixels == 64,
            r.view_digits() == matrix_layout(),
    {
        let digits = vec![
            digit(Rgb8 { r: MIN, g: 0, b: 0 }, Rgb8 { r: HIGH, g: 0, b: 0 }, vec![15, 0]),
            digit(Rgb8 { r: MIN, g: 0, b: 0 }, Rgb8 { r: HIGH, g: 0, b: 0 }, vec![30, 17, 14, 1]),
            digit(Rgb8 { r: 0, g: MIN, b: 0 }, Rgb8 { r: 0, g: HIGH, b: 0 }, vec![19, 12, 3]),
            digit(Rgb8 { r: 0, g: MIN, b: 0 }, Rgb8 { r: 0, g: HIGH, b: 0 }, vec![27, 20, 11, 4]),
            digit(Rgb8 { r: 0, g: 0, b: MIN }, Rgb8 { r: 0, g: 0, b: HIGH }, vec![22, 9, 6]),
            digit(Rgb8 { r: 0, g: 0, b: MIN }, Rgb8 { r: 0, g: 0, b: HIGH }, vec![24, 23, 8, 7]),
            digit(Rgb8 { r: 0, g: MIN, b: MIN }, Rgb8 { r: 0, g: HIGH, b: HIGH }, vec![47, 32]),
            digit(Rgb8 { r: 0, g: MIN, b: MIN }, Rgb8 { r: 0, g: HIGH, b: HIGH }, vec![62, 49, 46, 33]),
            digit(Rgb8 { r: MIN, g: MIN, b: 0 }, Rgb8 { r: HIGH, g: HIGH, b: 0 }, vec![51, 44, 35]),
            digit(Rgb8 { r: MIN, g: MIN, b: 0 }, Rgb8 { r: HIGH, g: HIGH, b: 0 }, vec![59, 52, 43, 36]),
            digit(Rgb8 { r: MIN, g: 0, b: MIN }, Rgb8 { r: HIGH, g: 0, b: HIGH }, vec![54, 41, 38]),
            digit(Rgb8 { r: MIN, g: 0, b: MIN }, Rgb8 { r: HIGH, g: 0, b: HIGH }, vec![56, 55, 40, 39]),
        ];
        let r = BinaryClockLayout { num_pixels: 64, digits };
        assert(r.view_digits() =~= matrix_layout());
        r
    }
}

/// Bit `j` (0 is the least significant) of a value.
pub open spec fn value_bit(v: u32, j: int) -> bool {
    (v >> (j as u32)) & 1 == 1
}

/// The LEDs of a digit with the colours that show a value: bit by bit, most significant
/// first, the on colour where the bit is set.
pub open spec fn digit_pixels(d: (Rgb8, Rgb8, Seq<usize>), v: u32) -> Seq<(usize, Rgb8)> {
    Seq::new(
        d.2.len(),
        |i: int| (d.2[i], if value_bit(v, d.2.len() - 1 - i) {
            d.1
        } else {
            d.0
        }),
    )
}

/// The LEDs of the first `n` digits showing their values.
pub open spec fn frame_pixels(
    digits: Seq<(Rgb8, Rgb8, Seq<usize>)>,
    values: Seq<u32>,
    n: nat,
) -> Seq<(usize, Rgb8)>
    decreases n,
{
    if n == 0 {
        Seq::empty()
    } else {
        frame_pixels(digits, values, (n - 1) as nat) + digit_pixels(
            digits[n - 1],
            values[n - 1],
        )
    }
}

/// A local date and time, as the clock shows it.
#[derive(Debug, Clone, Copy, PartialEq, Eq, Structural)]
pub struct ClockTime {
    pub year: i32,
    pub month: u32,
    pub day: u32,
    pub hour: u32,
    pub minute: u32,
    pub second: u32,
}

/// The twelve decimal digits that the matrix shows: hours, minutes, seconds, day, month
/// and the last two digits of the year, tens before units.
pub open spec fn clock_digit_values(t: ClockTime) -> Seq<u32> {
    seq![
        t.hour / 10, t.hour % 10,
        t.minute / 10, t.minute % 10,
        t.second / 10, t.second % 10,
        t.day / 10, t.day % 10,
        t.month / 10, t.month % 10,
        ((t.year % 100) / 10) as u32, (t.year % 10) as u32,
    ]
}

/// The two decimal digits of a field below 100: the tens and the units, each below
/// ten, that make the field.
pub open spec fn decimal_pair(tens: u32, units: u32, field: int) -> bool {
    tens < 10 && units < 10 && tens * 10 + units == field
}

/// The clock's digits are the decimal digits of the time and date: each pair of
/// digits, tens then units, makes up its field (hour, minute, second, day, month and
/// the year's last two digits), wherever the field has at most two digits.
pub proof fn lemma_clock_digits_are_decimal(t: ClockTime)
    requires
        t.year >= 0,
    ensures
        clock_digit_values(t).len() == 12,
        t.hour < 100 ==> decimal_pair(clock_digit_values(t)[0], clock_digit_values(t)[1], t.hour as int),
        t.minute < 100 ==> decimal_pair(clock_digit_values(t)[2], clock_digit_values(t)[3], t.minute as int),
        t.second < 100 ==> decimal_pair(clock_digit_values(t)[4], clock_digit_values(t)[5], t.second as int),
        t.day < 100 ==> decimal_pair(clock_digit_values(t)[6], clock_digit_values(t)[7], t.day as int),
        t.month < 100 ==> decimal_pair(clock_digit_values(t)[8], clock_digit_values(t)[9], t.month as int),
        decimal_pair(clock_digit_values(t)[10], clock_digit_values(t)[11], t.year as int % 100),
{
}

/// The digits of a date and time.
pub fn clock_digits(t: &ClockTime) -> (r: Vec<u32>)
    requires
        t.year >= 0,
    ensures
        r@ == clock_digit_values(*t),
{
    let r = vec![
        t.hour / 10, t.hour % 10,
        t.minute / 10, t.minute % 10,
        t.second / 10, t.second % 10,
        t.day / 10, t.day % 10,
        t.month / 10, t.month % 10,
        ((t.year % 100) / 10) as u32, (t.year % 10) as u32,
    ];
    assert(r@ =~= clock_digit_values(*t));
    r
}

impl BinaryClockLayout {
    /// Every digit has at most 32 bits, so that each bit can be read from a `u32`.
    pub open spec fn bits_fit(&self) -> bool {
        forall|i: int| 0 <= i < self.view_digits().len() ==> #[trigger] self.view_digits()[i].2.len() <= 32
    }

    /// The LEDs of one digit with the colours that show a value.
    pub fn to_bits(&self, digit: usize, v: u32) -> (r: Vec<(usize, Rgb8)>)
        requires
            digit < self.view_digits().len(),
            self.view_digits()[digit as int].2.len() <= 32,
        ensures
            r@ == digit_pixels(self.view_digits()[digit as int], v),
    {
        let digit_config = &self.digits[digit];
        let off = digit_config.off_color;
        let on = digit_config.on_color;
        let bits = &digit_config.bits;
        let ghost d = self.view_digits()[digit as int];
        assert(d == digit_view(*digit_config));
        let mut out: Vec<(usize, Rgb8)> = Vec::new();
        let n = bits.len();
        let mut i: usize = 0;
        while i < n
            invariant
                n == bits@.len(),
                n <= 32,
                d == (off, on, bits@),
                i <= n,
                out@ == digit_pixels(d, v).take(i as int),
            decreases n - i,
        {
            let index = bits[i];
            let shifted = v >> ((n - 1 - i) as u32);
            let bit = shifted & 1;
            assert(bit == 0 || bit == 1) by (bit_vector)
                requires
                    bit == shifted & 1,
            ;
            out.push((index, if bit == 0 { off } else { on }));
            assert(out@ =~= digit_pixels(d, v).take(i + 1));
            i = i + 1;
        }
        assert(out@ =~= digit_pixels(d, v));
        out
    }

    /// The LEDs of the first twelve digits showing a date and time.
    pub fn frame(&self, t: &ClockTime) -> (r: Vec<(usize, Rgb8)>)
        requires
            self.view_digits().len() >= 12,
            self.bits_fit(),
            t.year >= 0,
        ensures
            r@ == frame_pixels(self.view_digits(), clock_digit_values(*t), 12),
    {
        let values = clock_digits(t);
        let mut out: Vec<(usize, Rgb8)> = Vec::new();
        let mut i: usize = 0;
        while i < 12
            invariant
                i <= 12,
                self.view_digits().len() >= 12,
                self.bits_fit(),
                values@ == clock_digit_values(*t),
                out@ == frame_pixels(self.view_digits(), values@, i as nat),
            decreases 12 - i,
        {
            let pixels = self.to_bits(i, values[i]);
            let ghost before = out@;
            let mut j: usize = 0;
            while j < pixels.len()
                invariant
                    j <= pixels@.len(),
                    out@ == before + pixels@.take(j as int),
                decreases pixels@.len() - j,
            {
                out.push(pixels[j]);
                assert(out@ =~= before + pixels@.take(j + 1));
                j = j + 1;
            }
            assert(pixels@.take(pixels@.len() as int) =~= pixels@);
            i = i + 1;
        }
        out
    }
}

/// The LEDs of the first `n` digits' bits, digit by digit, most significant first.
pub open spec fn layout_leds(digits: Seq<(Rgb8, Rgb8, Seq<usize>)>, n: nat) -> Seq<usize>
    decreases n,
{
    if n == 0 {
        Seq::empty()
    } else {
        layout_leds(digits, (n - 1) as nat) + digits[n - 1].2
    }
}

/// The LEDs of the matrix layout's bits, digit by digit.
pub open spec fn matrix_leds() -> Seq<usize> {
    seq![15usize, 0, 30, 17, 14, 1, 19, 12, 3, 27, 20, 11, 4, 22, 9, 6, 24, 23, 8, 7, 47, 32, 62, 49, 46, 33, 51, 44, 35, 59, 52, 43, 36, 54, 41, 38, 56, 55, 40, 39]
}

/// The position of an LED among `matrix_leds`.
spec fn matrix_led_position(led: usize) -> int {
    match led {
        15 => 0,
        0 => 1,
        30 => 2,
        17 => 3,
        14 => 4,
        1 => 5,
        19 => 6,
        12 => 7,
        3 => 8,
        27 => 9,
        20 => 10,
        11 => 11,
        4 => 12,
        22 => 13,
        9 => 14,
        6 => 15,
        24 => 16,
        23 => 17,
        8 => 18,
        7 => 19,
        47 => 20,
        32 => 21,
        62 => 22,
        49 => 23,
        46 => 24,
        33 => 25,
        51 => 26,
        44 => 27,
        35 => 28,
        59 => 29,
        52 => 30,
        43 => 31,
        36 => 32,
        54 => 33,
        41 => 34,
        38 => 35,
        56 => 36,
        55 => 37,
        40 => 38,
        39 => 39,
        _ => -1,
    }
}

proof fn lemma_matrix_leds()
    ensures
        layout_leds(matrix_layout(), 12) == matrix_leds(),
        matrix_leds().len() == 40,
        forall|k: int| 0 <= k < 40 ==> matrix_led_position(#[trigger] matrix_leds()[k]) == k && matrix_leds()[k] < 64,
{
    reveal_with_fuel(layout_leds, 13);
    assert(layout_leds(matrix_layout(), 12) =~= matrix_leds());
    let m = matrix_leds();
    assert forall|k: int| 0 <= k < 40 implies matrix_led_position(#[trigger] m[k]) == k && m[k] < 64 by {
        if k == 0 {
            assert(m[0] == 15);
        } else if k == 1 {
            assert(m[1] == 0);
        } else if k == 2 {
            assert(m[2] == 30);
        } else if k == 3 {
            assert(m[3] == 17);
        } else if k == 4 {
            assert(m[4] == 14);
        } else if k == 5 {
            assert(m[5] == 1);
        } else if k == 6 {
            assert(m[6] == 19);
        } else if k == 7 {
            assert(m[7] == 12);
        } else if k == 8 {
            assert(m[8] == 3);
        } else if k == 9 {
            assert(m[9] == 27);
        } else if k == 10 {
            assert(m[10] == 20);
        } else if k == 11 {
            assert(m[11] == 11);
        } else if k == 12 {
            assert(m[12] == 4);
        } else if k == 13 {
            assert(m[13] == 22);
        } else if k == 14 {
            assert(m[14] == 9);
        } else if k == 15 {
            assert(m[15] == 6);
        } else if k == 16 {
            assert(m[16] == 24);
        } else if k == 17 {
            assert(m[17] == 23);
        } else if k == 18 {
            assert(m[18] == 8);
        } else if k == 19 {
            assert(m[19] == 7);
        } else if k == 20 {
            assert(m[20] == 47);
        } else if k == 21 {
            assert(m[21] == 32);
        } else if k == 22 {
            assert(m[22] == 62);
        } else if k == 23 {
            assert(m[23] == 49);
        } else if k == 24 {
            assert(m[24] == 46);
        } else if k == 25 {
            assert(m[25] == 33);
        } else if k == 26 {
            assert(m[26] == 51);
        } else if k == 27 {
            assert(m[27] == 44);
        } else if k == 28 {
            assert(m[28] == 35);
        } else if k == 29 {
            assert(m[29] == 59);
        } else if k == 30 {
            assert(m[30] == 52);
        } else if k == 31 {
            assert(m[31] == 43);
        } else if k == 32 {
            assert(m[32] == 36);
        } else if k == 33 {
            assert(m[33] == 54);
        } else if k == 34 {
            assert(m[34] == 41);
        } else if k == 35 {
            assert(m[35] == 38);
        } else if k == 36 {
            assert(m[36] == 56);
        } else if k == 37 {
            assert(m[37] == 55);
        } else if k == 38 {
            assert(m[38] == 40);
        } else if k == 39 {
            assert(m[39] == 39);
        }
    }
}

/// The LEDs of a frame are those of the layout's bits, whatever the values shown.
proof fn lemma_frame_leds(digits: Seq<(Rgb8, Rgb8, Seq<usize>)>, values: Seq<u32>, n: nat)
    requires
        n <= digits.len(),
        n <= values.len(),
    ensures
        frame_pixels(digits, values, n).len() == layout_leds(digits, n).len(),
        forall|k: int| 0 <= k < layout_leds(digits, n).len() ==> #[trigger] frame_pixels(digits, values, n)[k].0
            == layout_leds(digits, n)[k],
    decreases n,
{
    if n > 0 {
        lemma_frame_leds(digits, values, (n - 1) as nat);
        let before = frame_pixels(digits, values, (n - 1) as nat);
        let leds = layout_leds(digits, (n - 1) as nat);
        let d = digit_pixels(digits[n - 1], values[n - 1]);
        assert forall|k: int| 0 <= k < layout_leds(digits, n).len() implies #[trigger] frame_pixels(digits, values, n)[k].0
            == layout_leds(digits, n)[k] by {
            if k < leds.len() {
                assert(frame_pixels(digits, values, n)[k] == before[k]);
            } else {
                assert(frame_pixels(digits, values, n)[k] == d[k - leds.len()]);
            }
        }
    }
}

/// Each LED of the 8 x 8 matrix shows at most one bit of the date and time, and
/// every LED that a frame sets lies on the matrix.
pub proof fn lemma_matrix_frame_leds_distinct(t: ClockTime)
    ensures
        forall|i: int|
            0 <= i < frame_pixels(matrix_layout(), clock_digit_values(t), 12).len() ==> #[trigger] frame_pixels(
                matrix_layout(),
                clock_digit_values(t),
                12,
            )[i].0 < 64,
        forall|i: int, j: int|
            0 <= i < j < frame_pixels(matrix_layout(), clock_digit_values(t), 12).len() ==> frame_pixels(
                matrix_layout(),
                clock_digit_values(t),
                12,
            )[i].0 != frame_pixels(matrix_layout(), clock_digit_values(t), 12)[j].0,
{
    lemma_matrix_leds();
    lemma_frame_leds(matrix_layout(), clock_digit_values(t), 12);
    let f = frame_pixels(matrix_layout(), clock_digit_values(t), 12);
    let m = matrix_leds();
    assert forall|i: int, j: int| 0 <= i < j < f.len() implies f[i].0 != f[j].0 by {
        assert(f[i].0 == m[i]);
        assert(f[j].0 == m[j]);
        assert(matrix_led_position(m[i]) == i);
        assert(matrix_led_position(m[j]) == j);
    }
    assert forall|i: int| 0 <= i < f.len() implies #[trigger] f[i].0 < 64 by {
        assert(f[i].0 == m[i]);
    }
}

/// The digits of the matrix layout have at most four bits each.
pub proof fn lemma_matrix_layout_fits()
    ensures
        matrix_layout().len() == 12,
        forall|i: int| 0 <= i < 12 ==> #[trigger] matrix_layout()[i].2.len() <= 4,
{
}

} // verus!
