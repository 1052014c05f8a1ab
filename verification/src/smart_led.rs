//! The line encoding of WS2812 smart LEDs, in the two ways the platform drives
//! them: as RMT symbols, one per bit, and as SPI bytes, three line bits per bit.
//! Each LED takes its colour in green, red, blue order, most significant bit first.
use vstd::prelude::*;

use crate::color::Rgb8;

verus! {

/// Bit `j` (0 is the least significant) of a byte.
pub open spec fn bit_set(b: u8, j: int) -> bool {
    ((b as int) / vstd::arithmetic::power2::pow2(j as nat) as int) % 2 == 1
}

/// The channel that the `k`-th transmitted byte of a colour carries: green, red, blue.
pub open spec fn grb_channel(c: Rgb8, k: int) -> u8 {
    if k == 0 {
        c.g
    } else if k == 1 {
        c.r
    } else {
        c.b
    }
}

/// The `k`-th transmitted bit of a colour (24 in all).
pub open spec fn line_bit(c: Rgb8, k: int) -> bool {
    bit_set(grb_channel(c, k / 8), 7 - k % 8)
}

proof fn lemma_shift_bit(b: u8, j: u32)
    requires
        j < 8,
    ensures
        ((b >> j) & 1 == 1) == bit_set(b, j as int),
{
    vstd::arithmetic::power2::lemma2_to64();
    let p = vstd::arithmetic::power2::pow2(j as nat);
    assert(b >> j == b / (p as u8)) by {
        assert(j == 0 ==> p == 1);
        assert(j == 1 ==> p == 2);
        assert(j == 2 ==> p == 4);
        assert(j == 3 ==> p == 8);
        assert(j == 4 ==> p == 16);
        assert(j == 5 ==> p == 32);
        assert(j == 6 ==> p == 64);
        assert(j == 7 ==> p == 128);
        assert(j == 0 ==> b >> j == b / 1) by (bit_vector);
        assert(j == 1 ==> b >> j == b / 2) by (bit_vector);
        assert(j == 2 ==> b >> j == b / 4) by (bit_vector);
        assert(j == 3 ==> b >> j == b / 8) by (bit_vector);
        assert(j == 4 ==> b >> j == b / 16) by (bit_vector);
        assert(j == 5 ==> b >> j == b / 32) by (bit_vector);
        assert(j == 6 ==> b >> j == b / 64) by (bit_vector);
        assert(j == 7 ==> b >> j == b / 128) by (bit_vector);
    }
    let s = b >> j;
    assert((s & 1 == 1) == (s % 2 == 1)) by (bit_vector);
}

/// The RMT symbols of a colour: `one` for each set bit, `zero` for each clear one.
pub fn to_signal<S: Copy>(pixel: Rgb8, zero: S, one: S) -> (r: Vec<S>)
    ensures
        r@.len() == 24,
        forall|k: int| 0 <= k < 24 ==> #[trigger] r@[k] == if line_bit(pixel, k) {
            one
        } else {
            zero
        },
{
    let channels: [u8; 3] = [pixel.g, pixel.r, pixel.b];
    let mut signal: Vec<S> = Vec::new();
    let mut i: usize = 0;
    while i < 3
        invariant
            i <= 3,
            channels@ == seq![pixel.g, pixel.r, pixel.b],
            signal@.len() == 8 * i,
            forall|k: int| 0 <= k < 8 * i ==> #[trigger] signal@[k] == if line_bit(pixel, k) {
                one
            } else {
                zero
            },
        decreases 3 - i,
    {
        let byte = channels[i];
        let mut bit: usize = 0;
        while bit < 8
            invariant
                i < 3,
                bit <= 8,
                byte == grb_channel(pixel, i as int),
                signal@.len() == 8 * i + bit,
                forall|k: int| 0 <= k < 8 * i + bit ==> #[trigger] signal@[k] == if line_bit(pixel, k) {
                    one
                } else {
                    zero
                },
            decreases 8 - bit,
        {
            proof {
                lemma_shift_bit(byte, (7 - bit) as u32);
            }
            let set = (byte >> (7 - bit) as u32) & 1 == 1;
            let ghost k = 8 * i + bit;
            assert(k / 8 == i && k % 8 == bit) by (nonlinear_arith)
                requires
                    k == 8 * i + bit,
                    bit < 8,
            ;
            signal.push(if set { one } else { zero });
            bit = bit + 1;
        }
        i = i + 1;
    }
    signal
}

/// Why a pixel could not be set.
#[derive(Debug, Clone, Copy, PartialEq, Eq, Structural)]
pub enum PixelError {
    /// The strip has no LED at that index.
    OutOfBounds,
}

/// The RMT symbol buffer of a strip: 24 symbols per LED, then one reset symbol.
pub struct RmtLedBuffer<S> {
    buf: Vec<S>,
    num_leds: usize,
    zero_signal: S,
    one_signal: S,
}

impl<S: Copy> RmtLedBuffer<S> {
    /// The symbols to send: 24 per LED, then the reset symbol.
    pub closed spec fn symbols(&self) -> Seq<S> {
        self.buf@
    }

    /// The number of LEDs on the strip.
    pub closed spec fn num_leds(&self) -> nat {
        self.num_leds as nat
    }

    /// The symbol that sends a 0 bit.
    pub closed spec fn zero(&self) -> S {
        self.zero_signal
    }

    /// The symbol that sends a 1 bit.
    pub closed spec fn one(&self) -> S {
        self.one_signal
    }

    /// The buffer holds 24 symbols per LED and the reset symbol.
    pub open spec fn wf(&self) -> bool {
        self.symbols().len() == 24 * self.num_leds() + 1
    }

    /// A strip of dark LEDs: every bit a zero symbol, then the reset symbol.
    pub fn new(num_leds: usize, zero_signal: S, one_signal: S, reset_signal: S) -> (r: Self)
        requires
            24 * num_leds + 1 <= usize::MAX,
        ensures
            r.wf(),
            r.num_leds() == num_leds,
            r.zero() == zero_signal,
            r.one() == one_signal,
            r.symbols() == Seq::new(24 * num_leds as nat, |i: int| zero_signal).push(reset_signal),
    {
        let mut buf: Vec<S> = Vec::new();
        let total = 24 * num_leds;
        let mut i: usize = 0;
        while i < total
            invariant
                i <= total,
                buf@ == Seq::new(i as nat, |j: int| zero_signal),
            decreases total - i,
        {
            buf.push(zero_signal);
            assert(buf@ =~= Seq::new((i + 1) as nat, |j: int| zero_signal));
            i = i + 1;
        }
        buf.push(reset_signal);
        RmtLedBuffer { buf, num_leds, zero_signal, one_signal }
    }

    /// The symbols of a colour.
    pub fn to_signal(&self, pixel: Rgb8) -> (r: Vec<S>)
        ensures
            r@.len() == 24,
            forall|k: int| 0 <= k < 24 ==> #[trigger] r@[k] == if line_bit(pixel, k) {
                self.one()
            } else {
                self.zero()
            },
    {
        to_signal(pixel, self.zero_signal, self.one_signal)
    }

    /// Puts the 24 symbols of one LED in place; an index past the strip is refused.
    pub fn set_pixel_signal(&mut self, index: usize, signal: &Vec<S>) -> (r: Result<(), PixelError>)
        requires
            old(self).wf(),
            signal@.len() == 24,
        ensures
            final(self).wf(),
            final(self).num_leds() == old(self).num_leds(),
            final(self).zero() == old(self).zero(),
            final(self).one() == old(self).one(),
            index >= old(self).num_leds() ==> r is Err && final(self).symbols() == old(self).symbols(),
            index < old(self).num_leds() ==> r is Ok && final(self).symbols() == old(self).symbols()
                .take(24 * index as int) + signal@ + old(self).symbols().skip(24 * index + 24),
    {
        if index >= self.num_leds {
            return Err(PixelError::OutOfBounds);
        }
        let len = self.buf.len();
        assert(24 * index + 24 <= len);
        let start = index * 24;
        let ghost before = self.buf@;
        let mut i: usize = 0;
        while i < 24
            invariant
                i <= 24,
                start == 24 * index,
                index < self.num_leds,
                self.num_leds == old(self).num_leds,
                self.zero_signal == old(self).zero_signal,
                self.one_signal == old(self).one_signal,
                len == before.len(),
                self.buf@.len() == before.len(),
                before.len() == 24 * self.num_leds + 1,
                signal@.len() == 24,
                self.buf@ == before.take(start as int) + signal@.take(i as int) + before.skip(start + i),
            decreases 24 - i,
        {
            self.buf.set(start + i, signal[i]);
            assert(self.buf@ =~= before.take(start as int) + signal@.take(i + 1) + before.skip(start + i + 1));
            i = i + 1;
        }
        assert(signal@.take(24) =~= signal@);
        Ok(())
    }

    /// Sets one LED to a colour; an index past the strip is refused.
    pub fn set_pixel_rgb(&mut self, index: usize, color: Rgb8) -> (r: Result<(), PixelError>)
        requires
            old(self).wf(),
        ensures
            final(self).wf(),
            final(self).num_leds() == old(self).num_leds(),
            index >= old(self).num_leds() ==> r is Err && final(self).symbols() == old(self).symbols(),
            index < old(self).num_leds() ==> r is Ok && final(self).symbols().len() == old(self).symbols().len()
                && (forall|k: int| 0 <= k < 24 ==> #[trigger] final(self).symbols()[24 * index + k] == if line_bit(color, k) {
                    old(self).one()
                } else {
                    old(self).zero()
                })
                && (forall|j: int| 0 <= j < old(self).symbols().len() && !(24 * index <= j < 24 * index + 24)
                    ==> final(self).symbols()[j] == old(self).symbols()[j]),
    {
        let signal = self.to_signal(color);
        let r = self.set_pixel_signal(index, &signal);
        proof {
            if index < old(self).num_leds() {
                let o = old(self).symbols();
                let f = self.symbols();
                assert forall|k: int| 0 <= k < 24 implies #[trigger] f[24 * index + k] == signal@[k] by {
                    assert(f[24 * index + k] == (o.take(24 * index as int) + signal@)[24 * index + k]);
                }
                assert forall|j: int| 0 <= j < o.len() && !(24 * index <= j < 24 * index + 24)
                    implies f[j] == o[j] by {
                    if j < 24 * index {
                        assert(f[j] == o.take(24 * index as int)[j]);
                    } else {
                        assert(f[j] == o.skip(24 * index + 24)[j - 24 * index - 24]);
                    }
                }
            }
        }
        r
    }

    /// The symbols to transmit.
    pub fn symbols_to_send(&self) -> (r: &Vec<S>)
        ensures
            r@ == self.symbols(),
    {
        &self.buf
    }
}

/// The line code of the first `k` bits of a byte, most significant first: three line
/// bits each, `110` for a one and `100` for a zero.
pub open spec fn spi_code(b: u8, k: nat) -> nat
    decreases k,
{
    if k == 0 {
        0
    } else {
        spi_code(b, (k - 1) as nat) * 8 + if bit_set(b, 8 - k) {
            6nat
        } else {
            4nat
        }
    }
}

/// The three bytes that carry a byte on the SPI line.
pub open spec fn spi_bytes(b: u8) -> Seq<u8> {
    let c = spi_code(b, 8);
    seq![(c / 65536) as u8, ((c / 256) % 256) as u8, (c % 256) as u8]
}

/// The nine bytes that carry a colour on the SPI line.
pub open spec fn spi_pixel(c: Rgb8) -> Seq<u8> {
    spi_bytes(c.g) + spi_bytes(c.r) + spi_bytes(c.b)
}

proof fn lemma_spi_code_bound(b: u8, k: nat)
    requires
        k <= 8,
    ensures
        spi_code(b, k) < vstd::arithmetic::power2::pow2(3 * k),
    decreases k,
{
    vstd::arithmetic::power2::lemma2_to64();
    if k > 0 {
        lemma_spi_code_bound(b, (k - 1) as nat);
        vstd::arithmetic::power2::lemma_pow2_adds(3 * (k - 1) as nat, 3);
        assert(vstd::arithmetic::power2::pow2(3) == 8);
    }
}

/// The three SPI bytes of a byte.
pub fn encode_byte(byte: u8) -> (r: [u8; 3])
    ensures
        r@ == spi_bytes(byte),
{
    let mut code: u32 = 0;
    let mut i: u32 = 0;
    while i < 8
        invariant
            i <= 8,
            code as nat == spi_code(byte, i as nat),
        decreases 8 - i,
    {
        proof {
            lemma_shift_bit(byte, (7 - i) as u32);
            lemma_spi_code_bound(byte, i as nat);
            vstd::arithmetic::power2::lemma2_to64();
            if i < 7 {
                vstd::arithmetic::power2::lemma_pow2_strictly_increases(3 * i as nat, 21);
            }
        }
        let pattern: u32 = if (byte >> (7 - i)) & 1 == 1 { 6 } else { 4 };
        code = code * 8 + pattern;
        i = i + 1;
    }
    proof {
        lemma_spi_code_bound(byte, 8);
        vstd::arithmetic::power2::lemma2_to64();
    }
    [(code / 65536) as u8, ((code / 256) % 256) as u8, (code % 256) as u8]
}

/// The SPI byte buffer of a strip: nine bytes per LED, then reset padding.
pub struct SpiLedBuffer {
    buf: Vec<u8>,
    num_leds: usize,
}

/// The SPI buffer of a strip of dark LEDs: each LED's nine bytes encode black, and
/// fifty zero bytes of reset padding follow.
pub open spec fn dark_spi_buffer(num_leds: nat) -> Seq<u8> {
    Seq::new(9 * num_leds + 50, |i: int| if i < 9 * num_leds {
        spi_pixel(Rgb8 { r: 0, g: 0, b: 0 })[i % 9]
    } else {
        0u8
    })
}

/// The size of one DMA transfer that holds a strip's buffer: the buffer's size,
/// rounded past the next multiple of four.
pub fn required_spi_transfer_size(num_leds: usize) -> (r: usize)
    requires
        9 * num_leds + 54 <= usize::MAX,
    ensures
        r == ((9 * num_leds + 50) / 4 + 1) * 4,
{
    ((num_leds * 9 + 50) / 4 + 1) * 4
}

impl SpiLedBuffer {
    /// The bytes sent over SPI.
    pub closed spec fn bytes(&self) -> Seq<u8> {
        self.buf@
    }

    /// The number of LEDs on the strip.
    pub closed spec fn num_leds(&self) -> nat {
        self.num_leds as nat
    }

    /// The buffer holds nine bytes per LED and fifty bytes of reset padding.
    pub open spec fn wf(&self) -> bool {
        self.bytes().len() == 9 * self.num_leds() + 50
    }

    /// A strip of dark LEDs.
    pub fn new(num_leds: usize) -> (r: Self)
        requires
            9 * num_leds + 50 <= usize::MAX,
        ensures
            r.wf(),
            r.num_leds() == num_leds,
            r.bytes() == dark_spi_buffer(num_leds as nat),
    {
        let capacity = num_leds * 9 + 50;
        let mut buf: Vec<u8> = Vec::new();
        let mut i: usize = 0;
        while i < capacity
            invariant
                i <= capacity,
                buf@ == Seq::new(i as nat, |j: int| 0u8),
            decreases capacity - i,
        {
            buf.push(0);
            assert(buf@ =~= Seq::new((i + 1) as nat, |j: int| 0u8));
            i = i + 1;
        }
        let mut leds = SpiLedBuffer { buf, num_leds };
        let black = Rgb8 { r: 0, g: 0, b: 0 };
        let mut p: usize = 0;
        while p < num_leds
            invariant
                p <= num_leds,
                leds.num_leds == num_leds,
                capacity == 9 * num_leds + 50,
                leds.buf@.len() == capacity,
                forall|j: int| 0 <= j < capacity ==> #[trigger] leds.buf@[j] == if j < 9 * p {
                    spi_pixel(black)[j % 9]
                } else {
                    0u8
                },
            decreases num_leds - p,
        {
            let ghost before = leds.buf@;
            leds.set_pixel_rgb(p, black);
            assert forall|j: int| 0 <= j < capacity implies #[trigger] leds.buf@[j] == if j < 9 * (p + 1) {
                spi_pixel(black)[j % 9]
            } else {
                0u8
            } by {
                if 9 * p <= j < 9 * p + 9 {
                    assert(j % 9 == j - 9 * p) by (nonlinear_arith)
                        requires
                            9 * p <= j < 9 * p + 9,
                    ;
                }
            }
            p = p + 1;
        }
        assert(leds.buf@ =~= dark_spi_buffer(num_leds as nat));
        leds
    }

    /// Sets the nine bytes of one LED to the encoding of a colour. The nine bytes may
    /// lie in the reset padding past the last LED, as long as they lie in the buffer.
    pub fn set_pixel_rgb(&mut self, index: usize, color: Rgb8)
        requires
            9 * index + 9 <= old(self).bytes().len(),
        ensures
            final(self).num_leds() == old(self).num_leds(),
            final(self).bytes().len() == old(self).bytes().len(),
            old(self).wf() ==> final(self).wf(),
            final(self).bytes() == old(self).bytes().take(9 * index as int) + spi_pixel(color)
                + old(self).bytes().skip(9 * index + 9),
    {
        let len = self.buf.len();
        let start = index * 9;
        let g = encode_byte(color.g);
        let r = encode_byte(color.r);
        let b = encode_byte(color.b);
        let ghost before = self.buf@;
        let ghost enc = spi_pixel(color);
        assert(enc =~= g@ + r@ + b@);
        let mut i: usize = 0;
        while i < 9
            invariant
                i <= 9,
                start == 9 * index,
                start + 9 <= before.len(),
                len == before.len(),
                self.num_leds == old(self).num_leds,
                self.buf@.len() == before.len(),
                enc.len() == 9,
                enc == g@ + r@ + b@,
                self.buf@ == before.take(start as int) + enc.take(i as int) + before.skip(start + i),
            decreases 9 - i,
        {
            let v = if i < 3 {
                g[i]
            } else if i < 6 {
                r[i - 3]
            } else {
                b[i - 6]
            };
            assert(v == enc[i as int]);
            self.buf.set(start + i, v);
            assert(self.buf@ =~= before.take(start as int) + enc.take(i + 1) + before.skip(start + i + 1));
            i = i + 1;
        }
        assert(enc.take(9) =~= enc);
    }

    /// The bytes to transmit.
    pub fn bytes_to_send(&self) -> (r: &Vec<u8>)
        ensures
            r@ == self.bytes(),
    {
        &self.buf
    }
}

} // verus!
