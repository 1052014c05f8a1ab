//! Decimal text of integers, both ways.
use vstd::prelude::*;
use vstd::string::StringExecFns;
use vstd::string::StringSliceAdditionalSpecFns;

verus! {

/// The character of a decimal digit.
pub open spec fn digit_char(d: nat) -> char {
    (48 + d) as char
}

/// The shortest decimal text of a natural number.
pub open spec fn nat_text(n: nat) -> Seq<char>
    decreases n,
{
    if n < 10 {
        seq![digit_char(n)]
    } else {
        nat_text(n / 10).push(digit_char(n % 10))
    }
}

/// The decimal text of an integer: a `-` before the text of its magnitude when negative.
pub open spec fn int_text(i: int) -> Seq<char> {
    if i < 0 {
        seq!['-'] + nat_text((-i) as nat)
    } else {
        nat_text(i as nat)
    }
}

/// The value of a sequence of decimal digit bytes.
pub open spec fn digits_value(d: Seq<u8>) -> nat
    decreases d.len(),
{
    if d.len() == 0 {
        0
    } else {
        digits_value(d.drop_last()) * 10 + (d.last() - 48) as nat
    }
}

/// Whether every byte is an ASCII decimal digit.
pub open spec fn all_digits(d: Seq<u8>) -> bool {
    forall|i: int| 0 <= i < d.len() ==> 48 <= #[trigger] d[i] <= 57
}

/// The integer that a text denotes in decimal, as the standard library reads it: an
/// optional `+` or `-`, then one or more digits, and nothing else.
pub open spec fn decimal_value(b: Seq<u8>) -> Option<int> {
    let (neg, digits) = if b.len() > 0 && b[0] == 45u8 {
        (true, b.drop_first())
    } else if b.len() > 0 && b[0] == 43u8 {
        (false, b.drop_first())
    } else {
        (false, b)
    };
    if digits.len() == 0 || !all_digits(digits) {
        None
    } else if neg {
        Some(-(digits_value(digits) as int))
    } else {
        Some(digits_value(digits) as int)
    }
}

/// The integer that a text denotes within the bounds of a type, if it does.
pub open spec fn bounded_decimal(b: Seq<u8>, min: int, max: int) -> Option<int> {
    match decimal_value(b) {
        Some(v) => if min <= v <= max {
            Some(v)
        } else {
            None
        },
        None => None,
    }
}

/// The bytes of a text whose characters are all ASCII.
pub open spec fn ascii_bytes(s: Seq<char>) -> Seq<u8> {
    s.map_values(|c: char| c as u8)
}

proof fn lemma_nat_text_digits(n: nat)
    ensures
        nat_text(n).len() >= 1,
        forall|i: int| 0 <= i < nat_text(n).len() ==> '0' <= #[trigger] nat_text(n)[i] <= '9',
    decreases n,
{
    if n >= 10 {
        lemma_nat_text_digits(n / 10);
        assert forall|i: int| 0 <= i < nat_text(n).len() implies '0' <= #[trigger] nat_text(n)[i] <= '9' by {
            if i < nat_text(n / 10).len() {
                assert(nat_text(n)[i] == nat_text(n / 10)[i]);
            }
        }
    }
}

proof fn lemma_digits_value_of_text(n: nat)
    ensures
        digits_value(ascii_bytes(nat_text(n))) == n,
        all_digits(ascii_bytes(nat_text(n))),
        ascii_bytes(nat_text(n)).len() >= 1,
    decreases n,
{
    lemma_nat_text_digits(n);
    let b = ascii_bytes(nat_text(n));
    assert forall|i: int| 0 <= i < b.len() implies 48 <= #[trigger] b[i] <= 57 by {
        assert('0' <= nat_text(n)[i] <= '9');
    }
    assert(digits_value(b) == digits_value(b.drop_last()) * 10 + (b.last() - 48) as nat);
    if n < 10 {
        assert(b.drop_last() =~= Seq::<u8>::empty());
        assert(b.last() == (48 + n) as u8);
        assert(b.last() == 48 + n);
    } else {
        lemma_digits_value_of_text(n / 10);
        assert(b.drop_last() =~= ascii_bytes(nat_text(n / 10)));
        assert(b.last() == (48 + n % 10) as u8);
        assert(b.last() == 48 + n % 10);
        assert(n == (n / 10) * 10 + n % 10);
    }
}

/// The decimal text of an integer reads back as the integer.
pub proof fn lemma_int_text_round_trip(i: int)
    ensures
        vstd::utf8::is_ascii_chars(int_text(i)),
        decimal_value(vstd::utf8::encode_utf8(int_text(i))) == Some(i),
{
    let n: nat = if i < 0 { (-i) as nat } else { i as nat };
    lemma_nat_text_digits(n);
    lemma_digits_value_of_text(n);
    let t = int_text(i);
    assert forall|k: int| 0 <= k < t.len() implies '\0' <= #[trigger] t[k] <= '\u{7f}' by {
        if i < 0 {
            if k > 0 {
                assert(t[k] == nat_text(n)[k - 1]);
            }
        } else {
            assert(t[k] == nat_text(n)[k]);
        }
    }
    vstd::utf8::is_ascii_chars_encode_utf8(t);
    let b = vstd::utf8::encode_utf8(t);
    assert(b =~= ascii_bytes(t));
    if i < 0 {
        assert(b[0] == 45u8);
        assert(b.drop_first() =~= ascii_bytes(nat_text(n)));
    } else {
        assert(b =~= ascii_bytes(nat_text(n)));
        assert(48 <= b[0] <= 57);
    }
}

pub(crate) fn digit_str(d: u64) -> (r: &'static str)
    requires
        d < 10,
    ensures
        r@ == seq![digit_char(d as nat)],
{
    proof {
        reveal_strlit("0");
        reveal_strlit("1");
        reveal_strlit("2");
        reveal_strlit("3");
        reveal_strlit("4");
        reveal_strlit("5");
        reveal_strlit("6");
        reveal_strlit("7");
        reveal_strlit("8");
        reveal_strlit("9");
    }
    let r = match d {
        0 => "0",
        1 => "1",
        2 => "2",
        3 => "3",
        4 => "4",
        5 => "5",
        6 => "6",
        7 => "7",
        8 => "8",
        _ => "9",
    };
    assert(r@ =~= seq![digit_char(d as nat)]);
    r
}

fn append_nat_text(n: u64, s: &mut String)
    ensures
        final(s)@ == old(s)@ + nat_text(n as nat),
    decreases n,
{
    if n >= 10 {
        append_nat_text(n / 10, s);
    }
    s.append(digit_str(n % 10));
    assert(final(s)@ =~= old(s)@ + nat_text(n as nat));
}

/// The decimal text of an integer.
pub fn i64_to_string(i: i64) -> (r: String)
    ensures
        r@ == int_text(i as int),
{
    let mut s = String::new();
    if i < 0 {
        proof {
            reveal_strlit("-");
        }
        s.append("-");
        let m: u64 = (0i128 - (i as i128)) as u64;
        append_nat_text(m, &mut s);
    } else {
        append_nat_text(i as u64, &mut s);
    }
    assert(s@ =~= int_text(i as int));
    s
}

/// The decimal text of a size.
pub fn usize_to_string(n: usize) -> (r: String)
    ensures
        r@ == nat_text(n as nat),
{
    let mut s = String::new();
    append_nat_text(n as u64, &mut s);
    assert(s@ =~= nat_text(n as nat));
    s
}

/// The decimal text of a 32-bit integer.
pub fn i32_to_string(i: i32) -> (r: String)
    ensures
        r@ == int_text(i as int),
{
    i64_to_string(i as i64)
}

/// Reads the integer that a text denotes in decimal, if it lies within `min..=max`.
fn parse_bounded(s: &str, min: i128, max: i128) -> (r: Option<i128>)
    requires
        -0x1_0000_0000_0000_0000 < min <= 0 <= max < 0x1_0000_0000_0000_0000,
    ensures
        match r {
            Some(v) => bounded_decimal(s.spec_bytes(), min as int, max as int) == Some(v as int),
            None => bounded_decimal(s.spec_bytes(), min as int, max as int) is None,
        },
{
    let b = s.as_bytes();
    let n = b.len();
    let mut start: usize = 0;
    let mut neg = false;
    if n > 0 && b[0] == 45 {
        neg = true;
        start = 1;
    } else if n > 0 && b[0] == 43 {
        start = 1;
    }
    let ghost digits = b@.skip(start as int);
    assert(start == 1 ==> digits =~= b@.drop_first());
    assert(start == 0 ==> digits =~= b@);
    if start == n {
        return None;
    }
    let cap: u128 = 0x1_0000_0000_0000_0000;
    let mut acc: u128 = 0;
    let mut i: usize = start;
    while i < n
        invariant
            n == b@.len(),
            start <= i <= n,
            digits == b@.skip(start as int),
            b@ == s.spec_bytes(),
            neg == (b@.len() > 0 && b@[0] == 45u8),
            digits == (if b@.len() > 0 && (b@[0] == 45u8 || b@[0] == 43u8) {
                b@.drop_first()
            } else {
                b@
            }),
            cap == 0x1_0000_0000_0000_0000,
            all_digits(b@.subrange(start as int, i as int)),
            acc as int == if digits_value(b@.subrange(start as int, i as int)) < cap {
                digits_value(b@.subrange(start as int, i as int)) as int
            } else {
                cap as int
            },
        decreases n - i,
    {
        let c = b[i];
        if c < 48 || c > 57 {
            assert(digits[i - start] == c);
            assert(!(48 <= digits[i - start] <= 57));
            assert(!all_digits(digits));
            return None;
        }
        let ghost prev = b@.subrange(start as int, i as int);
        let ghost next = b@.subrange(start as int, i + 1);
        assert(next.drop_last() =~= prev);
        assert(next.last() == c);
        let grown = acc * 10 + (c - 48) as u128;
        acc = if grown < cap { grown } else { cap };
        i = i + 1;
        assert forall|j: int| 0 <= j < next.len() implies 48 <= #[trigger] next[j] <= 57 by {
            if j < prev.len() {
                assert(next[j] == prev[j]);
            }
        }
    }
    assert(b@.subrange(start as int, n as int) =~= digits);
    if acc >= cap {
        return None;
    }
    let v: i128 = if neg { 0 - (acc as i128) } else { acc as i128 };
    if v < min || v > max {
        return None;
    }
    Some(v)
}

/// Reads a 32-bit integer from its decimal text.
pub fn parse_i32(s: &str) -> (r: Option<i32>)
    ensures
        match r {
            Some(v) => bounded_decimal(s.spec_bytes(), i32::MIN as int, i32::MAX as int) == Some(
                v as int,
            ),
            None => bounded_decimal(s.spec_bytes(), i32::MIN as int, i32::MAX as int) is None,
        },
{
    match parse_bounded(s, i32::MIN as i128, i32::MAX as i128) {
        Some(v) => Some(v as i32),
        None => None,
    }
}

/// Reads a 64-bit integer from its decimal text.
pub fn parse_i64(s: &str) -> (r: Option<i64>)
    ensures
        match r {
            Some(v) => bounded_decimal(s.spec_bytes(), i64::MIN as int, i64::MAX as int) == Some(
                v as int,
            ),
            None => bounded_decimal(s.spec_bytes(), i64::MIN as int, i64::MAX as int) is None,
        },
{
    match parse_bounded(s, i64::MIN as i128, i64::MAX as i128) {
        Some(v) => Some(v as i64),
        None => None,
    }
}

} // verus!
