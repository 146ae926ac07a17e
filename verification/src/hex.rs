//! Hexadecimal rendering of byte strings.

use vstd::prelude::*;
use vstd::utf8::*;

verus! {

/// The lower-case hexadecimal digit (ASCII) of a nibble `n < 16`, as
/// `char::from_digit(n, 16)` gives it.
pub open spec fn lower_digit(n: int) -> u8 {
    if n < 10 {
        (48 + n) as u8
    } else {
        (87 + n) as u8
    }
}

/// The upper-case hexadecimal digit (ASCII) of a nibble `n < 16`, as the
/// `{:X}` format gives it.
pub open spec fn upper_digit(n: int) -> u8 {
    if n < 10 {
        (48 + n) as u8
    } else {
        (55 + n) as u8
    }
}

/// Two hexadecimal digits per byte, high nibble first; `upper` selects the
/// upper-case alphabet.
pub open spec fn hex_encode(s: Seq<u8>, upper: bool) -> Seq<u8> {
    Seq::new(
        2 * s.len(),
        |j: int|
            {
                let b = s[j / 2];
                let n = if j % 2 == 0 {
                    b / 16
                } else {
                    b % 16
                };
                if upper {
                    upper_digit(n as int)
                } else {
                    lower_digit(n as int)
                }
            },
    )
}

/// What `to_hex` fills its 64-byte buffer with: the lower-case digits of
/// `m`, then zero bytes.
pub open spec fn hex_buffer(m: Seq<u8>) -> Seq<u8> {
    hex_encode(m, false) + Seq::new((64 - 2 * m.len()) as nat, |_i: int| 0u8)
}

/// The digit of a nibble, lower- or upper-case.
pub fn hex_digit(n: u8, upper: bool) -> (d: u8)
    requires
        n < 16,
    ensures
        d == (if upper {
            upper_digit(n as int)
        } else {
            lower_digit(n as int)
        }),
{
    if n < 10 {
        48 + n
    } else if upper {
        55 + n
    } else {
        87 + n
    }
}

/// Converts `m` to lower-case hex in a 64-byte buffer; the bytes after the
/// digits stay zero. Fails when the digits would not fit, that is when `m`
/// is longer than 32 bytes.
pub fn to_hex(m: &[u8]) -> (res: Result<[u8; 64], ()>)
    ensures
        res is Err <==> 2 * m@.len() > 64,
        res matches Ok(hex) ==> hex@ == hex_buffer(m@),
{
    if m.len() > 32 {
        return Err(());
    }
    let mut hex = [0u8; 64];
    let mut i: usize = 0;
    let ghost want = hex_buffer(m@);
    for k in 0..m.len()
        invariant
            m.len() <= 32,
            i == 2 * k,
            want == hex_buffer(m@),
            want.len() == 64,
            forall|j: int| 0 <= j < i ==> hex@[j] == want[j],
            forall|j: int| i <= j < 64 ==> hex@[j] == 0,
    {
        let c = m[k];
        assert(c >> 4 == c / 16 && c & 0xf == c % 16) by (bit_vector);
        let c0 = hex_digit(c >> 4, false);
        let c1 = hex_digit(c & 0xf, false);
        hex[i] = c0;
        hex[i + 1] = c1;
        assert((2 * k) / 2 == k && (2 * k + 1) / 2 == k && (2 * k) % 2 == 0 && (2 * k + 1) % 2
            == 1);
        i += 2;
    }
    assert(hex@ =~= want);
    Ok(hex)
}

/// Each nibble has its own digit, in either alphabet.
pub proof fn lemma_digit_injective(a: int, b: int, upper: bool)
    requires
        0 <= a < 16,
        0 <= b < 16,
        (if upper {
            upper_digit(a) == upper_digit(b)
        } else {
            lower_digit(a) == lower_digit(b)
        }),
    ensures
        a == b,
{
}

/// Hex encoding loses nothing: two byte strings of one length with the same
/// digits are the same string.
pub proof fn lemma_hex_encode_injective(a: Seq<u8>, b: Seq<u8>, upper: bool)
    requires
        a.len() == b.len(),
        hex_encode(a, upper) == hex_encode(b, upper),
    ensures
        a == b,
{
    assert forall|i: int| 0 <= i < a.len() implies a[i] == b[i] by {
        let ea = hex_encode(a, upper);
        let eb = hex_encode(b, upper);
        assert(ea[2 * i] == eb[2 * i]);
        assert(ea[2 * i + 1] == eb[2 * i + 1]);
        assert((2 * i) / 2 == i && (2 * i + 1) / 2 == i && (2 * i) % 2 == 0 && (2 * i + 1) % 2
            == 1);
        lemma_digit_injective((a[i] / 16) as int, (b[i] / 16) as int, upper);
        lemma_digit_injective((a[i] % 16) as int, (b[i] % 16) as int, upper);
    }
    assert(a =~= b);
}

/// Every byte of a hex encoding is an ASCII digit or letter.
pub proof fn lemma_hex_encode_ascii(s: Seq<u8>, upper: bool)
    ensures
        forall|j: int|
            0 <= j < hex_encode(s, upper).len() ==> {
                let d = #[trigger] hex_encode(s, upper)[j];
                (48 <= d <= 57) || (upper && 65 <= d <= 70) || (!upper && 97 <= d <= 102)
            },
{
}

/// A byte string of ASCII bytes is valid UTF-8.
pub proof fn lemma_ascii_is_utf8(s: Seq<u8>)
    requires
        forall|j: int| 0 <= j < s.len() ==> #[trigger] s[j] < 128,
    ensures
        valid_utf8(s),
{
    assert(s.subrange(0, 0) =~= Seq::<u8>::empty());
    assert(valid_utf8(Seq::<u8>::empty()));
    assert(forall|j: int| 0 <= 0 <= j < s.len() <= s.len() ==> #[trigger] is_leading_byte_width_1(s[j]));
    partial_valid_utf8_extend_ascii_block(s, 0, s.len() as int);
    assert(s.subrange(0, s.len() as int) =~= s);
}

/// The buffer that `to_hex` returns is always valid UTF-8, so reading it
/// as a `str` never fails.
pub proof fn lemma_hex_buffer_is_utf8(m: Seq<u8>)
    requires
        m.len() <= 32,
    ensures
        valid_utf8(hex_buffer(m)),
{
    lemma_hex_encode_ascii(m, false);
    let h = hex_buffer(m);
    assert forall|j: int| 0 <= j < h.len() implies #[trigger] h[j] < 128 by {
        if j < 2 * m.len() {
            assert(h[j] == hex_encode(m, false)[j]);
        }
    }
    lemma_ascii_is_utf8(h);
}

/// The layout of `to_hex`'s buffer, byte by byte: the two lower-case
/// digits of each input byte, high nibble first, then zero bytes up to 64.
pub proof fn lemma_hex_buffer_layout(m: Seq<u8>)
    requires
        m.len() <= 32,
    ensures
        hex_buffer(m).len() == 64,
        forall|j: int| 2 * m.len() <= j < 64 ==> #[trigger] hex_buffer(m)[j] == 0,
        forall|i: int|
            0 <= i < m.len() ==> {
                let hi = #[trigger] m[i] / 16;
                let lo = m[i] % 16;
                &&& (hi < 10 ==> hex_buffer(m)[2 * i] == 48 + hi)
                &&& (hi >= 10 ==> hex_buffer(m)[2 * i] == 87 + hi)
                &&& (lo < 10 ==> hex_buffer(m)[2 * i + 1] == 48 + lo)
                &&& (lo >= 10 ==> hex_buffer(m)[2 * i + 1] == 87 + lo)
            },
{
    assert forall|i: int| 0 <= i < m.len() implies {
        let hi = #[trigger] m[i] / 16;
        let lo = m[i] % 16;
        &&& (hi < 10 ==> hex_buffer(m)[2 * i] == 48 + hi)
        &&& (hi >= 10 ==> hex_buffer(m)[2 * i] == 87 + hi)
        &&& (lo < 10 ==> hex_buffer(m)[2 * i + 1] == 48 + lo)
        &&& (lo >= 10 ==> hex_buffer(m)[2 * i + 1] == 87 + lo)
    } by {
        assert((2 * i) / 2 == i && (2 * i + 1) / 2 == i && (2 * i) % 2 == 0 && (2 * i + 1) % 2
            == 1);
        assert(hex_buffer(m)[2 * i] == hex_encode(m, false)[2 * i]);
        assert(hex_buffer(m)[2 * i + 1] == hex_encode(m, false)[2 * i + 1]);
    }
}

} // verus!
