//! The canonical sample domain and the per-width sample codecs.
//!
//! A sample is a signed 32-bit amplitude; `0` is the equilibrium (silence)
//! value. Narrower integer encodings are widened into the full 32-bit range,
//! 32-bit IEEE 754 float data is converted to the same fixed-point range, and
//! widths this library cannot handle decode to equilibrium so that playback
//! continues.

use vstd::prelude::*;
use vstd::arithmetic::power2::*;
use vstd::arithmetic::div_mod::*;

verus! {

/// The two sample encodings a WAV header can declare.
#[derive(Clone, Copy, PartialEq, Eq, Structural, Debug)]
pub enum SampleFormat {
    Int,
    Float,
}

/// Bytes occupied by one sample of `bits` width in the data chunk.
pub open spec fn spec_bytes_per_sample(bits: nat) -> nat {
    (bits + 7) / 8
}

/// Little-endian value of the `n` bytes of `b` starting at `off`.
pub open spec fn le_value(b: Seq<u8>, off: int, n: nat) -> nat
    decreases n,
{
    if n == 0 {
        0
    } else {
        b[off] as nat + 256 * le_value(b, off + 1, (n - 1) as nat)
    }
}

/// The signed value encoded by the low `w` bits of `v`: widths of at most 8
/// are stored unsigned with an excess offset (the WAV convention), wider
/// widths are two's complement.
pub open spec fn sign_decode(v: nat, w: nat) -> int
    recommends
        1 <= w,
        v < pow2(w),
{
    if w <= 8 {
        v - pow2((w - 1) as nat)
    } else if v >= pow2((w - 1) as nat) {
        v - pow2(w)
    } else {
        v as int
    }
}

/// Amplitude of an integer sample: the `w`-bit signed code carried in the
/// low bits of `raw`, left-shifted into the full 32-bit range.
pub open spec fn int_amplitude(raw: nat, w: nat) -> int
    recommends
        1 <= w <= 32,
{
    sign_decode(raw % pow2(w), w) * pow2((32 - w) as nat)
}

/// Amplitude of a 32-bit IEEE 754 float sample given its raw bits: the
/// value scaled by 2^31 and truncated toward zero, magnitudes of 1.0 and
/// above clamped to full scale, NaN and infinity decoded as equilibrium.
pub open spec fn float_amplitude(bits: nat) -> int
    recommends
        bits < pow2(32),
{
    let sign = bits / 0x8000_0000;
    let e = (bits / 0x80_0000) % 256;
    let m = bits % 0x80_0000;
    let mag = if e == 255 {
        0
    } else if e >= 127 {
        0x7fff_ffff
    } else if e >= 119 {
        (0x80_0000 + m) * pow2((e - 119) as nat)
    } else if e >= 96 {
        (0x80_0000 + m) / pow2((119 - e) as nat)
    } else {
        0
    };
    if sign == 1 {
        -mag
    } else {
        mag as int
    }
}

/// Amplitude of the sample stored at `off`, for the given declared encoding.
/// Integer widths up to 32 decode by widening; 32-bit float data converts to
/// fixed point; every other declared width decodes to equilibrium.
pub open spec fn spec_decode_sample(b: Seq<u8>, off: int, format: SampleFormat, w: nat) -> int {
    if format == SampleFormat::Float {
        if w == 32 {
            float_amplitude(le_value(b, off, 4))
        } else {
            0
        }
    } else {
        if 1 <= w && w <= 32 {
            int_amplitude(le_value(b, off, spec_bytes_per_sample(w)), w)
        } else {
            0
        }
    }
}

/// The `w`-bit code that re-encodes amplitude `a`: the amplitude is
/// quantized downward to a multiple of `2^(32-w)` and stored with the same
/// sign convention that `sign_decode` reads.
pub open spec fn encode_code(a: int, w: nat) -> nat
    recommends
        1 <= w <= 32,
        -0x8000_0000 <= a < 0x8000_0000,
{
    let q = (a + 0x8000_0000) / pow2((32 - w) as nat) as int;
    if w <= 8 {
        q as nat
    } else {
        let s = q - pow2((w - 1) as nat);
        if s < 0 {
            (s + pow2(w)) as nat
        } else {
            s as nat
        }
    }
}

pub fn bytes_per_sample(bits: u16) -> (r: u32)
    ensures
        r == spec_bytes_per_sample(bits as nat),
{
    (bits as u32 + 7) / 8
}

/// 2 to the power `e`, as a machine integer.
pub fn pow2_u64(e: u64) -> (r: u64)
    requires
        e < 64,
    ensures
        r == pow2(e as nat),
{
    proof {
        lemma2_to64();
    }
    let mut r: u64 = 1;
    let mut i: u64 = 0;
    while i < e
        invariant
            i <= e,
            e < 64,
            r == pow2(i as nat),
        decreases e - i,
    {
        proof {
            lemma_pow2_strictly_increases(i as nat, 63);
            lemma2_to64();
            lemma2_to64_rest();
            lemma_pow2_unfold((i + 1) as nat);
        }
        r = r * 2;
        i = i + 1;
    }
    r
}

proof fn lemma_le_value_step(b: Seq<u8>, off: int, k: nat)
    ensures
        le_value(b, off, k + 1) == le_value(b, off, k) + b[off + k] as nat * pow2(8 * k),
    decreases k,
{
    if k == 0 {
        lemma2_to64();
        assert(le_value(b, off + 1, 0) == 0);
        assert(le_value(b, off, 0) == 0);
        assert(le_value(b, off, 1) == b[off] as nat + 256 * le_value(b, off + 1, 0));
    } else {
        lemma_le_value_step(b, off + 1, (k - 1) as nat);
        lemma_pow2_adds(8, 8 * (k - 1) as nat);
        lemma2_to64();
        assert(le_value(b, off, k + 1) == b[off] as nat + 256 * le_value(b, off + 1, k));
        assert(le_value(b, off, k) == b[off] as nat + 256 * le_value(b, off + 1, (k - 1) as nat));
        assert(le_value(b, off + 1, k) == le_value(b, off + 1, (k - 1) as nat) + b[off + 1 + (k
            - 1)] as nat * pow2(8 * (k - 1) as nat));
        assert(pow2(8 * k) == 256 * pow2(8 * (k - 1) as nat));
        assert(256 * (le_value(b, off + 1, (k - 1) as nat) + b[off + k] as nat * pow2(
            8 * (k - 1) as nat,
        )) == 256 * le_value(b, off + 1, (k - 1) as nat) + b[off + k] as nat * (256 * pow2(
            8 * (k - 1) as nat,
        ))) by (nonlinear_arith);
        assert(b[off + k] as nat * pow2(8 * k) == b[off + k] as nat * (256 * pow2(
            8 * (k - 1) as nat,
        ))) by (nonlinear_arith)
            requires
                pow2(8 * k) == 256 * pow2(8 * (k - 1) as nat),
        ;
        assert(le_value(b, off, k + 1) == le_value(b, off, k) + b[off + k] as nat * pow2(8 * k));
    }
}

pub proof fn lemma_le_value_bound(b: Seq<u8>, off: int, k: nat)
    ensures
        le_value(b, off, k) < pow2(8 * k),
    decreases k,
{
    if k == 0 {
        lemma2_to64();
    } else {
        lemma_le_value_bound(b, off + 1, (k - 1) as nat);
        lemma_pow2_adds(8, 8 * (k - 1) as nat);
        lemma2_to64();
        assert(b[off] as nat + 256 * le_value(b, off + 1, (k - 1) as nat) < 256 * pow2(
            8 * (k - 1) as nat,
        )) by (nonlinear_arith)
            requires
                b[off] < 256 && le_value(b, off + 1, (k - 1) as nat) < pow2(8 * (k - 1) as nat),
        ;
    }
}

/// Read the little-endian sample container at `off` into a machine word.
pub fn read_le(data: &Vec<u8>, off: usize, nb: usize) -> (r: u64)
    requires
        nb <= 4,
        off + nb <= data@.len(),
    ensures
        r == le_value(data@, off as int, nb as nat),
        r < pow2(8 * nb as nat),
{
    proof {
        lemma2_to64();
    }
    let dlen: usize = data.len();
    let mut acc: u64 = 0;
    let mut k: usize = 0;
    while k < nb
        invariant
            k <= nb,
            nb <= 4,
            off + nb <= dlen,
            dlen == data@.len(),
            acc == le_value(data@, off as int, k as nat),
            acc < pow2(8 * k as nat),
        decreases nb - k,
    {
        let p: u64 = pow2_u64(8 * (k as u64));
        proof {
            lemma_le_value_step(data@, off as int, k as nat);
            lemma_pow2_adds(8 * k as nat, 8);
            lemma2_to64();
            lemma2_to64_rest();
            if 8 * k + 8 < 32 {
                lemma_pow2_strictly_increases((8 * k + 8) as nat, 32);
            }
            assert(acc + (data@[off + k] as nat) * pow2(8 * k as nat) < pow2(
                (8 * k + 8) as nat,
            )) by (nonlinear_arith)
                requires
                    acc < pow2(8 * k as nat),
                    data@[off + k] < 256,
                    pow2((8 * k + 8) as nat) == pow2(8 * k as nat) * 256,
            ;
            assert((data@[off + k] as nat) * pow2(8 * k as nat) < pow2((8 * k + 8) as nat));
        }
        acc = acc + (data[off + k] as u64) * p;
        k = k + 1;
    }
    acc
}

/// Decode the integer sample whose container starts at `off`.
fn decode_int_sample(data: &Vec<u8>, off: usize, bits: u16) -> (s: i32)
    requires
        1 <= bits <= 32,
        off + spec_bytes_per_sample(bits as nat) <= data@.len(),
    ensures
        s == int_amplitude(
            le_value(data@, off as int, spec_bytes_per_sample(bits as nat)),
            bits as nat,
        ),
{
    let nb: usize = bytes_per_sample(bits) as usize;
    let acc: u64 = read_le(data, off, nb);
    let w: u64 = bits as u64;
    proof {
        lemma2_to64();
        lemma2_to64_rest();
        lemma_pow2_pos(bits as nat);
        if bits < 32 {
            lemma_pow2_strictly_increases(bits as nat, 32);
        }
        if bits - 1 < 31 {
            lemma_pow2_strictly_increases((bits - 1) as nat, 31);
        }
    }
    let full: u64 = pow2_u64(w);
    let half: u64 = pow2_u64(w - 1);
    assert(full <= 0x1_0000_0000 && half <= 0x8000_0000);
    let raw: u64 = acc % full;
    proof {
        lemma_mod_bound(acc as int, full as int);
        lemma_small_mod(raw as nat, full as nat);
    }
    let signed: i64 = if bits <= 8 {
        raw as i64 - half as i64
    } else if raw >= half {
        raw as i64 - full as i64
    } else {
        raw as i64
    };
    assert(signed == sign_decode(raw as nat, bits as nat));
    proof {
        lemma_pow2_unfold(bits as nat);
    }
    assert(-(half as int) <= signed < half as int);
    let scale: i64 = pow2_u64(32 - w) as i64;
    proof {
        lemma_pow2_adds((bits - 1) as nat, (32 - bits) as nat);
        assert(-0x8000_0000 <= signed * scale < 0x8000_0000) by (nonlinear_arith)
            requires
                -(half as int) <= signed < half as int,
                scale == pow2((32 - bits) as nat),
                half == pow2((bits - 1) as nat),
                half * scale == pow2(31),
                pow2(31) == 0x8000_0000,
                scale > 0,
        ;
    }
    let amp: i64 = signed * scale;
    assert(amp == int_amplitude(
        le_value(data@, off as int, spec_bytes_per_sample(bits as nat)),
        bits as nat,
    ));
    amp as i32
}

/// Decode the 32-bit float sample whose container starts at `off`.
fn decode_float_sample(data: &Vec<u8>, off: usize) -> (s: i32)
    requires
        off + 4 <= data@.len(),
    ensures
        s == float_amplitude(le_value(data@, off as int, 4)),
{
    let bits: u64 = read_le(data, off, 4);
    proof {
        lemma2_to64();
        lemma2_to64_rest();
    }
    let sign: u64 = bits / 0x8000_0000;
    let e: u64 = (bits / 0x80_0000) % 256;
    let m: u64 = bits % 0x80_0000;
    let mag: u64 = if e == 255 {
        0
    } else if e >= 127 {
        0x7fff_ffff
    } else if e >= 119 {
        let p: u64 = pow2_u64(e - 119);
        proof {
            lemma_pow2_pos((e - 119) as nat);
            if e - 119 < 7 {
                lemma_pow2_strictly_increases((e - 119) as nat, 7);
            }
            assert((0x80_0000 + m) * p < 0x8000_0000) by (nonlinear_arith)
                requires
                    m < 0x80_0000,
                    1 <= p <= 128,
            ;
        }
        (0x80_0000 + m) * p
    } else if e >= 96 {
        let p: u64 = pow2_u64(119 - e);
        proof {
            lemma_pow2_pos((119 - e) as nat);
            lemma_div_is_ordered_by_denominator((0x80_0000 + m) as int, 1, p as int);
            lemma_div_basics((0x80_0000 + m) as int);
        }
        (0x80_0000 + m) / p
    } else {
        0
    };
    assert(mag <= 0x7fff_ffff);
    if sign == 1 {
        0i32 - (mag as i32)
    } else {
        mag as i32
    }
}

/// Decode the sample stored at `off` under the declared encoding; widths
/// this library cannot handle decode to the equilibrium value.
pub fn decode_sample(data: &Vec<u8>, off: usize, format: SampleFormat, bits: u16) -> (s: i32)
    requires
        off + spec_bytes_per_sample(bits as nat) <= data@.len(),
        1 <= bits,
    ensures
        s == spec_decode_sample(data@, off as int, format, bits as nat),
{
    match format {
        SampleFormat::Float => {
            if bits == 32 {
                decode_float_sample(data, off)
            } else {
                0
            }
        },
        SampleFormat::Int => {
            if bits <= 32 {
                decode_int_sample(data, off, bits)
            } else {
                0
            }
        },
    }
}

proof fn lemma_le_value_push(b: Seq<u8>, x: u8, off: int, n: nat)
    requires
        0 <= off,
        off + n <= b.len(),
    ensures
        le_value(b.push(x), off, n) == le_value(b, off, n),
    decreases n,
{
    if n > 0 {
        assert(b.push(x)[off] == b[off]);
        lemma_le_value_push(b, x, off + 1, (n - 1) as nat);
    }
}

/// Store the `w`-bit integer sample code of amplitude `a` into its
/// little-endian container bytes.
pub fn encode_int_sample(a: i32, bits: u16) -> (out: Vec<u8>)
    requires
        1 <= bits <= 32,
    ensures
        out@.len() == spec_bytes_per_sample(bits as nat),
        le_value(out@, 0, spec_bytes_per_sample(bits as nat)) == encode_code(a as int, bits as nat),
{
    proof {
        lemma2_to64();
        lemma2_to64_rest();
        lemma_pow2_pos(bits as nat);
        lemma_pow2_pos((32 - bits) as nat);
        if bits < 32 {
            lemma_pow2_strictly_increases(bits as nat, 32);
        }
        if bits - 1 < 31 {
            lemma_pow2_strictly_increases((bits - 1) as nat, 31);
        }
        if 32 - bits < 32 {
            lemma_pow2_strictly_increases((32 - bits) as nat, 32);
        }
    }
    let w: u64 = bits as u64;
    let scale: u64 = pow2_u64(32 - w);
    let full: u64 = pow2_u64(w);
    let half: u64 = pow2_u64(w - 1);
    let n: u64 = (a as i64 + 0x8000_0000) as u64;
    let q: u64 = n / scale;
    proof {
        lemma_pow2_adds(bits as nat, (32 - bits) as nat);
        assert(n < full * scale);
        lemma_multiply_divide_lt(n as int, scale as int, full as int);
    }
    assert(q < full);
    proof {
        lemma_pow2_strictly_increases((bits - 1) as nat, bits as nat);
    }
    assert(full <= 0x1_0000_0000 && half < full);
    let code: u64 = if bits <= 8 {
        q
    } else if q < half {
        q + full - half
    } else {
        q - half
    };
    assert(code == encode_code(a as int, bits as nat));
    assert(code < full);
    let nb: usize = bytes_per_sample(bits) as usize;
    let mut out: Vec<u8> = Vec::new();
    let mut rem: u64 = code;
    let mut k: usize = 0;
    proof {
        if bits < 8 * nb {
            lemma_pow2_strictly_increases(bits as nat, 8 * nb as nat);
        }
        assert(le_value(out@, 0, 0) == 0);
        assert(rem * pow2(0) == rem) by (nonlinear_arith)
            requires
                pow2(0) == 1,
        ;
    }
    while k < nb
        invariant
            k <= nb,
            nb <= 4,
            out@.len() == k,
            rem < pow2(8 * (nb - k) as nat),
            le_value(out@, 0, k as nat) + rem * pow2(8 * k as nat) == encode_code(
                a as int,
                bits as nat,
            ),
        decreases nb - k,
    {
        let ghost old_out = out@;
        let ghost old_rem = rem as nat;
        let byte: u8 = (rem % 256) as u8;
        out.push(byte);
        rem = rem / 256;
        k = k + 1;
        proof {
            lemma2_to64();
            lemma_le_value_push(old_out, byte, 0, (k - 1) as nat);
            lemma_le_value_step(out@, 0, (k - 1) as nat);
            lemma_fundamental_div_mod(old_rem as int, 256);
            lemma_pow2_adds(8 * (k - 1) as nat, 8);
            assert(rem < pow2(8 * (nb - k) as nat)) by (nonlinear_arith)
                requires
                    old_rem < pow2((8 * (nb - k) + 8) as nat),
                    rem == old_rem / 256,
                    pow2((8 * (nb - k) + 8) as nat) == pow2(8 * (nb - k) as nat) * 256,
                    pow2(8 * (nb - k) as nat) > 0,
            ;
            assert((old_rem % 256) * pow2(8 * (k - 1) as nat) + (old_rem / 256) * pow2(
                8 * k as nat,
            ) == old_rem * pow2(8 * (k - 1) as nat)) by (nonlinear_arith)
                requires
                    old_rem == 256 * (old_rem / 256) + old_rem % 256,
                    pow2(8 * k as nat) == pow2(8 * (k - 1) as nat) * 256,
            ;
        }
    }
    proof {
        assert(pow2(0) == 1) by {
            lemma2_to64();
        }
    }
    out
}


/// The position of the highest set bit of `n` (0 for 0 and 1).
pub open spec fn floor_log2(n: nat) -> nat
    decreases n,
{
    if n <= 1 {
        0
    } else {
        1 + floor_log2(n / 2)
    }
}

proof fn lemma_floor_log2_bounds(n: nat)
    requires
        n >= 1,
    ensures
        pow2(floor_log2(n)) <= n < pow2(floor_log2(n) + 1),
    decreases n,
{
    lemma2_to64();
    if n <= 1 {
    } else {
        lemma_floor_log2_bounds(n / 2);
        let q = floor_log2(n / 2);
        lemma_pow2_unfold(q + 1);
        lemma_pow2_unfold(q + 2);
        lemma_fundamental_div_mod(n as int, 2);
        lemma_mod_bound(n as int, 2);
    }
}

/// The IEEE 754 single-precision bits that re-encode amplitude `a`: the
/// magnitude's leading bit fixes the exponent, the next 23 bits the
/// mantissa (truncating), and the sign goes to the top bit. The exact
/// inverse of `float_amplitude` up to its truncation.
pub open spec fn encode_float_code(a: int) -> nat
    recommends
        -0x7fff_ffff <= a <= 0x7fff_ffff,
{
    let mag = if a < 0 {
        (-a) as nat
    } else {
        a as nat
    };
    let sign: nat = if a < 0 {
        0x8000_0000
    } else {
        0
    };
    if mag == 0 {
        sign
    } else {
        let p = floor_log2(mag);
        let e = 96 + p;
        let m = if p >= 23 {
            mag / pow2((p - 23) as nat) - 0x80_0000
        } else {
            mag * pow2((23 - p) as nat) - 0x80_0000
        };
        (sign + e * 0x80_0000 + m) as nat
    }
}


/// The largest truncation a float re-encode of a magnitude can cost: one
/// unit below 2^23, one mantissa step of the magnitude's binade above.
pub open spec fn float_quantum(mag: int) -> int
    recommends
        0 <= mag,
{
    if mag < 0x80_0000 {
        1
    } else {
        pow2((floor_log2(mag as nat) - 23) as nat) as int
    }
}

/// Law: a sample amplitude re-encoded as 32-bit IEEE 754 float bits and
/// decoded again comes back within the float's own quantization error, and
/// exactly wherever the 24-bit mantissa can hold the whole magnitude; the
/// loss never changes the sign and never rounds away from zero.
pub proof fn lemma_float_encode_then_decode(a: int)
    requires
        -0x7fff_ffff <= a <= 0x7fff_ffff,
    ensures
        a >= 0 ==> 0 <= a - float_amplitude(encode_float_code(a)) < float_quantum(a),
        a < 0 ==> 0 <= float_amplitude(encode_float_code(a)) - a < float_quantum(-a),
        -0x80_0000 < a < 0x80_0000 ==> float_amplitude(encode_float_code(a)) == a,
{
    lemma2_to64();
    lemma2_to64_rest();
    let mag: nat = if a < 0 {
        (-a) as nat
    } else {
        a as nat
    };
    let sign: nat = if a < 0 {
        0x8000_0000
    } else {
        0
    };
    if mag == 0 {
        let bits = encode_float_code(a);
        assert(bits == sign);
        assert(bits / 0x8000_0000 == (if a < 0 { 1int } else { 0int }));
        assert((bits / 0x80_0000) % 256 == (if a < 0 { 0x100int % 256 } else { 0int }));
        assert(float_amplitude(bits) == 0);
    } else {
        lemma_floor_log2_bounds(mag);
        let p = floor_log2(mag);
        if p >= 31 {
            if p > 31 {
                lemma_pow2_strictly_increases(31, p);
            }
            assert(false);
        }
        let e: nat = 96 + p;
        let m: int = if p >= 23 {
            mag as int / pow2((p - 23) as nat) as int - 0x80_0000
        } else {
            mag as int * pow2((23 - p) as nat) as int - 0x80_0000
        };
        let q: int = m + 0x80_0000;
        if p >= 23 {
            let sh = pow2((p - 23) as nat) as int;
            lemma_pow2_pos((p - 23) as nat);
            lemma_pow2_subtracts((p - 23) as nat, p);
            lemma_div_is_ordered(pow2(p) as int, mag as int, sh);
            assert(pow2(p) as int / sh == 0x80_0000);
            lemma_pow2_adds((p - 23) as nat, 24);
            assert(pow2(p + 1) == sh * 0x100_0000);
            lemma_fundamental_div_mod_converse(
                sh * 0x100_0000 - 1,
                sh,
                0x100_0000 - 1,
                sh - 1,
            );
            lemma_div_is_ordered(mag as int, sh * 0x100_0000 - 1, sh);
            assert(0x80_0000 <= q < 0x100_0000);
        } else {
            let sh = pow2((23 - p) as nat) as int;
            lemma_pow2_pos((23 - p) as nat);
            lemma_pow2_adds((23 - p) as nat, p);
            lemma_pow2_adds((23 - p) as nat, p + 1);
            assert(q == mag * sh);
            assert(pow2(p) as int * sh <= mag as int * sh < pow2(p + 1) as int * sh)
                by (nonlinear_arith)
                requires
                    pow2(p) <= mag < pow2(p + 1),
                    sh > 0,
            ;
            assert(pow2(p) as int * sh == pow2(23)) by (nonlinear_arith)
                requires
                    sh == pow2((23 - p) as nat) as int,
                    pow2((23 - p) as nat) * pow2(p) == pow2(23),
            ;
            assert(pow2(p + 1) as int * sh == pow2(24)) by (nonlinear_arith)
                requires
                    sh == pow2((23 - p) as nat) as int,
                    pow2((23 - p) as nat) * pow2(p + 1) == pow2(24),
            ;
            assert(0x80_0000 <= q < 0x100_0000);
        }
        assert(0 <= m < 0x80_0000);
        let bits = encode_float_code(a);
        let s1: int = if a < 0 {
            1
        } else {
            0
        };
        assert(bits == s1 * 0x8000_0000 + e * 0x80_0000 + m);
        assert(e * 0x80_0000 + m < 0x8000_0000) by (nonlinear_arith)
            requires
                e <= 126,
                0 <= m < 0x80_0000,
        ;
        lemma_fundamental_div_mod_converse(
            bits as int,
            0x8000_0000,
            s1,
            e * 0x80_0000 + m,
        );
        assert(bits as int / 0x8000_0000 == s1);
        assert(bits as int == 0x80_0000 * (s1 * 0x100 + e) + m) by (nonlinear_arith)
            requires
                bits == s1 * 0x8000_0000 + e * 0x80_0000 + m,
        ;
        lemma_fundamental_div_mod_converse(bits as int, 0x80_0000, s1 * 0x100 + e, m);
        assert(bits as int / 0x80_0000 == s1 * 0x100 + e);
        lemma_fundamental_div_mod_converse(s1 * 0x100 + e, 0x100, s1, e as int);
        assert((bits as int / 0x80_0000) % 0x100 == e);
        assert(bits as int % 0x80_0000 == m);
        let decoded_mag: int = float_amplitude(bits) * (if a < 0 {
            -1int
        } else {
            1int
        });
        if p >= 23 {
            let sh = pow2((p - 23) as nat) as int;
            assert(119 <= e <= 126);
            assert(float_amplitude(bits) == if s1 == 1 {
                -(q * sh)
            } else {
                q * sh
            });
            lemma_fundamental_div_mod(mag as int, sh);
            lemma_mod_bound(mag as int, sh);
            assert(q * sh == sh * (mag as int / sh)) by (nonlinear_arith)
                requires
                    q == mag as int / sh,
            ;
            assert(0 <= mag as int - q * sh < sh);
            assert(float_quantum(mag as int) == sh);
        } else {
            let sh = pow2((23 - p) as nat) as int;
            assert(96 <= e < 119);
            assert(float_amplitude(bits) == if s1 == 1 {
                -(q / sh)
            } else {
                q / sh
            });
            assert(q / sh == mag) by {
                lemma_div_multiples_vanish(mag as int, sh);
                assert(q == sh * mag as int) by (nonlinear_arith)
                    requires
                        q == mag as int * sh,
                ;
            }
        }
    }
}

/// Law: re-encoding an amplitude at width `w` and decoding it again loses at
/// most the quantization step `2^(32-w)`, and never rounds upward.
pub proof fn lemma_encode_then_decode(a: int, w: nat)
    requires
        1 <= w <= 32,
        -0x8000_0000 <= a < 0x8000_0000,
    ensures
        0 <= a - int_amplitude(encode_code(a, w), w) < pow2((32 - w) as nat),
{
    lemma2_to64();
    lemma_pow2_pos(w);
    lemma_pow2_pos((w - 1) as nat);
    lemma_pow2_pos((32 - w) as nat);
    lemma_pow2_adds(w, (32 - w) as nat);
    lemma_pow2_adds((w - 1) as nat, (32 - w) as nat);
    let p = pow2((32 - w) as nat) as int;
    let full = pow2(w) as int;
    let half = pow2((w - 1) as nat) as int;
    let n = a + 0x8000_0000;
    let q = n / p;
    let r = n % p;
    lemma_fundamental_div_mod(n, p);
    lemma_mod_bound(n, p);
    lemma_div_is_ordered(0, n, p);
    assert(full * p == 0x1_0000_0000);
    assert(q < full) by {
        lemma_multiply_divide_lt(n, p, full);
    }
    assert(half * p == 0x8000_0000);
    assert(half * 2 == full) by {
        lemma_pow2_unfold(w);
    }
    let code = encode_code(a, w);
    assert(code < full);
    lemma_small_mod(code as nat, full as nat);
    let s = sign_decode(code as nat, w);
    assert(s == q - half);
    assert(int_amplitude(code as nat, w) == s * p);
    assert(s * p == q * p - half * p) by (nonlinear_arith)
        requires
            s == q - half,
    ;
    assert(q * p + r == n);
}

/// Law: a `w`-bit code decodes to an amplitude that re-encodes to the very
/// same code, for each of the widths a WAV data chunk stores exactly.
pub proof fn lemma_decode_then_encode(raw: nat, w: nat)
    requires
        1 <= w <= 32,
        raw < pow2(w),
    ensures
        encode_code(int_amplitude(raw, w), w) == raw,
{
    lemma2_to64();
    lemma_pow2_pos(w);
    lemma_pow2_pos((w - 1) as nat);
    lemma_pow2_pos((32 - w) as nat);
    lemma_pow2_adds(w, (32 - w) as nat);
    lemma_pow2_adds((w - 1) as nat, (32 - w) as nat);
    let p = pow2((32 - w) as nat) as int;
    let full = pow2(w) as int;
    let half = pow2((w - 1) as nat) as int;
    lemma_small_mod(raw, full as nat);
    let s = sign_decode(raw, w);
    assert(half * 2 == full) by {
        lemma_pow2_unfold(w);
    }
    assert(-half <= s < half);
    let a = int_amplitude(raw, w);
    assert(a == s * p);
    assert(s * p + 0x8000_0000 == (s + half) * p) by (nonlinear_arith)
        requires
            half * p == 0x8000_0000,
    ;
    assert(-0x8000_0000 <= a < 0x8000_0000) by (nonlinear_arith)
        requires
            a == s * p,
            -half <= s < half,
            half * p == 0x8000_0000,
            p > 0,
    ;
    let q = (a + 0x8000_0000) / p;
    assert(q == s + half) by {
        lemma_div_multiples_vanish(s + half, p);
    }
    if w <= 8 {
        assert(s == raw - half);
        assert(encode_code(a, w) == q);
    } else if raw >= half {
        assert(s == raw - full);
        assert(q - half == s);
        assert(s < 0 ==> encode_code(a, w) == s + full);
        assert(s >= 0 ==> encode_code(a, w) == s);
        assert(s < 0);
    } else {
        assert(s == raw as int);
    }
}

} // verus!

