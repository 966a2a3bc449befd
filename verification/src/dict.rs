//! The dictionary-size codec: a pure bidirectional mapping between a 32-bit
//! dictionary size and the single byte that encodes it in a member header.
//!
//! The low five bits of the code hold an exponent `e`, the high three bits a
//! fractional subtractor `i`; the code stands for `2^e - i * 2^e / 16`.

use vstd::prelude::*;

use crate::MIN_DICT_SIZE;
use crate::valid_dict_size;

verus! {

/// The size a code byte stands for: `2^e` minus `i` sixteenths of `2^e`.
pub open spec fn sub_size(e: u32, i: u32) -> int {
    (1u32 << e) - i * ((1u32 << e) / 16)
}

/// The sizes that a header byte can express exactly. The codec's decode
/// direction maps onto exactly these values.
pub open spec fn representable_dict_size(ds: u32) -> bool {
    exists|e: u32, i: u32| 12 <= e <= 29 && i <= 7 && ds == sub_size(e, i) && valid_dict_size(ds)
}

/// What a header code byte decodes to, before any range check.
pub open spec fn spec_decode_dict_size(code: u8) -> u32 {
    let base = 1u32 << ((code & 0x1f) as u32);
    if base > MIN_DICT_SIZE {
        (base - ((base / 16) * (((code >> 5) & 0x07) as u32))) as u32
    } else {
        base
    }
}

/// The least exponent `r` with `e <= r` and `2^r >= ds`, capped at 31.
pub open spec fn min_exponent_from(ds: u32, e: u32) -> u32
    decreases 31 - e,
{
    if e >= 31 {
        31
    } else if (1u32 << e) >= ds {
        e
    } else {
        min_exponent_from(ds, (e + 1) as u32)
    }
}

/// The exponent the encoder picks: the least `e >= 12` with `2^e >= ds`.
pub open spec fn dict_exponent(ds: u32) -> u32 {
    min_exponent_from(ds, 12)
}

/// The largest `r <= i` such that `base - r * base/16 >= ds`, or 0.
pub open spec fn frac_steps(ds: u32, base: u32, i: u32) -> u32
    decreases i,
{
    if i == 0 {
        0
    } else if base - i * (base / 16) >= ds {
        i
    } else {
        frac_steps(ds, base, (i - 1) as u32)
    }
}

/// The fractional subtractor the encoder picks.
pub open spec fn dict_frac(ds: u32) -> u32 {
    if ds > MIN_DICT_SIZE {
        frac_steps(ds, 1u32 << dict_exponent(ds), 7)
    } else {
        0
    }
}

/// The byte the encoder emits for a dictionary size: exponent in the low
/// five bits, fractional subtractor in the high three.
pub open spec fn spec_encode_dict_size(ds: u32) -> u8 {
    (dict_exponent(ds) + 32 * dict_frac(ds)) as u8
}

/// Exponent search, mirroring [`min_exponent_from`].
pub fn min_exponent_from_exec(ds: u32, e: u32) -> (r: u32)
    requires
        e <= 31,
    ensures
        r == min_exponent_from(ds, e),
        e <= r <= 31,
    decreases 31 - e,
{
    if e >= 31 {
        31
    } else if (1u32 << e) >= ds {
        e
    } else {
        min_exponent_from_exec(ds, e + 1)
    }
}

/// Fractional-subtractor search, mirroring [`frac_steps`].
pub fn frac_steps_exec(ds: u32, base: u32, i: u32) -> (r: u32)
    requires
        i <= 7,
        base >= 16,
    ensures
        r == frac_steps(ds, base, i),
        r <= i,
    decreases i,
{
    if i == 0 {
        0
    } else {
        let step = base / 16;
        assert(i * step <= 16 * step && 16 * step <= base) by (nonlinear_arith)
            requires
                base >= 16,
                i <= 7,
                step == base / 16,
        ;
        if base - i * step >= ds {
            i
        } else {
            frac_steps_exec(ds, base, i - 1)
        }
    }
}

/// `min_exponent_from` returns exactly the least fitting exponent.
proof fn lemma_min_exponent(ds: u32, lo: u32, e: u32)
    requires
        lo <= e <= 31,
        (1u32 << e) >= ds,
        forall|j: u32| lo <= j < e ==> (1u32 << j) < ds,
    ensures
        min_exponent_from(ds, lo) == e,
    decreases e - lo,
{
    if lo == e {
    } else {
        assert((1u32 << lo) < ds);
        lemma_min_exponent(ds, (lo + 1) as u32, e);
    }
}

/// `frac_steps` returns exactly the largest fitting subtractor.
proof fn lemma_frac_steps(ds: u32, base: u32, i: u32, j: u32)
    requires
        i <= j <= 7,
        i > 0 ==> base - i * (base / 16) >= ds,
        forall|k: u32| i < k <= j ==> base - #[trigger] (k * (base / 16)) < ds,
        i == 0 ==> forall|k: u32| 0 < k <= j ==> base - #[trigger] (k * (base / 16)) < ds,
    ensures
        frac_steps(ds, base, j) == i,
    decreases j,
{
    if j == 0 {
    } else if j == i {
    } else {
        assert(base - j * (base / 16) < ds);
        lemma_frac_steps(ds, base, i, (j - 1) as u32);
    }
}

/// Law: on every representable dictionary size the codec round-trips, so
/// decoding what the encoder wrote gives back exactly the size that was
/// encoded.
pub proof fn lemma_dict_size_round_trip(ds: u32)
    requires
        representable_dict_size(ds),
    ensures
        spec_decode_dict_size(spec_encode_dict_size(ds)) == ds,
        valid_dict_size(spec_decode_dict_size(spec_encode_dict_size(ds))),
{
    let (e, i): (u32, u32) = choose|e: u32, i: u32|
        12 <= e <= 29 && i <= 7 && ds == sub_size(e, i) && valid_dict_size(ds);
    let base = 1u32 << e;
    assert(forall|a: u32, b: u32|
        a <= b <= 31 ==> #[trigger] (1u32 << a) <= #[trigger] (1u32 << b)) by (bit_vector);
    assert(forall|a: u32| 12 <= a <= 29 ==> #[trigger] (1u32 << a) >= 4096
        && (1u32 << a) / 16 == (1u32 << (a - 4) as u32)
        && (1u32 << a) == 2 * (1u32 << (a - 1) as u32)
        && (1u32 << (a - 4) as u32) * 16 == (1u32 << a)) by (bit_vector);
    assert(base >= 4096 && base / 16 >= 256);
    let q = base / 16;
    // the encoded size sits in the upper half of its power-of-two interval
    assert(i * q <= 7 * q) by (nonlinear_arith)
        requires
            i <= 7,
            q >= 0,
    ;
    assert(16 * q == base);
    assert(ds > (1u32 << (e - 1) as u32)) by {
        assert(2 * (8 * q) == 16 * q);
        assert(ds >= base - 7 * q == 9 * q);
    }
    assert(ds <= base);
    // the exponent search lands on the witness exponent
    assert(forall|j: u32| 12 <= j < e ==> (1u32 << j) < ds) by {
        assert(forall|j: u32| 12 <= j < e ==> #[trigger] (1u32 << j) <= (1u32 << (e - 1) as u32));
    }
    lemma_min_exponent(ds, 12, e);
    assert(dict_exponent(ds) == e);
    // the fractional search lands on the witness subtractor
    if ds > MIN_DICT_SIZE {
        assert(forall|k: u32| i < k <= 7 ==> base - #[trigger] (k * q) < ds) by {
            assert(forall|k: u32| i < k <= 7 ==> #[trigger] (k * q) >= i * q + q)
                by (nonlinear_arith);
        }
        lemma_frac_steps(ds, base, i, 7);
        assert(dict_frac(ds) == i);
    } else {
        // ds == 4096 forces the smallest exponent, whose subtractors all
        // fall below the minimum, so the witness subtractor is zero
        assert(ds == 4096);
        assert(e == 12) by {
            assert(e > 12 ==> ds > (1u32 << (e - 1) as u32) >= 4096);
        }
        assert(1u32 << 12u32 == 4096) by (bit_vector);
        assert(base == 4096 && q == 256);
        assert(i == 0) by {
            assert(i > 0 ==> i * q >= q) by (nonlinear_arith);
        }
        assert(dict_frac(ds) == 0);
    }
    let code = spec_encode_dict_size(ds);
    assert(code == (e + 32 * dict_frac(ds)) as u8);
    let f = dict_frac(ds);
    assert((((e + 32 * f) as u8) & 0x1f) as u32 == e && ((((e + 32 * f) as u8) >> 5) & 0x07) as u32
        == f) by (bit_vector)
        requires
            e <= 31,
            f <= 7,
    ;
    assert(1u32 << ((code & 0x1f) as u32) == base);
    if ds > MIN_DICT_SIZE {
        assert(base > MIN_DICT_SIZE);
        assert(spec_decode_dict_size(code) == (base - q * f) as u32);
        assert(q * f == i * q);
    } else {
        assert(base == 4096 && !(base > MIN_DICT_SIZE));
        assert(spec_decode_dict_size(code) == base);
    }
}

} // verus!
