//! Packed-index codec: decodes a fixed-size array of fixed-width palette
//! indices out of a sequence of 64-bit words treated as one continuous
//! bitstream, least-significant-bit first, with indices allowed to straddle
//! word boundaries.

use vstd::prelude::*;
use vstd::arithmetic::power2::{pow2, lemma_pow2_strictly_increases, lemma_pow2_adds, lemma_pow2_pos, lemma2_to64};
use vstd::bits::{lemma_u64_shl_is_mul, lemma_u64_shr_is_div};

verus! {

/// Number of voxels held by one 16 x 16 x 16 section.
pub const SECTION_VOLUME: usize = 4096;

/// Number of binary digits of `n`: the smallest `k` with `n < pow2(k)`.
pub open spec fn nbits(n: nat) -> nat
    decreases n,
{
    if n == 0 {
        0
    } else {
        1 + nbits(n / 2)
    }
}

/// Bit width used for a palette of length `l`: at least 4, and wide enough
/// to write `l - 1` in binary.
pub open spec fn spec_bits_for(l: nat) -> nat
    recommends
        l >= 1,
{
    if nbits((l - 1) as nat) < 4 {
        4
    } else {
        nbits((l - 1) as nat)
    }
}

pub proof fn lemma_nbits_bound(n: nat)
    ensures
        n < pow2(nbits(n)),
        n > 0 ==> pow2((nbits(n) - 1) as nat) <= n,
    decreases n,
{
    if n == 0 {
        lemma2_to64();
    } else {
        lemma_nbits_bound(n / 2);
        assert(pow2(nbits(n)) == 2 * pow2(nbits(n / 2))) by {
            vstd::arithmetic::power2::lemma_pow2_unfold(nbits(n));
        }
        if n / 2 > 0 {
            assert(pow2((nbits(n) - 1) as nat) == pow2(nbits(n / 2)));
            assert(pow2((nbits(n / 2) - 1) as nat) <= n / 2);
            assert(pow2(nbits(n / 2)) == 2 * pow2((nbits(n / 2) - 1) as nat)) by {
                vstd::arithmetic::power2::lemma_pow2_unfold(nbits(n / 2));
            }
        } else {
            lemma2_to64();
        }
    }
}

pub proof fn lemma_nbits_le(n: nat, k: nat)
    requires
        n < pow2(k),
    ensures
        nbits(n) <= k,
    decreases n,
{
    if n > 0 {
        if k == 0 {
            lemma2_to64();
        } else {
            assert(pow2(k) == 2 * pow2((k - 1) as nat)) by {
                vstd::arithmetic::power2::lemma_pow2_unfold(k);
            }
            lemma_nbits_le(n / 2, (k - 1) as nat);
        }
    }
}

proof fn lemma_pow2_le(a: nat, b: nat)
    requires
        a <= b,
    ensures
        pow2(a) <= pow2(b),
{
    if a < b {
        lemma_pow2_strictly_increases(a, b);
    }
}

/// Computes the bit width for a palette of `palette_len` entries: the number
/// of bits of `palette_len - 1`, floored at 4.  The result is the least
/// width of at least 4 whose range covers every palette index.
pub fn bits_for_palette(palette_len: usize) -> (bits: usize)
    requires
        palette_len >= 1,
    ensures
        bits == spec_bits_for(palette_len as nat),
        4 <= bits <= 64,
        palette_len <= pow2(bits as nat),
        bits > 4 ==> pow2((bits - 1) as nat) < palette_len,
{
    proof {
        lemma2_to64();
        vstd::arithmetic::power2::lemma2_to64_rest();
        lemma_nbits_le((palette_len - 1) as nat, 64);
        lemma_nbits_bound((palette_len - 1) as nat);
    }
    let mut bits: usize = 0;
    let mut value: usize = palette_len - 1;
    while value > 0
        invariant
            nbits((palette_len - 1) as nat) == bits + nbits(value as nat),
            bits + nbits(value as nat) <= 64,
        decreases value,
    {
        bits = bits + 1;
        value = value / 2;
    }
    let r: usize = if bits < 4 {
        4
    } else {
        bits
    };
    proof {
        lemma_pow2_le(nbits((palette_len - 1) as nat), r as nat);
    }
    r
}

/// Word `k` of the packed stream, reinterpreted as unsigned bits.
pub open spec fn word_u64(words: Seq<i64>, k: int) -> u64 {
    words[k] as u64
}

/// A mask keeping the low `b` bits.
pub open spec fn mask64(b: int) -> u64 {
    if b >= 64 {
        0xffffffffffffffffu64
    } else {
        (pow2(b as nat) - 1) as u64
    }
}

/// The `b` bits of the stream starting at bit offset `o`, where bit `j` of
/// the stream is bit `j % 64` of word `j / 64`.  A group that straddles a
/// word boundary takes its low part from the first word's high bits and its
/// high part from the next word's low bits.
pub open spec fn extract_bits(words: Seq<i64>, o: int, b: int) -> u64
    recommends
        0 <= o,
        1 <= b <= 64,
        o + b <= 64 * words.len(),
{
    let w = o / 64;
    let s = (o % 64) as u64;
    let low = word_u64(words, w) >> s;
    if o % 64 + b <= 64 {
        low & mask64(b)
    } else {
        (low + ((word_u64(words, w + 1) & mask64(o % 64 + b - 64)) << ((64 - s) as u64))) as u64
    }
}

/// The palette index decoded for iteration position `i`: the `i`-th group of
/// `b` bits in stream order for a palette of length `l`, masked to `b` bits;
/// 0 when the palette is degenerate (`l <= 1`) or the stream is exhausted.
pub open spec fn spec_decoded(words: Seq<i64>, l: nat, i: int) -> usize {
    if l <= 1 {
        0
    } else {
        let b = spec_bits_for(l) as int;
        if (i + 1) * b <= 64 * words.len() {
            extract_bits(words, i * b, b) as usize
        } else {
            0
        }
    }
}

/// Decodes exactly 4096 palette indices out of `data`.  The words form one
/// continuous bitstream read least-significant-bit first; indices may
/// straddle word boundaries.  A truncated stream zero-fills every index it
/// can no longer supply, and a palette of at most one entry stores no bits
/// at all, so every index is 0.
pub fn decode_block_states(data: &Vec<i64>, palette_len: usize) -> (indices: Vec<usize>)
    ensures
        indices@.len() == SECTION_VOLUME,
        forall|i: int|
            0 <= i < SECTION_VOLUME ==> indices@[i] == spec_decoded(data@, palette_len as nat, i),
        palette_len <= 1 ==> forall|i: int| 0 <= i < SECTION_VOLUME ==> indices@[i] == 0,
{
    if palette_len <= 1 {
        return zero_indices();
    }
    let bits = bits_for_palette(palette_len);
    let mask: u64 = if bits == 64 {
        0xffffffffffffffffu64
    } else {
        proof {
            lemma_pow2_strictly_increases(bits as nat, 64);
            lemma2_to64();
            vstd::arithmetic::power2::lemma2_to64_rest();
            lemma_u64_shl_is_mul(1u64, bits as u64);
        }
        (1u64 << (bits as u64)) - 1
    };
    assert(mask == mask64(bits as int));
    let len = data.len();
    let mut indices: Vec<usize> = Vec::new();
    let mut i: usize = 0;
    while i < SECTION_VOLUME
        invariant
            i <= SECTION_VOLUME,
            indices@.len() == i,
            4 <= bits <= 64,
            bits == spec_bits_for(palette_len as nat),
            palette_len > 1,
            mask == mask64(bits as int),
            len == data@.len(),
            forall|j: int| 0 <= j < i ==> indices@[j] == spec_decoded(data@, palette_len as nat, j),
        decreases SECTION_VOLUME - i,
    {
        proof {
            assert(i * bits <= 4095 * 64 && (i as int + 1) * (bits as int) == i * bits + bits)
                by (nonlinear_arith)
                requires
                    0 <= i < 4096,
                    4 <= bits <= 64,
            ;
        }
        let o = i * bits;
        let value: usize = if (o + bits) as u128 <= (len as u128) * 64 {
            proof {
                vstd::arithmetic::div_mod::lemma_fundamental_div_mod(o as int, 64);
                vstd::arithmetic::div_mod::lemma_multiply_divide_lt(o as int, len as int, 64);
            }
            let w = o / 64;
            let s = o % 64;
            let low = (data[w] as u64) >> (s as u64);
            let v: u64 = if s + bits <= 64 {
                low & mask
            } else {
                proof {
                    lemma2_to64();
                    vstd::arithmetic::power2::lemma2_to64_rest();
                    lemma_u64_shr_is_div(data@[w as int] as u64, s as u64);
                    lemma_pow2_adds(s as nat, (64 - s) as nat);
                    vstd::arithmetic::div_mod::lemma_multiply_divide_lt(
                        (data@[w as int] as u64) as int,
                        pow2(s as nat) as int,
                        pow2((64 - s) as nat) as int,
                    );
                }
                combine_straddle(low, data[w + 1] as u64, s, bits)
            };
            assert(v == extract_bits(data@, o as int, bits as int));
            v as usize
        } else {
            0
        };
        indices.push(value);
        i = i + 1;
    }
    indices
}


/// Joins a group's low part, already shifted down from its first word, with
/// the next word's contribution.  The two parts occupy disjoint bit ranges,
/// so the sum cannot carry.
fn combine_straddle(low: u64, hiword: u64, s: usize, bits: usize) -> (v: u64)
    requires
        0 < s < 64,
        bits <= 64,
        s + bits > 64,
        low < pow2((64 - s) as nat),
    ensures
        v as int == low + ((hiword & mask64(s as int + bits - 64)) << ((64 - s) as u64)),
{
    let hi_width = s + bits - 64;
    proof {
        lemma2_to64();
        vstd::arithmetic::power2::lemma2_to64_rest();
        lemma_pow2_strictly_increases(hi_width as nat, 64);
        lemma_u64_shl_is_mul(1u64, hi_width as u64);
    }
    let hi_mask: u64 = (1u64 << (hi_width as u64)) - 1;
    assert(hi_mask == mask64(hi_width as int));
    let masked = hiword & hi_mask;
    proof {
        assert(masked <= hi_mask) by (bit_vector)
            requires
                masked == hiword & hi_mask,
        ;
        let t = (64 - s) as nat;
        let hw = hi_width as nat;
        lemma_pow2_adds(hw, t);
        lemma_pow2_pos(t);
        lemma_pow2_pos(hw);
        assert(masked * pow2(t) <= (pow2(hw) - 1) * pow2(t) && (pow2(hw) - 1) * pow2(t) == pow2(
            hw,
        ) * pow2(t) - pow2(t)) by (nonlinear_arith)
            requires
                masked <= pow2(hw) - 1,
                pow2(t) > 0,
                pow2(hw) > 0,
        ;
        lemma_pow2_le(bits as nat, 64);
        assert(masked * pow2(t) <= pow2(64) - pow2(t));
        lemma_u64_shl_is_mul(masked, (64 - s) as u64);
    }
    let shifted = masked << ((64 - s) as u64);
    assert(low + shifted < pow2(64));
    low + shifted
}

/// A fully zeroed index array.
fn zero_indices() -> (indices: Vec<usize>)
    ensures
        indices@.len() == SECTION_VOLUME,
        forall|i: int| 0 <= i < SECTION_VOLUME ==> indices@[i] == 0,
{
    let mut indices: Vec<usize> = Vec::new();
    let mut i: usize = 0;
    while i < SECTION_VOLUME
        invariant
            i <= SECTION_VOLUME,
            indices@.len() == i,
            forall|j: int| 0 <= j < i ==> indices@[j] == 0,
        decreases SECTION_VOLUME - i,
    {
        indices.push(0);
        i = i + 1;
    }
    indices
}

/// The combined bit content of the first `k` values of `ixs`, written at
/// width `b`, least-significant-bit first, as one natural number: value `i`
/// occupies bits `[i*b, (i+1)*b)`.
pub open spec fn stream_num(ixs: Seq<usize>, b: nat, k: int) -> nat
    decreases k,
{
    if k <= 0 {
        0
    } else {
        stream_num(ixs, b, k - 1) + (ixs[k - 1] as nat) * pow2(((k - 1) * b) as nat)
    }
}

/// Word `k` of a bit stream with combined value `n`: bits `[64k, 64k + 64)`.
pub open spec fn word_of_num(n: nat, k: int) -> u64 {
    ((n / pow2((64 * k) as nat)) % pow2(64)) as u64
}

/// The `nwords` words that pack `ixs` at width `b`.
pub open spec fn spec_encoded(ixs: Seq<usize>, b: nat, nwords: int) -> Seq<i64> {
    Seq::new(nwords as nat, |k: int| word_of_num(stream_num(ixs, b, ixs.len() as int), k) as i64)
}

proof fn lemma_stream_bound(ixs: Seq<usize>, b: nat, k: int)
    requires
        1 <= b,
        forall|j: int| 0 <= j < k ==> (ixs[j] as nat) < pow2(b),
        k <= ixs.len(),
    ensures
        stream_num(ixs, b, k) < pow2((k * b) as nat),
    decreases k,
{
    if k <= 0 {
        lemma_pow2_pos((k * b) as nat);
    } else {
        lemma_stream_bound(ixs, b, k - 1);
        let p_prev = pow2(((k - 1) * b) as nat);
        lemma_pow2_pos(((k - 1) * b) as nat);
        lemma_pow2_adds(((k - 1) * b) as nat, b);
        assert((k - 1) * (b as int) + (b as int) == k * (b as int) && (k - 1) * (b as int) >= 0
            && k * (b as int) >= 0) by (nonlinear_arith)
            requires
                k >= 1,
                b >= 1,
        ;
        assert(((k - 1) * b) as nat + b == (k * b) as nat);
        let x = ixs[k - 1] as nat;
        assert(stream_num(ixs, b, k - 1) + x * p_prev < pow2(b) * p_prev) by (nonlinear_arith)
            requires
                stream_num(ixs, b, k - 1) < p_prev,
                x < pow2(b),
                p_prev > 0,
        ;
        assert(stream_num(ixs, b, k) == stream_num(ixs, b, k - 1) + x * p_prev);
        assert(pow2(b) * p_prev == pow2(((k - 1) * b) as nat + b)) by {
            lemma_pow2_adds(((k - 1) * b) as nat, b);
            assert(pow2(((k - 1) * b) as nat + b) == p_prev * pow2(b));
            assert(p_prev * pow2(b) == pow2(b) * p_prev) by (nonlinear_arith);
        }
        assert(pow2(((k - 1) * b) as nat + b) == pow2((k * b) as nat));
    }
}

proof fn lemma_stream_digit(ixs: Seq<usize>, b: nat, k: int, i: int)
    requires
        1 <= b,
        forall|j: int| 0 <= j < k ==> (ixs[j] as nat) < pow2(b),
        0 <= i < k,
        k <= ixs.len(),
    ensures
        (stream_num(ixs, b, k) / pow2((i * b) as nat)) % pow2(b) == ixs[i] as nat,
    decreases k,
{
    let pib = pow2((i * b) as nat);
    let pb = pow2(b);
    lemma_pow2_pos((i * b) as nat);
    lemma_pow2_pos(b);
    if k == i + 1 {
        lemma_stream_bound(ixs, b, k - 1);
        let np = stream_num(ixs, b, k - 1);
        let x = ixs[i] as nat;
        assert(np < pib);
        vstd::arithmetic::div_mod::lemma_div_multiples_vanish_fancy(
            x as int,
            np as int,
            pib as int,
        );
        assert((pib as int) * (x as int) == (x as int) * (pib as int)) by (nonlinear_arith);
        vstd::arithmetic::div_mod::lemma_small_mod(x, pb);
    } else {
        lemma_stream_digit(ixs, b, k - 1, i);
        let np = stream_num(ixs, b, k - 1);
        let y = ixs[k - 1] as nat;
        let gap = ((k - 1 - i) * b) as nat;
        assert((k - 1 - i) * (b as int) >= b as int && i * (b as int) + (k - 1 - i) * (b as int)
            == (k - 1) * (b as int)) by (nonlinear_arith)
            requires
                0 <= i < k - 1,
                b >= 1,
        ;
        assert(gap >= b);
        assert((i * b) as nat + gap == ((k - 1) * b) as nat);
        lemma_pow2_adds((i * b) as nat, gap);
        let m = y * pow2(gap);
        assert(y * pow2(((k - 1) * b) as nat) == m * pib) by (nonlinear_arith)
            requires
                pow2(((k - 1) * b) as nat) == pow2(gap) * pib,
                m == y * pow2(gap),
        ;
        vstd::arithmetic::div_mod::lemma_hoist_over_denominator(np as int, m as int, pib);
        assert(stream_num(ixs, b, k) / pib == np / pib + m);
        let gap2 = (gap - b) as nat;
        lemma_pow2_adds(b, gap2);
        assert(gap == b + gap2);
        let m2 = y * pow2(gap2);
        assert(m == (pb * m2)) by (nonlinear_arith)
            requires
                pow2(gap) == pb * pow2(gap2),
                m == y * pow2(gap),
                m2 == y * pow2(gap2),
        ;
        vstd::arithmetic::div_mod::lemma_mod_multiples_vanish(
            m2 as int,
            (np / pib) as int,
            pb as int,
        );
    }
}

proof fn lemma_pow2_mod_mod(x: nat, a: nat, c: nat)
    requires
        a <= c,
    ensures
        (x % pow2(c)) % pow2(a) == x % pow2(a),
{
    lemma_pow2_pos(a);
    lemma_pow2_pos(c);
    if a == c {
        vstd::arithmetic::div_mod::lemma_mod_division_less_than_divisor(x as int, pow2(a) as int);
        vstd::arithmetic::div_mod::lemma_small_mod(x % pow2(a), pow2(a));
    } else {
        let d = (c - a) as nat;
        lemma_pow2_adds(a, d);
        lemma_pow2_pos(d);
        vstd::arithmetic::div_mod::lemma_mod_breakdown(x as int, pow2(a) as int, pow2(d) as int);
        assert(pow2(a) * pow2(d) == pow2(c));
        assert(x % pow2(c) == pow2(a) * ((x / pow2(a)) % pow2(d)) + x % pow2(a));
        vstd::arithmetic::div_mod::lemma_mod_multiples_vanish(
            ((x / pow2(a)) % pow2(d)) as int,
            (x % pow2(a)) as int,
            pow2(a) as int,
        );
        assert((x % pow2(c)) % pow2(a) == (x % pow2(a)) % pow2(a));
        vstd::arithmetic::div_mod::lemma_mod_division_less_than_divisor(x as int, pow2(a) as int);
        vstd::arithmetic::div_mod::lemma_small_mod(x % pow2(a), pow2(a));
    }
}

proof fn lemma_extract_from_num(words: Seq<i64>, n: nat, o: int, b: int)
    requires
        1 <= b <= 64,
        0 <= o,
        o + b <= 64 * words.len(),
        forall|k: int| 0 <= k < words.len() ==> word_u64(words, k) == word_of_num(n, k),
    ensures
        extract_bits(words, o, b) == (n / pow2(o as nat)) % pow2(b as nat),
{
    lemma2_to64();
    vstd::arithmetic::power2::lemma2_to64_rest();
    vstd::arithmetic::div_mod::lemma_fundamental_div_mod(o, 64);
    let w = o / 64;
    let s = o % 64;
    let t = 64 - s;
    vstd::arithmetic::div_mod::lemma_multiply_divide_lt(o, 64, words.len() as int);
    assert(0 <= w < words.len());
    let x = n / pow2((64 * w) as nat);
    let w0 = word_u64(words, w);
    assert(w0 == word_of_num(n, w));
    vstd::arithmetic::div_mod::lemma_mod_division_less_than_divisor(x as int, pow2(64) as int);
    assert(w0 as nat == x % pow2(64));
    lemma_u64_shr_is_div(w0, s as u64);
    let low = w0 >> (s as u64);
    lemma_pow2_pos(s as nat);
    lemma_pow2_pos(t as nat);
    lemma_pow2_pos((64 * w) as nat);
    lemma_pow2_adds(s as nat, t as nat);
    vstd::arithmetic::div_mod::lemma_breakdown(x as int, pow2(s as nat) as int, pow2(t as nat) as int);
    vstd::arithmetic::div_mod::lemma_mod_division_less_than_divisor(x as int, pow2(s as nat) as int);
    vstd::arithmetic::div_mod::lemma_div_multiples_vanish_fancy(
        ((x / pow2(s as nat)) % pow2(t as nat)) as int,
        (x % pow2(s as nat)) as int,
        pow2(s as nat) as int,
    );
    assert((x % pow2(64)) / pow2(s as nat) == (x / pow2(s as nat)) % pow2(t as nat));
    lemma_pow2_adds((64 * w) as nat, s as nat);
    vstd::arithmetic::div_mod::lemma_div_denominator(
        n as int,
        pow2((64 * w) as nat) as int,
        pow2(s as nat) as int,
    );
    assert((64 * w) as nat + s as nat == o as nat);
    let y = n / pow2(o as nat);
    assert(x / pow2(s as nat) == y);
    assert(low as nat == y % pow2(t as nat));
    if s + b <= 64 {
        if b < 64 {
            vstd::bits::lemma_u64_low_bits_mask_is_mod(low, b as nat);
            lemma_pow2_pos(b as nat);
            assert(mask64(b) == vstd::bits::low_bits_mask(b as nat) as u64);
            assert(low & mask64(b) == low % (pow2(b as nat) as u64));
            assert((low as nat) % pow2(b as nat) == (y % pow2(t as nat)) % pow2(b as nat));
            lemma_pow2_mod_mod(y, b as nat, t as nat);
        } else {
            assert(s == 0 && b == 64 && t == 64);
            assert(low & 0xffffffffffffffffu64 == low) by (bit_vector);
            assert(extract_bits(words, o, b) == low);
        }
    } else {
        let hw = s + b - 64;
        assert(1 <= hw <= 63);
        assert(w + 1 < words.len()) by {
            assert(64 * (w + 1) < o + b);
        }
        let w1 = word_u64(words, w + 1);
        assert(w1 == word_of_num(n, w + 1));
        let x1 = n / pow2((64 * (w + 1)) as nat);
        vstd::arithmetic::div_mod::lemma_mod_division_less_than_divisor(
            x1 as int,
            pow2(64) as int,
        );
        assert(w1 as nat == x1 % pow2(64));
        vstd::bits::lemma_u64_low_bits_mask_is_mod(w1, hw as nat);
        lemma_pow2_pos(hw as nat);
        assert(mask64(hw) == vstd::bits::low_bits_mask(hw as nat) as u64);
        let masked = w1 & mask64(hw);
        assert(masked as nat == (x1 % pow2(64)) % pow2(hw as nat));
        lemma_pow2_mod_mod(x1, hw as nat, 64);
        assert(masked as nat == x1 % pow2(hw as nat));
        lemma_pow2_adds(o as nat, t as nat);
        vstd::arithmetic::div_mod::lemma_div_denominator(
            n as int,
            pow2(o as nat) as int,
            pow2(t as nat) as int,
        );
        assert(o as nat + t as nat == (64 * (w + 1)) as nat);
        assert(x1 == y / pow2(t as nat));
        assert(masked as nat == (y / pow2(t as nat)) % pow2(hw as nat));
        vstd::arithmetic::div_mod::lemma_mod_division_less_than_divisor(
            (y / pow2(t as nat)) as int,
            pow2(hw as nat) as int,
        );
        lemma_pow2_adds(hw as nat, t as nat);
        lemma_pow2_le(b as nat, 64);
        assert((masked as nat) * pow2(t as nat) <= (pow2(hw as nat) - 1) * pow2(t as nat)
            && (pow2(hw as nat) - 1) * pow2(t as nat) == pow2(hw as nat) * pow2(t as nat) - pow2(
            t as nat,
        )) by (nonlinear_arith)
            requires
                (masked as nat) <= pow2(hw as nat) - 1,
                pow2(t as nat) > 0,
                pow2(hw as nat) > 0,
        ;
        lemma_u64_shl_is_mul(masked, t as u64);
        assert((masked << (t as u64)) as nat == (masked as nat) * pow2(t as nat));
        lemma_pow2_adds(t as nat, hw as nat);
        vstd::arithmetic::div_mod::lemma_mod_breakdown(
            y as int,
            pow2(t as nat) as int,
            pow2(hw as nat) as int,
        );
        assert(y % pow2(b as nat) == pow2(t as nat) * ((y / pow2(t as nat)) % pow2(hw as nat)) + y
            % pow2(t as nat));
        assert(pow2(t as nat) * ((y / pow2(t as nat)) % pow2(hw as nat)) == (masked as nat) * pow2(
            t as nat,
        )) by (nonlinear_arith)
            requires
                masked as nat == (y / pow2(t as nat)) % pow2(hw as nat),
        ;
        assert((low as nat) + (masked << (t as u64)) as nat == y % pow2(b as nat));
        vstd::arithmetic::div_mod::lemma_mod_division_less_than_divisor(
            y as int,
            pow2(b as nat) as int,
        );
        lemma_pow2_pos(b as nat);
        assert(y % pow2(b as nat) < pow2(64));
        assert(extract_bits(words, o, b) as nat == y % pow2(b as nat));
    }
}

/// Round trip: packing any sequence of indices, each within the chosen
/// palette's bit width, into enough 64-bit words and decoding them with the
/// codec reproduces every index exactly.
pub proof fn lemma_round_trip(ixs: Seq<usize>, palette_len: usize, nwords: int, i: int)
    requires
        palette_len > 1,
        forall|j: int|
            0 <= j < ixs.len() ==> (ixs[j] as nat) < pow2(spec_bits_for(palette_len as nat)),
        0 <= i < ixs.len(),
        ixs.len() * spec_bits_for(palette_len as nat) <= 64 * nwords,
    ensures
        spec_decoded(
            spec_encoded(ixs, spec_bits_for(palette_len as nat), nwords),
            palette_len as nat,
            i,
        ) == ixs[i],
{
    let b = spec_bits_for(palette_len as nat);
    lemma2_to64();
    vstd::arithmetic::power2::lemma2_to64_rest();
    lemma_nbits_le((palette_len - 1) as nat, 64);
    assert(4 <= b <= 64);
    let n = stream_num(ixs, b, ixs.len() as int);
    let words = spec_encoded(ixs, b, nwords);
    assert(words.len() == nwords);
    assert forall|k: int| 0 <= k < words.len() implies word_u64(words, k) == word_of_num(n, k) by {
        let wk = word_of_num(n, k);
        assert(words[k] == wk as i64);
        assert((wk as i64) as u64 == wk) by (bit_vector);
    }
    assert((i + 1) * b <= ixs.len() * b) by (nonlinear_arith)
        requires
            0 <= i < ixs.len(),
            b >= 1,
    ;
    assert(i * b >= 0) by (nonlinear_arith)
        requires
            i >= 0,
            b >= 0,
    ;
    assert((i + 1) * b == i * b + b) by (nonlinear_arith);
    lemma_extract_from_num(words, n, (i * b) as int, b as int);
    lemma_stream_digit(ixs, b, ixs.len() as int, i);
    assert(extract_bits(words, (i * b) as int, b as int) as nat == ixs[i] as nat);
}

} // verus!
