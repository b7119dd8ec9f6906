//! The bookkeeping of the spectrum analyzer: the sample frame, the order in
//! which a radix-2 transform visits it, and the bars of the display.

use crate::bits;
use vstd::arithmetic::div_mod::*;
use vstd::arithmetic::mul::*;
use vstd::arithmetic::power2::*;
use vstd::prelude::*;

verus! {

/// Samples in one frame.
pub const FFT_SIZE: usize = 2048;

/// Passes of the transform: 2 to this power is `FFT_SIZE`.
pub const FFT_STAGES: usize = 11;

/// Pairs that one pass combines.
pub const FFT_PAIRS: usize = 1024;

/// A peak that decays below this (0.000001) counts as zero.
pub const PEAK_FLOOR: u32 = 0x3586_37bd;

/// No bar is shown while the peak is not above this (0.000000001).
pub const SHOW_FLOOR: u32 = 0x3089_705f;

/// The lowest eleven bits of `i` in reverse order.
pub open spec fn reversed(i: u32) -> u32 {
    ((i & 1) << 10) | (((i >> 1) & 1) << 9) | (((i >> 2) & 1) << 8) | (((i >> 3) & 1) << 7) | (((i
        >> 4) & 1) << 6) | (((i >> 5) & 1) << 5) | (((i >> 6) & 1) << 4) | (((i >> 7) & 1) << 3) | (
    ((i >> 8) & 1) << 2) | (((i >> 9) & 1) << 1) | ((i >> 10) & 1)
}

/// Reversal takes every bit to its mirror place and stays within the frame;
/// reversing twice gives the index back.
pub proof fn law_reversal_mirrors_bits(i: u32, k: u32)
    requires
        i < FFT_SIZE,
        k < FFT_STAGES,
    ensures
        (reversed(i) >> k) & 1 == (i >> ((10 - k) as u32)) & 1,
        reversed(i) < FFT_SIZE,
        reversed(reversed(i)) == i,
{
    assert((reversed(i) >> k) & 1 == (i >> ((10 - k) as u32)) & 1) by (bit_vector)
        requires
            i < 2048,
            k < 11,
    ;
    lemma_reversal_inverts(i);
}

proof fn lemma_reversal_inverts(i: u32)
    requires
        i < FFT_SIZE,
    ensures
        reversed(i) < FFT_SIZE,
        reversed(reversed(i)) == i,
{
    assert(reversed(i) < 2048) by (bit_vector)
        requires
            i < 2048,
    ;
    assert(reversed(reversed(i)) == i) by (bit_vector)
        requires
            i < 2048,
    ;
}

/// A frame read in bit-reversed order.
pub open spec fn permuted(v: Seq<u32>) -> Seq<u32> {
    Seq::new(v.len(), |i: int| v[reversed(i as u32) as int])
}

/// Reading a frame twice in bit-reversed order gives the frame back.
pub proof fn law_permutation_undoes_itself(v: Seq<u32>)
    requires
        v.len() == FFT_SIZE,
    ensures
        permuted(permuted(v)) == v,
{
    assert forall|i: int| 0 <= i < FFT_SIZE implies #[trigger] permuted(permuted(v))[i] == v[i] by {
        lemma_reversal_inverts(i as u32);
    }
    assert(permuted(permuted(v)) =~= v);
}

/// The index at the mirror place of `i`.
fn reverse_bits(i: u32) -> (r: u32)
    ensures
        r == reversed(i),
{
    ((i & 1) << 10) | (((i >> 1) & 1) << 9) | (((i >> 2) & 1) << 8) | (((i >> 3) & 1) << 7) | (((i
        >> 4) & 1) << 6) | (((i >> 5) & 1) << 5) | (((i >> 6) & 1) << 4) | (((i >> 7) & 1) << 3) | (
    ((i >> 8) & 1) << 2) | (((i >> 9) & 1) << 1) | ((i >> 10) & 1)
}

/// The bit-reversed index of every place of a frame.
pub fn reversal_table() -> (r: Vec<usize>)
    ensures
        r@.len() == FFT_SIZE,
        forall|i: int| 0 <= i < FFT_SIZE ==> #[trigger] r@[i] == reversed(i as u32),
{
    let mut table: Vec<usize> = Vec::new();
    let mut i: usize = 0;
    while i < FFT_SIZE
        invariant
            i <= FFT_SIZE,
            table@.len() == i,
            forall|k: int| 0 <= k < i ==> #[trigger] table@[k] == reversed(k as u32),
        decreases FFT_SIZE - i,
    {
        let r: u32 = reverse_bits(i as u32);
        table.push(r as usize);
        i = i + 1;
    }
    table
}

/// Brings both parts of a frame into bit-reversed order.
pub fn permute(re: &mut Vec<u32>, im: &mut Vec<u32>, table: &Vec<usize>)
    requires
        old(re)@.len() == FFT_SIZE,
        old(im)@.len() == FFT_SIZE,
        table@.len() == FFT_SIZE,
        forall|i: int| 0 <= i < FFT_SIZE ==> #[trigger] table@[i] == reversed(i as u32),
    ensures
        final(re)@ == permuted(old(re)@),
        final(im)@ == permuted(old(im)@),
{
    let mut i: usize = 0;
    while i < FFT_SIZE
        invariant
            i <= FFT_SIZE,
            re@.len() == FFT_SIZE,
            im@.len() == FFT_SIZE,
            old(re)@.len() == FFT_SIZE,
            old(im)@.len() == FFT_SIZE,
            table@.len() == FFT_SIZE,
            forall|k: int| 0 <= k < FFT_SIZE ==> #[trigger] table@[k] == reversed(k as u32),
            forall|k: int|
                0 <= k < FFT_SIZE ==> #[trigger] re@[k] == partly_permuted(old(re)@, i as int, k),
            forall|k: int|
                0 <= k < FFT_SIZE ==> #[trigger] im@[k] == partly_permuted(old(im)@, i as int, k),
        decreases FFT_SIZE - i,
    {
        let j: usize = table[i];
        proof {
            lemma_reversal_inverts(i as u32);
            assert forall|k: int| 0 <= k < FFT_SIZE implies {
                &&& #[trigger] reversed(k as u32) < FFT_SIZE
                &&& reversed(reversed(k as u32)) == k
            } by {
                lemma_reversal_inverts(k as u32);
            }
        }
        if i < j {
            let a: u32 = re[i];
            let b: u32 = re[j];
            re.set(i, b);
            re.set(j, a);
            let c: u32 = im[i];
            let d: u32 = im[j];
            im.set(i, d);
            im.set(j, c);
        }
        i = i + 1;
    }
    proof {
        assert(re@ =~= permuted(old(re)@));
        assert(im@ =~= permuted(old(im)@));
    }
}

/// Place `k` once the first `done` places were exchanged with their mirrors.
spec fn partly_permuted(v: Seq<u32>, done: int, k: int) -> u32 {
    if k < done || reversed(k as u32) < done {
        v[reversed(k as u32) as int]
    } else {
        v[k]
    }
}

/// One step of the transform: the entries at `top` and `bottom` are combined
/// with the root of unity at `twiddle`.
#[derive(Clone, Copy, PartialEq, Eq, Structural, Debug)]
pub struct Butterfly {
    pub top: usize,
    pub bottom: usize,
    pub twiddle: usize,
}

/// The upper entry of pair `t` in a pass over blocks of twice `half` entries.
pub open spec fn pair_top(half: int, t: int) -> int {
    (t / half) * (2 * half) + t % half
}

/// Pair `t` of pass `stage`. A pass works on blocks of 2 to the power of
/// `stage + 1` entries and pairs the halves of each block; the roots lie evenly
/// over half a turn.
pub open spec fn butterfly(stage: nat, t: int) -> (int, int, int) {
    let half = pow2(stage) as int;
    (
        pair_top(half, t),
        pair_top(half, t) + half,
        (t % half) * pow2((10 - stage) as nat),
    )
}

/// The pair of a pass that entry `x` belongs to.
pub open spec fn pair_of(stage: nat, x: int) -> int {
    let half = pow2(stage) as int;
    (x / (2 * half)) * half + x % half
}

proof fn lemma_pair_in_frame(stage: nat, t: int)
    requires
        stage < FFT_STAGES,
        0 <= t < FFT_PAIRS,
    ensures
        0 < pow2(stage) <= 1024,
        pow2(stage) * pow2((10 - stage) as nat) == 1024,
        0 <= t % (pow2(stage) as int) < pow2(stage),
        0 <= t / (pow2(stage) as int) < pow2((10 - stage) as nat),
        0 <= butterfly(stage, t).0 < butterfly(stage, t).1 < FFT_SIZE,
        0 <= butterfly(stage, t).2 < FFT_PAIRS,
{
    let half = pow2(stage) as int;
    let step = pow2((10 - stage) as nat) as int;
    lemma2_to64();
    lemma_pow2_pos(stage);
    lemma_pow2_pos((10 - stage) as nat);
    lemma_pow2_adds(stage, (10 - stage) as nat);
    assert(half * step == 1024);
    let q = t / half;
    let k = t % half;
    lemma_fundamental_div_mod(t, half);
    assert(0 <= k < half) by {
        lemma_mod_bound(t, half);
    }
    assert(0 <= q) by {
        lemma_div_pos_is_pos(t, half);
    }
    assert(q < step) by (nonlinear_arith)
        requires
            t == half * q + k,
            0 <= k,
            t < half * step,
            half > 0,
    ;
    assert(half <= 1024) by (nonlinear_arith)
        requires
            half * step == 1024,
            step >= 1,
            half > 0,
    ;
    assert(q * (2 * half) + k + half < 2048) by (nonlinear_arith)
        requires
            q <= step - 1,
            k < half,
            half * step == 1024,
            half > 0,
    ;
    assert(q * (2 * half) >= 0) by (nonlinear_arith)
        requires
            q >= 0,
            half > 0,
    ;
    assert(0 <= k * step < 1024) by (nonlinear_arith)
        requires
            0 <= k < half,
            half * step == 1024,
            step >= 1,
    ;
}

/// Every pass touches every entry of the frame exactly once: entry `x` belongs
/// to pair `pair_of(stage, x)`, as its upper or its lower entry, and to no other.
pub proof fn law_pass_touches_every_entry_once(stage: nat, x: int, t: int)
    requires
        stage < FFT_STAGES,
        0 <= x < FFT_SIZE,
        0 <= t < FFT_PAIRS,
    ensures
        0 <= pair_of(stage, x) < FFT_PAIRS,
        butterfly(stage, t).0 == x || butterfly(stage, t).1 == x <==> t == pair_of(stage, x),
        0 <= butterfly(stage, t).0 < butterfly(stage, t).1 < FFT_SIZE,
        0 <= butterfly(stage, t).2 < FFT_PAIRS,
{
    let half = pow2(stage) as int;
    let step = pow2((10 - stage) as nat) as int;
    lemma_pair_in_frame(stage, t);
    let q = x / (2 * half);
    let w = x % (2 * half);
    lemma_fundamental_div_mod(x, 2 * half);
    lemma_mod_bound(x, 2 * half);
    lemma_div_pos_is_pos(x, 2 * half);
    // The place of `x` in its half block.
    let k = if w < half {
        w
    } else {
        w - half
    };
    let c = if w < half {
        0int
    } else {
        1int
    };
    assert(x == (2 * q + c) * half + k) by (nonlinear_arith)
        requires
            x == 2 * half * q + w,
            w == c * half + k,
    ;
    lemma_fundamental_div_mod_converse(x, half, 2 * q + c, k);
    assert(x % half == k);
    let p = pair_of(stage, x);
    assert(p == q * half + k);
    assert(q < step) by (nonlinear_arith)
        requires
            x == 2 * half * q + w,
            w >= 0,
            x < 2048,
            half * step == 1024,
            half > 0,
    ;
    assert(0 <= q * half + k < 1024) by (nonlinear_arith)
        requires
            0 <= q <= step - 1,
            0 <= k < half,
            half * step == 1024,
    ;
    lemma_fundamental_div_mod_converse(p, half, q, k);
    assert(p / half == q && p % half == k);
    assert(pair_top(half, p) == q * (2 * half) + k);
    assert(q * (2 * half) == 2 * half * q) by (nonlinear_arith);
    assert(butterfly(stage, p).0 == x || butterfly(stage, p).1 == x);
    if butterfly(stage, t).0 == x || butterfly(stage, t).1 == x {
        let r = t / half;
        let l = t % half;
        lemma_fundamental_div_mod(t, half);
        let d = if butterfly(stage, t).0 == x {
            0int
        } else {
            1int
        };
        assert(x == (2 * half) * r + (d * half + l)) by (nonlinear_arith)
            requires
                x == r * (2 * half) + l + d * half,
        ;
        assert(0 <= d * half + l < 2 * half);
        assert((2 * half) * r == r * (2 * half)) by (nonlinear_arith);
        lemma_fundamental_div_mod_converse(x, 2 * half, r, d * half + l);
        assert(r == q);
        assert(l == k);
        assert(t == q * half + k) by (nonlinear_arith)
            requires
                t == half * r + l,
                r == q,
                l == k,
        ;
    }
}

/// In how many ways sample `n` of a frame reaches entry `x` through the first `stage`
/// passes. Before the first pass the frame lies in bit-reversed order; a pass leads from
/// both entries of a pair to both.
pub open spec fn paths(stage: nat, x: int, n: int) -> nat
    decreases stage,
{
    if stage == 0 {
        if reversed(x as u32) == n {
            1
        } else {
            0
        }
    } else {
        let s = (stage - 1) as nat;
        let (top, bottom, twiddle) = butterfly(s, pair_of(s, x));
        paths(s, top, n) + paths(s, bottom, n)
    }
}

/// How far sample `n` is turned on its way to entry `x` through the first `stage`
/// passes, in steps of which a full turn has `FFT_SIZE`. A lower entry is turned by its
/// root, and by half a turn more where it is subtracted.
pub open spec fn turns(stage: nat, x: int, n: int) -> int
    decreases stage,
{
    if stage == 0 {
        0
    } else {
        let s = (stage - 1) as nat;
        let (top, bottom, twiddle) = butterfly(s, pair_of(s, x));
        if paths(s, top, n) > 0 {
            turns(s, top, n)
        } else if x == top {
            turns(s, bottom, n) + twiddle
        } else {
            turns(s, bottom, n) + twiddle + FFT_PAIRS
        }
    }
}

/// Bit `s` of `p`.
spec fn bit(p: int, s: nat) -> int {
    (p / pow2(s) as int) % 2
}

/// The lowest `s` bits of `p`, mirrored within eleven bits.
spec fn mirrored(p: int, s: nat) -> int
    decreases s,
{
    if s == 0 {
        0
    } else {
        mirrored(p, (s - 1) as nat) + bit(p, (s - 1) as nat) * pow2((11 - s) as nat)
    }
}

/// How far place `p` is turned on its way to entry `x` through the first `s` passes.
spec fn turned_from(p: int, x: int, s: nat) -> int
    decreases s,
{
    if s == 0 {
        0
    } else {
        turned_from(p, x, (s - 1) as nat) + bit(p, (s - 1) as nat) * (pow2((11 - s) as nat) * (x
            % pow2(s) as int))
    }
}

/// Only the lowest `s` bits of the entry matter.
proof fn lemma_turned_from_low_bits(p: int, x: int, y: int, s: nat)
    requires
        0 <= x,
        0 <= y,
        x % pow2(s) as int == y % pow2(s) as int,
    ensures
        turned_from(p, x, s) == turned_from(p, y, s),
    decreases s,
{
    if s > 0 {
        let h = pow2((s - 1) as nat) as int;
        lemma_pow2_pos((s - 1) as nat);
        lemma_pow2_unfold(s);
        lemma_mod_mod(x, h, 2);
        lemma_mod_mod(y, h, 2);
        assert(h * 2 == pow2(s));
        lemma_turned_from_low_bits(p, x, y, (s - 1) as nat);
    }
}

/// The pair of entry `x`: its two entries share their low bits with `x`, and they are the
/// two halves of its block.
proof fn lemma_pair_of_entry(s: nat, x: int)
    requires
        s < FFT_STAGES,
        0 <= x < FFT_SIZE,
    ensures
        ({
            let half = pow2(s) as int;
            let (top, bottom, twiddle) = butterfly(s, pair_of(s, x));
            &&& half > 0
            &&& 0 <= top < bottom < FFT_SIZE
            &&& top / half == 2 * (x / (2 * half))
            &&& bottom / half == 2 * (x / (2 * half)) + 1
            &&& top % half == x % half
            &&& bottom % half == x % half
            &&& twiddle == (x % half) * pow2((10 - s) as nat)
            &&& x == top || x == bottom
            &&& x % (2 * half) == x % half + (if x == top {
                0
            } else {
                half
            })
        }),
{
    let half = pow2(s) as int;
    let t = pair_of(s, x);
    lemma_pow2_pos(s);
    law_pass_touches_every_entry_once(s, x, 0);
    law_pass_touches_every_entry_once(s, x, t);
    let q = x / (2 * half);
    lemma_mod_bound(x, half);
    lemma_mod_bound(x, 2 * half);
    lemma_fundamental_div_mod(x, 2 * half);
    lemma_fundamental_div_mod_converse(t, half, q, x % half);
    assert(q * (2 * half) == (2 * q) * half) by (nonlinear_arith);
    assert((2 * q) * half + half == (2 * q + 1) * half) by (nonlinear_arith);
    assert((2 * half) * q == q * (2 * half)) by (nonlinear_arith);
    lemma_fundamental_div_mod_converse(pair_top(half, t), half, 2 * q, x % half);
    lemma_fundamental_div_mod_converse(pair_top(half, t) + half, half, 2 * q + 1, x % half);
}

/// After `s` passes place `p` has reached the entries that share its high bits, each of
/// them once.
proof fn lemma_reach(s: nat, x: int, n: int, p: int)
    requires
        s <= FFT_STAGES,
        0 <= x < FFT_SIZE,
        0 <= p < FFT_SIZE,
        reversed(p as u32) == n,
    ensures
        paths(s, x, n) == if x / pow2(s) as int == p / pow2(s) as int {
            1nat
        } else {
            0nat
        },
        x / pow2(s) as int == p / pow2(s) as int ==> turns(s, x, n) == turned_from(p, x, s),
    decreases s,
{
    if s == 0 {
        lemma2_to64();
        lemma_reversal_inverts(x as u32);
        lemma_reversal_inverts(p as u32);
        lemma_div_basics(x);
        lemma_div_basics(p);
    } else {
        let r = (s - 1) as nat;
        let half = pow2(r) as int;
        lemma_pow2_unfold(s);
        assert(pow2(s) == 2 * half);
        let (top, bottom, twiddle) = butterfly(r, pair_of(r, x));
        lemma_pair_of_entry(r, x);
        lemma_reach(r, top, n, p);
        lemma_reach(r, bottom, n, p);
        lemma_turned_from_low_bits(p, top, x, r);
        lemma_turned_from_low_bits(p, bottom, x, r);
        let d = p / half;
        lemma_div_denominator(p, half, 2);
        assert(half * 2 == 2 * half);
        assert(p / (2 * half) == d / 2);
        if p / (2 * half) == x / (2 * half) {
            let w = pow2((10 - r) as nat) as int;
            lemma_pair_in_frame(r, 0);
            assert(half * w == 1024);
            let low = x % half;
            let rest = if x == top {
                0int
            } else {
                half
            };
            assert(w * (low + rest) == low * w + w * rest) by (nonlinear_arith);
            assert(w * half == half * w) by (nonlinear_arith);
            assert(w * 0 == 0);
            assert(bit(p, r) == d % 2);
            assert(0 * (w * (low + rest)) == 0 && 1 * (w * (low + rest)) == w * (low + rest));
        }
    }
}

/// A place is turned by its mirrored index times the entry, but for full turns.
proof fn lemma_turned_from_product(p: int, x: int, s: nat)
    requires
        s <= FFT_STAGES,
        0 <= x < FFT_SIZE,
    ensures
        turned_from(p, x, s) % 2048 == (x * mirrored(p, s)) % 2048,
    decreases s,
{
    if s == 0 {
        assert(x * 0 == 0);
    } else {
        let r = (s - 1) as nat;
        lemma_turned_from_product(p, x, r);
        let w = pow2((11 - s) as nat) as int;
        let m = pow2(s) as int;
        lemma_pow2_adds((11 - s) as nat, s);
        lemma2_to64();
        lemma_pow2_pos(s);
        assert(w * m == 2048);
        let q = x / m;
        let l = x % m;
        lemma_fundamental_div_mod(x, m);
        let b = bit(p, r);
        let a = turned_from(p, x, r);
        let c = mirrored(p, r);
        assert(x * (c + b * w) == x * c + b * (w * l) + (b * q) * 2048) by (nonlinear_arith)
            requires
                x == m * q + l,
                w * m == 2048,
        ;
        lemma_mod_multiples_vanish(b * q, x * c + b * (w * l), 2048);
        assert((b * q) * 2048 == 2048 * (b * q));
        lemma_add_mod_noop(a, b * (w * l), 2048);
        lemma_add_mod_noop(x * c, b * (w * l), 2048);
    }
}

proof fn lemma_mirror_bit(p: int, s: nat, place: int, mirror: int)
    requires
        s < FFT_STAGES,
        pow2(s) == place,
        pow2((10 - s) as nat) == mirror,
    ensures
        mirrored(p, s + 1) == mirrored(p, s) + ((p / place) % 2) * mirror,
{
}

/// The mirrored index of a place in a frame.
proof fn lemma_mirrored_is_reversed(p: u32)
    requires
        p < FFT_SIZE,
    ensures
        mirrored(p as int, 11) == reversed(p),
{
    lemma2_to64();
    lemma_mirror_bit(p as int, 0, 1, 1024);
    lemma_mirror_bit(p as int, 1, 2, 512);
    lemma_mirror_bit(p as int, 2, 4, 256);
    lemma_mirror_bit(p as int, 3, 8, 128);
    lemma_mirror_bit(p as int, 4, 16, 64);
    lemma_mirror_bit(p as int, 5, 32, 32);
    lemma_mirror_bit(p as int, 6, 64, 16);
    lemma_mirror_bit(p as int, 7, 128, 8);
    lemma_mirror_bit(p as int, 8, 256, 4);
    lemma_mirror_bit(p as int, 9, 512, 2);
    lemma_mirror_bit(p as int, 10, 1024, 1);
    assert(reversed(p) == (p % 2) * 1024 + ((p / 2) % 2) * 512 + ((p / 4) % 2) * 256 + ((p / 8)
        % 2) * 128 + ((p / 16) % 2) * 64 + ((p / 32) % 2) * 32 + ((p / 64) % 2) * 16 + ((p / 128)
        % 2) * 8 + ((p / 256) % 2) * 4 + ((p / 512) % 2) * 2 + (p / 1024) % 2) by (bit_vector)
        requires
            p < 2048,
    ;
}

/// The passes of the transform, over a frame in bit-reversed order, make up the discrete
/// Fourier transform: every sample `n` reaches every output `k` along exactly one path,
/// and on it it is turned by `k * n` steps, but for full turns.
pub proof fn law_plan_is_the_fourier_transform(k: int, n: int)
    requires
        0 <= k < FFT_SIZE,
        0 <= n < FFT_SIZE,
    ensures
        paths(FFT_STAGES as nat, k, n) == 1,
        turns(FFT_STAGES as nat, k, n) % (FFT_SIZE as int) == (k * n) % (FFT_SIZE as int),
{
    let p = reversed(n as u32);
    lemma_reversal_inverts(n as u32);
    lemma2_to64();
    lemma_reach(11, k, n, p as int);
    lemma_basic_div(k, 2048);
    lemma_basic_div(p as int, 2048);
    lemma_turned_from_product(p as int, k, 11);
    lemma_mirrored_is_reversed(p);
}

/// Every step of the transform, pass by pass. The entries are combined in this
/// order after `permute`.
pub fn transform_plan() -> (r: Vec<Butterfly>)
    ensures
        r@.len() == FFT_STAGES * FFT_PAIRS,
        forall|stage: int, t: int|
            0 <= stage < FFT_STAGES && 0 <= t < FFT_PAIRS ==> {
                let b = #[trigger] r@[stage * FFT_PAIRS + t];
                (b.top as int, b.bottom as int, b.twiddle as int) == butterfly(stage as nat, t)
            },
{
    let mut plan: Vec<Butterfly> = Vec::new();
    let mut stage: usize = 0;
    let mut half: usize = 1;
    let mut step: usize = 1024;
    proof {
        lemma2_to64();
    }
    while stage < FFT_STAGES
        invariant
            stage <= FFT_STAGES,
            stage < FFT_STAGES ==> half == pow2(stage as nat) && step == pow2(
                (10 - stage) as nat,
            ),
            plan@.len() == stage * FFT_PAIRS,
            forall|s: int, t: int|
                0 <= s < stage && 0 <= t < FFT_PAIRS ==> {
                    let b = #[trigger] plan@[s * FFT_PAIRS + t];
                    (b.top as int, b.bottom as int, b.twiddle as int) == butterfly(s as nat, t)
                },
        decreases FFT_STAGES - stage,
    {
        let mut t: usize = 0;
        while t < FFT_PAIRS
            invariant
                stage < FFT_STAGES,
                t <= FFT_PAIRS,
                half == pow2(stage as nat),
                step == pow2((10 - stage) as nat),
                plan@.len() == stage * FFT_PAIRS + t,
                forall|s: int, u: int|
                    0 <= s < stage && 0 <= u < FFT_PAIRS ==> {
                        let b = #[trigger] plan@[s * FFT_PAIRS + u];
                        (b.top as int, b.bottom as int, b.twiddle as int) == butterfly(
                            s as nat,
                            u,
                        )
                    },
                forall|u: int|
                    0 <= u < t ==> {
                        let b = #[trigger] plan@[stage * FFT_PAIRS + u];
                        (b.top as int, b.bottom as int, b.twiddle as int) == butterfly(
                            stage as nat,
                            u,
                        )
                    },
            decreases FFT_PAIRS - t,
        {
            proof {
                lemma_pair_in_frame(stage as nat, t as int);
                let q = t as int / half as int;
                let k = t as int % half as int;
                assert(q * (2 * half) >= 0) by (nonlinear_arith)
                    requires
                        q >= 0,
                        half > 0,
                ;
                assert(k * step >= 0) by (nonlinear_arith)
                    requires
                        k >= 0,
                        step >= 0,
                ;
            }
            let start: usize = (t / half) * (2 * half);
            let k: usize = t % half;
            let top: usize = start + k;
            plan.push(Butterfly { top, bottom: top + half, twiddle: k * step });
            t = t + 1;
        }
        proof {
            assert forall|s: int, u: int|
                0 <= s < stage + 1 && 0 <= u < FFT_PAIRS implies {
                    let b = #[trigger] plan@[s * FFT_PAIRS + u];
                    (b.top as int, b.bottom as int, b.twiddle as int) == butterfly(s as nat, u)
                } by {
                if s == stage {
                    let b = plan@[stage * FFT_PAIRS + u];
                }
            }
            lemma_pow2_unfold((stage + 1) as nat);
            if stage < 10 {
                lemma_pow2_unfold((10 - stage) as nat);
            }
            lemma_pair_in_frame(stage as nat, 0);
        }
        stage = stage + 1;
        half = half * 2;
        step = step / 2;
    }
    plan
}

/// The analyzer's frame, position and peak as a mathematical value.
#[verifier::ext_equal]
pub struct AnalyzerView {
    pub frame: Seq<u32>,
    pub pos: int,
    pub peak_lin: u32,
}

impl AnalyzerView {
    pub open spec fn wf(self) -> bool {
        &&& self.frame.len() == FFT_SIZE
        &&& 0 <= self.pos < FFT_SIZE
    }

    /// One more sample: it takes the next place of the frame, and the place
    /// after the last one is the first.
    pub open spec fn pushed(self, sample: u32) -> AnalyzerView {
        AnalyzerView {
            frame: self.frame.update(self.pos, sample),
            pos: if self.pos + 1 == FFT_SIZE {
                0
            } else {
                self.pos + 1
            },
            peak_lin: self.peak_lin,
        }
    }

    /// A run of samples.
    pub open spec fn pushed_all(self, samples: Seq<u32>) -> AnalyzerView
        decreases samples.len(),
    {
        if samples.len() == 0 {
            self
        } else {
            self.pushed_all(samples.drop_last()).pushed(samples.last())
        }
    }

    /// An empty frame; the peak stays.
    pub open spec fn cleared(self) -> AnalyzerView {
        AnalyzerView {
            frame: Seq::new(FFT_SIZE as nat, |i: int| bits::ZERO),
            pos: 0,
            peak_lin: self.peak_lin,
        }
    }
}

/// The peak after a frame whose loudest bar is `loudest`: a louder bar lifts it
/// at once; otherwise it releases to `decayed`, and to zero once that is tiny.
pub open spec fn settled_peak(peak: u32, loudest: u32, decayed: u32) -> u32 {
    if bits::lt(peak, loudest) {
        loudest
    } else if bits::lt(decayed, PEAK_FLOOR) {
        bits::ZERO
    } else {
        decayed
    }
}

/// The height of a bar whose scaled level is `scaled`, where the peak is `peak`.
pub open spec fn height(scaled: u32, peak: u32) -> u32 {
    if bits::lt(SHOW_FLOOR, peak) {
        bits::smaller(scaled, bits::ONE)
    } else {
        bits::ZERO
    }
}

/// The transform bins of a bar whose edges fall into the bins `low` and `high`:
/// from the edge, or from the first bin above zero frequency, up to the other
/// edge or half the frame. A bar between two bins has none.
pub open spec fn bins_of(low: int, high: int) -> Option<(int, int)> {
    let k0 = if low < 1 {
        1
    } else {
        low
    };
    let k1 = if high > FFT_PAIRS {
        FFT_PAIRS as int
    } else {
        high
    };
    if k1 > k0 {
        Some((k0, k1))
    } else {
        None
    }
}

/// The spectrum analyzer collects samples in the audio callback. Whenever a full
/// frame has been collected, the frame is transformed and shown as bars,
/// normalised against a slowly releasing peak.
pub struct SpectrumAnalyzer {
    pub frame: Vec<u32>,
    pub pos: usize,
    pub peak_lin: u32,
}

impl View for SpectrumAnalyzer {
    type V = AnalyzerView;

    open spec fn view(&self) -> AnalyzerView {
        AnalyzerView { frame: self.frame@, pos: self.pos as int, peak_lin: self.peak_lin }
    }
}

impl SpectrumAnalyzer {
    pub open spec fn wf(&self) -> bool {
        self@.wf()
    }

    pub fn new() -> (r: Self)
        ensures
            r.wf(),
            r@ == (AnalyzerView {
                frame: Seq::new(FFT_SIZE as nat, |i: int| bits::ZERO),
                pos: 0,
                peak_lin: bits::ZERO,
            }),
    {
        SpectrumAnalyzer { frame: silent_frame(), pos: 0, peak_lin: 0 }
    }

    /// Takes one sample. The result says whether the frame is full now and has
    /// to be analyzed.
    pub fn push(&mut self, sample: u32) -> (full: bool)
        requires
            old(self).wf(),
        ensures
            final(self)@ == old(self)@.pushed(sample),
            final(self).wf(),
            full == (old(self)@.pos + 1 == FFT_SIZE),
    {
        self.frame.set(self.pos, sample);
        self.pos = self.pos + 1;
        if self.pos == FFT_SIZE {
            self.pos = 0;
            true
        } else {
            false
        }
    }

    /// Clears the pending frame so that a seek jump does not smear into the next
    /// analysis.
    pub fn reset(&mut self)
        requires
            old(self).wf(),
        ensures
            final(self)@ == old(self)@.cleared(),
            final(self).wf(),
    {
        self.pos = 0;
        self.frame = silent_frame();
    }

    /// Moves the peak on by one frame. `decayed` is the released peak.
    pub fn settle_peak(&mut self, loudest: u32, decayed: u32)
        ensures
            final(self)@ == (AnalyzerView {
                peak_lin: settled_peak(old(self)@.peak_lin, loudest, decayed),
                ..old(self)@
            }),
    {
        if bits::less(self.peak_lin, loudest) {
            self.peak_lin = loudest;
        } else {
            self.peak_lin = decayed;
            if bits::less(self.peak_lin, PEAK_FLOOR) {
                self.peak_lin = bits::ZERO;
            }
        }
    }

    /// The height of a bar: its level against the peak, at most 1, and 0 while
    /// there is no peak to speak of.
    pub fn bar_height(&self, scaled: u32) -> (r: u32)
        ensures
            r == height(scaled, self@.peak_lin),
    {
        if bits::less(SHOW_FLOOR, self.peak_lin) {
            bits::min_of(scaled, bits::ONE)
        } else {
            bits::ZERO
        }
    }
}

fn silent_frame() -> (r: Vec<u32>)
    ensures
        r@ == Seq::new(FFT_SIZE as nat, |i: int| bits::ZERO),
{
    let mut frame: Vec<u32> = Vec::new();
    let mut i: usize = 0;
    while i < FFT_SIZE
        invariant
            i <= FFT_SIZE,
            frame@.len() == i,
            forall|k: int| 0 <= k < i ==> #[trigger] frame@[k] == bits::ZERO,
        decreases FFT_SIZE - i,
    {
        frame.push(bits::ZERO);
        i = i + 1;
    }
    frame
}

/// The transform bins that a bar sums over.
pub fn bar_bins(low: usize, high: usize) -> (r: Option<(usize, usize)>)
    ensures
        match r {
            Some((k0, k1)) => bins_of(low as int, high as int) == Some((k0 as int, k1 as int)),
            None => bins_of(low as int, high as int) is None,
        },
        r matches Some((k0, k1)) ==> 1 <= k0 < k1 <= FFT_PAIRS,
{
    let k0: usize = if low < 1 {
        1
    } else {
        low
    };
    let k1: usize = if high > FFT_PAIRS {
        FFT_PAIRS
    } else {
        high
    };
    if k1 > k0 {
        Some((k0, k1))
    } else {
        None
    }
}

/// The loudest of the bars, or 0 where none is above it.
pub fn loudest(levels: &Vec<u32>) -> (r: u32)
    ensures
        r == bits::ZERO || (bits::lt(bits::ZERO, r) && levels@.contains(r)),
        forall|i: int| 0 <= i < levels@.len() ==> !bits::lt(r, #[trigger] levels@[i]),
{
    let mut max: u32 = bits::ZERO;
    let mut i: usize = 0;
    while i < levels.len()
        invariant
            i <= levels@.len(),
            max == bits::ZERO || (bits::lt(bits::ZERO, max) && levels@.contains(max)),
            forall|k: int| 0 <= k < i ==> !bits::lt(max, #[trigger] levels@[k]),
        decreases levels@.len() - i,
    {
        if bits::less(max, levels[i]) {
            max = levels[i];
        }
        i = i + 1;
    }
    max
}

/// Samples fill an empty frame from the front, in order; a frame of them fills
/// it exactly and leaves the position at the start.
pub proof fn law_frame_holds_the_samples(s: AnalyzerView, samples: Seq<u32>)
    requires
        s.wf(),
        s.pos == 0,
        samples.len() <= FFT_SIZE,
    ensures
        s.pushed_all(samples).wf(),
        s.pushed_all(samples).frame.take(samples.len() as int) == samples,
        s.pushed_all(samples).frame.skip(samples.len() as int) == s.frame.skip(
            samples.len() as int,
        ),
        s.pushed_all(samples).pos == if samples.len() == FFT_SIZE {
            0
        } else {
            samples.len() as int
        },
        samples.len() == FFT_SIZE ==> s.pushed_all(samples).frame == samples,
    decreases samples.len(),
{
    if samples.len() > 0 {
        let before = samples.drop_last();
        law_frame_holds_the_samples(s, before);
        let mid = s.pushed_all(before);
        let end = s.pushed_all(samples);
        assert forall|k: int| 0 <= k < samples.len() implies #[trigger] end.frame[k] == samples[k] by {
            if k < before.len() {
                assert(mid.frame.take(before.len() as int)[k] == before[k]);
            }
        }
        assert forall|k: int| samples.len() <= k < FFT_SIZE implies #[trigger] end.frame[k]
            == s.frame[k] by {
            assert(mid.frame.skip(before.len() as int)[k - before.len()] == s.frame.skip(
                before.len() as int,
            )[k - before.len()]);
        }
        assert(end.frame.take(samples.len() as int) =~= samples);
        assert(end.frame.skip(samples.len() as int) =~= s.frame.skip(samples.len() as int));
        if samples.len() == FFT_SIZE {
            assert(end.frame =~= samples);
        }
    } else {
        assert(s.frame.take(0) =~= samples);
    }
}

/// Every bar stands between 0 and 1, also where its level is no number, and while there
/// is no peak to speak of it is at 0.
pub proof fn law_bars_stay_in_the_display(scaled: u32, peak: u32)
    requires
        bits::nan(scaled) || bits::le(bits::ZERO, scaled),
    ensures
        bits::le(bits::ZERO, height(scaled, peak)),
        bits::le(height(scaled, peak), bits::ONE),
        !bits::lt(SHOW_FLOOR, peak) ==> height(scaled, peak) == bits::ZERO,
{
    bits::lemma_order_of_patterns(bits::ZERO, bits::ONE);
}

/// Whether a bar with the edge bins `low` and `high` sums over bin `k`.
pub open spec fn bar_has_bin(low: int, high: int, k: int) -> bool {
    match bins_of(low, high) {
        Some((first, end)) => first <= k < end,
        None => false,
    }
}

/// A bin belongs to a bar exactly if it lies at its lower edge or above it, below its upper
/// edge, above zero frequency and below half the frame. A bar has no bins only where no bin
/// does so.
pub proof fn law_bar_has_the_bins_between_its_edges(low: int, high: int, k: int)
    ensures
        bar_has_bin(low, high, k) <==> 1 <= k && low <= k < high && k < FFT_SIZE / 2,
        bins_of(low, high) matches Some((first, end)) ==> first < end && bar_has_bin(
            low,
            high,
            first,
        ) && bar_has_bin(low, high, end - 1),
        bins_of(low, high) is None ==> !(1 <= k && low <= k < high && k < FFT_SIZE / 2),
{
}

/// Bars whose edges meet cover every bin between the first edge and the last one, each of
/// them once.
pub proof fn law_bars_cover_every_bin_once(edges: Seq<int>, k: int, b: int, c: int)
    requires
        edges.len() >= 2,
        forall|i: int, j: int| 0 <= i <= j < edges.len() ==> edges[i] <= edges[j],
        0 <= b < edges.len() - 1,
        0 <= c < edges.len() - 1,
    ensures
        1 <= k < FFT_SIZE / 2 && edges[0] <= k < edges[edges.len() - 1] ==> exists|i: int|
            0 <= i < edges.len() - 1 && bar_has_bin(#[trigger] edges[i], edges[i + 1], k),
        bar_has_bin(edges[b], edges[b + 1], k) && bar_has_bin(edges[c], edges[c + 1], k) ==> b == c,
        bar_has_bin(edges[b], edges[b + 1], k) ==> edges[0] <= k < edges[edges.len() - 1],
    decreases edges.len(),
{
    if b < c {
        assert(edges[b + 1] <= edges[c]);
    }
    if c < b {
        assert(edges[c + 1] <= edges[b]);
    }
    if 1 <= k < FFT_SIZE / 2 && edges[0] <= k < edges[edges.len() - 1] {
        let n = edges.len() - 2;
        if k >= edges[n] {
            assert(bar_has_bin(edges[n], edges[n + 1], k));
        } else {
            let rest = edges.drop_last();
            law_bars_cover_every_bin_once(rest, k, 0, 0);
            let i = choose|i: int|
                0 <= i < rest.len() - 1 && bar_has_bin(#[trigger] rest[i], rest[i + 1], k);
            assert(bar_has_bin(edges[i], edges[i + 1], k));
        }
    }
}

/// The peak jumps up to a louder bar at once and is never below the loudest bar then;
/// otherwise it takes the released value as it is, or drops to zero once that is below its
/// floor.
pub proof fn law_peak_attacks_and_releases(peak: u32, loudest: u32, decayed: u32)
    ensures
        bits::lt(peak, loudest) ==> settled_peak(peak, loudest, decayed) == loudest,
        !bits::lt(peak, loudest) && !bits::lt(decayed, PEAK_FLOOR) ==> settled_peak(
            peak,
            loudest,
            decayed,
        ) == decayed,
        !bits::lt(peak, loudest) && bits::lt(decayed, PEAK_FLOOR) ==> settled_peak(
            peak,
            loudest,
            decayed,
        ) == 0,
{
}

/// While there is a peak a bar of at most 1 is shown as it is and a higher one at 1; the
/// louder of two bars is never shown lower.
pub proof fn law_bars_show_their_level(a: u32, b: u32, peak: u32)
    requires
        bits::lt(SHOW_FLOOR, peak),
    ensures
        bits::le(a, bits::ONE) ==> height(a, peak) == a,
        bits::lt(bits::ONE, a) ==> height(a, peak) == bits::ONE,
        bits::le(a, b) ==> bits::le(height(a, peak), height(b, peak)),
{
    bits::lemma_order_of_patterns(bits::ZERO, bits::ONE);
}

/// A frame in bit-reversed order holds at the mirror of a place what the frame held at that
/// place, and nothing else.
pub proof fn law_permuted_frame_is_mirrored(v: Seq<u32>, i: u32)
    requires
        v.len() == FFT_SIZE,
        i < FFT_SIZE,
    ensures
        permuted(v).len() == FFT_SIZE,
        permuted(v)[reversed(i) as int] == v[i as int],
        permuted(v)[i as int] == v[reversed(i) as int],
{
    lemma_reversal_inverts(i);
}

/// A sample takes one place of the frame and moves the position on by one, round and round;
/// clearing leaves silence and the first place. The peak stays in both.
pub proof fn law_frame_bookkeeping(s: AnalyzerView, sample: u32, k: int)
    requires
        s.wf(),
        0 <= k < FFT_SIZE,
    ensures
        s.pushed(sample).frame.len() == FFT_SIZE,
        s.pushed(sample).frame[k] == if k == s.pos {
            sample
        } else {
            s.frame[k]
        },
        s.pushed(sample).pos == (s.pos + 1) % 2048,
        s.pushed(sample).peak_lin == s.peak_lin,
        s.cleared().frame.len() == FFT_SIZE,
        s.cleared().frame[k] == 0,
        s.cleared().pos == 0,
        s.cleared().peak_lin == s.peak_lin,
{
}

/// A bar whose level is no number is shown at 1 while there is a peak. A peak is dropped
/// below the last number up to 0.000001, and bars are shown above the last number up to
/// 0.000000001.
pub proof fn law_display_floors(scaled: u32, peak: u32)
    ensures
        bits::lt(SHOW_FLOOR, peak) && bits::nan(scaled) ==> height(scaled, peak) == bits::ONE,
        bits::value(PEAK_FLOOR) * 1_000_000 <= bits::units(1) < bits::value((PEAK_FLOOR + 1) as u32)
            * 1_000_000,
        bits::value(SHOW_FLOOR) * 1_000_000_000 <= bits::units(1) < bits::value(
            (SHOW_FLOOR + 1) as u32,
        ) * 1_000_000_000,
{
    lemma2_to64();
    lemma2_to64_rest();
    lemma_pow2_adds(43, 106);
    lemma_pow2_adds(53, 96);
    lemma_pow2_pos(106);
    lemma_pow2_pos(96);
    let p = pow2(106) as int;
    let q = pow2(96) as int;
    assert(bits::magnitude(PEAK_FLOOR) == 107 * 0x80_0000 + 0x06_37bd);
    assert(bits::value(PEAK_FLOOR) == 0x86_37bd * p);
    assert(bits::value((PEAK_FLOOR + 1) as u32) == 0x86_37be * p);
    assert(bits::units(1) == 0x800_0000_0000 * p);
    assert(bits::magnitude(SHOW_FLOOR) == 97 * 0x80_0000 + 0x09_705f);
    assert(bits::value(SHOW_FLOOR) == 0x89_705f * q);
    assert(bits::value((SHOW_FLOOR + 1) as u32) == 0x89_7060 * q);
    assert(bits::units(1) == 0x20_0000_0000_0000 * q);
}

} // verus!
