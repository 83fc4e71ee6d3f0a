//! Lighting programs: colour arithmetic, the frame sequences of each
//! effect, targeting of the two light zones, and the frame stream that the
//! device writer sends.
//!
//! A frame gives a colour to each of the 16 cells of the microphone; the
//! specs speak of frames through `frame_view`, a sequence of 16 colour views
//! (each a sequence of three bytes).
use vstd::prelude::*;
use vstd::arithmetic::div_mod::{lemma_fundamental_div_mod_converse, lemma_mod_bound};
use vstd::arithmetic::power2::{
    lemma2_to64, lemma2_to64_rest, lemma_pow2_adds, lemma_pow2_pos,
    lemma_pow2_strictly_increases, pow2,
};

use crate::binary32::{
    binary32_of, lemma_binary32_self_ratio, lemma_binary32_significand, lemma_exact_binary32,
    lemma_exponent_range, pow2_u128, round_binary32,
};

use crate::hid::display_header_spec;
use crate::hid::build_display_header_packet;
use crate::model::{Effect, LightTarget};
use crate::hid::{byte_hex, hex_digit};
use crate::text::{
    digit_value, digits_value, is_ws, lemma_encode_utf8_push, trim_end_seq, trim_start_seq,
    unsigned_body, all_radix_digits, is_radix_digit,
};
use crate::text::{
    char_vec, leading_count, parse_unsigned, parse_unsigned_spec, push_char, sub_vec,
    trim_bounds, trim_seq, trim_start_char_seq,
};
use vstd::utf8::encode_utf8;

verus! {

pub const LIGHTING_CELL_COUNT: usize = 16;

pub type LightingFrame = [[u8; 3]; LIGHTING_CELL_COUNT];

// ---------------------------------------------------------------------------
// Colour arithmetic
// ---------------------------------------------------------------------------

pub open spec fn black() -> Seq<u8> {
    seq![0u8, 0u8, 0u8]
}

/// `(c * percent / 100) as u8` (the cast keeps the low byte).
pub open spec fn scale_comp(c: u8, percent: u8) -> u8 {
    ((c * percent / 100) % 256) as u8
}

pub open spec fn scale_spec(c: Seq<u8>, percent: u8) -> Seq<u8> {
    Seq::new(3, |i: int| scale_comp(c[i], percent))
}

pub fn scale_color(color: [u8; 3], percent: u8) -> (r: [u8; 3])
    ensures
        r@ == scale_spec(color@, percent),
{
    let p = percent as u16;
    assert(forall|c: u8| #![trigger (c as u16) * p] (c as u16) * p <= 65025) by {
        assert forall|c: u8| #![trigger (c as u16) * p] (c as u16) * p <= 65025 by {
            assert((c as u16) * p <= 65025) by (nonlinear_arith) requires c <= 255, p <= 255;
        }
    }
    let r0 = (((color[0] as u16) * p / 100) % 256) as u8;
    let r1 = (((color[1] as u16) * p / 100) % 256) as u8;
    let r2 = (((color[2] as u16) * p / 100) % 256) as u8;
    let r = [r0, r1, r2];
    assert(r@ =~= scale_spec(color@, percent));
    r
}

/// The denominator of an interpolation over `steps` steps.
pub open spec fn lerp_denominator(steps: nat) -> nat {
    if steps >= 2 {
        (steps - 1) as nat
    } else {
        1
    }
}

/// One channel of `start + (end - start) * (step / denominator)` as single
/// precision computes it: `step` and the denominator are each rounded to
/// `f32`, `t` is their rounded quotient, `(b - a) * t` is rounded, added to
/// `a` and rounded again; the sum is then rounded to the nearest integer
/// (halves away from zero) and saturated to `0..=255`.  A rounded value is
/// kept as `(m, k)`, standing for `m / 2^k`.
pub open spec fn lerp_comp(a: u8, b: u8, step: nat, denom: nat) -> u8 {
    let s = binary32_of(step, 1);
    let d = binary32_of(denom, 1);
    // t = (s.0 / 2^s.1) / (d.0 / 2^d.1), rounded
    let t = binary32_of(s.0, d.0);
    let kt = t.1 + s.1 - d.1;
    let diff: int = b - a;
    let mag: nat = if diff < 0 { (-diff) as nat } else { diff as nat };
    // |(b - a) * t|, rounded, is pr.0 / 2^kp
    let pr = binary32_of(mag * t.0, 1);
    let kp = pr.1 + kt;
    // a + (b - a) * t is exactly n / 2^big_k
    let big_k: nat = if kp > 0 { kp as nat } else { 0 };
    let n: int = a * pow2(big_k) + (if diff < 0 { -1int } else { 1int }) * pr.0 * pow2(
        (big_k - kp) as nat,
    );
    if n <= 0 {
        0
    } else {
        let sm = binary32_of(n as nat, 1);
        let kr = sm.1 + big_k;
        let v: int = if kr <= 0 {
            (sm.0 * pow2((-kr) as nat)) as int
        } else {
            sm.0 / pow2(kr as nat) + (if 2 * (sm.0 % pow2(kr as nat)) >= pow2(kr as nat) {
                1int
            } else {
                0int
            })
        };
        if v > 255 {
            255
        } else {
            v as u8
        }
    }
}

proof fn lemma_whole_value_rounds_to_itself(v: nat, e: nat)
    requires
        1 <= v <= 255,
    ensures
        ({
            let sm = binary32_of(v * pow2(e), 1);
            let kr = sm.1 + e;
            let r: int = if kr <= 0 {
                (sm.0 * pow2((-kr) as nat)) as int
            } else {
                sm.0 / pow2(kr as nat) + (if 2 * (sm.0 % pow2(kr as nat)) >= pow2(kr as nat) {
                    1int
                } else {
                    0int
                })
            };
            r == v
        }),
{
    lemma_exact_binary32(v, e);
    lemma2_to64();
    let sm = binary32_of(v * pow2(e), 1);
    let kr = sm.1 + e;
    assert(kr >= 0);
    assert(sm.0 == v * pow2(kr as nat));
    if kr > 0 {
        let big = pow2(kr as nat);
        lemma_pow2_pos(kr as nat);
        lemma_fundamental_div_mod_converse((v * big) as int, big as int, v as int, 0);
        assert(sm.0 / big == v);
        assert(sm.0 % big == 0);
    } else {
        assert(kr == 0);
        assert(pow2(0) == 1);
        assert(kr as nat == 0);
        assert(pow2(kr as nat) == 1);
        assert(v * pow2(kr as nat) == v) by (nonlinear_arith)
            requires
                pow2(kr as nat) == 1,
        ;
        assert(sm.0 == v);
        assert(sm.0 * pow2((-kr) as nat) == v);
    }
}

proof fn lemma_lerp_start(a: u8, b: u8, d: nat)
    requires
        d >= 1,
    ensures
        lerp_comp(a, b, 0, d) == a,
{
    lemma2_to64();
    let s = binary32_of(0, 1);
    let dd = binary32_of(d, 1);
    let t = binary32_of(s.0, dd.0);
    assert(s == (0nat, 0int));
    assert(t == (0nat, 0int));
    let kt = t.1 + s.1 - dd.1;
    let diff: int = b - a;
    let mag: nat = if diff < 0 { (-diff) as nat } else { diff as nat };
    assert(mag * t.0 == 0) by (nonlinear_arith)
        requires
            t.0 == 0,
    ;
    let pr = binary32_of(mag * t.0, 1);
    assert(pr == (0nat, 0int));
    let kp = pr.1 + kt;
    let big_k: nat = if kp > 0 { kp as nat } else { 0 };
    let sign: int = if diff < 0 { -1int } else { 1int };
    assert(sign * pr.0 * pow2((big_k - kp) as nat) == 0) by (nonlinear_arith)
        requires
            pr.0 == 0,
    ;
    let n: int = a * pow2(big_k) + sign * pr.0 * pow2((big_k - kp) as nat);
    assert(n == (a as nat) * pow2(big_k));
    if a > 0 {
        lemma_whole_value_rounds_to_itself(a as nat, big_k);
        lemma_pow2_pos(big_k);
        assert(n > 0) by (nonlinear_arith)
            requires
                n == (a as nat) * pow2(big_k),
                a > 0,
                pow2(big_k) > 0,
        ;
    } else {
        assert(n == 0) by (nonlinear_arith)
            requires
                n == (a as nat) * pow2(big_k),
                a == 0,
        ;
    }
}

proof fn lemma_lerp_end(a: u8, b: u8, d: nat)
    requires
        d >= 1,
    ensures
        lerp_comp(a, b, d, d) == b,
{
    lemma2_to64();
    let s = binary32_of(d, 1);
    lemma_binary32_significand(d, 1);
    lemma_binary32_self_ratio(s.0);
    let t = binary32_of(s.0, s.0);
    assert(t == (8388608nat, 23int));
    let kt = t.1 + s.1 - s.1;
    assert(kt == 23);
    let diff: int = b - a;
    let mag: nat = if diff < 0 { (-diff) as nat } else { diff as nat };
    let sign: int = if diff < 0 { -1int } else { 1int };
    assert(mag * t.0 == mag * pow2(23));
    let pr = binary32_of(mag * t.0, 1);
    let kp = pr.1 + kt;
    let big_k: nat = if kp > 0 { kp as nat } else { 0 };
    let n: int = a * pow2(big_k) + sign * pr.0 * pow2((big_k - kp) as nat);
    if mag == 0 {
        assert(mag * t.0 == 0);
        assert(pr == (0nat, 0int));
        assert(big_k == 23);
        assert(sign * pr.0 * pow2((big_k - kp) as nat) == 0) by (nonlinear_arith)
            requires
                pr.0 == 0,
        ;
        assert(a == b);
    } else {
        lemma_exact_binary32(mag, 23);
        assert(kp >= 0);
        assert((big_k - kp) as nat == 0);
        assert(pr.0 == mag * pow2(big_k));
        assert(sign * pr.0 * pow2((big_k - kp) as nat) == sign * mag * pow2(big_k))
            by (nonlinear_arith)
            requires
                pr.0 == mag * pow2(big_k),
                pow2((big_k - kp) as nat) == 1,
        ;
        assert(a + sign * mag == b);
        assert(a * pow2(big_k) + sign * mag * pow2(big_k) == b * pow2(big_k)) by (nonlinear_arith)
            requires
                a + sign * mag == b,
        ;
    }
    assert(n == (b as nat) * pow2(big_k));
    if b > 0 {
        lemma_whole_value_rounds_to_itself(b as nat, big_k);
        lemma_pow2_pos(big_k);
        assert(n > 0) by (nonlinear_arith)
            requires
                n == (b as nat) * pow2(big_k),
                b > 0,
                pow2(big_k) > 0,
        ;
    } else {
        assert(n == 0) by (nonlinear_arith)
            requires
                n == (b as nat) * pow2(big_k),
                b == 0,
        ;
    }
}

/// Interpolation starts at its start and ends at its end: step 0 gives
/// the start colour and the last step (step = denominator) the end colour,
/// exactly, whatever the number of steps.
pub proof fn law_lerp_endpoints(a: u8, b: u8, d: nat)
    requires
        d >= 1,
    ensures
        lerp_comp(a, b, 0, d) == a,
        lerp_comp(a, b, d, d) == b,
{
    lemma_lerp_start(a, b, d);
    lemma_lerp_end(a, b, d);
}

pub open spec fn lerp_spec(start: Seq<u8>, end: Seq<u8>, step: nat, steps: nat) -> Seq<u8> {
    Seq::new(3, |i: int| lerp_comp(start[i], end[i], step, lerp_denominator(steps)))
}

fn lerp_component(a: u8, b: u8, step: usize, denom: usize) -> (r: u8)
    requires
        denom >= 1,
    ensures
        r == lerp_comp(a, b, step as nat, denom as nat),
{
    proof {
        lemma_lerp_literals();
    }
    let (ms, ks) = round_binary32(step as u128, 1);
    let (md, kd) = round_binary32(denom as u128, 1);
    let (mt, kt0) = round_binary32(ms, md);
    proof {
        if step > 0 {
            lemma_exponent_range(step as nat, 1, ks as int, 0, 64, 0, 1);
            lemma_exponent_range(ms as nat, md as nat, kt0 as int, 23, 25, 23, 25);
        }
        lemma_exponent_range(denom as nat, 1, kd as int, 0, 64, 0, 1);
    }
    let kt: i128 = kt0 + ks - kd;
    let neg = b < a;
    let mag: u128 = if neg {
        (a - b) as u128
    } else {
        (b - a) as u128
    };
    proof {
        assert(mt <= 16777216);
        assert(mag * mt <= 255 * 16777216) by (nonlinear_arith)
            requires
                mag <= 255,
                mt <= 16777216,
        ;
    }
    let (mp, kp0) = round_binary32(mag * mt, 1);
    proof {
        if mag > 0 && step > 0 {
            assert(mag * mt >= 8388608 && mag * mt < 0x2_0000_0000) by (nonlinear_arith)
                requires
                    1 <= mag <= 255,
                    8388608 <= mt <= 16777216,
            ;
            lemma_exponent_range((mag * mt) as nat, 1, kp0 as int, 23, 33, 0, 1);
        }
        if !(mag > 0 && step > 0) {
            assert(mag == 0 || mt == 0);
            assert(mag * mt == 0) by (nonlinear_arith)
                requires
                    mag == 0 || mt == 0,
            ;
        }
    }
    assert(-40 <= ks <= 24);
    assert(-40 <= kd <= 24);
    assert(0 <= kt0 <= 25);
    assert(-9 <= kp0 <= 1);
    let kp: i128 = kp0 + kt;
    let big_k: u32 = if kp > 0 {
        kp as u32
    } else {
        0
    };
    let shift: u32 = if kp > 0 {
        0
    } else {
        (-kp) as u32
    };
    let scale = pow2_u128(big_k);
    let lift = pow2_u128(shift);
    proof {
        lemma_pow2_mono(big_k as nat, 90);
        lemma_pow2_mono(shift as nat, 51);
        assert(a * scale <= 255 * 0x400_0000_0000_0000_0000_0000) by (nonlinear_arith)
            requires
                a <= 255,
                scale <= 0x400_0000_0000_0000_0000_0000,
        ;
        assert(mp * lift <= 0x100_0000 * 0x8_0000_0000_0000) by (nonlinear_arith)
            requires
                mp <= 0x100_0000,
                lift <= 0x8_0000_0000_0000,
        ;
    }
    let base: u128 = (a as u128) * scale;
    let part: u128 = mp * lift;
    let ghost sign: int = if b < a { -1int } else { 1int };
    let ghost nspec: int = a * pow2(big_k as nat) + sign * mp * pow2(shift as nat);
    proof {
        let spec_k: nat = if kp > 0 { kp as nat } else { 0 };
        assert(spec_k == big_k as nat);
        assert((spec_k - kp) as nat == shift as nat);
        assert(sign * mp * pow2(shift as nat) == sign * part) by (nonlinear_arith)
            requires
                part == mp * pow2(shift as nat),
        ;
        assert(nspec == base + sign * part);
    }
    let n: u128 = if neg {
        if part >= base {
            return 0;
        }
        base - part
    } else {
        base + part
    };
    assert(nspec == n);
    if n == 0 {
        return 0;
    }
    let (mr, kr0) = round_binary32(n, 1);
    proof {
        lemma_exponent_range(n as nat, 1, kr0 as int, 0, 121, 0, 1);
    }
    let kr: i128 = kr0 + big_k as i128;
    if kr <= 0 {
        proof {
            lemma_pow2_pos((-kr) as nat);
            assert(mr * pow2((-kr) as nat) >= mr) by (nonlinear_arith)
                requires
                    pow2((-kr) as nat) >= 1,
            ;
        }
        return 255;
    }
    if kr >= 26 {
        proof {
            lemma_pow2_mono(26, kr as nat);
            lemma_small_quotient(mr as nat, pow2(kr as nat));
        }
        return 0;
    }
    let d2 = pow2_u128(kr as u32);
    proof {
        lemma_pow2_pos(kr as nat);
        lemma_pow2_mono(kr as nat, 25);
    }
    let v: u128 = mr / d2 + if 2 * (mr % d2) >= d2 {
        1
    } else {
        0
    };
    if v > 255 {
        255
    } else {
        v as u8
    }
}

proof fn lemma_lerp_literals()
    ensures
        pow2(0) == 1,
        pow2(1) == 2,
        pow2(23) == 8388608,
        pow2(25) == 0x200_0000,
        pow2(26) == 0x400_0000,
        pow2(33) == 0x2_0000_0000,
        pow2(51) == 0x8_0000_0000_0000,
        pow2(64) == 0x1_0000_0000_0000_0000,
        pow2(90) == 0x400_0000_0000_0000_0000_0000,
        pow2(121) == 0x200_0000_0000_0000_0000_0000_0000_0000,
{
    lemma2_to64();
    lemma2_to64_rest();
    lemma_pow2_adds(64, 26);
    lemma_pow2_adds(64, 57);
}

proof fn lemma_pow2_mono(a: nat, b: nat)
    requires
        a <= b,
    ensures
        pow2(a) <= pow2(b),
{
    if a < b {
        lemma_pow2_strictly_increases(a, b);
    }
}

/// A significand is too small to reach half of `2^26` or more.
proof fn lemma_small_quotient(m: nat, d: nat)
    requires
        m <= 0x100_0000,
        d >= 0x400_0000,
    ensures
        m / d == 0,
        m % d == m,
        2 * (m % d) < d,
{
    vstd::arithmetic::div_mod::lemma_small_mod(m, d);
    assert(m / d == 0) by (nonlinear_arith)
        requires
            m < d,
    {
        vstd::arithmetic::div_mod::lemma_basic_div(m as int, d as int);
    }
}

/// Linear interpolation from `start` (step 0) to `end` (last step).
pub fn lerp_color(start: [u8; 3], end: [u8; 3], step: usize, steps: usize) -> (r: [u8; 3])
    ensures
        r@ == lerp_spec(start@, end@, step as nat, steps as nat),
{
    let denom: usize = if steps >= 2 { steps - 1 } else { 1 };
    let r = [
        lerp_component(start[0], end[0], step, denom),
        lerp_component(start[1], end[1], step, denom),
        lerp_component(start[2], end[2], step, denom),
    ];
    assert(r@ =~= lerp_spec(start@, end@, step as nat, steps as nat));
    r
}

/// Number of interpolation steps for a speed percentage: `max` at speed 0,
/// shrinking linearly towards `min`, never below `min`.
pub open spec fn transition_steps_spec(speed: u8, min: nat, max: nat) -> nat {
    let span: nat = if max > min { (max - min) as nat } else { 0 };
    let cut: nat = (span * speed / 100) as nat;
    let left: nat = if max > cut { (max - cut) as nat } else { 0 };
    if left < min {
        min
    } else {
        left
    }
}

pub fn transition_steps(speed: u8, min: usize, max: usize) -> (r: usize)
    requires
        (if max > min { max - min } else { 0 }) * 255 <= usize::MAX,
    ensures
        r == transition_steps_spec(speed, min as nat, max as nat),
        r >= min,
{
    let span: usize = if max > min { max - min } else { 0 };
    assert(span * (speed as usize) <= usize::MAX) by (nonlinear_arith)
        requires span * 255 <= usize::MAX, speed <= 255, span >= 0;
    let cut = span * (speed as usize) / 100;
    let left: usize = if max > cut { max - cut } else { 0 };
    if left < min {
        min
    } else {
        left
    }
}

/// Delay between frames, in milliseconds: `140 - speed`, kept within
/// `24..=140`.
pub open spec fn frame_delay_spec(speed: u8) -> nat {
    let d: nat = if speed < 140 { (140 - speed) as nat } else { 0 };
    if d < 24 {
        24
    } else {
        d
    }
}

pub fn effect_frame_delay(speed: u8) -> (r: u64)
    ensures
        r == frame_delay_spec(speed),
        24 <= r <= 140,
{
    let d: u64 = if (speed as u64) < 140 { 140 - (speed as u64) } else { 0 };
    if d < 24 {
        24
    } else {
        d
    }
}

/// The status colour shown for the live (green) and muted (red) state.
pub fn live_mute_lighting_color(is_live: bool) -> (r: [u8; 3])
    ensures
        r@ == (if is_live { seq![0u8, 255u8, 70u8] } else { seq![255u8, 0u8, 28u8] }),
{
    let r = if is_live { [0u8, 255u8, 70u8] } else { [255u8, 0u8, 28u8] };
    assert(r@ =~= (if is_live { seq![0u8, 255u8, 70u8] } else { seq![255u8, 0u8, 28u8] }));
    r
}

// ---------------------------------------------------------------------------
// Frames
// ---------------------------------------------------------------------------

pub open spec fn frame_view(f: LightingFrame) -> Seq<Seq<u8>> {
    f@.map_values(|c: [u8; 3]| c@)
}

pub open spec fn frames_view(fs: Seq<LightingFrame>) -> Seq<Seq<Seq<u8>>> {
    fs.map_values(|f: LightingFrame| frame_view(f))
}

pub open spec fn colors_view(cs: Seq<[u8; 3]>) -> Seq<Seq<u8>> {
    cs.map_values(|c: [u8; 3]| c@)
}

pub open spec fn solid_spec(c: Seq<u8>) -> Seq<Seq<u8>> {
    Seq::new(16, |i: int| c)
}

pub fn solid_frame(color: [u8; 3]) -> (r: LightingFrame)
    ensures
        frame_view(r) == solid_spec(color@),
{
    let r = [color; 16];
    assert(frame_view(r) =~= solid_spec(color@));
    r
}

/// Every third cell (0, 3, ..., 15) lit in `c`, the rest dark.
pub open spec fn flash_spec(c: Seq<u8>) -> Seq<Seq<u8>> {
    Seq::new(16, |i: int| if i % 3 == 0 { c } else { black() })
}

/// `Top` keeps cell 0 only, `Bottom` keeps cell 1 only, `All` keeps every
/// cell.
pub open spec fn target_spec(f: Seq<Seq<u8>>, target: LightTarget) -> Seq<Seq<u8>> {
    match target {
        LightTarget::All => f,
        LightTarget::Top => Seq::new(16, |i: int| if i == 0 { f[0] } else { black() }),
        LightTarget::Bottom => Seq::new(16, |i: int| if i == 1 { f[1] } else { black() }),
    }
}

pub fn apply_light_target(frame: LightingFrame, target: LightTarget) -> (r: LightingFrame)
    ensures
        frame_view(r) == target_spec(frame_view(frame), target),
{
    let mut f = frame;
    match target {
        LightTarget::All => {},
        LightTarget::Top => {
            f[1] = [0, 0, 0];
            let mut i: usize = 2;
            while i < 16
                invariant
                    2 <= i <= 16,
                    f[0] == frame[0],
                    forall|j: int| 1 <= j < i ==> (#[trigger] f[j])@ == black(),
                decreases 16 - i,
            {
                f[i] = [0, 0, 0];
                assert(f[i as int]@ =~= black());
                i = i + 1;
            }
            assert(f[1]@ =~= black());
        },
        LightTarget::Bottom => {
            f[0] = [0, 0, 0];
            let mut i: usize = 2;
            while i < 16
                invariant
                    2 <= i <= 16,
                    f[1] == frame[1],
                    (f[0])@ == black(),
                    forall|j: int| 2 <= j < i ==> (#[trigger] f[j])@ == black(),
                decreases 16 - i,
            {
                f[i] = [0, 0, 0];
                assert(f[i as int]@ =~= black());
                i = i + 1;
            }
        },
    }
    assert(frame_view(f) =~= target_spec(frame_view(frame), target));
    f
}

/// A split-layer frame: cell 0 from the top layer, cell 1 from the bottom
/// layer, every other cell dark.
pub open spec fn combine_spec(top: Seq<Seq<u8>>, bottom: Seq<Seq<u8>>) -> Seq<Seq<u8>> {
    Seq::new(16, |i: int| if i == 0 { top[0] } else if i == 1 { bottom[0] } else { black() })
}

pub fn combine_zone_frames(top: LightingFrame, bottom: LightingFrame) -> (r: LightingFrame)
    ensures
        frame_view(r) == combine_spec(frame_view(top), frame_view(bottom)),
{
    let mut f = [[0u8, 0u8, 0u8]; 16];
    assert(f[0]@ =~= black());
    f[0] = top[0];
    f[1] = bottom[0];
    assert(frame_view(f) =~= combine_spec(frame_view(top), frame_view(bottom))) by {
        assert forall|i: int| 2 <= i < 16 implies (#[trigger] f[i])@ == black() by {
            assert(f[i]@ =~= black());
        }
    }
    f
}

/// The frame packet: for cell `i`, bytes `4i..4i+4` are `81 r g b`.
pub open spec fn frame_packet_spec(f: Seq<Seq<u8>>) -> Seq<u8> {
    Seq::new(64, |k: int| if k % 4 == 0 { 0x81u8 } else { f[k / 4][k % 4 - 1] })
}

pub fn build_frame_packet(frame: LightingFrame) -> (r: [u8; 64])
    ensures
        r@ == frame_packet_spec(frame_view(frame)),
{
    let mut packet = [0u8; 64];
    let mut i: usize = 0;
    while i < 16
        invariant
            i <= 16,
            forall|k: int|
                0 <= k < 4 * i ==> #[trigger] packet@[k] == frame_packet_spec(frame_view(frame))[k],
        decreases 16 - i,
    {
        let offset = i * 4;
        let color = frame[i];
        packet[offset] = 0x81;
        packet[offset + 1] = color[0];
        packet[offset + 2] = color[1];
        packet[offset + 3] = color[2];
        proof {
            assert forall|k: int| 0 <= k < 4 * (i + 1) implies #[trigger] packet@[k]
                == frame_packet_spec(frame_view(frame))[k] by {
                if k >= 4 * i {
                    assert(k / 4 == i);
                    assert(k % 4 == k - 4 * i);
                }
            }
        }
        i = i + 1;
    }
    assert(packet@ =~= frame_packet_spec(frame_view(frame)));
    packet
}

/// Colour `i` of a frame packet is held in bytes `4i+1..4i+4`: the frame
/// can be read back from the packet it is written in.
pub proof fn law_frame_packet_holds_frame(frame: LightingFrame, i: int, c: int)
    requires
        0 <= i < 16,
        0 <= c < 3,
    ensures
        frame_packet_spec(frame_view(frame))[4 * i + 1 + c] == frame[i][c],
        frame_packet_spec(frame_view(frame))[4 * i] == 0x81,
{
    assert((4 * i + 1 + c) / 4 == i);
    assert((4 * i + 1 + c) % 4 == 1 + c);
    assert((4 * i) % 4 == 0);
}

// ---------------------------------------------------------------------------
// Effects
// ---------------------------------------------------------------------------

proof fn lemma_block(i: int, r: int, p: int)
    requires
        0 <= i,
        0 <= r < p,
    ensures
        (i * p + r) / p == i,
        (i * p + r) % p == r,
{
    lemma_fundamental_div_mod_converse(i * p + r, p, i, r);
}

/// The colour ramp of the Cycle and Wave effects: for each colour, `steps`
/// steps towards the next colour (the last colour ramps back to the first).
pub open spec fn cycle_ramp(cols: Seq<Seq<u8>>, steps: nat) -> Seq<Seq<u8>> {
    Seq::new(
        cols.len() * steps,
        |j: int|
            lerp_spec(
                cols[j / steps as int],
                cols[(j / steps as int + 1) % cols.len() as int],
                (j % steps as int) as nat,
                steps,
            ),
    )
}

pub open spec fn wave_span(len: nat) -> nat {
    if len / 2 >= 1 {
        len / 2
    } else {
        1
    }
}

/// Frame `k` of Cycle is ramp colour `k` on every cell; with `wave`, cell
/// `c` shows ramp colour `k + c * span / 16` (wrapping), `span` being half
/// the ramp.
pub open spec fn cycle_spec(cols: Seq<Seq<u8>>, speed: u8, wave: bool) -> Seq<Seq<Seq<u8>>> {
    let q = cycle_ramp(cols, transition_steps_spec(speed, 8, 48));
    if q.len() == 0 {
        seq![solid_spec(black())]
    } else {
        Seq::new(
            q.len(),
            |k: int|
                if wave {
                    Seq::new(16, |c: int| q[(k + c * wave_span(q.len()) / 16) % q.len() as int])
                } else {
                    solid_spec(q[k])
                },
        )
    }
}

pub fn cycle_frames(colors: &[[u8; 3]], speed: u8, wave: bool) -> (r: Vec<LightingFrame>)
    requires
        colors@.len() * 48 * 16 <= usize::MAX,
    ensures
        frames_view(r@) == cycle_spec(colors_view(colors@), speed, wave),
        r@.len() >= 1,
{
    let ghost cols = colors_view(colors@);
    let steps = transition_steps(speed, 8, 48);
    assert(steps <= 48);
    let mut sequence: Vec<[u8; 3]> = Vec::new();
    let mut index: usize = 0;
    while index < colors.len()
        invariant
            steps == transition_steps_spec(speed, 8, 48),
            8 <= steps <= 48,
            colors@.len() * 48 * 16 <= usize::MAX,
            index <= colors@.len(),
            cols == colors_view(colors@),
            sequence@.len() == index * steps,
            forall|j: int|
                0 <= j < sequence@.len() ==> (#[trigger] sequence@[j])@ == cycle_ramp(cols, steps as nat)[j],
        decreases colors.len() - index,
    {
        let start = colors[index];
        let end = colors[(index + 1) % colors.len()];
        let mut step: usize = 0;
        while step < steps
            invariant
                steps == transition_steps_spec(speed, 8, 48),
                8 <= steps <= 48,
                colors@.len() * 48 * 16 <= usize::MAX,
                index < colors@.len(),
                step <= steps,
                cols == colors_view(colors@),
                start == colors@[index as int],
                end == colors@[((index + 1) % (colors@.len() as int))],
                sequence@.len() == index * steps + step,
                forall|j: int|
                    0 <= j < sequence@.len() ==> (#[trigger] sequence@[j])@ == cycle_ramp(cols, steps as nat)[j],
            decreases steps - step,
        {
            let c = lerp_color(start, end, step, steps);
            proof {
                let j = index * steps + step;
                lemma_block(index as int, step as int, steps as int);
                assert(index * steps + step < colors@.len() * steps) by (nonlinear_arith)
                    requires index < colors@.len(), step < steps;
                assert(cycle_ramp(cols, steps as nat)[j] == lerp_spec(
                    cols[index as int],
                    cols[((index + 1) % (colors@.len() as int))],
                    step as nat,
                    steps as nat,
                ));
            }
            sequence.push(c);
            step = step + 1;
        }
        proof {
            assert((index + 1) * steps == index * steps + steps) by (nonlinear_arith);
        }
        index = index + 1;
    }
    proof {
        assert(sequence@.len() == cycle_ramp(cols, steps as nat).len());
    }
    if sequence.len() == 0 {
        let r = vec![solid_frame([0, 0, 0])];
        proof {
            assert([0u8, 0u8, 0u8]@ =~= black());
            assert(frames_view(r@) =~= cycle_spec(cols, speed, wave));
        }
        return r;
    }
    let len = sequence.len();
    proof {
        assert(len <= colors@.len() * 48) by (nonlinear_arith)
            requires len == colors@.len() * steps, steps <= 48;
    }
    let span: usize = if len / 2 >= 1 { len / 2 } else { 1 };
    let mut frames: Vec<LightingFrame> = Vec::new();
    let mut k: usize = 0;
    while k < len
        invariant
            len == sequence@.len(),
            len >= 1,
            len * 16 <= usize::MAX,
            span == wave_span(len as nat),
            span <= len,
            k <= len,
            frames@.len() == k,
            forall|j: int| 0 <= j < len ==> (#[trigger] sequence@[j])@ == cycle_ramp(cols, steps as nat)[j],
            cycle_ramp(cols, steps as nat).len() == len,
            forall|j: int|
                0 <= j < k ==> frame_view(#[trigger] frames@[j]) == cycle_spec(cols, speed, wave)[j],
            steps == transition_steps_spec(speed, 8, 48),
        decreases len - k,
    {
        let mut frame = solid_frame(sequence[k]);
        if wave {
            let mut cell: usize = 0;
            while cell < 16
                invariant
                    cell <= 16,
                    len == sequence@.len(),
                    len >= 1,
                    len * 16 <= usize::MAX,
                    span == wave_span(len as nat),
                    span <= len,
                    k < len,
                    forall|c: int|
                        0 <= c < cell ==> (#[trigger] frame[c])@ == sequence@[(k + c * span / 16) % len as int]@,
                decreases 16 - cell,
            {
                proof {
                    assert(cell * span <= 16 * len) by (nonlinear_arith)
                        requires cell < 16, span <= len;
                }
                let offset = (cell * span) / 16;
                assert(offset <= len);
                frame[cell] = sequence[(k + offset) % len];
                cell = cell + 1;
            }
        }
        proof {
            let q = cycle_ramp(cols, steps as nat);
            if wave {
                assert forall|c: int| 0 <= c < 16 implies (#[trigger] frame_view(frame)[c]) == q[(k + c
                    * wave_span(q.len()) / 16) % q.len() as int] by {
                    let idx = (k + c * span / 16) % len as int;
                    lemma_mod_bound(k + c * span / 16, len as int);
                }
                assert(frame_view(frame) =~= cycle_spec(cols, speed, wave)[k as int]);
            } else {
                assert(frame_view(frame) =~= cycle_spec(cols, speed, wave)[k as int]);
            }
        }
        frames.push(frame);
        k = k + 1;
    }
    assert(frames_view(frames@) =~= cycle_spec(cols, speed, wave));
    frames
}


/// Pulse: for each colour, `s` frames fading in from dark, then `s` frames
/// fading out to dark (`s` from 36 down to 6 with speed).
pub open spec fn pulse_spec(cols: Seq<Seq<u8>>, speed: u8) -> Seq<Seq<Seq<u8>>> {
    let s = transition_steps_spec(speed, 6, 36);
    Seq::new(
        cols.len() * (2 * s),
        |j: int|
            {
                let i = j / (2 * s as int);
                let r = j % (2 * s as int);
                if r < s {
                    solid_spec(lerp_spec(black(), cols[i], r as nat, s))
                } else {
                    solid_spec(lerp_spec(cols[i], black(), (r - s) as nat, s))
                }
            },
    )
}

/// Pulse fades each colour in and then out: with `s` steps each way, the
/// sequence has `2s` frames per colour; frame `t` of colour `k`'s first
/// half is the step-`t` interpolation from dark to the colour, and frame
/// `t` of its second half the step-`t` interpolation from the colour back
/// to dark.
pub proof fn law_pulse_fades_in_then_out(cols: Seq<Seq<u8>>, speed: u8, k: int, t: int)
    requires
        0 <= k < cols.len(),
        0 <= t < transition_steps_spec(speed, 6, 36),
    ensures
        ({
            let s = transition_steps_spec(speed, 6, 36);
            &&& s >= 6
            &&& pulse_spec(cols, speed).len() == cols.len() * (2 * s)
            &&& pulse_spec(cols, speed)[k * (2 * s) + t] == solid_spec(
                lerp_spec(seq![0u8, 0u8, 0u8], cols[k], t as nat, s),
            )
            &&& pulse_spec(cols, speed)[k * (2 * s) + s + t] == solid_spec(
                lerp_spec(cols[k], seq![0u8, 0u8, 0u8], t as nat, s),
            )
        }),
{
    let s = transition_steps_spec(speed, 6, 36);
    let span: nat = 30;
    let cut: nat = (span * speed / 100) as nat;
    assert(cut <= 76) by (nonlinear_arith)
        requires
            cut == (span * speed / 100) as nat,
            span == 30,
            speed <= 255,
    ;
    assert(s >= 6);
    let p = 2 * s as int;
    lemma_fundamental_div_mod_converse(k * p + t, p, k, t);
    lemma_fundamental_div_mod_converse(k * p + s + t, p, k, s + t);
    assert(k * p + s + t < cols.len() * p) by (nonlinear_arith)
        requires
            0 <= k < cols.len(),
            0 <= t < s,
            p == 2 * s,
    ;
    assert(black() =~= seq![0u8, 0u8, 0u8]);
}

/// Each pulse starts dark, is at full colour at the end of its fade-in and
/// the start of its fade-out, and ends dark again.
pub proof fn law_pulse_peaks_at_the_colour(cols: Seq<Seq<u8>>, speed: u8, k: int)
    requires
        0 <= k < cols.len(),
        cols[k].len() == 3,
    ensures
        ({
            let s = transition_steps_spec(speed, 6, 36);
            let base = k * (2 * s);
            &&& pulse_spec(cols, speed)[base] == solid_spec(seq![0u8, 0u8, 0u8])
            &&& pulse_spec(cols, speed)[base + s - 1] == solid_spec(cols[k])
            &&& pulse_spec(cols, speed)[base + s] == solid_spec(cols[k])
            &&& pulse_spec(cols, speed)[base + 2 * s - 1] == solid_spec(seq![0u8, 0u8, 0u8])
        }),
{
    let s = transition_steps_spec(speed, 6, 36);
    law_pulse_fades_in_then_out(cols, speed, k, 0);
    law_pulse_fades_in_then_out(cols, speed, k, s - 1);
    let d = lerp_denominator(s);
    assert(d == s - 1);
    let c = cols[k];
    let z = seq![0u8, 0u8, 0u8];
    assert forall|i: int| 0 <= i < 3 implies lerp_comp(z[i], c[i], 0, d) == z[i] && lerp_comp(
        z[i],
        c[i],
        d,
        d,
    ) == c[i] && lerp_comp(c[i], z[i], 0, d) == c[i] && lerp_comp(c[i], z[i], d, d) == z[i] by {
        law_lerp_endpoints(z[i], c[i], d);
        law_lerp_endpoints(c[i], z[i], d);
    }
    assert(lerp_spec(z, c, 0, s) =~= z);
    assert(lerp_spec(z, c, (s - 1) as nat, s) =~= c);
    assert(lerp_spec(c, z, 0, s) =~= c);
    assert(lerp_spec(c, z, (s - 1) as nat, s) =~= z);
    assert(k * (2 * s) + s + (s - 1) == k * (2 * s) + 2 * s - 1);
}

pub fn pulse_frames(colors: &[[u8; 3]], speed: u8) -> (r: Vec<LightingFrame>)
    ensures
        frames_view(r@) == pulse_spec(colors_view(colors@), speed),
        colors@.len() >= 1 ==> r@.len() >= 1,
{
    let ghost cols = colors_view(colors@);
    let steps = transition_steps(speed, 6, 36);
    let ghost period = 2 * steps;
    let mut frames: Vec<LightingFrame> = Vec::new();
    let mut index: usize = 0;
    while index < colors.len()
        invariant
            steps == transition_steps_spec(speed, 6, 36),
            6 <= steps <= 36,
            period == 2 * steps,
            index <= colors@.len(),
            cols == colors_view(colors@),
            frames@.len() == index * period,
            forall|j: int|
                0 <= j < frames@.len() ==> frame_view(#[trigger] frames@[j]) == pulse_spec(cols, speed)[j],
        decreases colors.len() - index,
    {
        let color = colors[index];
        let mut step: usize = 0;
        while step < steps
            invariant
                steps == transition_steps_spec(speed, 6, 36),
                6 <= steps <= 36,
                period == 2 * steps,
                index < colors@.len(),
                step <= steps,
                cols == colors_view(colors@),
                color == colors@[index as int],
                frames@.len() == index * period + step,
                forall|j: int|
                    0 <= j < frames@.len() ==> frame_view(#[trigger] frames@[j]) == pulse_spec(cols, speed)[j],
            decreases steps - step,
        {
            let f = solid_frame(lerp_color([0, 0, 0], color, step, steps));
            proof {
                lemma_block(index as int, step as int, period);
                assert(index * period + step < colors@.len() * period) by (nonlinear_arith)
                    requires index < colors@.len(), step < period;
                assert([0u8, 0u8, 0u8]@ =~= black());
            }
            frames.push(f);
            step = step + 1;
        }
        let mut step: usize = 0;
        while step < steps
            invariant
                steps == transition_steps_spec(speed, 6, 36),
                6 <= steps <= 36,
                period == 2 * steps,
                index < colors@.len(),
                step <= steps,
                cols == colors_view(colors@),
                color == colors@[index as int],
                frames@.len() == index * period + steps + step,
                forall|j: int|
                    0 <= j < frames@.len() ==> frame_view(#[trigger] frames@[j]) == pulse_spec(cols, speed)[j],
            decreases steps - step,
        {
            let f = solid_frame(lerp_color(color, [0, 0, 0], step, steps));
            proof {
                lemma_block(index as int, steps + step, period);
                assert(index * period + steps + step < colors@.len() * period) by (nonlinear_arith)
                    requires index < colors@.len(), steps + step < period;
                assert([0u8, 0u8, 0u8]@ =~= black());
            }
            frames.push(f);
            step = step + 1;
        }
        proof {
            assert((index + 1) * period == index * period + period) by (nonlinear_arith);
        }
        index = index + 1;
    }
    assert(colors@.len() >= 1 ==> frames@.len() >= 1) by (nonlinear_arith)
        requires frames@.len() == colors@.len() * period, period >= 1;
    assert(frames_view(frames@) =~= pulse_spec(cols, speed));
    frames
}

/// Blink: for each colour, `lit` frames of the colour then `dark` frames
/// of black (`lit` from 16 and `dark` from 24 down to 2 with speed).
pub open spec fn blink_spec(cols: Seq<Seq<u8>>, speed: u8) -> Seq<Seq<Seq<u8>>> {
    let lit = transition_steps_spec(speed, 2, 16);
    let dark = transition_steps_spec(speed, 2, 24);
    Seq::new(
        cols.len() * (lit + dark),
        |j: int|
            {
                let i = j / ((lit + dark) as int);
                let r = j % ((lit + dark) as int);
                if r < lit {
                    solid_spec(cols[i])
                } else {
                    solid_spec(black())
                }
            },
    )
}

pub fn blink_frames(colors: &[[u8; 3]], speed: u8) -> (r: Vec<LightingFrame>)
    ensures
        frames_view(r@) == blink_spec(colors_view(colors@), speed),
        colors@.len() >= 1 ==> r@.len() >= 1,
{
    let ghost cols = colors_view(colors@);
    let lit = transition_steps(speed, 2, 16);
    let dark = transition_steps(speed, 2, 24);
    let ghost period = lit + dark;
    let mut frames: Vec<LightingFrame> = Vec::new();
    let mut index: usize = 0;
    while index < colors.len()
        invariant
            lit == transition_steps_spec(speed, 2, 16),
            dark == transition_steps_spec(speed, 2, 24),
            2 <= lit <= 16,
            2 <= dark <= 24,
            period == lit + dark,
            index <= colors@.len(),
            cols == colors_view(colors@),
            frames@.len() == index * period,
            forall|j: int|
                0 <= j < frames@.len() ==> frame_view(#[trigger] frames@[j]) == blink_spec(cols, speed)[j],
        decreases colors.len() - index,
    {
        let color = colors[index];
        let mut n: usize = 0;
        while n < lit
            invariant
                lit == transition_steps_spec(speed, 2, 16),
                dark == transition_steps_spec(speed, 2, 24),
                2 <= lit <= 16,
                2 <= dark <= 24,
                period == lit + dark,
                index < colors@.len(),
                n <= lit,
                cols == colors_view(colors@),
                color == colors@[index as int],
                frames@.len() == index * period + n,
                forall|j: int|
                    0 <= j < frames@.len() ==> frame_view(#[trigger] frames@[j]) == blink_spec(cols, speed)[j],
            decreases lit - n,
        {
            let f = solid_frame(color);
            proof {
                lemma_block(index as int, n as int, period);
                assert(index * period + n < colors@.len() * period) by (nonlinear_arith)
                    requires index < colors@.len(), n < period;
            }
            frames.push(f);
            n = n + 1;
        }
        let mut n: usize = 0;
        while n < dark
            invariant
                lit == transition_steps_spec(speed, 2, 16),
                dark == transition_steps_spec(speed, 2, 24),
                2 <= lit <= 16,
                2 <= dark <= 24,
                period == lit + dark,
                index < colors@.len(),
                n <= dark,
                cols == colors_view(colors@),
                frames@.len() == index * period + lit + n,
                forall|j: int|
                    0 <= j < frames@.len() ==> frame_view(#[trigger] frames@[j]) == blink_spec(cols, speed)[j],
            decreases dark - n,
        {
            let f = solid_frame([0, 0, 0]);
            proof {
                lemma_block(index as int, lit + n, period);
                assert(index * period + lit + n < colors@.len() * period) by (nonlinear_arith)
                    requires index < colors@.len(), lit + n < period;
                assert([0u8, 0u8, 0u8]@ =~= black());
            }
            frames.push(f);
            n = n + 1;
        }
        proof {
            assert((index + 1) * period == index * period + period) by (nonlinear_arith);
        }
        index = index + 1;
    }
    assert(colors@.len() >= 1 ==> frames@.len() >= 1) by (nonlinear_arith)
        requires frames@.len() == colors@.len() * period, period >= 1;
    assert(frames_view(frames@) =~= blink_spec(cols, speed));
    frames
}

/// Lightning: for each colour, `flash` frames with every third cell lit,
/// `fade` frames fading the colour out, then one dark frame (`flash` from
/// 6 down to 1 and `fade` from 42 down to 8 with speed).
pub open spec fn lightning_spec(cols: Seq<Seq<u8>>, speed: u8) -> Seq<Seq<Seq<u8>>> {
    let flash = transition_steps_spec(speed, 1, 6);
    let fade = transition_steps_spec(speed, 8, 42);
    let p = flash + fade + 1;
    Seq::new(
        cols.len() * p,
        |j: int|
            {
                let i = j / (p as int);
                let r = j % (p as int);
                if r < flash {
                    flash_spec(cols[i])
                } else if r < flash + fade {
                    solid_spec(lerp_spec(cols[i], black(), (r - flash) as nat, fade))
                } else {
                    solid_spec(black())
                }
            },
    )
}

fn flash_frame(color: [u8; 3]) -> (r: LightingFrame)
    ensures
        frame_view(r) == flash_spec(color@),
{
    let mut frame = solid_frame([0, 0, 0]);
    assert forall|c: int| 0 <= c < 16 implies (#[trigger] frame[c])@ == black() by {
        assert(frame_view(frame)[c] == frame[c]@);
        assert([0u8, 0u8, 0u8]@ =~= black());
    }
    let mut cell: usize = 0;
    while cell < 16
        invariant
            cell <= 18,
            cell % 3 == 0,
            forall|c: int| 0 <= c < 16 ==> (#[trigger] frame[c])@ == (if c % 3 == 0 && c < cell {
                color@
            } else {
                black()
            }),
        decreases 18 - cell,
    {
        frame[cell] = color;
        cell = cell + 3;
    }
    assert(frame_view(frame) =~= flash_spec(color@));
    frame
}

pub fn lightning_frames(colors: &[[u8; 3]], speed: u8) -> (r: Vec<LightingFrame>)
    ensures
        frames_view(r@) == lightning_spec(colors_view(colors@), speed),
        colors@.len() >= 1 ==> r@.len() >= 1,
{
    let ghost cols = colors_view(colors@);
    let flash = transition_steps(speed, 1, 6);
    let fade = transition_steps(speed, 8, 42);
    let ghost period = flash + fade + 1;
    let mut frames: Vec<LightingFrame> = Vec::new();
    let mut index: usize = 0;
    while index < colors.len()
        invariant
            flash == transition_steps_spec(speed, 1, 6),
            fade == transition_steps_spec(speed, 8, 42),
            1 <= flash <= 6,
            8 <= fade <= 42,
            period == flash + fade + 1,
            index <= colors@.len(),
            cols == colors_view(colors@),
            frames@.len() == index * period,
            forall|j: int|
                0 <= j < frames@.len() ==> frame_view(#[trigger] frames@[j]) == lightning_spec(cols, speed)[j],
        decreases colors.len() - index,
    {
        let color = colors[index];
        let mut n: usize = 0;
        while n < flash
            invariant
                flash == transition_steps_spec(speed, 1, 6),
                fade == transition_steps_spec(speed, 8, 42),
                1 <= flash <= 6,
                8 <= fade <= 42,
                period == flash + fade + 1,
                index < colors@.len(),
                n <= flash,
                cols == colors_view(colors@),
                color == colors@[index as int],
                frames@.len() == index * period + n,
                forall|j: int|
                    0 <= j < frames@.len() ==> frame_view(#[trigger] frames@[j]) == lightning_spec(cols, speed)[j],
            decreases flash - n,
        {
            let f = flash_frame(color);
            proof {
                lemma_block(index as int, n as int, period);
                assert(index * period + n < colors@.len() * period) by (nonlinear_arith)
                    requires index < colors@.len(), n < period;
            }
            frames.push(f);
            n = n + 1;
        }
        let mut step: usize = 0;
        while step < fade
            invariant
                flash == transition_steps_spec(speed, 1, 6),
                fade == transition_steps_spec(speed, 8, 42),
                1 <= flash <= 6,
                8 <= fade <= 42,
                period == flash + fade + 1,
                index < colors@.len(),
                step <= fade,
                cols == colors_view(colors@),
                color == colors@[index as int],
                frames@.len() == index * period + flash + step,
                forall|j: int|
                    0 <= j < frames@.len() ==> frame_view(#[trigger] frames@[j]) == lightning_spec(cols, speed)[j],
            decreases fade - step,
        {
            let f = solid_frame(lerp_color(color, [0, 0, 0], step, fade));
            proof {
                lemma_block(index as int, flash + step, period);
                assert(index * period + flash + step < colors@.len() * period) by (nonlinear_arith)
                    requires index < colors@.len(), flash + step < period;
                assert([0u8, 0u8, 0u8]@ =~= black());
            }
            frames.push(f);
            step = step + 1;
        }
        let f = solid_frame([0, 0, 0]);
        proof {
            lemma_block(index as int, flash + fade, period);
            assert(index * period + flash + fade < colors@.len() * period) by (nonlinear_arith)
                requires index < colors@.len(), flash + fade < period;
            assert([0u8, 0u8, 0u8]@ =~= black());
        }
        frames.push(f);
        proof {
            assert((index + 1) * period == index * period + period) by (nonlinear_arith);
        }
        index = index + 1;
    }
    assert(colors@.len() >= 1 ==> frames@.len() >= 1) by (nonlinear_arith)
        requires frames@.len() == colors@.len() * period, period >= 1;
    assert(frames_view(frames@) =~= lightning_spec(cols, speed));
    frames
}


// ---------------------------------------------------------------------------
// Programs
// ---------------------------------------------------------------------------

/// Why a lighting operation failed.
#[derive(Clone, Debug)]
pub enum LightingError {
    NoDevice,
    Hid(String),
    Invalid(String),
}

impl LightingError {
    /// The text the error displays.
    pub fn message(&self) -> (r: String)
        ensures
            r@ == (match self {
                LightingError::NoDevice => "No supported QuadCast S lighting HID interface detected."@,
                LightingError::Hid(m) => m@,
                LightingError::Invalid(m) => m@,
            }),
    {
        match self {
            LightingError::NoDevice => crate::text::owned(
                "No supported QuadCast S lighting HID interface detected.",
            ),
            LightingError::Hid(m) => m.clone(),
            LightingError::Invalid(m) => m.clone(),
        }
    }
}

/// What a lighting stream shows.
#[derive(Clone, Debug)]
pub struct LightingProgram {
    pub effect: Effect,
    pub target: LightTarget,
    pub split_layers: bool,
    pub top_effect: Effect,
    pub bottom_effect: Effect,
    pub colors: Vec<[u8; 3]>,
    pub speed: u8,
    pub brightness: u8,
}

/// The largest palette the frame builders accept (the cycle ramp must
/// stay addressable).
pub open spec fn palette_fits(n: nat) -> bool {
    n * 48 * 16 <= usize::MAX
}

/// The palette the effects use: the program's colours (pure green when it
/// has none), each scaled by the brightness.
pub open spec fn normalized_spec(cols: Seq<Seq<u8>>, brightness: u8) -> Seq<Seq<u8>> {
    let base = if cols.len() == 0 {
        seq![seq![0u8, 255u8, 0u8]]
    } else {
        cols
    };
    base.map_values(|c: Seq<u8>| scale_spec(c, brightness))
}

pub fn normalized_colors(program: &LightingProgram) -> (r: Vec<[u8; 3]>)
    ensures
        colors_view(r@) == normalized_spec(colors_view(program.colors@), program.brightness),
        r@.len() >= 1,
        r@.len() <= program.colors@.len() || r@.len() == 1,
{
    let ghost cols = colors_view(program.colors@);
    let mut r: Vec<[u8; 3]> = Vec::new();
    if program.colors.len() == 0 {
        r.push(scale_color([0, 255, 0], program.brightness));
        assert([0u8, 255u8, 0u8]@ =~= seq![0u8, 255u8, 0u8]);
        assert(colors_view(r@) =~= normalized_spec(cols, program.brightness));
        return r;
    }
    let mut i: usize = 0;
    while i < program.colors.len()
        invariant
            i <= program.colors@.len(),
            program.colors@.len() >= 1,
            cols == colors_view(program.colors@),
            r@.len() == i,
            forall|j: int|
                0 <= j < i ==> (#[trigger] r@[j])@ == scale_spec(cols[j], program.brightness),
        decreases program.colors.len() - i,
    {
        r.push(scale_color(program.colors[i], program.brightness));
        i = i + 1;
    }
    assert(colors_view(r@) =~= normalized_spec(cols, program.brightness));
    r
}

/// The frames of one effect over a (normalized) palette.
pub open spec fn effect_frames_spec(effect: Effect, cols: Seq<Seq<u8>>, speed: u8) -> Seq<
    Seq<Seq<u8>>,
> {
    match effect {
        Effect::Solid => seq![solid_spec(cols[0])],
        Effect::Cycle => cycle_spec(cols, speed, false),
        Effect::Wave => cycle_spec(cols, speed, true),
        Effect::Pulse => pulse_spec(cols, speed),
        Effect::Blink => blink_spec(cols, speed),
        Effect::Lightning => lightning_spec(cols, speed),
        Effect::VuMeter => seq![solid_spec(black())],
    }
}

pub open spec fn program_palette(program: LightingProgram) -> Seq<Seq<u8>> {
    normalized_spec(colors_view(program.colors@), program.brightness)
}

pub fn build_effect_frames(effect: Effect, program: &LightingProgram) -> (r: Vec<LightingFrame>)
    requires
        palette_fits(program.colors@.len()),
    ensures
        frames_view(r@) == effect_frames_spec(effect, program_palette(*program), program.speed),
        r@.len() >= 1,
{
    let colors = normalized_colors(program);
    let r = match effect {
        Effect::Solid => vec![solid_frame(colors[0])],
        Effect::Cycle => cycle_frames(colors.as_slice(), program.speed, false),
        Effect::Wave => cycle_frames(colors.as_slice(), program.speed, true),
        Effect::Pulse => pulse_frames(colors.as_slice(), program.speed),
        Effect::Blink => blink_frames(colors.as_slice(), program.speed),
        Effect::Lightning => lightning_frames(colors.as_slice(), program.speed),
        Effect::VuMeter => vec![solid_frame([0, 0, 0])],
    };
    proof {
        assert([0u8, 0u8, 0u8]@ =~= black());
        assert(colors_view(colors@)[0] == colors@[0]@);
        assert(frames_view(r@) =~= effect_frames_spec(
            effect,
            program_palette(*program),
            program.speed,
        ));
    }
    r
}

/// The frame lists a stream runs through: the effect's frames, or, with
/// split layers, one list for the top zone and one for the bottom zone.
pub type ProgramFrames = (Vec<LightingFrame>, Vec<LightingFrame>, Vec<LightingFrame>);

/// The frame lists never come out empty, so this always succeeds.
pub fn build_program_frames(program: &LightingProgram) -> (r: Result<ProgramFrames, LightingError>)
    requires
        palette_fits(program.colors@.len()),
    ensures
        r is Ok,
        r matches Ok((frames, top, bottom)) && (if program.split_layers {
            &&& frames@.len() == 0
            &&& frames_view(top@) == effect_frames_spec(program.top_effect, program_palette(*program), program.speed)
            &&& frames_view(bottom@) == effect_frames_spec(program.bottom_effect, program_palette(*program), program.speed)
            &&& top@.len() >= 1 && bottom@.len() >= 1
        } else {
            &&& frames_view(frames@) == effect_frames_spec(program.effect, program_palette(*program), program.speed)
            &&& frames@.len() >= 1
            &&& top@.len() == 0 && bottom@.len() == 0
        }),
{
    let frames = if program.split_layers {
        Vec::new()
    } else {
        build_effect_frames(program.effect, program)
    };
    if !program.split_layers && frames.len() == 0 {
        return Err(LightingError::Invalid(crate::text::owned("No lighting frames were generated.")));
    }
    let top_frames = if program.split_layers {
        build_effect_frames(program.top_effect, program)
    } else {
        Vec::new()
    };
    let bottom_frames = if program.split_layers {
        build_effect_frames(program.bottom_effect, program)
    } else {
        Vec::new()
    };
    if program.split_layers && (top_frames.len() == 0 || bottom_frames.len() == 0) {
        return Err(
            LightingError::Invalid(crate::text::owned("No layered lighting frames were generated.")),
        );
    }
    Ok((frames, top_frames, bottom_frames))
}

// ---------------------------------------------------------------------------
// Streams
// ---------------------------------------------------------------------------

/// A running lighting stream: the frame lists of a program and where in
/// them the next frame comes from.  `ticks` counts the frames produced.
pub struct LightingStream {
    pub split_layers: bool,
    pub target: LightTarget,
    pub vu_meter: bool,
    pub frame_delay_ms: u64,
    pub frames: Vec<LightingFrame>,
    pub top_frames: Vec<LightingFrame>,
    pub bottom_frames: Vec<LightingFrame>,
    pub cursor: usize,
    pub top_cursor: usize,
    pub bottom_cursor: usize,
    pub ticks: Ghost<nat>,
}

impl LightingStream {
    pub open spec fn wf(&self) -> bool {
        if self.split_layers {
            &&& self.top_frames@.len() >= 1
            &&& self.bottom_frames@.len() >= 1
            &&& self.top_cursor == self.ticks@ % self.top_frames@.len()
            &&& self.bottom_cursor == self.ticks@ % self.bottom_frames@.len()
        } else {
            &&& self.frames@.len() >= 1
            &&& self.cursor == self.ticks@ % self.frames@.len()
        }
    }

    /// The frame the stream shows at tick `t`: with split layers the top
    /// and bottom lists advance together and are combined, otherwise the
    /// effect's frames are cycled and cut down to the target zone.
    pub open spec fn frame_at(&self, t: nat) -> Seq<Seq<u8>> {
        if self.split_layers {
            combine_spec(
                frame_view(self.top_frames@[(t % self.top_frames@.len()) as int]),
                frame_view(self.bottom_frames@[(t % self.bottom_frames@.len()) as int]),
            )
        } else {
            target_spec(frame_view(self.frames@[(t % self.frames@.len()) as int]), self.target)
        }
    }

    /// Produces the next frame and advances the stream by one tick.
    pub fn next_frame(&mut self) -> (r: LightingFrame)
        requires
            old(self).wf(),
        ensures
            final(self).wf(),
            frame_view(r) == old(self).frame_at(old(self).ticks@),
            final(self).ticks@ == old(self).ticks@ + 1,
            final(self).split_layers == old(self).split_layers,
            final(self).target == old(self).target,
            final(self).vu_meter == old(self).vu_meter,
            final(self).frame_delay_ms == old(self).frame_delay_ms,
            final(self).frames@ == old(self).frames@,
            final(self).top_frames@ == old(self).top_frames@,
            final(self).bottom_frames@ == old(self).bottom_frames@,
    {
        let ghost t = self.ticks@;
        if self.split_layers {
            proof {
                lemma_mod_step(t as int, self.top_frames@.len() as int);
                lemma_mod_step(t as int, self.bottom_frames@.len() as int);
                assert(self.top_cursor as int == (t as int) % (self.top_frames@.len() as int));
                assert(self.bottom_cursor as int == (t as int) % (self.bottom_frames@.len() as int));
            }
            let top = self.top_frames[self.top_cursor];
            let bottom = self.bottom_frames[self.bottom_cursor];
            let frame = combine_zone_frames(top, bottom);
            let top_len = self.top_frames.len();
            let bottom_len = self.bottom_frames.len();
            self.top_cursor = if self.top_cursor + 1 == top_len {
                0
            } else {
                self.top_cursor + 1
            };
            self.bottom_cursor = if self.bottom_cursor + 1 == bottom_len {
                0
            } else {
                self.bottom_cursor + 1
            };
            self.ticks = Ghost(t + 1);
            frame
        } else {
            proof {
                lemma_mod_step(t as int, self.frames@.len() as int);
                assert(self.cursor as int == (t as int) % (self.frames@.len() as int));
            }
            let frame = apply_light_target(self.frames[self.cursor], self.target);
            let len = self.frames.len();
            self.cursor = if self.cursor + 1 == len {
                0
            } else {
                self.cursor + 1
            };
            self.ticks = Ghost(t + 1);
            frame
        }
    }

    /// A frame computed outside the stream (the VU meter) cut down to the
    /// target zone, as the stream does with its own frames.
    pub fn present_frame(&self, frame: LightingFrame) -> (r: LightingFrame)
        ensures
            frame_view(r) == (if self.split_layers {
                frame_view(frame)
            } else {
                target_spec(frame_view(frame), self.target)
            }),
    {
        if self.split_layers {
            frame
        } else {
            apply_light_target(frame, self.target)
        }
    }
}

proof fn lemma_mod_step(t: int, n: int)
    requires
        t >= 0,
        n >= 1,
    ensures
        (t + 1) % n == (if t % n + 1 == n { 0 } else { t % n + 1 }),
        0 <= t % n < n,
{
    let q = t / n;
    let c = t % n;
    vstd::arithmetic::div_mod::lemma_fundamental_div_mod(t, n);
    lemma_mod_bound(t, n);
    if c + 1 == n {
        assert(t + 1 == (q + 1) * n + 0) by (nonlinear_arith)
            requires t == n * q + c, c + 1 == n;
        lemma_fundamental_div_mod_converse(t + 1, n, q + 1, 0);
    } else {
        lemma_fundamental_div_mod_converse(t + 1, n, q, c + 1);
    }
}

/// A stream repeats itself: without layers, after as many frames as the
/// effect has; with layers, after the product of the two layers' lengths.
pub proof fn law_stream_is_periodic(s: LightingStream, t: nat)
    requires
        s.wf(),
    ensures
        !s.split_layers ==> s.frame_at(t + s.frames@.len()) == s.frame_at(t),
        s.split_layers ==> s.frame_at(t + s.top_frames@.len() * s.bottom_frames@.len()) == s.frame_at(
            t,
        ),
{
    if s.split_layers {
        let a = s.top_frames@.len() as int;
        let b = s.bottom_frames@.len() as int;
        vstd::arithmetic::div_mod::lemma_mod_multiples_vanish(b, t as int, a);
        vstd::arithmetic::div_mod::lemma_mod_multiples_vanish(a, t as int, b);
        assert(a * b == b * a) by (nonlinear_arith);
        assert(((t + a * b) as nat) % (a as nat) == t % (a as nat));
        assert(((t + a * b) as nat) % (b as nat) == t % (b as nat));
    } else {
        let n = s.frames@.len() as int;
        vstd::arithmetic::div_mod::lemma_mod_add_multiples_vanish(t as int, n);
        assert(((t + n) as nat) % (n as nat) == t % (n as nat));
    }
}

/// Whether a program is shown with the live VU meter.
pub open spec fn uses_vu_meter(program: LightingProgram) -> bool {
    !program.split_layers && program.effect == Effect::VuMeter
}

/// Prepares the stream that shows `program`, starting at tick 0.
pub fn stream_lighting_program(program: &LightingProgram) -> (r: Result<LightingStream, LightingError>)
    requires
        palette_fits(program.colors@.len()),
    ensures
        r matches Ok(s) && {
            &&& s.wf()
            &&& s.ticks@ == 0
            &&& s.split_layers == program.split_layers
            &&& s.target == program.target
            &&& s.vu_meter == uses_vu_meter(*program)
            &&& s.frame_delay_ms == frame_delay_spec(program.speed)
            &&& if program.split_layers {
                &&& frames_view(s.top_frames@) == effect_frames_spec(program.top_effect, program_palette(*program), program.speed)
                &&& frames_view(s.bottom_frames@) == effect_frames_spec(program.bottom_effect, program_palette(*program), program.speed)
            } else {
                frames_view(s.frames@) == effect_frames_spec(program.effect, program_palette(*program), program.speed)
            }
        },
{
    match build_program_frames(program) {
        Ok((frames, top_frames, bottom_frames)) => {
            let vu_meter = !program.split_layers && program.effect == Effect::VuMeter;
            Ok(LightingStream {
                split_layers: program.split_layers,
                target: program.target,
                vu_meter,
                frame_delay_ms: effect_frame_delay(program.speed),
                frames,
                top_frames,
                bottom_frames,
                cursor: 0,
                top_cursor: 0,
                bottom_cursor: 0,
                ticks: Ghost(0),
            })
        },
        Err(e) => Err(e),
    }
}

/// The two packets that show one frame: the display header, then the frame.
pub fn frame_packets(frame: LightingFrame) -> (r: ([u8; 64], [u8; 64]))
    ensures
        r.0@ == display_header_spec(),
        r.1@ == frame_packet_spec(frame_view(frame)),
{
    (build_display_header_packet(), build_frame_packet(frame))
}

/// The packets that light the whole microphone once in `color` at the
/// given brightness.
pub fn write_solid_lighting_once(color: [u8; 3], brightness: u8) -> (r: ([u8; 64], [u8; 64]))
    ensures
        r.0@ == display_header_spec(),
        r.1@ == frame_packet_spec(solid_spec(scale_spec(color@, brightness))),
{
    let scaled = scale_color(color, brightness);
    frame_packets(solid_frame(scaled))
}


// ---------------------------------------------------------------------------
// Colour text
// ---------------------------------------------------------------------------

/// `#rrggbb` in lower-case hex.
pub open spec fn color_hex_spec(c: Seq<u8>) -> Seq<char> {
    seq!['#'] + byte_hex(c[0]) + byte_hex(c[1]) + byte_hex(c[2])
}

pub fn color_to_hex(color: [u8; 3]) -> (r: String)
    ensures
        r@ == color_hex_spec(color@),
{
    let mut r = String::new();
    push_char(&mut r, '#');
    let mut i: usize = 0;
    while i < 3
        invariant
            i <= 3,
            r@ == seq!['#'] + (if i == 0 {
                Seq::<char>::empty()
            } else if i == 1 {
                byte_hex(color@[0])
            } else if i == 2 {
                byte_hex(color@[0]) + byte_hex(color@[1])
            } else {
                byte_hex(color@[0]) + byte_hex(color@[1]) + byte_hex(color@[2])
            }),
        decreases 3 - i,
    {
        let b = color[i];
        let hi = b / 16;
        let lo = b % 16;
        push_char(&mut r, if hi < 10 { (48u8 + hi) as char } else { (87u8 + hi) as char });
        push_char(&mut r, if lo < 10 { (48u8 + lo) as char } else { (87u8 + lo) as char });
        proof {
            if i == 0 {
                assert(r@ =~= seq!['#'] + byte_hex(color@[0]));
            } else if i == 1 {
                assert(r@ =~= seq!['#'] + (byte_hex(color@[0]) + byte_hex(color@[1])));
            } else {
                assert(r@ =~= seq!['#'] + (byte_hex(color@[0]) + byte_hex(color@[1]) + byte_hex(
                    color@[2],
                )));
            }
        }
        i = i + 1;
    }
    assert(r@ =~= color_hex_spec(color@));
    r
}

/// The text that `parse_rgb_hex` reads: `value` trimmed of white space and
/// then of its leading `#` characters.
pub open spec fn rgb_text(value: Seq<char>) -> Seq<char> {
    trim_start_char_seq(trim_seq(value), '#')
}

pub open spec fn rgb_of(v: nat) -> Seq<u8> {
    seq![((v / 65536) % 256) as u8, ((v / 256) % 256) as u8, (v % 256) as u8]
}

/// What `parse_rgb_hex` gives: an error unless the text is six bytes long
/// and reads as a hexadecimal `u32`; then its three low bytes, high first.
pub open spec fn parse_rgb_spec(value: Seq<char>) -> Result<Seq<u8>, Seq<char>> {
    let t = rgb_text(value);
    if encode_utf8(t).len() != 6 {
        Err("Color must be six hex digits, for example ff0066."@)
    } else {
        match parse_unsigned_spec(t, 16, u32::MAX as nat) {
            Some(v) => Ok(rgb_of(v)),
            None => Err("Color must contain only hex digits."@),
        }
    }
}

pub fn parse_rgb_hex(value: &str) -> (r: Result<[u8; 3], LightingError>)
    ensures
        match parse_rgb_spec(value@) {
            Ok(c) => r matches Ok(rgb) && rgb@ == c,
            Err(m) => r matches Err(LightingError::Invalid(e)) && e@ == m,
        },
{
    let chars = char_vec(value);
    let (a, b) = trim_bounds(&chars);
    let trimmed = sub_vec(&chars, a, b);
    let k = leading_count(&trimmed, '#');
    let text = sub_vec(&trimmed, k, trimmed.len());
    assert(text@ == rgb_text(value@));
    if !crate::text::utf8_len_is(&text, 6) {
        return Err(LightingError::Invalid(crate::text::owned(
            "Color must be six hex digits, for example ff0066.",
        )));
    }
    match parse_unsigned(&text, 16, 0xffff_ffff) {
        Some(v) => {
            assert(parse_unsigned_spec(text@, 16, u32::MAX as nat) == Some(v as nat));
            let c0 = (v >> 16) & 0xff;
            let c1 = (v >> 8) & 0xff;
            let c2 = v & 0xff;
            assert(c0 < 256 && c1 < 256 && c2 < 256) by (bit_vector)
                requires c0 == (v >> 16) & 0xff, c1 == (v >> 8) & 0xff, c2 == v & 0xff;
            let rgb = [c0 as u8, c1 as u8, c2 as u8];
            proof {
                assert(v <= 0xffff_ffff);
                assert((v >> 16) & 0xff == (v / 65536) % 256) by (bit_vector);
                assert((v >> 8) & 0xff == (v / 256) % 256) by (bit_vector);
                assert(v & 0xff == v % 256) by (bit_vector);
                assert(rgb@ =~= rgb_of(v as nat));
            }
            Ok(rgb)
        },
        None => Err(LightingError::Invalid(crate::text::owned("Color must contain only hex digits."))),
    }
}


proof fn lemma_hex_digit_char(d: nat)
    requires
        d < 16,
    ensures
        !is_ws(hex_digit(d)),
        hex_digit(d) != '#',
        hex_digit(d) != '+',
        is_radix_digit(hex_digit(d), 16),
        digit_value(hex_digit(d)) == d,
        (hex_digit(d) as u32) <= 0x7f,
{
    if d < 10 {
        assert((('0' as u32) + d) as char as u32 == ('0' as u32) + d);
    } else {
        assert((('a' as u32) + d - 10) as char as u32 == ('a' as u32) + d - 10);
    }
}

proof fn lemma_ascii_utf8_len(s: Seq<char>)
    requires
        forall|i: int| 0 <= i < s.len() ==> (#[trigger] s[i] as u32) <= 0x7f,
    ensures
        encode_utf8(s).len() == s.len(),
    decreases s.len(),
{
    if s.len() > 0 {
        let t = s.drop_last();
        assert forall|i: int| 0 <= i < t.len() implies (#[trigger] t[i] as u32) <= 0x7f by {
            assert(t[i] == s[i]);
        }
        lemma_ascii_utf8_len(t);
        lemma_encode_utf8_push(t, s.last());
        assert(t.push(s.last()) =~= s);
    } else {
        assert(encode_utf8(s).len() == 0);
    }
}

/// A colour written with `color_to_hex` reads back unchanged with
/// `parse_rgb_hex`.
pub proof fn law_color_hex_round_trip(c: [u8; 3])
    ensures
        parse_rgb_spec(color_hex_spec(c@)) == Ok::<Seq<u8>, Seq<char>>(c@),
{
    let s = color_hex_spec(c@);
    let h = seq![
        (c[0] / 16) as nat, (c[0] % 16) as nat,
        (c[1] / 16) as nat, (c[1] % 16) as nat,
        (c[2] / 16) as nat, (c[2] % 16) as nat,
    ];
    let t = s.drop_first();
    assert(s.len() == 7);
    assert forall|i: int| 0 <= i < 6 implies #[trigger] t[i] == hex_digit(h[i]) by {}
    assert forall|i: int| 0 <= i < 6 implies {
        &&& !is_ws(#[trigger] t[i])
        &&& t[i] != '#'
        &&& is_radix_digit(t[i], 16)
        &&& digit_value(t[i]) == h[i]
        &&& (t[i] as u32) <= 0x7f
    } by {
        lemma_hex_digit_char(h[i]);
    }
    // trimming leaves the text as it is
    assert(!is_ws(s[0]));
    assert(trim_start_seq(s) == s);
    assert(s.last() == t[5]);
    assert(trim_end_seq(s) == s);
    // one leading '#'
    assert(trim_start_char_seq(s, '#') == trim_start_char_seq(t, '#'));
    assert(trim_start_char_seq(t, '#') == t);
    assert(rgb_text(s) == t);
    lemma_ascii_utf8_len(t);
    assert(unsigned_body(t) == t);
    assert(all_radix_digits(t, 16));
    // the value of the six digits
    let v = c[0] * 65536 + c[1] * 256 + c[2];
    assert(t.drop_last().drop_last().drop_last().drop_last().drop_last().drop_last().len() == 0);
    reveal_with_fuel(digits_value, 7);
    assert(t.drop_last()[4] == t[4]);
    assert(digits_value(t, 16) == ((((h[0] * 16 + h[1]) * 16 + h[2]) * 16 + h[3]) * 16 + h[4]) * 16
        + h[5]) by {
        assert(t.drop_last().drop_last().drop_last().drop_last().drop_last().last() == t[0]);
        assert(t.drop_last().drop_last().drop_last().drop_last().last() == t[1]);
        assert(t.drop_last().drop_last().drop_last().last() == t[2]);
        assert(t.drop_last().drop_last().last() == t[3]);
        assert(t.drop_last().last() == t[4]);
        assert(t.last() == t[5]);
    }
    assert(v == ((((h[0] * 16 + h[1]) * 16 + h[2]) * 16 + h[3]) * 16 + h[4]) * 16 + h[5]);
    assert(v <= 0xffffff);
    lemma_fundamental_div_mod_converse(v as int, 65536, c[0] as int, c[1] * 256 + c[2]);
    lemma_fundamental_div_mod_converse(v as int, 256, c[0] * 256 + c[1], c[2] as int);
    lemma_fundamental_div_mod_converse(c[0] * 256 + c[1], 256, c[0] as int, c[1] as int);
    assert(rgb_of(v as nat) =~= c@);
}

} // verus!
