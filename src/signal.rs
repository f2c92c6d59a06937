//! Geometry of signal conditioning: how many mono frames a capture holds and,
//! for linear resampling, which source samples each output sample is
//! interpolated from and with what weight. Sample values themselves are
//! floating point and are combined by the caller along this plan.

use vstd::prelude::*;

verus! {

/// The rate, in samples per second, that transcription expects.
pub const TARGET_RATE: u32 = 16000;

/// Number of mono frames in `len` interleaved samples of `channels` channels:
/// with more than one channel, one frame per complete group of `channels`
/// samples; otherwise one per sample.
pub open spec fn mono_len(len: nat, channels: nat) -> nat {
    if channels <= 1 {
        len
    } else {
        len / channels
    }
}

/// Number of output samples when `mono` frames at `in_rate` are resampled to
/// `out_rate`: none for an empty capture, the same number when the rates
/// match, and otherwise `floor(mono * out_rate / in_rate)`, at least one.
pub open spec fn resampled_len(len: nat, mono: nat, in_rate: nat, out_rate: nat) -> nat {
    if len == 0 {
        0
    } else if in_rate == out_rate {
        mono
    } else if mono * out_rate / in_rate >= 1 {
        mono * out_rate / in_rate
    } else {
        1
    }
}

/// Output sample `i` lies at source position `left + num / den`, between mono
/// frames `left` and `right`. `right` is the frame after `left`, or `left`
/// itself when there is none, so that the signal is held at its last value
/// rather than padded.
#[derive(Debug, Clone, Copy, PartialEq, Eq)]
pub struct InterpPoint {
    pub left: usize,
    pub right: usize,
    pub num: u64,
    pub den: u64,
}

/// The source position of output sample `i` is `i * in_rate / out_rate`: its
/// whole part is `left`, its fraction `num / den`.
pub open spec fn point_of(i: nat, mono: nat, in_rate: nat, out_rate: nat) -> InterpPoint {
    let left = (i * in_rate / out_rate) as usize;
    InterpPoint {
        left,
        right: if left + 1 < mono { (left + 1) as usize } else { left },
        num: ((i * in_rate) % out_rate) as u64,
        den: out_rate as u64,
    }
}

/// The number of mono frames in `len` interleaved samples of `channels` channels.
pub fn downmix_len(len: usize, channels: u16) -> (r: usize)
    ensures
        r == mono_len(len as nat, channels as nat),
{
    if channels <= 1 {
        len
    } else {
        len / (channels as usize)
    }
}

proof fn lemma_left_in_range(i: nat, mono: nat, in_rate: nat, out_rate: nat)
    requires
        in_rate > 0,
        out_rate > 0,
        i < mono * out_rate / in_rate,
    ensures
        i * in_rate / out_rate < mono,
{
    assert(i + 1 <= mono * out_rate / in_rate);
    assert((i + 1) * in_rate <= mono * out_rate) by (nonlinear_arith)
        requires
            i + 1 <= mono * out_rate / in_rate,
            in_rate > 0,
    {
        assert((mono * out_rate / in_rate) * in_rate <= mono * out_rate) by (nonlinear_arith)
            requires in_rate > 0;
    }
    assert(i * in_rate < mono * out_rate) by (nonlinear_arith)
        requires
            (i + 1) * in_rate <= mono * out_rate,
            in_rate > 0,
    ;
    assert(i * in_rate / out_rate < mono) by (nonlinear_arith)
        requires
            i * in_rate < mono * out_rate,
            out_rate > 0,
    {
        assert((i * in_rate / out_rate) * out_rate <= i * in_rate) by (nonlinear_arith)
            requires out_rate > 0;
    }
}

/// The number of samples that conditioning `len` interleaved samples of
/// `channels` channels from `in_rate` to `out_rate` produces.
pub fn conditioned_len(len: usize, channels: u16, in_rate: u32, out_rate: u32) -> (r: usize)
    requires
        in_rate > 0,
        out_rate > 0,
        mono_len(len as nat, channels as nat) * (out_rate as nat) / (in_rate as nat) <= usize::MAX,
    ensures
        r == resampled_len(
            len as nat,
            mono_len(len as nat, channels as nat),
            in_rate as nat,
            out_rate as nat,
        ),
{
    let mono = downmix_len(len, channels);
    if len == 0 {
        0
    } else if in_rate == out_rate {
        mono
    } else {
        assert((mono as u128) * (out_rate as u128) <= 0xffff_ffff_ffff_ffff_ffff_ffff) by (nonlinear_arith)
            requires mono <= usize::MAX, out_rate <= u32::MAX;
        let scaled = (mono as u128) * (out_rate as u128) / (in_rate as u128);
        if scaled >= 1 {
            scaled as usize
        } else {
            1
        }
    }
}

/// Where output sample `i` of a resampling from `in_rate` to `out_rate` of
/// `mono` frames lies among the source frames.
pub fn interp_point(i: usize, mono: usize, in_rate: u32, out_rate: u32) -> (r: InterpPoint)
    requires
        in_rate > 0,
        out_rate > 0,
        i == 0 || i < resampled_len(mono as nat, mono as nat, in_rate as nat, out_rate as nat),
    ensures
        r == point_of(i as nat, mono as nat, in_rate as nat, out_rate as nat),
        mono > 0 ==> r.left < mono && r.right < mono,
        r.num < r.den,
{
    assert((i as u128) * (in_rate as u128) <= 0xffff_ffff_ffff_ffff_ffff_ffff) by (nonlinear_arith)
        requires i <= usize::MAX, in_rate <= u32::MAX;
    let pos = (i as u128) * (in_rate as u128);
    let q = pos / (out_rate as u128);
    proof {
        let (ii, m, ir, or) = (i as nat, mono as nat, in_rate as nat, out_rate as nat);
        assert(pos as nat == ii * ir);
        assert(q as nat == ii * ir / or);
        if ii == 0 {
            assert(ii * ir / or == 0) by (nonlinear_arith)
                requires ii == 0, or > 0;
        } else if ir == or {
            assert(ii * ir / or == ii) by (nonlinear_arith)
                requires ir == or, or > 0;
        } else if m * or / ir >= 1 {
            lemma_left_in_range(ii, m, ir, or);
        }
        assert(q == 0 || (q as nat) < m);
    }
    let left = q as usize;
    let right = if left + 1 < mono { left + 1 } else { left };
    let num = (pos % (out_rate as u128)) as u64;
    InterpPoint { left, right, num, den: out_rate as u64 }
}

/// Conditioning a mono capture at matching rates changes nothing: the output
/// has one sample per input sample, and output sample `i` is input sample `i`
/// with no weight on its neighbour.
pub proof fn lemma_matching_rates_identity(len: nat, channels: nat, rate: nat)
    requires
        channels <= 1,
        rate > 0,
        len <= usize::MAX,
    ensures
        resampled_len(len, mono_len(len, channels), rate, rate) == len,
        forall|i: nat|
            i < len ==> #[trigger] point_of(i, len, rate, rate).left == i
                && point_of(i, len, rate, rate).num == 0,
{
    assert forall|i: nat| i < len implies #[trigger] point_of(i, len, rate, rate).left == i
        && point_of(i, len, rate, rate).num == 0 by {
        assert(i * rate / rate == i) by (nonlinear_arith)
            requires rate > 0;
        assert((i * rate) % rate == 0) by (nonlinear_arith)
            requires rate > 0;
    }
}

/// Resampling `m` mono frames from `in_rate` to `out_rate` yields
/// `m * out_rate / in_rate` samples up to rounding down: `n` samples with
/// `n * in_rate <= m * out_rate < (n + 1) * in_rate`, except that a capture
/// too short for one whole sample still yields one.
pub proof fn lemma_resampled_length(len: nat, channels: nat, in_rate: nat, out_rate: nat)
    requires
        in_rate > 0,
        out_rate > 0,
        in_rate != out_rate,
        mono_len(len, channels) > 0,
    ensures
        ({
            let m = mono_len(len, channels);
            let n = resampled_len(len, m, in_rate, out_rate);
            (n * in_rate <= m * out_rate && m * out_rate < (n + 1) * in_rate) || (n == 1 && m
                * out_rate < in_rate)
        }),
{
    let m = mono_len(len, channels);
    assert(len > 0);
    let q = m * out_rate / in_rate;
    assert(q * in_rate <= m * out_rate && m * out_rate < (q + 1) * in_rate) by (nonlinear_arith)
        requires
            q == m * out_rate / in_rate,
            in_rate > 0,
    {
        assert(m * out_rate == q * in_rate + (m * out_rate) % in_rate) by (nonlinear_arith)
            requires q == m * out_rate / in_rate, in_rate > 0;
        assert((m * out_rate) % in_rate < in_rate) by (nonlinear_arith)
            requires in_rate > 0;
    }
}

} // verus!
