//! Where the samples of a resampled or downmixed stream come from: the
//! positions and blend weights of linear interpolation, and the frames of an
//! interleaved stream. The sample arithmetic itself is left to the caller.

use vstd::prelude::*;
use vstd::slice::{slice_subrange, slice_to_vec};

verus! {

/// The source of one output sample of a linear-interpolation resampler: the
/// two neighbouring input samples and the weight `numerator / denominator` of
/// the upper one; the lower one has the remaining weight.
#[derive(Clone, Copy, Debug, PartialEq, Eq, Structural)]
pub struct Tap {
    pub lower: usize,
    pub upper: usize,
    pub numerator: u32,
    pub denominator: u32,
}

/// The number of samples after resampling `len` samples from `src_rate` to
/// `dst_rate`: `len * dst_rate / src_rate`, rounded down.
pub open spec fn resampled_len(len: nat, src_rate: nat, dst_rate: nat) -> nat {
    (len * dst_rate) / src_rate
}

/// The tap of output sample `i`. Its position in the input is
/// `i * src_rate / dst_rate`; the neighbours are that position rounded down
/// and up, and the upper one is weighted by the fractional part. Where the
/// upper neighbour would lie beyond the input the tap is the last sample.
pub open spec fn tap_at(i: nat, len: nat, src_rate: nat, dst_rate: nat) -> Tap {
    let floor = (i * src_rate) / dst_rate;
    let rem = (i * src_rate) % dst_rate;
    let ceil = if rem == 0 {
        floor
    } else {
        floor + 1
    };
    if ceil >= len {
        Tap {
            lower: (len - 1) as usize,
            upper: (len - 1) as usize,
            numerator: 0,
            denominator: dst_rate as u32,
        }
    } else {
        Tap {
            lower: floor as usize,
            upper: ceil as usize,
            numerator: rem as u32,
            denominator: dst_rate as u32,
        }
    }
}

/// The number of frames in `len` interleaved samples of `channels` channels.
pub open spec fn frame_count(len: nat, channels: nat) -> nat {
    len / channels
}

/// The index of the first sample of frame `frame`.
pub open spec fn frame_start(frame: nat, channels: nat) -> nat {
    frame * channels
}

/// The index one past the last sample of frame `frame`.
pub open spec fn frame_end(frame: nat, channels: nat) -> nat {
    (frame + 1) * channels
}

/// Whether `sample` is what `tap` yields from `input`: the input sample
/// itself where the position falls on it, else what `blend` makes of the two
/// neighbours and the weight of the upper one.
pub open spec fn is_blend_of<T, F: Fn(T, T, u32, u32) -> T>(
    input: Seq<T>,
    tap: Tap,
    blend: F,
    sample: T,
) -> bool {
    if tap.numerator == 0 {
        sample == input[tap.lower as int]
    } else {
        call_ensures(
            blend,
            (input[tap.lower as int], input[tap.upper as int], tap.numerator, tap.denominator),
            sample,
        )
    }
}

/// Whether `sample` is the downmix of frame `frame` of `input`: the sample
/// itself where there is one channel, else what `mean` makes of the frame's
/// samples.
pub open spec fn is_mean_of<T, F: Fn(Vec<T>) -> T>(
    input: Seq<T>,
    channels: nat,
    mean: F,
    frame: int,
    sample: T,
) -> bool {
    if channels == 1 {
        sample == input[frame]
    } else {
        exists|samples: Vec<T>|
            #[trigger] call_ensures(mean, (samples,), sample) && samples@ == input.subrange(
                frame_start(frame as nat, channels) as int,
                frame_end(frame as nat, channels) as int,
            )
    }
}

/// An output position below the resampled length lies inside the input.
pub proof fn lemma_position_in_input(i: nat, len: nat, src_rate: nat, dst_rate: nat)
    requires
        src_rate > 0,
        dst_rate > 0,
        i < resampled_len(len, src_rate, dst_rate),
    ensures
        (i * src_rate) / dst_rate < len,
{
    let total = len * dst_rate;
    let out = total / src_rate;
    assert(out * src_rate <= total) by (nonlinear_arith)
        requires
            out == total / src_rate,
            src_rate > 0,
    ;
    assert((i + 1) * src_rate <= out * src_rate) by (nonlinear_arith)
        requires
            i + 1 <= out,
            src_rate > 0,
    ;
    assert(i * src_rate < len * dst_rate) by (nonlinear_arith)
        requires
            (i + 1) * src_rate <= len * dst_rate,
            src_rate > 0,
    ;
    let pos = i * src_rate;
    assert(pos / dst_rate < len) by (nonlinear_arith)
        requires
            pos < len * dst_rate,
            dst_rate > 0,
            pos >= 0,
    ;
}

/// The length of the resampled stream, if it can be indexed on this machine.
pub fn resampled_length(len: usize, src_rate: u32, dst_rate: u32) -> (r: Option<usize>)
    requires
        src_rate > 0,
    ensures
        r is Some <==> resampled_len(len as nat, src_rate as nat, dst_rate as nat) <= usize::MAX,
        r is Some ==> r->Some_0 == resampled_len(len as nat, src_rate as nat, dst_rate as nat),
{
    assert(len * dst_rate <= 0xffff_ffff_ffff_ffff * 0xffff_ffff) by (nonlinear_arith)
        requires
            0 <= len <= 0xffff_ffff_ffff_ffff,
            0 <= dst_rate <= 0xffff_ffff,
    ;
    let total: u128 = (len as u128) * (dst_rate as u128);
    let out: u128 = total / (src_rate as u128);
    if out > usize::MAX as u128 {
        None
    } else {
        Some(out as usize)
    }
}

/// The tap of output sample `i` when `len` samples are resampled from
/// `src_rate` to `dst_rate`.
pub fn source_tap(i: usize, len: usize, src_rate: u32, dst_rate: u32) -> (r: Tap)
    requires
        src_rate > 0,
        dst_rate > 0,
        i < resampled_len(len as nat, src_rate as nat, dst_rate as nat),
    ensures
        r == tap_at(i as nat, len as nat, src_rate as nat, dst_rate as nat),
        r.lower <= r.upper < len,
        r.upper <= r.lower + 1,
        r.numerator < r.denominator,
        r.denominator == dst_rate,
{
    proof {
        lemma_position_in_input(i as nat, len as nat, src_rate as nat, dst_rate as nat);
    }
    assert(i * src_rate <= 0xffff_ffff_ffff_ffff * 0xffff_ffff) by (nonlinear_arith)
        requires
            0 <= i <= 0xffff_ffff_ffff_ffff,
            0 <= src_rate <= 0xffff_ffff,
    ;
    let pos: u128 = (i as u128) * (src_rate as u128);
    let floor: u128 = pos / (dst_rate as u128);
    let rem: u128 = pos % (dst_rate as u128);
    let ceil: u128 = if rem == 0 {
        floor
    } else {
        floor + 1
    };
    if ceil >= len as u128 {
        Tap { lower: len - 1, upper: len - 1, numerator: 0, denominator: dst_rate }
    } else {
        Tap { lower: floor as usize, upper: ceil as usize, numerator: rem as u32, denominator: dst_rate }
    }
}

/// The number of frames in `len` interleaved samples of `channels` channels.
pub fn mono_length(len: usize, channels: usize) -> (r: usize)
    requires
        channels > 0,
        len % channels == 0,
    ensures
        r == frame_count(len as nat, channels as nat),
        r * channels == len,
{
    let frames = len / channels;
    assert(frames * channels == len) by (nonlinear_arith)
        requires
            frames == len / channels,
            len % channels == 0,
            channels > 0,
    ;
    frames
}

/// The half-open range of sample indices that make up frame `frame`.
pub fn frame_bounds(frame: usize, len: usize, channels: usize) -> (r: (usize, usize))
    requires
        channels > 0,
        len % channels == 0,
        frame < frame_count(len as nat, channels as nat),
    ensures
        r.0 == frame_start(frame as nat, channels as nat),
        r.1 == frame_end(frame as nat, channels as nat),
        r.0 + channels == r.1,
        r.1 <= len,
{
    let frames = len / channels;
    assert((frame + 1) * channels <= len && frame * channels + channels == (frame + 1) * channels)
        by (nonlinear_arith)
        requires
            frames == len / channels,
            len % channels == 0,
            channels > 0,
            frame < frames,
    ;
    let start = frame * channels;
    (start, start + channels)
}

/// Resampling to the rate the samples already have leaves every sample where
/// it is: the length is unchanged and output `i` is input `i` alone.
pub proof fn lemma_same_rate_is_identity(i: nat, len: nat, rate: nat)
    requires
        0 < rate <= u32::MAX,
        i < len <= usize::MAX,
    ensures
        resampled_len(len, rate, rate) == len,
        tap_at(i, len, rate, rate) == (Tap {
            lower: i as usize,
            upper: i as usize,
            numerator: 0,
            denominator: rate as u32,
        }),
{
    assert((len * rate) / rate == len) by (nonlinear_arith)
        requires
            rate > 0,
    ;
    assert((i * rate) / rate == i && (i * rate) % rate == 0) by (nonlinear_arith)
        requires
            rate > 0,
    ;
}

/// Resamples `input` from `input_rate` to `output_rate` by linear
/// interpolation. Output sample `i` is taken at input position
/// `i * input_rate / output_rate`: where that is a whole number, or where the
/// upper neighbour would lie beyond the input, it is an input sample as it
/// stands; elsewhere it is `blend(lower, upper, numerator, denominator)`,
/// which is to weight the upper neighbour by `numerator / denominator`.
/// `None` where the output would be too long to index.
pub fn resample<T: Copy, F: Fn(T, T, u32, u32) -> T>(
    input: &[T],
    input_rate: u32,
    output_rate: u32,
    blend: F,
) -> (r: Option<Vec<T>>)
    requires
        input_rate > 0,
        forall|a: T, b: T, n: u32, d: u32| 0 < n < d ==> call_requires(blend, (a, b, n, d)),
    ensures
        r is Some <==> resampled_len(input@.len(), input_rate as nat, output_rate as nat)
            <= usize::MAX,
        r is Some ==> {
            let output = r->Some_0@;
            &&& output.len() == resampled_len(input@.len(), input_rate as nat, output_rate as nat)
            &&& forall|i: int|
                0 <= i < output.len() ==> is_blend_of(
                    input@,
                    tap_at(i as nat, input@.len(), input_rate as nat, output_rate as nat),
                    blend,
                    #[trigger] output[i],
                )
        },
        input_rate == output_rate ==> r is Some && r->Some_0@ == input@,
{
    let len = input.len();
    proof {
        if input_rate == output_rate {
            assert((len * input_rate) / (input_rate as int) == len) by (nonlinear_arith)
                requires
                    input_rate > 0,
            ;
        }
    }
    let out = match resampled_length(len, input_rate, output_rate) {
        Some(out) => out,
        None => {
            return None;
        },
    };
    let mut output: Vec<T> = Vec::new();
    if output_rate == 0 {
        assert(len * 0 == 0);
        return Some(output);
    }
    let mut i: usize = 0;
    while i < out
        invariant
            input_rate > 0,
            output_rate > 0,
            len == input@.len(),
            out == resampled_len(len as nat, input_rate as nat, output_rate as nat),
            i <= out,
            output@.len() == i,
            forall|a: T, b: T, n: u32, d: u32| 0 < n < d ==> call_requires(blend, (a, b, n, d)),
            forall|k: int|
                0 <= k < i ==> is_blend_of(
                    input@,
                    tap_at(k as nat, len as nat, input_rate as nat, output_rate as nat),
                    blend,
                    #[trigger] output@[k],
                ),
            input_rate == output_rate ==> out == len,
            input_rate == output_rate ==> forall|k: int|
                0 <= k < i ==> #[trigger] output@[k] == input@[k],
        decreases out - i,
    {
        let tap = source_tap(i, len, input_rate, output_rate);
        proof {
            if input_rate == output_rate {
                lemma_same_rate_is_identity(i as nat, len as nat, input_rate as nat);
            }
        }
        let sample = if tap.numerator == 0 {
            input[tap.lower]
        } else {
            blend(input[tap.lower], input[tap.upper], tap.numerator, tap.denominator)
        };
        output.push(sample);
        i += 1;
    }
    proof {
        if input_rate == output_rate {
            assert(output@ =~= input@);
        }
    }
    Some(output)
}

/// Downmixes interleaved samples of `num_channels` channels to one channel:
/// one output sample per frame, which is `mean` of the frame's samples, or
/// the sample itself where there is a single channel.
pub fn channels_to_mono<T: Copy, F: Fn(Vec<T>) -> T>(
    audio_data: &[T],
    num_channels: usize,
    mean: F,
) -> (r: Vec<T>)
    requires
        num_channels > 0,
        audio_data@.len() % (num_channels as nat) == 0,
        forall|samples: Vec<T>|
            samples@.len() == num_channels ==> call_requires(mean, (samples,)),
    ensures
        r@.len() == frame_count(audio_data@.len(), num_channels as nat),
        forall|f: int|
            0 <= f < r@.len() ==> is_mean_of(
                audio_data@,
                num_channels as nat,
                mean,
                f,
                #[trigger] r@[f],
            ),
        num_channels == 1 ==> r@ == audio_data@,
{
    let len = audio_data.len();
    let frames = mono_length(len, num_channels);
    let mut mono_data: Vec<T> = Vec::new();
    let mut f: usize = 0;
    while f < frames
        invariant
            num_channels > 0,
            len == audio_data@.len(),
            len % num_channels == 0,
            frames == frame_count(len as nat, num_channels as nat),
            f <= frames,
            mono_data@.len() == f,
            forall|samples: Vec<T>|
                samples@.len() == num_channels ==> call_requires(mean, (samples,)),
            forall|k: int|
                0 <= k < f ==> is_mean_of(
                    audio_data@,
                    num_channels as nat,
                    mean,
                    k,
                    #[trigger] mono_data@[k],
                ),
        decreases frames - f,
    {
        let (start, end) = frame_bounds(f, len, num_channels);
        let sample = if num_channels == 1 {
            audio_data[f]
        } else {
            let samples = slice_to_vec(slice_subrange(audio_data, start, end));
            let sample = mean(samples);
            assert(call_ensures(mean, (samples,), sample));
            sample
        };
        mono_data.push(sample);
        f += 1;
    }
    proof {
        if num_channels == 1 {
            assert(mono_data@ =~= audio_data@);
        }
    }
    mono_data
}

} // verus!
