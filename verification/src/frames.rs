//! Audio frames: small runs of samples handed between pipeline stages, cut
//! from the normalized stream at a fixed size.

use vstd::prelude::*;

verus! {

#[verifier::external_type_specification]
#[verifier::external_body]
pub struct ExInstant(std::time::Instant);

/// Samples per frame: 20 ms at 16 kHz.
pub const FRAME_SAMPLES: usize = 320;

/// The sample rate everything is normalized to.
pub const TARGET_SAMPLE_RATE: u32 = 16_000;

/// A chunk of audio handed off between pipeline stages.
pub struct AudioFrame<S> {
    pub pcm: Vec<S>,
    pub sample_rate: u32,
    pub channels: u16,
    /// When the first sample of this frame was captured.
    pub captured_at: std::time::Instant,
}

/// The `Duration` that `Duration::from_nanos` makes of `nanos`.
pub uninterp spec fn duration_of_nanos(nanos: u64) -> core::time::Duration;

/// `std::time::Duration::from_nanos`.
#[verifier::external_body]
fn duration_from_nanos(nanos: u64) -> (d: core::time::Duration)
    ensures
        d == duration_of_nanos(nanos),
{
    core::time::Duration::from_nanos(nanos)
}

/// `std::time::Instant::now`: the current instant; nothing is stated of it.
#[verifier::external_body]
fn instant_now() -> std::time::Instant {
    std::time::Instant::now()
}

/// The length in nanoseconds of `len` interleaved samples over `channels`
/// channels (at least one) at `rate` samples per second, rounded down.
pub open spec fn frame_nanos(len: nat, channels: nat, rate: nat) -> nat {
    let ch = if channels == 0 {
        1
    } else {
        channels
    };
    (len / ch) * 1_000_000_000 / rate
}

impl<S> AudioFrame<S> {
    /// How long the frame plays, in nanoseconds.
    pub fn duration_nanos(&self) -> (n: u64)
        requires
            self.sample_rate > 0,
            (self.pcm@.len() / (if self.channels == 0 {
                1
            } else {
                self.channels as nat
            })) * 1_000_000_000 <= u64::MAX,
        ensures
            n == frame_nanos(self.pcm@.len(), self.channels as nat, self.sample_rate as nat),
    {
        let ch: u64 = if self.channels == 0 {
            1
        } else {
            self.channels as u64
        };
        let len = self.pcm.len() as u64;
        let per_channel = len / ch;
        per_channel * 1_000_000_000 / (self.sample_rate as u64)
    }

    /// How long the frame plays.
    pub fn duration(&self) -> (d: core::time::Duration)
        requires
            self.sample_rate > 0,
            (self.pcm@.len() / (if self.channels == 0 {
                1
            } else {
                self.channels as nat
            })) * 1_000_000_000 <= u64::MAX,
        ensures
            d == duration_of_nanos(
                frame_nanos(self.pcm@.len(), self.channels as nat, self.sample_rate as nat) as u64,
            ),
    {
        duration_from_nanos(self.duration_nanos())
    }
}

/// An empty mono frame at the target rate, stamped now.
pub fn _placeholder_frame<S>() -> (f: AudioFrame<S>)
    ensures
        f.pcm@.len() == 0,
        f.sample_rate == TARGET_SAMPLE_RATE,
        f.channels == 1,
{
    AudioFrame { pcm: Vec::new(), sample_rate: TARGET_SAMPLE_RATE, channels: 1, captured_at: instant_now() }
}

/// Cuts every full frame of `FRAME_SAMPLES` samples off the front of `buf`,
/// in order, leaving the incomplete rest in `buf`.
pub fn split_frames<S: Copy>(buf: &mut Vec<S>) -> (frames: Vec<Vec<S>>)
    ensures
        ({
            let all = old(buf)@;
            let c = FRAME_SAMPLES as int;
            let n = all.len() as int / c;
            &&& frames@.len() == n
            &&& forall|i: int|
                #![trigger frames@[i]]
                0 <= i < n ==> frames@[i]@ == all.subrange(i * c, i * c + c)
            &&& final(buf)@ == all.subrange(n * c, all.len() as int)
        }),
{
    let ghost all = buf@;
    let c = FRAME_SAMPLES;
    let ghost ci = c as int;
    let mut frames: Vec<Vec<S>> = Vec::new();
    assert(frames@.len() * ci == 0) by (nonlinear_arith)
        requires
            frames@.len() == 0,
    ;
    assert(all.subrange(0, all.len() as int) == all);
    while buf.len() >= c
        invariant
            ci == c as int,
            c == FRAME_SAMPLES,
            0 <= frames@.len() * ci <= all.len(),
            buf@ == all.subrange(frames@.len() * ci, all.len() as int),
            forall|i: int|
                #![trigger frames@[i]]
                0 <= i < frames@.len() ==> frames@[i]@ == all.subrange(i * ci, i * ci + ci),
        decreases buf@.len(),
    {
        let ghost k = frames@.len() as int;
        let mut pcm = buf.split_off(c);
        std::mem::swap(&mut pcm, buf);
        proof {
            assert((k + 1) * ci == k * ci + ci) by (nonlinear_arith);
            assert(pcm@ == all.subrange(k * ci, k * ci + ci));
        }
        frames.push(pcm);
    }
    proof {
        let k = frames@.len() as int;
        let len = all.len() as int;
        assert(len / ci == k) by (nonlinear_arith)
            requires
                0 <= len - k * ci < ci,
                ci > 0,
        ;
    }
    frames
}

/// A frame holding `seconds` seconds of samples on every channel lasts
/// exactly that long.
pub proof fn lemma_frame_seconds(seconds: nat, channels: nat, rate: nat)
    requires
        channels > 0,
        rate > 0,
    ensures
        frame_nanos(seconds * rate * channels, channels, rate) == seconds * 1_000_000_000,
{
    let x = seconds * rate;
    assert(seconds * rate * channels == channels * x) by (nonlinear_arith)
        requires
            x == seconds * rate,
    ;
    vstd::arithmetic::div_mod::lemma_div_multiples_vanish(x as int, channels as int);
    let y = seconds * 1_000_000_000;
    assert(x * 1_000_000_000 == rate * y) by (nonlinear_arith)
        requires
            x == seconds * rate,
            y == seconds * 1_000_000_000,
    ;
    vstd::arithmetic::div_mod::lemma_div_multiples_vanish(y as int, rate as int);
}

} // verus!
