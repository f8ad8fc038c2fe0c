//! Buffer audio samples into fixed-size chunks the transcriber can consume.
//!
//! Plain fixed-size windows with no overlap. The chunker never looks at the
//! value of a sample, so it is generic over the sample type.

use vstd::prelude::*;

verus! {

/// The offset in milliseconds of a chunk that starts after `emitted` samples
/// at `rate` samples per second, saturating at `u32::MAX`.
pub open spec fn offset_ms_of(emitted: nat, rate: nat) -> u32 {
    if emitted * 1000 / rate > u32::MAX as int {
        u32::MAX
    } else {
        (emitted * 1000 / rate) as u32
    }
}

/// The number of full chunks of `c` samples in `buffered + frame`.
pub open spec fn chunk_count<S>(buffered: Seq<S>, frame: Seq<S>, c: nat) -> nat {
    (buffered.len() + frame.len()) / c
}

/// The `i`-th full chunk of `c` samples cut from `buffered + frame`.
pub open spec fn chunk_at<S>(buffered: Seq<S>, frame: Seq<S>, c: nat, i: int) -> Seq<S> {
    (buffered + frame).subrange(i * c, i * c + c)
}

/// What stays buffered once every full chunk of `buffered + frame` is cut off.
pub open spec fn rest_after<S>(buffered: Seq<S>, frame: Seq<S>, c: nat) -> Seq<S> {
    let all = buffered + frame;
    all.subrange((chunk_count(buffered, frame, c) * c) as int, all.len() as int)
}

/// Emitting `n` chunks of `c` samples after `emitted` samples stays within
/// the emission counter: the last chunk's offset can be computed and the
/// count after it fits in 64 bits.
pub open spec fn emissions_fit(emitted: nat, n: nat, c: nat) -> bool {
    n > 0 ==> (emitted + (n - 1) * c) * 1000 <= u64::MAX && emitted + n * c <= u64::MAX
}

/// The requests one push cuts after `emitted` samples were handed out
/// before: each full chunk of `buffered + frame` with its offset.
pub open spec fn push_requests<S>(buffered: Seq<S>, emitted: nat, frame: Seq<S>, c: nat, rate: nat) -> Seq<
    (Seq<S>, u32),
> {
    Seq::new(
        chunk_count(buffered, frame, c),
        |i: int| (chunk_at(buffered, frame, c, i), offset_ms_of((emitted + i * c) as nat, rate)),
    )
}

/// One contiguous audio chunk handed to the transcriber.
pub struct TranscribeRequest<S> {
    /// The samples of the chunk.
    pub pcm: Vec<S>,
    /// Where this chunk starts in milliseconds, relative to the session's start.
    pub offset_ms: u32,
}

/// Stateful chunker. `push` may return zero or more chunks per call;
/// `flush` returns whatever is left at the end of a session.
pub struct Chunker<S> {
    sample_rate: u32,
    chunk_samples: usize,
    buffer: Vec<S>,
    samples_emitted: u64,
}

impl<S> Chunker<S> {
    pub closed spec fn rate(&self) -> nat {
        self.sample_rate as nat
    }

    pub closed spec fn chunk_len(&self) -> nat {
        self.chunk_samples as nat
    }

    pub closed spec fn buffered(&self) -> Seq<S> {
        self.buffer@
    }

    pub closed spec fn emitted(&self) -> nat {
        self.samples_emitted as nat
    }

    /// Well-formedness: a positive rate and chunk size, and a buffer that
    /// always holds less than one chunk between calls.
    pub closed spec fn wf(&self) -> bool {
        &&& self.sample_rate > 0
        &&& self.chunk_samples > 0
        &&& self.buffer@.len() < self.chunk_samples
    }

    pub fn new(sample_rate: u32, chunk_seconds: u32) -> (c: Self)
        requires
            sample_rate > 0,
            chunk_seconds > 0,
            sample_rate * chunk_seconds <= usize::MAX,
        ensures
            c.wf(),
            c.rate() == sample_rate,
            c.chunk_len() == sample_rate * chunk_seconds,
            c.buffered() == Seq::<S>::empty(),
            c.emitted() == 0,
    {
        proof {
            vstd::arithmetic::mul::lemma_mul_strictly_positive(sample_rate as int, chunk_seconds as int);
        }
        let chunk_samples = (sample_rate as usize) * (chunk_seconds as usize);
        Chunker { sample_rate, chunk_samples, buffer: Vec::new(), samples_emitted: 0 }
    }
}

impl<S: Copy> Chunker<S> {
    /// Appends `frame` to the buffer and cuts off every full chunk.
    pub fn push(&mut self, frame: &[S]) -> (out: Vec<TranscribeRequest<S>>)
        requires
            old(self).wf(),
            emissions_fit(
                old(self).emitted(),
                chunk_count(old(self).buffered(), frame@, old(self).chunk_len()),
                old(self).chunk_len(),
            ),
        ensures
            final(self).wf(),
            final(self).rate() == old(self).rate(),
            final(self).chunk_len() == old(self).chunk_len(),
            ({
                let b = old(self).buffered();
                let c = old(self).chunk_len();
                let n = chunk_count(b, frame@, c);
                &&& out@.len() == n
                &&& forall|i: int|
                    #![trigger out@[i]]
                    0 <= i < n ==> out@[i].pcm@ == chunk_at(b, frame@, c, i)
                        && out@[i].offset_ms == offset_ms_of(
                        (old(self).emitted() + i * c) as nat,
                        old(self).rate(),
                    )
                &&& forall|i: int|
                    #![trigger out@[i]]
                    0 <= i < n ==> {
                        let ms = (old(self).emitted() + i * c) * 1000 / old(self).rate() as int;
                        &&& out@[i].pcm@.len() == c
                        &&& ms <= u32::MAX ==> out@[i].offset_ms as int == ms
                        &&& ms > u32::MAX ==> out@[i].offset_ms == u32::MAX
                    }
                &&& out@.map_values(|q: TranscribeRequest<S>| (q.pcm@, q.offset_ms)) == push_requests(
                    b,
                    old(self).emitted(),
                    frame@,
                    c,
                    old(self).rate(),
                )
                &&& final(self).buffered() == rest_after(b, frame@, c)
                &&& final(self).emitted() == old(self).emitted() + n * c
            }),
    {
        let ghost all = self.buffer@ + frame@;
        let ghost e0 = self.samples_emitted as nat;
        let mut j: usize = 0;
        while j < frame.len()
            invariant
                j <= frame@.len(),
                self.buffer@ == old(self).buffer@ + frame@.subrange(0, j as int),
                self.samples_emitted == old(self).samples_emitted,
                self.sample_rate == old(self).sample_rate,
                self.chunk_samples == old(self).chunk_samples,
            decreases frame@.len() - j,
        {
            self.buffer.push(frame[j]);
            proof {
                assert(frame@.subrange(0, j + 1) == frame@.subrange(0, j as int).push(frame@[j as int]));
            }
            j = j + 1;
        }
        assert(frame@.subrange(0, frame@.len() as int) == frame@);
        assert(self.buffer@ == all);
        let c = self.chunk_samples;
        let ghost cn = c as int;
        let ghost total = all.len() as int / cn;
        let mut out: Vec<TranscribeRequest<S>> = Vec::new();
        assert(out@.len() * cn == 0) by (nonlinear_arith) requires out@.len() == 0;
        assert(all.subrange(0, all.len() as int) == all);
        while self.buffer.len() >= c
            invariant
                cn == c as int,
                c > 0,
                total == all.len() as int / cn,
                self.sample_rate == old(self).sample_rate,
                self.sample_rate > 0,
                self.chunk_samples == c,
                emissions_fit(e0, total as nat, cn as nat),
                0 <= out@.len() * cn <= all.len(),
                self.buffer@ == all.subrange(out@.len() * cn, all.len() as int),
                self.samples_emitted == e0 + out@.len() * cn,
                forall|i: int|
                    #![trigger out@[i]]
                    0 <= i < out@.len() ==> out@[i].pcm@ == all.subrange(i * cn, i * cn + cn)
                        && out@[i].offset_ms == offset_ms_of((e0 + i * cn) as nat, self.sample_rate as nat),
            decreases self.buffer@.len(),
        {
            let ghost k = out@.len() as int;
            proof {
                let len = all.len() as int;
                assert(k + 1 <= total && k * cn <= (total - 1) * cn && (k + 1) * cn <= total * cn)
                    by (nonlinear_arith)
                    requires
                        k * cn + cn <= len,
                        total == len / cn,
                        cn > 0,
                        k >= 0,
                ;
            }
            let offset_ms = self.offset_ms_for_emission();
            let mut pcm = self.buffer.split_off(c);
            std::mem::swap(&mut pcm, &mut self.buffer);
            proof {
                assert((k + 1) * cn == k * cn + cn) by (nonlinear_arith);
                assert(pcm@ == all.subrange(k * cn, k * cn + cn));
                assert(self.buffer@ == all.subrange((k + 1) * cn, all.len() as int));
            }
            self.samples_emitted = self.samples_emitted + c as u64;
            out.push(TranscribeRequest { pcm, offset_ms });
        }
        proof {
            let k = out@.len() as int;
            let len = all.len() as int;
            assert(len / cn == k) by (nonlinear_arith)
                requires
                    0 <= len - k * cn < cn,
                    cn > 0,
            ;
            let b = old(self).buffer@;
            assert forall|i: int| 0 <= i < out@.len() implies (#[trigger] out@[i]).pcm@.len() == cn by {
                assert(0 <= i * cn && i * cn + cn <= len) by (nonlinear_arith)
                    requires
                        0 <= i < k,
                        k * cn <= len,
                        cn > 0,
                ;
            }
            assert forall|i: int| 0 <= i < out@.len() implies {
                let ms = (e0 + i * cn) * 1000 / (self.sample_rate as int);
                &&& ms <= u32::MAX ==> (#[trigger] out@[i]).offset_ms as int == ms
                &&& ms > u32::MAX ==> out@[i].offset_ms == u32::MAX
            } by {
                assert(e0 + i * cn >= 0) by (nonlinear_arith)
                    requires
                        0 <= i,
                        cn > 0,
                ;
                lemma_offset_ms((e0 + i * cn) as nat, self.sample_rate as nat);
            }
            assert(out@.map_values(|q: TranscribeRequest<S>| (q.pcm@, q.offset_ms)) =~= push_requests(
                b,
                e0,
                frame@,
                c as nat,
                self.sample_rate as nat,
            ));
        }
        out
    }

    /// Hands out whatever is left in the buffer, or `None` when it is empty.
    pub fn flush(&mut self) -> (tail: Option<TranscribeRequest<S>>)
        requires
            old(self).wf(),
            old(self).buffered().len() > 0 ==> old(self).emitted() * 1000 <= u64::MAX
                && old(self).emitted() + old(self).buffered().len() <= u64::MAX,
        ensures
            final(self).wf(),
            final(self).rate() == old(self).rate(),
            final(self).chunk_len() == old(self).chunk_len(),
            final(self).buffered() == Seq::<S>::empty(),
            final(self).emitted() == old(self).emitted() + old(self).buffered().len(),
            old(self).buffered().len() == 0 <==> tail is None,
            tail matches Some(t) ==> t.pcm@ == old(self).buffered() && t.offset_ms == offset_ms_of(
                old(self).emitted(),
                old(self).rate(),
            ),
            tail matches Some(t) ==> {
                let ms = (old(self).emitted() * 1000) as int / (old(self).rate() as int);
                &&& ms <= u32::MAX ==> t.offset_ms as int == ms
                &&& ms > u32::MAX ==> t.offset_ms == u32::MAX
            },
    {
        if self.buffer.len() == 0 {
            return None;
        }
        let mut pcm: Vec<S> = Vec::new();
        std::mem::swap(&mut pcm, &mut self.buffer);
        let offset_ms = self.offset_ms_for_emission();
        proof {
            lemma_offset_ms(self.samples_emitted as nat, self.sample_rate as nat);
        }
        self.samples_emitted = self.samples_emitted + pcm.len() as u64;
        Some(TranscribeRequest { pcm, offset_ms })
    }
}

impl<S> Chunker<S> {
    fn offset_ms_for_emission(&self) -> (ms: u32)
        requires
            self.sample_rate > 0,
            self.samples_emitted * 1000 <= u64::MAX,
        ensures
            ms == offset_ms_of(self.samples_emitted as nat, self.sample_rate as nat),
    {
        let raw = self.samples_emitted * 1000 / (self.sample_rate as u64);
        if raw > u32::MAX as u64 {
            u32::MAX
        } else {
            raw as u32
        }
    }
}

/// The first `n` chunks of `buffered + frame`, one after the other.
pub open spec fn chunks_joined<S>(buffered: Seq<S>, frame: Seq<S>, c: nat, n: nat) -> Seq<S>
    decreases n,
{
    if n == 0 {
        Seq::empty()
    } else {
        chunks_joined(buffered, frame, c, (n - 1) as nat) + chunk_at(buffered, frame, c, n - 1)
    }
}

proof fn lemma_joined_prefix<S>(buffered: Seq<S>, frame: Seq<S>, c: nat, n: nat)
    requires
        c > 0,
        n * c <= buffered.len() + frame.len(),
    ensures
        chunks_joined(buffered, frame, c, n) == (buffered + frame).subrange(0, (n * c) as int),
    decreases n,
{
    let all = buffered + frame;
    if n > 0 {
        let m = (n - 1) as nat;
        assert(m * c + c == n * c) by (nonlinear_arith)
            requires
                m == n - 1,
        ;
        lemma_joined_prefix(buffered, frame, c, m);
        assert((n - 1) * (c as int) == m * c) by (nonlinear_arith)
            requires
                m == n - 1,
        ;
        assert(chunk_at(buffered, frame, c, n - 1) == all.subrange((m * c) as int, (m * c + c) as int));
        assert(all.subrange(0, (m * c) as int) + all.subrange((m * c) as int, (m * c + c) as int)
            =~= all.subrange(0, (n * c) as int));
    } else {
        assert(n * c == 0) by (nonlinear_arith)
            requires
                n == 0,
        ;
        assert(all.subrange(0, 0) =~= Seq::<S>::empty());
    }
}

/// Nothing is lost or repeated: the chunks a push cuts, followed by what it
/// leaves buffered, are exactly the samples buffered before plus the pushed
/// frame, in order.
pub proof fn lemma_push_conserves<S>(buffered: Seq<S>, frame: Seq<S>, c: nat)
    requires
        c > 0,
    ensures
        chunks_joined(buffered, frame, c, chunk_count(buffered, frame, c)) + rest_after(
            buffered,
            frame,
            c,
        ) == buffered + frame,
        forall|i: int|
            0 <= i < chunk_count(buffered, frame, c) ==> (#[trigger] chunk_at(
                buffered,
                frame,
                c,
                i,
            )).len() == c,
        rest_after(buffered, frame, c).len() < c,
{
    let all = buffered + frame;
    let n = chunk_count(buffered, frame, c);
    let len = all.len() as int;
    let ci = c as int;
    assert(0 <= n * ci <= len && len - n * ci < ci) by (nonlinear_arith)
        requires
            n == len / ci,
            ci > 0,
            len >= 0,
    ;
    lemma_joined_prefix(buffered, frame, c, n);
    assert(all.subrange(0, n * ci) + all.subrange(n * ci, len) =~= all);
    assert forall|i: int|
        0 <= i < chunk_count(buffered, frame, c) implies (#[trigger] chunk_at(
        buffered,
        frame,
        c,
        i,
    )).len() == c by {
        assert(0 <= i * ci && i * ci + ci <= n * ci) by (nonlinear_arith)
            requires
                0 <= i < n,
                ci > 0,
        ;
    }
}

/// Chunking does not depend on how the input is split into frames: pushing
/// `a` and then `b` cuts the same chunks, in the same order, and leaves the
/// same samples buffered as pushing `a + b` at once.
pub proof fn lemma_push_split<S>(buffered: Seq<S>, a: Seq<S>, b: Seq<S>, c: nat)
    requires
        c > 0,
    ensures
        ({
            let n1 = chunk_count(buffered, a, c);
            let r = rest_after(buffered, a, c);
            &&& n1 + chunk_count(r, b, c) == chunk_count(buffered, a + b, c)
            &&& forall|i: int|
                0 <= i < n1 ==> #[trigger] chunk_at(buffered, a + b, c, i) == chunk_at(buffered, a, c, i)
            &&& forall|j: int|
                0 <= j < chunk_count(r, b, c) ==> #[trigger] chunk_at(buffered, a + b, c, n1 + j)
                    == chunk_at(r, b, c, j)
            &&& rest_after(r, b, c) == rest_after(buffered, a + b, c)
        }),
{
    let all_a = buffered + a;
    let all = buffered + (a + b);
    assert(all == all_a + b);
    let la = all_a.len() as int;
    let ci = c as int;
    let n1 = chunk_count(buffered, a, c) as int;
    let r = rest_after(buffered, a, c);
    let rl = la - n1 * ci;
    assert(0 <= n1 * ci <= la && rl < ci) by (nonlinear_arith)
        requires
            n1 == la / ci,
            rl == la - n1 * ci,
            ci > 0,
            la >= 0,
    ;
    assert(r.len() == rl);
    let all2 = r + b;
    let n2 = chunk_count(r, b, c) as int;
    let n = chunk_count(buffered, a + b, c) as int;
    let lb = b.len() as int;
    assert(n == n1 + n2) by (nonlinear_arith)
        requires
            n == (la + lb) / ci,
            n2 == (rl + lb) / ci,
            rl == la - n1 * ci,
            ci > 0,
            rl >= 0,
            lb >= 0,
    ;
    assert forall|k: int| 0 <= k < all2.len() implies #[trigger] all2[k] == all[n1 * ci + k] by {
        if k < rl {
            assert(all2[k] == r[k]);
            assert(r[k] == all_a[n1 * ci + k]);
        } else {
            assert(all2[k] == b[k - rl]);
        }
    }
    assert forall|i: int| 0 <= i < n1 implies #[trigger] chunk_at(buffered, a + b, c, i) == chunk_at(
        buffered,
        a,
        c,
        i,
    ) by {
        assert(i * ci + ci <= n1 * ci) by (nonlinear_arith)
            requires
                0 <= i < n1,
                ci > 0,
        ;
        assert(0 <= i * ci) by (nonlinear_arith)
            requires
                0 <= i,
                ci > 0,
        ;
        assert(chunk_at(buffered, a + b, c, i) =~= chunk_at(buffered, a, c, i));
    }
    assert forall|j: int| 0 <= j < n2 implies #[trigger] chunk_at(buffered, a + b, c, n1 + j)
        == chunk_at(r, b, c, j) by {
        assert((n1 + j) * ci == n1 * ci + j * ci) by (nonlinear_arith);
        assert(0 <= j * ci && j * ci + ci <= n2 * ci) by (nonlinear_arith)
            requires
                0 <= j < n2,
                ci > 0,
        ;
        assert(n2 * ci <= all2.len()) by (nonlinear_arith)
            requires
                n2 == all2.len() as int / ci,
                ci > 0,
                all2.len() as int >= 0,
        ;
        assert(chunk_at(buffered, a + b, c, n1 + j) =~= chunk_at(r, b, c, j));
    }
    assert(n * ci == n1 * ci + n2 * ci) by (nonlinear_arith)
        requires
            n == n1 + n2,
    ;
    assert(n2 * ci <= all2.len()) by (nonlinear_arith)
        requires
            n2 == all2.len() as int / ci,
            ci > 0,
            all2.len() as int >= 0,
    ;
    assert(rest_after(r, b, c) =~= rest_after(buffered, a + b, c));
}

/// The frames of `frames`, one after the other.
pub open spec fn concat_frames<S>(frames: Seq<Seq<S>>) -> Seq<S>
    decreases frames.len(),
{
    if frames.len() == 0 {
        Seq::empty()
    } else {
        concat_frames(frames.drop_last()) + frames.last()
    }
}

/// Pushing `frames` one after the other into a chunker holding `buffered`
/// after `emitted` samples: every request cut (with its offset), the samples
/// left buffered, and the number of samples emitted.
pub open spec fn run_pushes<S>(
    buffered: Seq<S>,
    emitted: nat,
    frames: Seq<Seq<S>>,
    c: nat,
    rate: nat,
) -> (Seq<(Seq<S>, u32)>, Seq<S>, nat)
    decreases frames.len(),
{
    if frames.len() == 0 {
        (Seq::empty(), buffered, emitted)
    } else {
        let (reqs, rest, em) = run_pushes(buffered, emitted, frames.drop_last(), c, rate);
        let f = frames.last();
        (
            reqs + push_requests(rest, em, f, c, rate),
            rest_after(rest, f, c),
            em + chunk_count(rest, f, c) * c,
        )
    }
}

/// Any number of pushes cut the stream as one push of everything would: the
/// `k`-th request is the `k`-th full chunk of the buffered samples followed
/// by all frames, at offset `emitted + k * c`; what stays buffered is the
/// incomplete rest; and the requests followed by that rest are exactly the
/// samples pushed, so none is lost, repeated or reordered.
pub proof fn lemma_pushes<S>(buffered: Seq<S>, emitted: nat, frames: Seq<Seq<S>>, c: nat, rate: nat)
    requires
        c > 0,
        buffered.len() < c,
    ensures
        ({
            let (reqs, rest, em) = run_pushes(buffered, emitted, frames, c, rate);
            let all = concat_frames(frames);
            let n = chunk_count(buffered, all, c);
            &&& reqs.len() == n
            &&& forall|k: int|
                0 <= k < n ==> #[trigger] reqs[k] == (
                    chunk_at(buffered, all, c, k),
                    offset_ms_of((emitted + k * c) as nat, rate),
                )
            &&& rest == rest_after(buffered, all, c)
            &&& rest.len() < c
            &&& em == emitted + n * c
            &&& chunks_joined(buffered, all, c, n) + rest == buffered + all
            &&& forall|k: int| 0 <= k < n ==> (#[trigger] chunk_at(buffered, all, c, k)).len() == c
        }),
    decreases frames.len(),
{
    let all = concat_frames(frames);
    lemma_push_conserves(buffered, all, c);
    if frames.len() == 0 {
        assert(buffered.len() as int / (c as int) == 0) by (nonlinear_arith)
            requires
                0 <= buffered.len() < c,
        ;
        assert(buffered + all =~= buffered);
        assert(rest_after(buffered, all, c) =~= buffered);
    } else {
        let pre = frames.drop_last();
        let f = frames.last();
        let a = concat_frames(pre);
        lemma_pushes(buffered, emitted, pre, c, rate);
        let (reqs0, rest0, em0) = run_pushes(buffered, emitted, pre, c, rate);
        let n1 = chunk_count(buffered, a, c);
        let n2 = chunk_count(rest0, f, c);
        lemma_push_split(buffered, a, f, c);
        assert(all == a + f);
        let (reqs, rest, em) = run_pushes(buffered, emitted, frames, c, rate);
        let n = chunk_count(buffered, all, c);
        assert(n == n1 + n2);
        assert forall|k: int| 0 <= k < n implies #[trigger] reqs[k] == (
            chunk_at(buffered, all, c, k),
            offset_ms_of((emitted + k * c) as nat, rate),
        ) by {
            if k < n1 {
                assert(reqs[k] == reqs0[k]);
            } else {
                let j = k - n1;
                assert(reqs[k] == push_requests(rest0, em0, f, c, rate)[j]);
                assert(chunk_at(buffered, a + f, c, n1 + j) == chunk_at(rest0, f, c, j));
                assert(em0 + j * c == emitted + k * c) by (nonlinear_arith)
                    requires
                        em0 == emitted + n1 * c,
                        k == n1 + j,
                ;
            }
        }
        assert(em == emitted + n * c) by (nonlinear_arith)
            requires
                em == em0 + n2 * c,
                em0 == emitted + n1 * c,
                n == n1 + n2,
        ;
    }
}

/// A chunk's offset is the millisecond position of its first sample in the
/// session (samples before it, times 1000, over the rate, rounded down); it
/// only saturates at `u32::MAX`, about 49 days in.
pub proof fn lemma_offset_ms(emitted: nat, rate: nat)
    requires
        rate > 0,
    ensures
        emitted * 1000 / rate <= u32::MAX ==> offset_ms_of(emitted, rate) as int == emitted * 1000
            / rate,
        emitted * 1000 / rate > u32::MAX ==> offset_ms_of(emitted, rate) == u32::MAX,
{
}

/// With chunks of `seconds` seconds at `rate` samples per second, the
/// `k`-th chunk of a session starts `k * seconds` seconds in.
pub proof fn lemma_chunk_offsets(k: nat, rate: nat, seconds: nat)
    requires
        rate > 0,
        k * seconds * 1000 <= u32::MAX,
    ensures
        offset_ms_of(k * (rate * seconds), rate) as int == k * seconds * 1000,
{
    let x = k * seconds * 1000;
    assert(k * (rate * seconds) * 1000 == rate * x) by (nonlinear_arith)
        requires
            x == k * seconds * 1000,
    ;
    vstd::arithmetic::div_mod::lemma_div_multiples_vanish(x as int, rate as int);
    lemma_offset_ms(k * (rate * seconds), rate);
}

} // verus!
