//! Leaving silence out of a recording. Audio is looked at in frames; which
//! frames are loud is known beforehand.

use vstd::prelude::*;

verus! {

/// Samples in a frame: 30 ms at 16000 samples a second. The last frame of a
/// recording may be shorter.
pub const FRAME_SAMPLES: usize = 480;

/// The noise floor is estimated from this many leading frames.
pub const NOISE_ESTIMATION_FRAMES: usize = 16;

/// Frames kept before a loud one.
pub const PREFILL_FRAMES: usize = 5;

/// Frames kept after a loud one.
pub const HANGOVER_FRAMES: usize = 10;

/// The number of frames of a recording.
pub open spec fn frame_count(samples: nat) -> nat {
    (samples + 479) as nat / 480
}

/// The samples of frame `i`.
pub open spec fn frame<T>(audio: Seq<T>, i: int) -> Seq<T> {
    audio.subrange(480 * i, if 480 * (i + 1) < audio.len() {
        480 * (i + 1)
    } else {
        audio.len() as int
    })
}

/// Frame `i` is kept: a frame from `HANGOVER_FRAMES` before it to
/// `PREFILL_FRAMES` after it is loud.
pub open spec fn keeps(loud: Seq<bool>, i: int) -> bool {
    exists|j: int|
        0 <= j < loud.len() && #[trigger] loud[j] && i - HANGOVER_FRAMES <= j <= i + PREFILL_FRAMES
}

/// The samples of those of the first `n` frames that are kept.
pub open spec fn kept<T>(audio: Seq<T>, loud: Seq<bool>, n: int) -> Seq<T>
    decreases n,
{
    if n <= 0 {
        Seq::empty()
    } else if keeps(loud, n - 1) {
        kept(audio, loud, n - 1) + frame(audio, n - 1)
    } else {
        kept(audio, loud, n - 1)
    }
}

/// The recording without its silence. If nothing would be left, it stays as it
/// is.
pub open spec fn without_silence<T>(audio: Seq<T>, loud: Seq<bool>) -> Seq<T> {
    let speech = kept(audio, loud, loud.len() as int);
    if speech.len() == 0 {
        audio
    } else {
        speech
    }
}

/// The number of frames of a recording.
pub fn count_frames(samples: usize) -> (r: usize)
    ensures
        r == frame_count(samples as nat),
{
    if samples % FRAME_SAMPLES == 0 {
        samples / FRAME_SAMPLES
    } else {
        samples / FRAME_SAMPLES + 1
    }
}

/// Appends the samples of frame `i`.
fn push_frame<T: Copy>(out: &mut Vec<T>, audio: &[T], i: usize)
    requires
        480 * i <= audio@.len(),
    ensures
        final(out)@ == old(out)@ + frame(audio@, i as int),
{
    let samples: usize = audio.len();
    let from: usize = FRAME_SAMPLES * i;
    let to: usize = if samples - from > FRAME_SAMPLES {
        from + FRAME_SAMPLES
    } else {
        samples
    };
    let ghost before = out@;
    let mut k: usize = from;
    while k < to
        invariant
            from <= k <= to <= audio@.len(),
            out@ =~= before + audio@.subrange(from as int, k as int),
        decreases to - k,
    {
        out.push(audio[k]);
        k += 1;
    }
}

/// Leaves the silence out of a recording: keeps the loud frames, those shortly
/// before and those shortly after. If nothing would be left, the recording is
/// kept as it is.
pub fn filter_silence<T: Copy>(audio: &[T], loud: &[bool]) -> (r: Vec<T>)
    requires
        loud@.len() == frame_count(audio@.len()),
    ensures
        r@ == without_silence(audio@, loud@),
{
    let n: usize = loud.len();
    let mut out: Vec<T> = Vec::new();
    // Quiet frames just passed, which are kept if speech begins soon enough.
    let mut prefill: usize = 0;
    let mut hangover: usize = 0;
    let mut i: usize = 0;
    while i < n
        invariant
            n == loud@.len() == frame_count(audio@.len()),
            0 <= i <= n,
            prefill <= i,
            prefill <= PREFILL_FRAMES,
            hangover <= HANGOVER_FRAMES,
            hangover > 0 ==> prefill == 0,
            hangover > 0 ==> i - 11 + hangover >= 0 && loud@[i - 11 + hangover],
            forall|j: int|
                i - 11 + hangover < j < i && 0 <= j ==> !#[trigger] loud@[j],
            forall|j: int| i - prefill - 10 <= j < i && 0 <= j && prefill > 0 ==> !#[trigger] loud@[j],
            out@ == kept(audio@, loud@, i - prefill),
        decreases n - i,
    {
        if loud[i] {
            let first: usize = i - prefill;
            let mut k: usize = first;
            while k < i
                invariant
                    n == loud@.len() == frame_count(audio@.len()),
                    first <= k <= i < n,
                    i - first <= PREFILL_FRAMES,
                    loud@[i as int],
                    out@ == kept(audio@, loud@, k as int),
                decreases i - k,
            {
                push_frame(&mut out, audio, k);
                assert(keeps(loud@, k as int));
                k += 1;
            }
            push_frame(&mut out, audio, i);
            assert(keeps(loud@, i as int));
            prefill = 0;
            hangover = HANGOVER_FRAMES;
        } else if hangover > 0 {
            assert(loud@[i - 11 + hangover]);
            assert(keeps(loud@, i as int));
            push_frame(&mut out, audio, i);
            hangover -= 1;
        } else {
            assert forall|j: int| 0 <= j <= i && i - 10 <= j implies !#[trigger] loud@[j] by {}
            if prefill == PREFILL_FRAMES {
                assert(!keeps(loud@, i - 5));
            } else {
                prefill += 1;
            }
        }
        i += 1;
    }
    proof {
        lemma_none_follow(audio@, loud@, n - prefill);
    }
    if out.len() == 0 {
        let mut whole: Vec<T> = Vec::new();
        let mut k: usize = 0;
        while k < audio.len()
            invariant
                0 <= k <= audio@.len(),
                whole@ =~= audio@.take(k as int),
            decreases audio@.len() - k,
        {
            whole.push(audio[k]);
            k += 1;
        }
        assert(audio@.take(audio@.len() as int) =~= audio@);
        return whole;
    }
    out
}

/// Frames at the end that are not kept add nothing.
proof fn lemma_none_follow<T>(audio: Seq<T>, loud: Seq<bool>, n: int)
    requires
        0 <= n <= loud.len(),
        forall|j: int| n - 10 <= j && 0 <= j < loud.len() && n < loud.len() ==> !#[trigger] loud[j],
    ensures
        kept(audio, loud, loud.len() as int) == kept(audio, loud, n),
    decreases loud.len() - n,
{
    if n < loud.len() {
        assert(!keeps(loud, n));
        lemma_none_follow(audio, loud, n + 1);
        assert(kept(audio, loud, n + 1) == kept(audio, loud, n));
    }
}

/// Around a loud frame `j` nothing is lost: the samples of every frame from
/// `PREFILL_FRAMES` before it to `HANGOVER_FRAMES` after it are in what is
/// kept, behind what is kept of the frames before.
pub proof fn law_speech_is_kept<T>(audio: Seq<T>, loud: Seq<bool>, j: int, i: int)
    requires
        loud.len() == frame_count(audio.len()),
        0 <= j < loud.len(),
        loud[j],
        j - PREFILL_FRAMES <= i <= j + HANGOVER_FRAMES,
        0 <= i < loud.len(),
    ensures
        (kept(audio, loud, i) + frame(audio, i)).is_prefix_of(without_silence(audio, loud)),
{
    assert(keeps(loud, i));
    lemma_kept_grows(audio, loud, i + 1, loud.len() as int);
    assert(frame(audio, i).len() > 0);
}

proof fn lemma_kept_grows<T>(audio: Seq<T>, loud: Seq<bool>, n: int, m: int)
    requires
        0 <= n <= m,
    ensures
        kept(audio, loud, n).is_prefix_of(kept(audio, loud, m)),
    decreases m,
{
    if n < m {
        lemma_kept_grows(audio, loud, n, m - 1);
    }
}

/// Where frame `i` has no loud frame near it, none of its samples are kept:
/// what is kept up to its end is what is kept up to its beginning.
pub proof fn law_silence_is_dropped<T>(audio: Seq<T>, loud: Seq<bool>, i: int)
    requires
        0 <= i < loud.len(),
        forall|j: int|
            0 <= j < loud.len() && i - HANGOVER_FRAMES <= j <= i + PREFILL_FRAMES
                ==> !#[trigger] loud[j],
    ensures
        kept(audio, loud, i + 1) == kept(audio, loud, i),
{
    assert(!keeps(loud, i));
}

/// A recording without loud frames is kept as it is; one with all of them loud
/// too.
pub proof fn law_uniform_recordings_are_unchanged<T>(audio: Seq<T>, loud: Seq<bool>)
    requires
        loud.len() == frame_count(audio.len()),
        (forall|j: int| 0 <= j < loud.len() ==> !#[trigger] loud[j]) || (forall|j: int|
            0 <= j < loud.len() ==> #[trigger] loud[j]),
    ensures
        without_silence(audio, loud) == audio,
{
    let n = loud.len() as int;
    if forall|j: int| 0 <= j < loud.len() ==> !#[trigger] loud[j] {
        lemma_none_follow(audio, loud, 0);
    } else {
        lemma_all_kept(audio, loud, n);
        assert(audio.take(audio.len() as int) =~= audio);
    }
}

proof fn lemma_all_kept<T>(audio: Seq<T>, loud: Seq<bool>, n: int)
    requires
        loud.len() == frame_count(audio.len()),
        0 <= n <= loud.len(),
        forall|j: int| 0 <= j < loud.len() ==> #[trigger] loud[j],
    ensures
        kept(audio, loud, n) == audio.take(if 480 * n < audio.len() {
            480 * n
        } else {
            audio.len() as int
        }),
    decreases n,
{
    if n > 0 {
        lemma_all_kept(audio, loud, n - 1);
        assert(loud[n - 1]);
        assert(keeps(loud, n - 1));
    }
    assert(kept(audio, loud, n) =~= audio.take(if 480 * n < audio.len() {
        480 * n
    } else {
        audio.len() as int
    }));
}

/// What is kept is never longer than the recording.
pub proof fn law_never_longer<T>(audio: Seq<T>, loud: Seq<bool>)
    requires
        loud.len() == frame_count(audio.len()),
    ensures
        without_silence(audio, loud).len() <= audio.len(),
{
    lemma_kept_is_shorter(audio, loud, loud.len() as int);
}

proof fn lemma_kept_is_shorter<T>(audio: Seq<T>, loud: Seq<bool>, n: int)
    requires
        loud.len() == frame_count(audio.len()),
        0 <= n <= loud.len(),
    ensures
        kept(audio, loud, n).len() <= audio.len(),
        kept(audio, loud, n).len() <= 480 * n,
    decreases n,
{
    if n > 0 {
        lemma_kept_is_shorter(audio, loud, n - 1);
    }
}

/// A frame has 480 samples but for the last, which has what is left: so many
/// frames it takes, and no fewer.
pub proof fn law_frames(samples: nat)
    ensures
        480 * frame_count(samples) >= samples,
        frame_count(samples) > 0 ==> 480 * (frame_count(samples) - 1) < samples,
        samples == 0 ==> frame_count(samples) == 0,
{
}

/// Frame by frame: the 480 samples of a frame are kept, behind what was kept
/// before, exactly if one of the ten frames before it, it itself or one of the
/// five after it is loud. If nothing is kept at all, the recording stays as it is.
pub proof fn law_which_frames_stay<T>(audio: Seq<T>, loud: Seq<bool>, i: int)
    requires
        loud.len() == frame_count(audio.len()),
        0 <= i < loud.len(),
    ensures
        ({
            let near = exists|j: int|
                0 <= j < loud.len() && i - 10 <= j <= i + 5 && #[trigger] loud[j];
            let to = if 480 * i + 480 <= audio.len() {
                480 * i + 480
            } else {
                audio.len() as int
            };
            &&& near ==> kept(audio, loud, i + 1) == kept(audio, loud, i) + audio.subrange(
                480 * i,
                to,
            )
            &&& !near ==> kept(audio, loud, i + 1) == kept(audio, loud, i)
        }),
        kept(audio, loud, 0) == Seq::<T>::empty(),
        kept(audio, loud, loud.len() as int).len() > 0 ==> without_silence(audio, loud) == kept(
            audio,
            loud,
            loud.len() as int,
        ),
        kept(audio, loud, loud.len() as int).len() == 0 ==> without_silence(audio, loud) == audio,
{
    let near = exists|j: int|
        0 <= j < loud.len() && i - 10 <= j <= i + 5 && #[trigger] loud[j];
    if near {
        let j = choose|j: int|
            0 <= j < loud.len() && i - 10 <= j <= i + 5 && #[trigger] loud[j];
        assert(loud[j]);
        assert(keeps(loud, i));
    }
    if keeps(loud, i) {
        let j = choose|j: int|
            0 <= j < loud.len() && #[trigger] loud[j] && i - HANGOVER_FRAMES <= j <= i
                + PREFILL_FRAMES;
        assert(loud[j]);
        assert(near);
    }
}

} // verus!
