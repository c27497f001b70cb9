//! The embedded hit sounds, decoded into frames of 16-bit samples.
use vstd::prelude::*;

verus! {

/// What `hound` decodes from WAV bytes read as 16-bit samples: the channel
/// count and every interleaved sample (`None` for a sample it could not
/// read), or `None` when the bytes are not a WAV file it accepts.
pub uninterp spec fn decoded_wav(data: Seq<u8>) -> Option<(u16, Seq<Option<i16>>)>;

/// Decodes WAV bytes with `hound::WavReader::new`, then reads the channel
/// count from `WavReader::spec` and every sample through `WavReader::samples::<i16>`.
///
/// Claimed of the outside code: the result is a function of the bytes alone;
/// a reader is only made for at least one channel, and the number of samples
/// it yields is a whole number of frames (`WavReader::new` refuses zero
/// channels and a sample count that is not a multiple of the channel count).
#[verifier::external_body]
fn decode_wav_i16(data: &[u8]) -> (r: Option<(u16, Vec<Option<i16>>)>)
    ensures
        match r {
            Some((c, s)) => decoded_wav(data@) == Some((c, s@)) && c >= 1 && (s@.len() as int) % (c as int) == 0,
            None => decoded_wav(data@) is None,
        },
{
    let mut reader = match hound::WavReader::new(std::io::Cursor::new(data)) {
        Ok(reader) => reader,
        Err(_) => return None,
    };
    let channels = reader.spec().channels;
    let samples: Vec<Option<i16>> = reader.samples::<i16>().map(|s| s.ok()).collect();
    Some((channels, samples))
}

/// A sample as mixed: an unreadable sample is silence.
pub open spec fn sample_or_silence(s: Option<i16>) -> i16 {
    match s {
        Some(v) => v,
        None => 0,
    }
}

/// The samples grouped into frames of `channels` samples each; samples after
/// the last whole frame are left out, and no samples give no frames.
pub open spec fn frames_spec(channels: int, samples: Seq<Option<i16>>) -> Seq<Seq<i16>> {
    Seq::new(
        ((samples.len() as int) / channels) as nat,
        |f: int| Seq::new(channels as nat, |k: int| sample_or_silence(samples[f * channels + k])),
    )
}

pub open spec fn frames_view(frames: Seq<Vec<i16>>) -> Seq<Seq<i16>> {
    frames.map_values(|f: Vec<i16>| f@)
}

proof fn lemma_frame_index(c: int, f: int, k: int, n: int)
    requires
        c >= 1,
        0 <= f < n / c,
        0 <= k < c,
        n >= 0,
    ensures
        0 <= f * c + k < n,
        f * c + k + 1 <= (f + 1) * c,
{
    assert(0 <= f * c + k) by (nonlinear_arith)
        requires
            c >= 1,
            0 <= f,
            0 <= k,
    ;
    assert((f + 1) * c <= n) by (nonlinear_arith)
        requires
            c >= 1,
            0 <= f < n / c,
            n >= 0,
    ;
    assert(f * c + k + 1 <= (f + 1) * c) by (nonlinear_arith)
        requires
            k < c,
    ;
}

/// Groups interleaved samples into frames, one sample per channel each.
pub fn frames_of(channels: u16, samples: &Vec<Option<i16>>) -> (frames: Vec<Vec<i16>>)
    requires
        channels >= 1,
    ensures
        frames_view(frames@) == frames_spec(channels as int, samples@),
{
    let c = channels as usize;
    let n = samples.len() / c;
    let mut frames: Vec<Vec<i16>> = Vec::new();
    let mut f: usize = 0;
    while f < n
        invariant
            c == channels as usize,
            c >= 1,
            n == samples.len() / c,
            f <= n,
            frames_view(frames@) == frames_spec(c as int, samples@).take(f as int),
        decreases n - f,
    {
        let mut frame: Vec<i16> = Vec::new();
        let mut k: usize = 0;
        while k < c
            invariant
                c >= 1,
                n == samples.len() / c,
                f < n,
                k <= c,
                frame@ == frames_spec(c as int, samples@)[f as int].take(k as int),
            decreases c - k,
        {
            proof {
                lemma_frame_index(c as int, f as int, k as int, samples.len() as int);
            }
            let s = match samples[f * c + k] {
                Some(v) => v,
                None => 0,
            };
            frame.push(s);
            k += 1;
            assert(frame@ =~= frames_spec(c as int, samples@)[f as int].take(k as int));
        }
        assert(frame@ =~= frames_spec(c as int, samples@)[f as int]);
        let ghost before = frames@;
        let ghost fv = frame@;
        frames.push(frame);
        assert(frames_view(frames@) =~= frames_view(before).push(fv));
        assert(frames_spec(c as int, samples@).take(f + 1) =~= frames_spec(c as int, samples@).take(
            f as int,
        ).push(frames_spec(c as int, samples@)[f as int]));
        f += 1;
    }
    assert(frames_spec(c as int, samples@).take(n as int) =~= frames_spec(c as int, samples@));
    frames
}

/// The frames of a hit sound: the decoded samples in frames, or no frames when
/// the bytes do not decode or hold no samples.
pub open spec fn hit_frames(data: Seq<u8>) -> Seq<Seq<i16>> {
    match decoded_wav(data) {
        Some((c, s)) => if c >= 1 {
            frames_spec(c as int, s)
        } else {
            Seq::empty()
        },
        None => Seq::empty(),
    }
}

/// Decodes an embedded hit sound into frames of 16-bit samples.
pub fn load_hit_frames(data: &[u8]) -> (frames: Vec<Vec<i16>>)
    ensures
        frames_view(frames@) == hit_frames(data@),
{
    match decode_wav_i16(data) {
        Some((c, samples)) => {
            if samples.len() == 0 {
                let empty: Vec<Vec<i16>> = Vec::new();
                assert(frames_view(empty@) =~= hit_frames(data@));
                return empty;
            }
            frames_of(c, &samples)
        },
        None => {
            let empty: Vec<Vec<i16>> = Vec::new();
            assert(frames_view(empty@) =~= hit_frames(data@));
            empty
        },
    }
}

} // verus!
