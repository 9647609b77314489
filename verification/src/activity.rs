//! Local speech detection at the wire's 16 kHz mono rate: the PCM stream is
//! cut into detector frames of 256 samples, however it arrives in chunks.
use vstd::prelude::*;
use crate::protocol::ProtocolError;

verus! {

/// Samples per detector frame.
pub const FRAME_SAMPLES: usize = 256;

/// The signed 16-bit sample stored little-endian in `lo`, `hi`.
pub open spec fn sample_of(lo: u8, hi: u8) -> i16 {
    let v = lo as int + 256 * hi as int;
    (if v >= 32768 {
        v - 65536
    } else {
        v
    }) as i16
}

/// The samples of little-endian signed 16-bit PCM bytes (a trailing odd
/// byte is ignored).
pub open spec fn decode_pcm(b: Seq<u8>) -> Seq<i16> {
    Seq::new(b.len() / 2, |k: int| sample_of(b[2 * k], b[2 * k + 1]))
}

/// The sample in bytes `lo`, `hi` (`i16::from_le_bytes`).
pub fn decode_sample(lo: u8, hi: u8) -> (s: i16)
    ensures
        s == sample_of(lo, hi),
{
    let v: i32 = lo as i32 + 256 * (hi as i32);
    if v >= 32768 {
        (v - 65536) as i16
    } else {
        v as i16
    }
}

/// Law: samples are little-endian and signed: the low byte comes first,
/// the sample is the two bytes read as an unsigned number, minus 65536
/// when the high bit is set.
pub proof fn law_samples_are_little_endian(lo: u8, hi: u8)
    ensures
        hi < 128 ==> sample_of(lo, hi) as int == lo as int + 256 * hi as int,
        hi >= 128 ==> sample_of(lo, hi) as int == lo as int + 256 * hi as int - 65536,
{
}

/// Law: decoding does not depend on where the stream was cut, as long as
/// every cut falls between samples.
pub proof fn law_decoding_ignores_chunking(a: Seq<u8>, b: Seq<u8>)
    requires
        a.len() % 2 == 0,
    ensures
        decode_pcm(a + b) == decode_pcm(a) + decode_pcm(b),
{
    let d = decode_pcm(a + b);
    let e = decode_pcm(a) + decode_pcm(b);
    assert(d.len() == e.len());
    assert forall|k: int| 0 <= k < d.len() implies d[k] == e[k] by {
        if k < a.len() / 2 {
            assert((a + b)[2 * k] == a[2 * k]);
            assert((a + b)[2 * k + 1] == a[2 * k + 1]);
        } else {
            let m = k - a.len() / 2;
            assert((a + b)[2 * k] == b[2 * m]);
            assert((a + b)[2 * k + 1] == b[2 * m + 1]);
        }
    }
    assert(d =~= e);
}

/// Frames joined end to end.
pub open spec fn joined(frames: Seq<Seq<i16>>) -> Seq<i16>
    decreases frames.len(),
{
    if frames.len() == 0 {
        Seq::empty()
    } else {
        joined(frames.drop_last()) + frames.last()
    }
}

/// A chunk is accepted unless it ends inside a sample.
pub fn check_pcm(bytes: &[u8]) -> (r: Result<(), ProtocolError>)
    ensures
        bytes@.len() % 2 == 0 ==> r is Ok,
        bytes@.len() % 2 == 1 ==> r == Err::<(), ProtocolError>(ProtocolError::IncompletePcm),
{
    if bytes.len() % 2 == 1 {
        Err(ProtocolError::IncompletePcm)
    } else {
        Ok(())
    }
}

/// The abstract state of the framer.
pub struct FramerState {
    /// Samples of the frame being filled.
    pub partial: Seq<i16>,
    /// The detector has heard speech; no more frames are needed.
    pub speech: bool,
}

/// Cuts a PCM stream into detector frames and remembers the verdict.
pub struct SpeechFrames {
    frame: Vec<i16>,
    speech: bool,
}

impl View for SpeechFrames {
    type V = FramerState;

    closed spec fn view(&self) -> FramerState {
        FramerState { partial: self.frame@, speech: self.speech }
    }
}

impl SpeechFrames {
    /// The frame being filled is never full: a full frame is handed out.
    #[verifier::type_invariant]
    closed spec fn partial_not_full(self) -> bool {
        self.frame@.len() < FRAME_SAMPLES
    }

    /// A framer that has heard nothing.
    pub fn new() -> (f: SpeechFrames)
        ensures
            f@.partial.len() == 0,
            !f@.speech,
    {
        SpeechFrames { frame: Vec::new(), speech: false }
    }

    /// Whether speech was detected.
    pub fn speech(&self) -> (b: bool)
        ensures
            b == self@.speech,
            self@.partial.len() < FRAME_SAMPLES,
    {
        proof {
            use_type_invariant(self);
        }
        self.speech
    }

    /// Records that the detector heard speech.
    pub fn mark_speech(&mut self)
        ensures
            final(self)@.speech,
            final(self)@.partial == old(self)@.partial,
    {
        proof {
            use_type_invariant(&*self);
        }
        self.speech = true;
    }

    /// Takes samples from `bytes[pos..]` into the frame being filled, until
    /// it is full or the chunk ends. Returns where reading stopped and, when
    /// the frame filled up, the full frame (the next frame then starts empty).
    pub fn fill(&mut self, bytes: &[u8], pos: usize) -> (r: (usize, Option<Vec<i16>>))
        requires
            pos <= bytes@.len(),
            pos % 2 == 0,
            bytes@.len() % 2 == 0,
        ensures
            ({
                let room = FRAME_SAMPLES - old(self)@.partial.len();
                let avail = (bytes@.len() - pos) / 2;
                let n = if room < avail {
                    room
                } else {
                    avail
                };
                let got = old(self)@.partial + decode_pcm(bytes@.subrange(pos as int, r.0 as int));
                &&& r.0 == pos + 2 * n
                &&& got.len() == FRAME_SAMPLES ==> (r.1 matches Some(f) && f@ == got
                    && final(self)@.partial.len() == 0)
                &&& got.len() < FRAME_SAMPLES ==> (r.1.is_none() && final(self)@.partial == got)
            }),
            final(self)@.partial.len() < FRAME_SAMPLES,
            final(self)@.speech == old(self)@.speech,
    {
        proof {
            use_type_invariant(&*self);
        }
        let ghost start = self.frame@;
        let mut frame: Vec<i16> = Vec::new();
        std::mem::swap(&mut frame, &mut self.frame);
        let mut p = pos;
        while p + 1 < bytes.len() && frame.len() < FRAME_SAMPLES
            invariant
                pos <= p <= bytes@.len(),
                p % 2 == 0,
                bytes@.len() % 2 == 0,
                frame@.len() <= FRAME_SAMPLES,
                p == pos + 2 * (frame@.len() - start.len()),
                start.len() <= frame@.len(),
                frame@ == start + decode_pcm(bytes@.subrange(pos as int, p as int)),
                self.speech == old(self).speech,
                self.frame@.len() == 0,
            decreases bytes.len() - p,
        {
            let s = decode_sample(bytes[p], bytes[p + 1]);
            let ghost before = frame@;
            frame.push(s);
            proof {
                let d0 = decode_pcm(bytes@.subrange(pos as int, p as int));
                let d1 = decode_pcm(bytes@.subrange(pos as int, p + 2));
                assert(d0.len() == frame@.len() - 1 - start.len());
                assert(2 * (d0.len() as int) == p - pos);
                assert(d1.len() == d0.len() + 1);
                assert forall|k: int| 0 <= k < d0.len() implies d1[k] == d0[k] by {
                    assert(bytes@.subrange(pos as int, p + 2)[2 * k] == bytes@[pos + 2 * k]);
                    assert(bytes@.subrange(pos as int, p + 2)[2 * k + 1] == bytes@[pos + 2 * k + 1]);
                    assert(bytes@.subrange(pos as int, p as int)[2 * k] == bytes@[pos + 2 * k]);
                    assert(bytes@.subrange(pos as int, p as int)[2 * k + 1] == bytes@[pos + 2 * k
                        + 1]);
                }
                assert(d1[d0.len() as int] == s) by {
                    assert(bytes@.subrange(pos as int, p + 2)[2 * (d0.len() as int)] == bytes@[p as int]);
                    assert(bytes@.subrange(pos as int, p + 2)[2 * (d0.len() as int) + 1] == bytes@[p + 1]);
                }
                assert(d1 =~= d0.push(s));
                assert(frame@ =~= start + d1);
            }
            p = p + 2;
        }
        if frame.len() == FRAME_SAMPLES {
            (p, Some(frame))
        } else {
            self.frame = frame;
            (p, None)
        }
    }

    /// Takes a chunk of PCM. A chunk that ends inside a sample is refused
    /// and changes nothing, also after speech was heard. Once speech was
    /// heard nothing more is framed: the verdict stays. Otherwise the chunk's
    /// samples follow the frame being filled, and the frames that fill up are
    /// returned in order: joined, and followed by the new frame being
    /// filled, they are the old partial frame followed by the chunk's
    /// samples.
    pub fn observe(&mut self, bytes: &[u8]) -> (r: Result<Vec<Vec<i16>>, ProtocolError>)
        ensures
            final(self)@.partial.len() < FRAME_SAMPLES,
            final(self)@.speech == old(self)@.speech,
            bytes@.len() % 2 == 1 ==> r == Err::<Vec<Vec<i16>>, ProtocolError>(
                ProtocolError::IncompletePcm,
            ) && final(self)@ == old(self)@,
            bytes@.len() % 2 == 0 && old(self)@.speech ==> (r matches Ok(f) && f@.len() == 0)
                && final(self)@ == old(self)@,
            bytes@.len() % 2 == 0 && !old(self)@.speech ==> (r matches Ok(f) && (forall|k: int|
                0 <= k < f@.len() ==> (#[trigger] f@[k])@.len() == FRAME_SAMPLES) && joined(
                f.deep_view(),
            ) + final(self)@.partial == old(self)@.partial + decode_pcm(bytes@)),
    {
        proof {
            use_type_invariant(&*self);
        }
        check_pcm(bytes)?;
        if self.speech {
            return Ok(Vec::new());
        }
        let mut frames: Vec<Vec<i16>> = Vec::new();
        let mut pos: usize = 0;
        assert(bytes@.subrange(0, 0) =~= Seq::<u8>::empty());
        assert(decode_pcm(Seq::<u8>::empty()) =~= Seq::<i16>::empty());
        assert(joined(frames.deep_view()) + self@.partial =~= old(self)@.partial + decode_pcm(
            bytes@.subrange(0, 0),
        ));
        while pos < bytes.len()
            invariant
                pos <= bytes@.len(),
                pos % 2 == 0,
                bytes@.len() % 2 == 0,
                self@.partial.len() < FRAME_SAMPLES,
                self@.speech == old(self)@.speech,
                forall|k: int| 0 <= k < frames@.len() ==> (#[trigger] frames@[k])@.len() == FRAME_SAMPLES,
                joined(frames.deep_view()) + self@.partial == old(self)@.partial + decode_pcm(
                    bytes@.subrange(0, pos as int),
                ),
            decreases bytes.len() - pos,
        {
            let ghost fr = frames.deep_view();
            let ghost before = self@.partial;
            let (next, frame) = self.fill(bytes, pos);
            proof {
                law_decoding_ignores_chunking(
                    bytes@.subrange(0, pos as int),
                    bytes@.subrange(pos as int, next as int),
                );
                assert(bytes@.subrange(0, pos as int) + bytes@.subrange(pos as int, next as int)
                    =~= bytes@.subrange(0, next as int));
            }
            let ghost d = decode_pcm(bytes@.subrange(pos as int, next as int));
            match frame {
                Some(f) => {
                    let ghost fv = frames@;
                    let ghost fs = f@;
                    assert(f.deep_view() =~= fs);
                    frames.push(f);
                    proof {
                        assert(frames@ == fv.push(frames@[fv.len() as int]));
                        assert(frames@[fv.len() as int].deep_view() == fs);
                        assert(frames.deep_view() =~= fr.push(fs));
                        assert(fr.push(fs).drop_last() =~= fr);
                        assert(joined(frames.deep_view()) == joined(fr) + fs);
                        assert(joined(frames.deep_view()) + self@.partial =~= (joined(fr) + before)
                            + d);
                    }
                },
                None => {
                    proof {
                        assert(joined(frames.deep_view()) + self@.partial =~= (joined(fr) + before)
                            + d);
                    }
                },
            }
            pos = next;
        }
        assert(bytes@.subrange(0, bytes@.len() as int) =~= bytes@);
        Ok(frames)
    }

    /// Closes the stream: the frame being filled, padded with silence to a
    /// full frame, or `None` when it is empty.
    pub fn last_frame(&mut self) -> (r: Option<Vec<i16>>)
        ensures
            old(self)@.partial.len() == 0 ==> r.is_none(),
            old(self)@.partial.len() > 0 ==> (r matches Some(f) && f@ == old(self)@.partial
                + Seq::new((FRAME_SAMPLES - old(self)@.partial.len()) as nat, |k: int| 0i16)),
            final(self)@.partial.len() == 0,
            final(self)@.speech == old(self)@.speech,
    {
        proof {
            use_type_invariant(&*self);
        }
        if self.frame.len() == 0 {
            return None;
        }
        let ghost start = self.frame@;
        let mut full: Vec<i16> = Vec::new();
        std::mem::swap(&mut full, &mut self.frame);
        while full.len() < FRAME_SAMPLES
            invariant
                start.len() <= full@.len() <= FRAME_SAMPLES,
                full@ == start + Seq::new((full@.len() - start.len()) as nat, |k: int| 0i16),
            decreases FRAME_SAMPLES - full.len(),
        {
            let ghost before = full@;
            full.push(0);
            assert(full@ =~= start + Seq::new((full@.len() - start.len()) as nat, |k: int| 0i16));
        }
        Some(full)
    }
}

} // verus!
