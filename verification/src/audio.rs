//! Rate conversion of microphone frames to the wire's 16 kHz: which input
//! frames complete an output sample. The phase survives between callbacks, so
//! 44.1 and 48 kHz sources neither drift nor change length. Also how reads
//! from the recorder are cut into whole 16-bit samples.
use vstd::prelude::*;

verus! {

/// Output rate, in Hz.
pub const OUTPUT_RATE: u64 = 16000;

/// Chunks of audio the recorder may queue before the network consumes them.
pub const BUFFER_CHUNKS: usize = 2048;

/// Why the microphone cannot be used.
#[derive(Clone, Copy, Debug, PartialEq, Eq, Structural)]
pub enum AudioError {
    /// Below 16 kHz or without channels.
    UnsupportedFormat,
    /// A named microphone was chosen; Linux records PipeWire's default source.
    NamedDevice,
}

impl AudioError {
    /// The message shown to the user.
    pub fn message(&self) -> (s: String)
        ensures
            s@ == match self {
                AudioError::UnsupportedFormat => "Microphone must support at least 16 kHz and one channel"@,
                AudioError::NamedDevice => "Linux uses the PipeWire default source; choose it in system audio settings"@,
            },
    {
        match self {
            AudioError::UnsupportedFormat => String::from_str(
                "Microphone must support at least 16 kHz and one channel",
            ),
            AudioError::NamedDevice => String::from_str(
                "Linux uses the PipeWire default source; choose it in system audio settings",
            ),
        }
    }
}

/// Whether recording may start with the chosen microphone: only with the
/// system default (none chosen), before anything is spawned.
pub fn check_input_device(device: &Option<String>) -> (r: Result<(), AudioError>)
    ensures
        device is None ==> r is Ok,
        device is Some ==> r == Err::<(), AudioError>(AudioError::NamedDevice),
{
    match device {
        Some(_) => Err(AudioError::NamedDevice),
        None => Ok(()),
    }
}

/// Output samples due, and the phase left, after `n` input frames at `rate`
/// starting from phase 0.
pub open spec fn run_phase(rate: nat, n: nat) -> (nat, nat)
    decreases n,
{
    if n == 0 {
        (0, 0)
    } else {
        let (count, phase) = run_phase(rate, (n - 1) as nat);
        if phase + OUTPUT_RATE >= rate {
            (count + 1, (phase + OUTPUT_RATE - rate) as nat)
        } else {
            (count, (phase + OUTPUT_RATE) as nat)
        }
    }
}

/// The input side of the converter.
pub struct Resampler {
    rate: u64,
    channels: usize,
    phase: u64,
}

impl Resampler {
    /// The input rate.
    pub closed spec fn rate(&self) -> nat {
        self.rate as nat
    }

    /// Samples per input frame.
    pub closed spec fn channels(&self) -> nat {
        self.channels as nat
    }

    /// Progress towards the next output sample, in units of 1/(rate*16000) s.
    pub closed spec fn phase(&self) -> nat {
        self.phase as nat
    }

    /// The converter is in range: at least 16 kHz, at least one channel,
    /// and the phase below one input sample.
    #[verifier::type_invariant]
    closed spec fn wf(self) -> bool {
        self.rate >= OUTPUT_RATE && self.rate <= u32::MAX && self.phase < self.rate && self.channels > 0
    }

    /// A converter for `rate` Hz input with `channels` interleaved channels;
    /// refused below 16 kHz or without channels.
    pub fn new(rate: u32, channels: usize) -> (r: Result<Resampler, AudioError>)
        ensures
            rate < OUTPUT_RATE || channels == 0 ==> r == Err::<Resampler, AudioError>(
                AudioError::UnsupportedFormat,
            ),
            rate >= OUTPUT_RATE && channels > 0 ==> (r matches Ok(s) && s.rate() == rate
                && s.channels() == channels && s.phase() == 0),
    {
        if (rate as u64) < OUTPUT_RATE || channels == 0 {
            return Err(AudioError::UnsupportedFormat);
        }
        Ok(Resampler { rate: rate as u64, channels, phase: 0 })
    }

    /// Samples per input frame.
    pub fn frame_len(&self) -> (n: usize)
        ensures
            n == self.channels(),
            n > 0,
    {
        proof {
            use_type_invariant(self);
        }
        self.channels
    }

    /// Accounts for one input frame; true when it completes an output sample.
    pub fn advance(&mut self) -> (due: bool)
        ensures
            final(self).rate() == old(self).rate(),
            final(self).channels() == old(self).channels(),
            final(self).phase() < final(self).rate(),
            due == (old(self).phase() + OUTPUT_RATE >= old(self).rate()),
            due ==> final(self).phase() == old(self).phase() + OUTPUT_RATE - old(self).rate(),
            !due ==> final(self).phase() == old(self).phase() + OUTPUT_RATE,
    {
        proof {
            use_type_invariant(&*self);
        }
        let next = self.phase + OUTPUT_RATE;
        if next >= self.rate {
            self.phase = next - self.rate;
            true
        } else {
            self.phase = next;
            false
        }
    }
}

/// Law: after `n` input frames at `rate` Hz (at least 16 kHz), exactly
/// `n * 16000 / rate` output samples are due and the phase is the remainder,
/// however the frames were split into callbacks: the output keeps the exact
/// duration of the input.
pub proof fn law_resampling_keeps_duration(rate: nat, n: nat)
    requires
        rate >= OUTPUT_RATE,
    ensures
        run_phase(rate, n).0 == (n * OUTPUT_RATE) / (rate as int),
        run_phase(rate, n).1 == (n * OUTPUT_RATE) % (rate as int),
    decreases n,
{
    if n == 0 {
        assert(0 * OUTPUT_RATE == 0);
        vstd::arithmetic::div_mod::lemma_fundamental_div_mod_converse(0, rate as int, 0, 0);
    } else {
        let m = (n - 1) as nat;
        law_resampling_keeps_duration(rate, m);
        let q = (m * OUTPUT_RATE) / (rate as int);
        let r = (m * OUTPUT_RATE) % (rate as int);
        vstd::arithmetic::div_mod::lemma_fundamental_div_mod(m * OUTPUT_RATE, rate as int);
        assert(n * OUTPUT_RATE == m * OUTPUT_RATE + OUTPUT_RATE) by (nonlinear_arith)
            requires
                n == m + 1,
        ;
        if r + OUTPUT_RATE >= rate {
            assert(n * OUTPUT_RATE == (q + 1) * rate + (r + OUTPUT_RATE - rate)) by (nonlinear_arith)
                requires
                    m * OUTPUT_RATE == rate * q + r,
                    n * OUTPUT_RATE == m * OUTPUT_RATE + OUTPUT_RATE,
            ;
            vstd::arithmetic::div_mod::lemma_fundamental_div_mod_converse(
                n * OUTPUT_RATE,
                rate as int,
                q + 1,
                r + OUTPUT_RATE - rate,
            );
        } else {
            assert(n * OUTPUT_RATE == q * rate + (r + OUTPUT_RATE)) by (nonlinear_arith)
                requires
                    m * OUTPUT_RATE == rate * q + r,
                    n * OUTPUT_RATE == m * OUTPUT_RATE + OUTPUT_RATE,
            ;
            vstd::arithmetic::div_mod::lemma_fundamental_div_mod_converse(
                n * OUTPUT_RATE,
                rate as int,
                q,
                r + OUTPUT_RATE,
            );
        }
    }
}

/// The bytes of a read, after the byte carried over from the previous read.
pub open spec fn carried(carry: Option<u8>, data: Seq<u8>) -> Seq<u8> {
    match carry {
        Some(b) => seq![b] + data,
        None => data,
    }
}

/// One read split into whole samples and the byte carried on (see
/// `whole_samples`).
pub open spec fn pair_step(carry: Option<u8>, data: Seq<u8>) -> (Seq<u8>, Option<u8>) {
    let all = carried(carry, data);
    if all.len() % 2 == 0 {
        (all, None)
    } else {
        (all.drop_last(), Some(all.last()))
    }
}

/// The bytes of a carried byte: one byte or none.
pub open spec fn carry_bytes(carry: Option<u8>) -> Seq<u8> {
    match carry {
        Some(b) => seq![b],
        None => Seq::empty(),
    }
}

/// Byte sequences joined end to end.
pub open spec fn concat_bytes(parts: Seq<Seq<u8>>) -> Seq<u8>
    decreases parts.len(),
{
    if parts.len() == 0 {
        Seq::empty()
    } else {
        concat_bytes(parts.drop_last()) + parts.last()
    }
}

/// The chunks sent and the byte still carried after splitting the reads
/// one after the other, starting with nothing carried.
pub open spec fn pair_reads(reads: Seq<Seq<u8>>) -> (Seq<Seq<u8>>, Option<u8>)
    decreases reads.len(),
{
    if reads.len() == 0 {
        (Seq::empty(), None)
    } else {
        let before = pair_reads(reads.drop_last());
        let step = pair_step(before.1, reads.last());
        (before.0.push(step.0), step.1)
    }
}

/// Law: splitting a whole recording read by read loses and reorders no
/// byte. The chunks sent, joined, followed by the byte still carried, are
/// the recorder's bytes; every chunk holds whole samples; and a byte is
/// still carried exactly when the recorder's output ends inside a sample.
pub proof fn law_reads_join_back(reads: Seq<Seq<u8>>)
    ensures
        concat_bytes(pair_reads(reads).0) + carry_bytes(pair_reads(reads).1) == concat_bytes(reads),
        forall|i: int|
            0 <= i < pair_reads(reads).0.len() ==> (#[trigger] pair_reads(reads).0[i]).len() % 2
                == 0,
        concat_bytes(pair_reads(reads).0).len() % 2 == 0,
        pair_reads(reads).1 is Some <==> concat_bytes(reads).len() % 2 == 1,
    decreases reads.len(),
{
    if reads.len() == 0 {
        assert(Seq::<u8>::empty() + Seq::<u8>::empty() =~= Seq::<u8>::empty());
    } else {
        let rest = reads.drop_last();
        law_reads_join_back(rest);
        let before = pair_reads(rest);
        let data = reads.last();
        let all = carried(before.1, data);
        assert(all =~= carry_bytes(before.1) + data);
        let outs = before.0.push(pair_step(before.1, data).0);
        assert(outs.drop_last() =~= before.0);
        if all.len() % 2 == 0 {
            assert(concat_bytes(outs) + carry_bytes(None) =~= concat_bytes(before.0) + carry_bytes(
                before.1,
            ) + data);
        } else {
            assert(all.drop_last() + seq![all.last()] =~= all);
            assert(concat_bytes(outs) + carry_bytes(Some(all.last())) =~= concat_bytes(before.0)
                + carry_bytes(before.1) + data);
        }
        assert forall|i: int| 0 <= i < outs.len() implies (#[trigger] outs[i]).len() % 2 == 0 by {
            if i < before.0.len() {
                assert(outs[i] == before.0[i]);
            }
        }
    }
}

/// Splits a read from the recorder into whole 16-bit samples: the byte
/// carried over from the previous read comes first, and an odd byte at the
/// end is carried on to the next read. No byte is lost or reordered.
pub fn whole_samples(carry: Option<u8>, data: &[u8]) -> (r: (Vec<u8>, Option<u8>))
    ensures
        carried(carry, data@).len() % 2 == 0 ==> r.0@ == carried(carry, data@) && r.1.is_none(),
        carried(carry, data@).len() % 2 == 1 ==> r.0@ == carried(carry, data@).drop_last() && r.1
            == Some(carried(carry, data@).last()),
        (r.0@, r.1) == pair_step(carry, data@),
{
    let mut bytes: Vec<u8> = Vec::new();
    match carry {
        Some(b) => bytes.push(b),
        None => {},
    }
    let mut i: usize = 0;
    while i < data.len()
        invariant
            i <= data.len(),
            bytes@ == carried(carry, data@.take(i as int)),
        decreases data.len() - i,
    {
        bytes.push(data[i]);
        i = i + 1;
        assert(carried(carry, data@.take(i as int)) =~= carried(carry, data@.take(i - 1)).push(
            data@[i - 1],
        ));
    }
    assert(data@.take(data.len() as int) =~= data@);
    if bytes.len() % 2 == 1 {
        let last = bytes.pop();
        (bytes, last)
    } else {
        (bytes, None)
    }
}

} // verus!
