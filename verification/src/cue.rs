//! The audio cue's container: a canonical 44-byte WAV header for 16 kHz
//! mono signed 16-bit PCM.
use vstd::prelude::*;

verus! {

/// Samples in one cue (0.15 s at 16 kHz).
pub const CUE_SAMPLES: u32 = 2400;

/// `v` as four little-endian bytes.
pub open spec fn le32(v: nat) -> Seq<u8> {
    seq![(v % 256) as u8, ((v / 256) % 256) as u8, ((v / 65536) % 256) as u8, ((v / 16777216) % 256) as u8]
}

/// `v` as two little-endian bytes.
pub open spec fn le16(v: nat) -> Seq<u8> {
    seq![(v % 256) as u8, ((v / 256) % 256) as u8]
}

/// The header of a WAV file holding `count` samples: RIFF size, `fmt `
/// chunk (PCM, 1 channel, 16000 Hz, 32000 bytes/s, block align 2, 16 bits),
/// and the `data` chunk size.
pub open spec fn wav_header_spec(count: nat) -> Seq<u8> {
    "RIFF"@.map_values(|c: char| c as u8) + le32(36 + count * 2) + "WAVEfmt "@.map_values(
        |c: char| c as u8,
    ) + le32(16) + le16(1) + le16(1) + le32(16000) + le32(32000) + le16(2) + le16(16)
        + "data"@.map_values(|c: char| c as u8) + le32(count * 2)
}

/// Appends `v` as four little-endian bytes.
fn push_le32(out: &mut Vec<u8>, v: u32)
    ensures
        final(out)@ == old(out)@ + le32(v as nat),
{
    out.push((v % 256) as u8);
    out.push(((v / 256) % 256) as u8);
    out.push(((v / 65536) % 256) as u8);
    out.push(((v / 16777216) % 256) as u8);
    assert(final(out)@ =~= old(out)@ + le32(v as nat));
}

/// Appends `v` as two little-endian bytes.
fn push_le16(out: &mut Vec<u8>, v: u16)
    ensures
        final(out)@ == old(out)@ + le16(v as nat),
{
    out.push((v % 256) as u8);
    out.push(((v / 256) % 256) as u8);
    assert(final(out)@ =~= old(out)@ + le16(v as nat));
}

/// Appends the bytes of an ASCII tag.
fn push_tag(out: &mut Vec<u8>, a: u8, b: u8, c: u8, d: u8)
    ensures
        final(out)@ == old(out)@ + seq![a, b, c, d],
{
    out.push(a);
    out.push(b);
    out.push(c);
    out.push(d);
    assert(final(out)@ =~= old(out)@ + seq![a, b, c, d]);
}

/// The WAV header for `count` samples (see `wav_header_spec`).
pub fn wav_header(count: u32) -> (h: Vec<u8>)
    requires
        36 + 2 * count <= u32::MAX,
    ensures
        h@ == wav_header_spec(count as nat),
        h@.len() == 44,
{
    let mut h: Vec<u8> = Vec::new();
    push_tag(&mut h, 82, 73, 70, 70);
    push_le32(&mut h, 36 + count * 2);
    push_tag(&mut h, 87, 65, 86, 69);
    push_tag(&mut h, 102, 109, 116, 32);
    push_le32(&mut h, 16);
    push_le16(&mut h, 1);
    push_le16(&mut h, 1);
    push_le32(&mut h, 16000);
    push_le32(&mut h, 32000);
    push_le16(&mut h, 2);
    push_le16(&mut h, 16);
    push_tag(&mut h, 100, 97, 116, 97);
    push_le32(&mut h, count * 2);
    proof {
        reveal_strlit("RIFF");
        reveal_strlit("WAVEfmt ");
        reveal_strlit("data");
        assert("RIFF"@.map_values(|c: char| c as u8) =~= seq![82u8, 73, 70, 70]);
        assert("WAVEfmt "@.map_values(|c: char| c as u8) =~= seq![87u8, 65, 86, 69, 102, 109, 116, 32]);
        assert("data"@.map_values(|c: char| c as u8) =~= seq![100u8, 97, 116, 97]);
        assert(h@ =~= wav_header_spec(count as nat));
    }
    h
}

/// Law: the header describes the cue exactly: 44 bytes, a RIFF/WAVE file of
/// one PCM channel at 16000 Hz, 16 bits per sample (32000 bytes per second,
/// 2 bytes per frame), whose data chunk holds `2 * count` bytes and whose
/// RIFF size counts the 36 header bytes after it plus the data.
pub proof fn law_header_describes_the_cue(count: nat)
    ensures
        wav_header_spec(count).len() == 44,
        wav_header_spec(count).subrange(0, 4) == seq![82u8, 73, 70, 70],
        wav_header_spec(count).subrange(8, 16) == seq![87u8, 65, 86, 69, 102, 109, 116, 32],
        wav_header_spec(count).subrange(20, 24) == seq![1u8, 0, 1, 0],
        wav_header_spec(count).subrange(24, 28) == seq![0x80u8, 0x3e, 0, 0],
        wav_header_spec(count).subrange(28, 32) == seq![0x00u8, 0x7d, 0, 0],
        wav_header_spec(count).subrange(32, 36) == seq![2u8, 0, 16, 0],
        wav_header_spec(count).subrange(36, 40) == seq![100u8, 97, 116, 97],
        wav_header_spec(count).subrange(40, 44) == le32(2 * count),
        wav_header_spec(count).subrange(4, 8) == le32(36 + 2 * count),
{
    reveal_strlit("RIFF");
    reveal_strlit("WAVEfmt ");
    reveal_strlit("data");
    let h = wav_header_spec(count);
    assert("RIFF"@.map_values(|c: char| c as u8) =~= seq![82u8, 73, 70, 70]);
    assert("WAVEfmt "@.map_values(|c: char| c as u8) =~= seq![87u8, 65, 86, 69, 102, 109, 116, 32]);
    assert("data"@.map_values(|c: char| c as u8) =~= seq![100u8, 97, 116, 97]);
    assert(h.subrange(0, 4) =~= seq![82u8, 73, 70, 70]);
    assert(h.subrange(8, 16) =~= seq![87u8, 65, 86, 69, 102, 109, 116, 32]);
    assert(h.subrange(20, 24) =~= seq![1u8, 0, 1, 0]);
    assert(h.subrange(24, 28) =~= seq![0x80u8, 0x3e, 0, 0]);
    assert(h.subrange(28, 32) =~= seq![0x00u8, 0x7d, 0, 0]);
    assert(h.subrange(32, 36) =~= seq![2u8, 0, 16, 0]);
    assert(h.subrange(36, 40) =~= seq![100u8, 97, 116, 97]);
    assert(h.subrange(40, 44) =~= le32(count * 2));
    assert(h.subrange(4, 8) =~= le32(36 + count * 2));
}

} // verus!
