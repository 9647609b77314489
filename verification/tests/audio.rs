use ai_dikte::activity::{check_pcm, decode_sample, SpeechFrames, FRAME_SAMPLES};
use ai_dikte::audio::{check_input_device, whole_samples, AudioError, Resampler};
use ai_dikte::cue::{wav_header, CUE_SAMPLES};
use ai_dikte::protocol::ProtocolError;

fn frames_of(chunks: &[&[u8]]) -> (Vec<Vec<i16>>, Option<Vec<i16>>) {
    let mut framer = SpeechFrames::new();
    let mut frames = Vec::new();
    for chunk in chunks {
        let mut pos = 0;
        while pos < chunk.len() {
            let (next, frame) = framer.fill(chunk, pos);
            pos = next;
            frames.extend(frame);
        }
    }
    let last = framer.last_frame();
    (frames, last)
}

#[test]
fn samples_are_little_endian_signed() {
    assert_eq!(decode_sample(0x00, 0x80), i16::MIN);
    assert_eq!(decode_sample(0xff, 0x7f), i16::MAX);
    assert_eq!(decode_sample(0xff, 0xff), -1);
    assert_eq!(decode_sample(0x34, 0x12), 0x1234);
}

#[test]
fn frames_do_not_depend_on_chunking() {
    let samples: Vec<i16> = (0..700).map(|i| (i * 37 - 9000) as i16).collect();
    let bytes: Vec<u8> = samples.iter().flat_map(|s| s.to_le_bytes()).collect();
    let whole = frames_of(&[&bytes]);
    let pieces: Vec<&[u8]> = bytes.chunks(314).collect();
    let split = frames_of(&pieces);
    assert_eq!(whole, split);
    assert_eq!(whole.0.len(), 2);
    assert_eq!(whole.0[0], samples[..FRAME_SAMPLES]);
    assert_eq!(whole.0[1], samples[FRAME_SAMPLES..2 * FRAME_SAMPLES]);
    let last = whole.1.unwrap();
    assert_eq!(last.len(), FRAME_SAMPLES);
    assert_eq!(last[..188], samples[2 * FRAME_SAMPLES..]);
    assert!(last[188..].iter().all(|s| *s == 0));
}

#[test]
fn empty_stream_has_no_last_frame() {
    assert_eq!(frames_of(&[]), (Vec::new(), None));
    let exact: Vec<u8> = vec![1; 2 * FRAME_SAMPLES];
    let (frames, last) = frames_of(&[&exact]);
    assert_eq!(frames.len(), 1);
    assert_eq!(last, None);
}

#[test]
fn odd_chunks_are_refused_and_speech_is_remembered() {
    assert_eq!(check_pcm(&[1]), Err(ProtocolError::IncompletePcm));
    assert!(check_pcm(&[]).is_ok());
    assert!(check_pcm(&[1, 2]).is_ok());
    let mut framer = SpeechFrames::new();
    assert!(!framer.speech());
    framer.mark_speech();
    assert!(framer.speech());
}

#[test]
fn resampling_counts_keep_exact_duration() {
    for rate in [16000u32, 44100, 48000] {
        let mut r = Resampler::new(rate, 2).unwrap();
        assert_eq!(r.frame_len(), 2);
        let mut due = 0;
        for _ in 0..rate {
            if r.advance() {
                due += 1;
            }
        }
        assert_eq!(due, 16000);
    }
    let mut r = Resampler::new(48000, 1).unwrap();
    let pattern: Vec<bool> = (0..6).map(|_| r.advance()).collect();
    assert_eq!(pattern, [false, false, true, false, false, true]);
    assert_eq!(Resampler::new(8000, 1).err(), Some(AudioError::UnsupportedFormat));
    assert_eq!(Resampler::new(48000, 0).err(), Some(AudioError::UnsupportedFormat));
    assert_eq!(
        AudioError::UnsupportedFormat.message(),
        "Microphone must support at least 16 kHz and one channel"
    );
}

#[test]
fn cue_header_is_canonical_wav() {
    let h = wav_header(CUE_SAMPLES);
    assert_eq!(h.len(), 44);
    assert_eq!(&h[0..4], b"RIFF");
    assert_eq!(u32::from_le_bytes([h[4], h[5], h[6], h[7]]), 36 + 4800);
    assert_eq!(&h[8..16], b"WAVEfmt ");
    assert_eq!(u32::from_le_bytes([h[16], h[17], h[18], h[19]]), 16);
    assert_eq!(u16::from_le_bytes([h[20], h[21]]), 1);
    assert_eq!(u16::from_le_bytes([h[22], h[23]]), 1);
    assert_eq!(u32::from_le_bytes([h[24], h[25], h[26], h[27]]), 16000);
    assert_eq!(u32::from_le_bytes([h[28], h[29], h[30], h[31]]), 32000);
    assert_eq!(u16::from_le_bytes([h[32], h[33]]), 2);
    assert_eq!(u16::from_le_bytes([h[34], h[35]]), 16);
    assert_eq!(&h[36..40], b"data");
    assert_eq!(u32::from_le_bytes([h[40], h[41], h[42], h[43]]), 4800);
}

#[test]
fn odd_reads_carry_their_last_byte() {
    assert_eq!(whole_samples(None, &[1, 2, 3]), (vec![1, 2], Some(3)));
    assert_eq!(whole_samples(Some(3), &[4, 5, 6]), (vec![3, 4, 5, 6], None));
    assert_eq!(whole_samples(Some(9), &[]), (vec![], Some(9)));
    assert_eq!(whole_samples(None, &[]), (vec![], None));
}

#[test]
fn malformed_pcm_is_rejected_even_after_speech() {
    let mut framer = SpeechFrames::new();
    let speech: Vec<u8> = (0..600u32).flat_map(|i| ((i as i16) * 7).to_le_bytes()).collect();
    assert_eq!(framer.observe(&speech).unwrap().len(), 2);
    framer.mark_speech();
    assert_eq!(framer.observe(&[1]), Err(ProtocolError::IncompletePcm));
    assert!(framer.speech());
    // Once speech was heard nothing more is framed.
    assert!(framer.observe(&speech).unwrap().is_empty());
    assert!(framer.speech());
}

#[test]
fn observed_chunks_become_whole_frames() {
    let mut framer = SpeechFrames::new();
    let bytes: Vec<u8> = (0..700i16).flat_map(|s| s.to_le_bytes()).collect();
    let first = framer.observe(&bytes[..300]).unwrap();
    assert!(first.is_empty());
    let rest = framer.observe(&bytes[300..]).unwrap();
    assert_eq!(rest.len(), 2);
    assert_eq!(rest[0], (0..256).collect::<Vec<i16>>());
    assert_eq!(rest[1], (256..512).collect::<Vec<i16>>());
    let last = framer.last_frame().unwrap();
    assert_eq!(&last[..188], &(512..700).collect::<Vec<i16>>()[..]);
    assert!(last[188..].iter().all(|s| *s == 0));
    assert_eq!(framer.observe(&[0, 0, 0]), Err(ProtocolError::IncompletePcm));
}

#[test]
fn reads_join_back_into_the_recording() {
    let reads: Vec<Vec<u8>> = vec![vec![1, 2, 3], vec![4], vec![], vec![5, 6, 7, 8, 9], vec![10]];
    let mut carry = None;
    let mut sent = Vec::new();
    for read in &reads {
        let (chunk, rest) = whole_samples(carry, read);
        assert_eq!(chunk.len() % 2, 0);
        sent.extend(chunk);
        carry = rest;
    }
    assert_eq!(carry, None);
    assert_eq!(sent, reads.concat());
}

#[test]
fn only_the_default_microphone_is_used() {
    assert_eq!(check_input_device(&None), Ok(()));
    assert_eq!(check_input_device(&Some("USB".into())), Err(AudioError::NamedDevice));
    assert_eq!(
        AudioError::NamedDevice.message(),
        "Linux uses the PipeWire default source; choose it in system audio settings"
    );
}
