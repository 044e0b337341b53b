use angry_surgeon::passive::{Phrase, Step};
use angry_surgeon::wav::{data_span, read_len, seek_position};
use angry_surgeon::{parse_wav, Error, Event, Mod, Rd, WavInfo};

fn le16(v: u16) -> [u8; 2] {
    v.to_le_bytes()
}

fn le32(v: u32) -> [u8; 4] {
    v.to_le_bytes()
}

/// A plain 44-byte header for 16-bit mono PCM at `rate`, followed by `pcm`.
fn wav(rate: u32, pcm: &[u8]) -> Vec<u8> {
    let mut b = Vec::new();
    b.extend_from_slice(b"RIFF");
    b.extend_from_slice(&le32(36 + pcm.len() as u32));
    b.extend_from_slice(b"WAVE");
    b.extend_from_slice(b"fmt ");
    b.extend_from_slice(&le32(16));
    b.extend_from_slice(&le16(1));
    b.extend_from_slice(&le16(1));
    b.extend_from_slice(&le32(rate));
    b.extend_from_slice(&le32(rate * 2));
    b.extend_from_slice(&le16(2));
    b.extend_from_slice(&le16(16));
    b.extend_from_slice(b"data");
    b.extend_from_slice(&le32(pcm.len() as u32));
    b.extend_from_slice(pcm);
    b
}

#[test]
fn plain_header_parses() {
    let b = wav(48000, &[1, 2, 3, 4]);
    assert_eq!(b.len(), 48);
    let r = parse_wav::<()>(&b);
    assert!(matches!(r, Ok(WavInfo { pcm_start: 44, pcm_len: 4, sample_rate: 48000 })));
}

#[test]
fn other_chunks_are_passed_over() {
    let mut b = Vec::new();
    b.extend_from_slice(b"LIST");
    b.extend_from_slice(&le32(2));
    b.extend_from_slice(&[0, 0]);
    b.extend_from_slice(&wav(44100, &[9, 9]));
    let r = parse_wav::<()>(&b);
    assert!(matches!(r, Ok(WavInfo { pcm_start: 54, pcm_len: 2, sample_rate: 44100 })));
    assert!(matches!(data_span::<()>(&b), Ok((54, 56))));
}

#[test]
fn stereo_is_bad_format() {
    let mut b = wav(48000, &[0, 0]);
    b[22] = 2;
    assert!(matches!(parse_wav::<()>(&b), Err(Error::BadFormat)));
    let mut b = wav(48000, &[0, 0]);
    b[8] = b'X';
    assert!(matches!(parse_wav::<()>(&b), Err(Error::BadFormat)));
    assert!(matches!(data_span::<()>(&b), Err(Error::BadFormat)));
}

#[test]
fn truncated_header_has_no_data() {
    let b = wav(48000, &[]);
    assert!(matches!(parse_wav::<()>(&b[..30]), Err(Error::DataNotFound)));
    assert!(matches!(parse_wav::<()>(&[]), Err(Error::DataNotFound)));
    assert!(matches!(data_span::<()>(&b[..20]), Err(Error::DataNotFound)));
    assert!(matches!(data_span::<()>(&b), Ok((44, 44))));
}

#[test]
fn seeks_wrap_within_the_data() {
    let info = WavInfo { pcm_start: 44, pcm_len: 100, sample_rate: 48000 };
    assert_eq!(seek_position(&info, 0), 44);
    assert_eq!(seek_position(&info, 250), 94);
    assert_eq!(seek_position(&info, -1), 143);
    assert_eq!(seek_position(&info, -200), 44);
    assert_eq!(seek_position(&info, -201), 143);
}

#[test]
fn looping_reads_stop_at_the_end_of_the_data() {
    assert_eq!(read_len(64, 100, 0), 64);
    assert_eq!(read_len(64, 100, 90), 10);
    assert_eq!(read_len(10, 100, 90), 10);
    assert_eq!(read_len(64, 100, 100), 0);
    assert_eq!(read_len(0, 100, 5), 0);
}

#[test]
fn mod_net_is_the_product() {
    let m = Mod::new(3u32, 7u32);
    assert_eq!(m.base, 3);
    assert_eq!(m.offset, 7);
    assert_eq!(m.net(), 21);
    let f = Mod::new(0.5f32, 4.0f32);
    assert_eq!(f.net(), 2.0);
}

#[test]
fn default_sample_description() {
    let rd = Rd::default();
    assert_eq!(rd.steps, None);
    assert_eq!(rd.onsets, vec![0]);
}

#[test]
fn phrase_plays_its_last_steps_wrapping() {
    let mut steps = [Step::default(); 128];
    steps[125] = Step { event: Some(Event::Sync), reverse: false };
    steps[127] = Step { event: Some(Event::Hold { index: 2 }), reverse: true };
    let p = Phrase { steps, len: 3 };
    assert_eq!(p.generate_step(0, 0), steps[125]);
    assert_eq!(p.generate_step(2, 0), steps[127]);
    assert_eq!(p.generate_step(3, 0), steps[125]);
    assert_eq!(p.generate_step(1, 1), steps[127]);
}
