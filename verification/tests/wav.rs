use loom::wav::{decode_pcm16_wav, find_data_chunk, is_wave, read_float_wave};

fn chunk(tag: &[u8; 4], body: &[u8]) -> Vec<u8> {
    let mut bytes = tag.to_vec();
    bytes.extend_from_slice(&(body.len() as u32).to_le_bytes());
    bytes.extend_from_slice(body);
    if body.len() % 2 == 1 {
        bytes.push(0);
    }
    bytes
}

fn wave(chunks: &[Vec<u8>]) -> Vec<u8> {
    let body: Vec<u8> = chunks.concat();
    let mut bytes = b"RIFF".to_vec();
    bytes.extend_from_slice(&((body.len() + 4) as u32).to_le_bytes());
    bytes.extend_from_slice(b"WAVE");
    bytes.extend_from_slice(&body);
    bytes
}

fn float_samples(samples: &[f32]) -> Vec<u8> {
    samples.iter().flat_map(|s| s.to_le_bytes()).collect()
}

#[test]
fn recognises_the_wave_header() {
    let file = wave(&[chunk(b"data", &[])]);
    assert!(is_wave(&file));
    assert!(!is_wave(b"RIFF\0\0\0\0WAV"));
    assert!(!is_wave(b"RIFX\0\0\0\0WAVEdata"));
    assert!(!is_wave(b"RIFF\0\0\0\0AVI data"));
}

#[test]
fn reads_float_samples_after_other_chunks() {
    let samples = [0.5f32, -0.25, 1.0];
    let file = wave(&[
        chunk(b"fmt ", &[1, 0, 2, 0, 0x80, 0xbb, 0, 0, 0, 0, 0, 0, 8, 0, 32, 0]),
        chunk(b"LIST", &[1, 2, 3]),
        chunk(b"data", &float_samples(&samples)),
    ]);
    let words = read_float_wave(&file);
    let read: Vec<f32> = words.into_iter().map(f32::from_bits).collect();
    assert_eq!(read, samples);
}

#[test]
fn odd_chunks_are_padded() {
    let file = wave(&[chunk(b"junk", &[7]), chunk(b"data", &float_samples(&[2.0]))]);
    assert_eq!(find_data_chunk(&file), Some((12 + 10 + 8, 12 + 10 + 8 + 4)));
    assert_eq!(read_float_wave(&file), vec![2.0f32.to_bits()]);
}

#[test]
fn missing_or_truncated_data_chunk_is_not_found() {
    let file = wave(&[chunk(b"fmt ", &[0; 16])]);
    assert_eq!(find_data_chunk(&file), None);
    let mut truncated = wave(&[chunk(b"data", &[0; 8])]);
    truncated.truncate(truncated.len() - 3);
    assert_eq!(find_data_chunk(&truncated), None);
    let header_only = wave(&[]);
    assert_eq!(find_data_chunk(&header_only), None);
}

#[test]
fn decodes_pcm16_samples() {
    let raw: Vec<u8> = [0i16, 16384, -16384, i16::MIN, i16::MAX]
        .iter()
        .flat_map(|s| s.to_le_bytes())
        .collect();
    let file = wave(&[chunk(b"fmt ", &[0; 16]), chunk(b"data", &raw)]);
    assert_eq!(decode_pcm16_wav(&file), vec![0, 16384, -16384, i16::MIN, i16::MAX]);
}

#[test]
fn pcm16_drops_a_trailing_odd_byte() {
    let file = wave(&[chunk(b"data", &[0x01, 0x02, 0x03])]);
    assert_eq!(decode_pcm16_wav(&file), vec![0x0201]);
}
