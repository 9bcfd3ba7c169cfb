//! Reading the sample data out of RIFF/WAVE files, as embedded impulse
//! responses are stored.

use vstd::prelude::*;

verus! {

/// The little-endian unsigned number in the four bytes at `at`.
pub open spec fn le_u32(bytes: Seq<u8>, at: int) -> int {
    bytes[at] + 256 * bytes[at + 1] + 65536 * bytes[at + 2] + 16777216 * bytes[at + 3]
}

/// The little-endian two's-complement number in the two bytes at `at`.
pub open spec fn le_i16(bytes: Seq<u8>, at: int) -> int {
    let raw = bytes[at] + 256 * bytes[at + 1];
    if raw < 32768 {
        raw
    } else {
        raw - 65536
    }
}

/// Whether the four bytes at `at` spell `tag`.
pub open spec fn has_tag(bytes: Seq<u8>, at: int, tag: Seq<u8>) -> bool {
    bytes.subrange(at, at + 4) == tag
}

/// The tag of a RIFF file.
pub open spec fn riff_tag() -> Seq<u8> {
    seq![82u8, 73u8, 70u8, 70u8]
}

/// The form type of a WAVE file.
pub open spec fn wave_tag() -> Seq<u8> {
    seq![87u8, 65u8, 86u8, 69u8]
}

/// The tag of the chunk that holds the samples.
pub open spec fn data_tag() -> Seq<u8> {
    seq![100u8, 97u8, 116u8, 97u8]
}

/// Whether the bytes open with a RIFF header of form type WAVE.
pub open spec fn is_wave_header(bytes: Seq<u8>) -> bool {
    &&& bytes.len() >= 12
    &&& has_tag(bytes, 0, riff_tag())
    &&& has_tag(bytes, 8, wave_tag())
}

/// Where the chunk that starts at `offset` ends, without its padding byte.
pub open spec fn chunk_end(bytes: Seq<u8>, offset: int) -> int {
    offset + 8 + le_u32(bytes, offset + 4)
}

/// Where the chunk after the one at `offset` starts: chunks of odd size are
/// followed by one padding byte.
pub open spec fn next_chunk(bytes: Seq<u8>, offset: int) -> int {
    chunk_end(bytes, offset) + le_u32(bytes, offset + 4) % 2
}

/// The start and end of the first `data` chunk's contents, walking the
/// chunks from `offset` as long as a whole chunk header fits.
pub open spec fn data_chunk_from(bytes: Seq<u8>, offset: int) -> Option<(int, int)>
    decreases bytes.len() - offset,
{
    if offset < 0 || offset + 8 > bytes.len() {
        None
    } else if has_tag(bytes, offset, data_tag()) {
        Some((offset + 8, chunk_end(bytes, offset)))
    } else {
        proof {
            chunks_move_forward(bytes, offset);
        }
        if next_chunk(bytes, offset) > bytes.len() {
            None
        } else {
            data_chunk_from(bytes, next_chunk(bytes, offset))
        }
    }
}

/// The walk over the chunks always moves forward.
pub proof fn chunks_move_forward(bytes: Seq<u8>, offset: int)
    requires
        0 <= offset,
        offset + 8 <= bytes.len(),
    ensures
        next_chunk(bytes, offset) > offset,
{
    let b0 = bytes[offset + 4];
    let b1 = bytes[offset + 5];
    let b2 = bytes[offset + 6];
    let b3 = bytes[offset + 7];
    assert(le_u32(bytes, offset + 4) >= 0);
}

/// The `data` chunk of a WAVE file: its chunks start after the 12-byte header.
pub open spec fn data_chunk(bytes: Seq<u8>) -> Option<(int, int)> {
    data_chunk_from(bytes, 12)
}

/// Whether every chunk walked from `offset` up to the `data` chunk ends
/// within the bytes.
pub open spec fn chunks_fit_from(bytes: Seq<u8>, offset: int) -> bool
    decreases bytes.len() - offset,
{
    if offset < 0 || offset + 8 > bytes.len() {
        true
    } else {
        proof {
            chunks_move_forward(bytes, offset);
        }
        &&& chunk_end(bytes, offset) <= bytes.len()
        &&& (has_tag(bytes, offset, data_tag()) || next_chunk(bytes, offset) > bytes.len()
            || chunks_fit_from(bytes, next_chunk(bytes, offset)))
    }
}

/// Whether the file has a `data` chunk that ends within the bytes.
pub open spec fn has_whole_data_chunk(bytes: Seq<u8>) -> bool {
    match data_chunk(bytes) {
        Some((start, end)) => end <= bytes.len(),
        None => false,
    }
}

/// The little-endian 32-bit words of `bytes[start..end]`.
pub open spec fn words(bytes: Seq<u8>, start: int, end: int) -> Seq<u32> {
    Seq::new(((end - start) / 4) as nat, |i: int| le_u32(bytes, start + 4 * i) as u32)
}

/// The little-endian 16-bit samples of `bytes[start..end]`; a last odd byte
/// is left out.
pub open spec fn pcm16_samples(bytes: Seq<u8>, start: int, end: int) -> Seq<i16> {
    Seq::new(((end - start) / 2) as nat, |i: int| le_i16(bytes, start + 2 * i) as i16)
}

fn read_le_u32(bytes: &[u8], at: usize) -> (value: u32)
    requires
        at + 4 <= bytes@.len(),
    ensures
        value == le_u32(bytes@, at as int),
{
    bytes[at] as u32 + 256 * (bytes[at + 1] as u32) + 65536 * (bytes[at + 2] as u32) + 16777216
        * (bytes[at + 3] as u32)
}

fn read_le_i16(bytes: &[u8], at: usize) -> (value: i16)
    requires
        at + 2 <= bytes@.len(),
    ensures
        value == le_i16(bytes@, at as int),
{
    let raw: u32 = bytes[at] as u32 + 256 * (bytes[at + 1] as u32);
    if raw < 32768 {
        raw as i16
    } else {
        (raw as i32 - 65536) as i16
    }
}

fn tag_at(bytes: &[u8], at: usize, a: u8, b: u8, c: u8, d: u8) -> (matches: bool)
    requires
        at + 4 <= bytes@.len(),
    ensures
        matches == has_tag(bytes@, at as int, seq![a, b, c, d]),
{
    let matches = bytes[at] == a && bytes[at + 1] == b && bytes[at + 2] == c && bytes[at + 3] == d;
    proof {
        let window = bytes@.subrange(at as int, at + 4);
        if matches {
            assert(window =~= seq![a, b, c, d]);
        } else {
            assert(window[0] != a || window[1] != b || window[2] != c || window[3] != d);
        }
    }
    matches
}

/// Whether the bytes open with a RIFF header of form type WAVE.
pub fn is_wave(bytes: &[u8]) -> (wave: bool)
    ensures
        wave == is_wave_header(bytes@),
{
    if bytes.len() < 12 {
        return false;
    }
    tag_at(bytes, 0, 82, 73, 70, 70) && tag_at(bytes, 8, 87, 65, 86, 69)
}

/// Finds the contents of the first `data` chunk, walking the chunks after the
/// header; `None` if there is none, or if it runs past the end of the bytes.
pub fn find_data_chunk(bytes: &[u8]) -> (chunk: Option<(usize, usize)>)
    ensures
        match chunk {
            Some((start, end)) => data_chunk(bytes@) == Some((start as int, end as int)) && end
                <= bytes@.len(),
            None => !has_whole_data_chunk(bytes@),
        },
{
    let len: usize = bytes.len();
    let mut offset: usize = 12;
    while offset <= len && 8 <= len - offset
        invariant
            len == bytes@.len(),
            offset >= 12,
            data_chunk(bytes@) == data_chunk_from(bytes@, offset as int),
        decreases len - offset,
    {
        let size = read_le_u32(bytes, offset + 4);
        let start = offset + 8;
        if tag_at(bytes, offset, 100, 97, 116, 97) {
            if size as usize <= len - start {
                return Some((start, start + size as usize));
            }
            return None;
        }
        if size as usize > len - start {
            proof {
                let next = next_chunk(bytes@, offset as int);
                assert(data_chunk_from(bytes@, next) == None::<(int, int)>);
            }
            return None;
        }
        let end: usize = start + size as usize;
        let pad = (size % 2) as usize;
        if pad > len - end {
            proof {
                let next = next_chunk(bytes@, offset as int);
                assert(data_chunk_from(bytes@, next) == None::<(int, int)>);
            }
            return None;
        }
        offset = end + pad;
    }
    None
}

/// The samples of a WAVE file of 32-bit float samples, each as the bit
/// pattern of its float.
pub fn read_float_wave(bytes: &[u8]) -> (samples: Vec<u32>)
    requires
        is_wave_header(bytes@),
        has_whole_data_chunk(bytes@),
        ({
            let (start, end) = data_chunk(bytes@).unwrap();
            (end - start) % 4 == 0
        }),
    ensures
        ({
            let (start, end) = data_chunk(bytes@).unwrap();
            samples@ == words(bytes@, start, end)
        }),
{
    proof {
        data_chunk_is_ordered(bytes@, 12);
    }
    let (start, end) = find_data_chunk(bytes).unwrap();
    let mut samples: Vec<u32> = Vec::new();
    let mut at: usize = start;
    while at < end
        invariant
            start <= at <= end <= bytes@.len(),
            (at - start) % 4 == 0,
            (end - start) % 4 == 0,
            samples@ == words(bytes@, start as int, at as int),
        decreases end - at,
    {
        let word = read_le_u32(bytes, at);
        samples.push(word);
        at = at + 4;
        assert(samples@ =~= words(bytes@, start as int, at as int));
    }
    samples
}

/// The samples of a WAVE file of 16-bit PCM samples.
pub fn decode_pcm16_wav(bytes: &[u8]) -> (samples: Vec<i16>)
    requires
        is_wave_header(bytes@),
        chunks_fit_from(bytes@, 12),
        data_chunk(bytes@).is_some(),
    ensures
        ({
            let (start, end) = data_chunk(bytes@).unwrap();
            samples@ == pcm16_samples(bytes@, start, end)
        }),
{
    proof {
        whole_chunks_give_whole_data(bytes@, 12);
    }
    proof {
        data_chunk_is_ordered(bytes@, 12);
    }
    let (start, end) = find_data_chunk(bytes).unwrap();
    let mut samples: Vec<i16> = Vec::new();
    let mut at: usize = start;
    while 2 <= end - at
        invariant
            start <= at <= end <= bytes@.len(),
            (at - start) % 2 == 0,
            samples@ == pcm16_samples(bytes@, start as int, at as int),
        decreases end - at,
    {
        let sample = read_le_i16(bytes, at);
        samples.push(sample);
        at = at + 2;
        assert(samples@ =~= pcm16_samples(bytes@, start as int, at as int));
    }
    assert(samples@ =~= pcm16_samples(bytes@, start as int, end as int));
    samples
}

proof fn data_chunk_is_ordered(bytes: Seq<u8>, offset: int)
    requires
        data_chunk_from(bytes, offset).is_some(),
    ensures
        data_chunk_from(bytes, offset).unwrap().0 <= data_chunk_from(bytes, offset).unwrap().1,
    decreases bytes.len() - offset,
{
    if offset >= 0 && offset + 8 <= bytes.len() {
        chunks_move_forward(bytes, offset);
        if !has_tag(bytes, offset, data_tag()) && next_chunk(bytes, offset) <= bytes.len() {
            data_chunk_is_ordered(bytes, next_chunk(bytes, offset));
        }
    }
}

proof fn whole_chunks_give_whole_data(bytes: Seq<u8>, offset: int)
    requires
        chunks_fit_from(bytes, offset),
        data_chunk_from(bytes, offset).is_some(),
    ensures
        data_chunk_from(bytes, offset).unwrap().1 <= bytes.len(),
    decreases bytes.len() - offset,
{
    if offset >= 0 && offset + 8 <= bytes.len() && !has_tag(bytes, offset, data_tag())
        && next_chunk(bytes, offset) <= bytes.len() {
        chunks_move_forward(bytes, offset);
        whole_chunks_give_whole_data(bytes, next_chunk(bytes, offset));
    }
}

} // verus!
