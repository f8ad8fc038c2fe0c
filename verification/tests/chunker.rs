use hearsay::chunker::Chunker;

const RATE: u32 = 16_000;
const CHUNK_SECS: u32 = 20;

fn frame(n: usize) -> Vec<f32> {
    vec![0.0; n]
}

#[test]
fn emits_nothing_below_chunk_size() {
    let mut c = Chunker::new(RATE, CHUNK_SECS);
    // Half a chunk.
    let out = c.push(&frame((RATE * CHUNK_SECS / 2) as usize));
    assert!(out.is_empty());
}

#[test]
fn emits_one_chunk_at_boundary() {
    let mut c = Chunker::new(RATE, CHUNK_SECS);
    let out = c.push(&frame((RATE * CHUNK_SECS) as usize));
    assert_eq!(out.len(), 1);
    assert_eq!(out[0].pcm.len(), (RATE * CHUNK_SECS) as usize);
    assert_eq!(out[0].offset_ms, 0);
}

#[test]
fn emits_consecutive_chunks_with_correct_offsets() {
    let mut c = Chunker::new(RATE, CHUNK_SECS);
    // 3 chunks' worth.
    let out = c.push(&frame((RATE * CHUNK_SECS * 3) as usize));
    assert_eq!(out.len(), 3);
    assert_eq!(out[0].offset_ms, 0);
    assert_eq!(out[1].offset_ms, 20_000);
    assert_eq!(out[2].offset_ms, 40_000);
}

#[test]
fn flush_returns_partial_tail() {
    let mut c = Chunker::new(RATE, CHUNK_SECS);
    // Emit one full chunk, then leave half a chunk in the buffer.
    let _ = c.push(&frame((RATE * CHUNK_SECS) as usize));
    let _ = c.push(&frame(8_000));
    let tail = c.flush().unwrap();
    assert_eq!(tail.pcm.len(), 8_000);
    assert_eq!(tail.offset_ms, 20_000);
}

#[test]
fn flush_on_empty_returns_none() {
    let mut c: Chunker<f32> = Chunker::new(RATE, CHUNK_SECS);
    assert!(c.flush().is_none());
}

#[test]
fn many_small_pushes_emit_correctly() {
    // Lots of tiny frames trickling in, as a capture callback delivers them.
    let mut c = Chunker::new(RATE, CHUNK_SECS);
    let total_samples_needed = (RATE * CHUNK_SECS * 2) as usize;
    let mut emissions = 0;
    for _ in 0..(total_samples_needed / 320) {
        emissions += c.push(&frame(320)).len();
    }
    assert_eq!(emissions, 2);
}

#[test]
fn chunks_keep_every_sample_in_order() {
    let mut c = Chunker::new(10, 1);
    let input: Vec<u32> = (0..37).collect();
    let mut seen: Vec<u32> = Vec::new();
    for piece in input.chunks(7) {
        for req in c.push(piece) {
            assert_eq!(req.pcm.len(), 10);
            seen.extend_from_slice(&req.pcm);
        }
    }
    let tail = c.flush().unwrap();
    assert_eq!(tail.pcm.len(), 7);
    assert_eq!(tail.offset_ms, 3_000);
    seen.extend_from_slice(&tail.pcm);
    assert_eq!(seen, input);
    assert!(c.flush().is_none());
}

#[test]
fn splitting_the_input_does_not_change_the_chunks() {
    let input: Vec<u16> = (0..95).collect();
    let mut whole = Chunker::new(10, 2);
    let at_once = whole.push(&input);
    let mut split = Chunker::new(10, 2);
    let mut pieces = split.push(&input[..33]);
    pieces.extend(split.push(&input[33..]));
    assert_eq!(at_once.len(), pieces.len());
    for (a, b) in at_once.iter().zip(pieces.iter()) {
        assert_eq!(a.pcm, b.pcm);
        assert_eq!(a.offset_ms, b.offset_ms);
    }
    assert_eq!(whole.flush().unwrap().pcm, split.flush().unwrap().pcm);
}

#[test]
fn offsets_follow_emitted_samples_at_odd_rates() {
    // 44.1 kHz, one-second chunks: offsets are whole seconds.
    let mut c = Chunker::new(44_100, 1);
    let out = c.push(&vec![0i16; 44_100 * 2 + 5]);
    assert_eq!(out.len(), 2);
    assert_eq!(out[1].offset_ms, 1_000);
    let tail = c.flush().unwrap();
    assert_eq!(tail.pcm.len(), 5);
    assert_eq!(tail.offset_ms, 2_000);
}

#[test]
fn pushes_of_any_sizes_lose_and_reorder_nothing() {
    // 10 Hz, 1-second chunks: 10 samples per chunk.
    let mut c: Chunker<u32> = Chunker::new(10, 1);
    let input: Vec<u32> = (0..57).collect();
    let mut got: Vec<u32> = Vec::new();
    let mut offsets: Vec<u32> = Vec::new();
    let mut start = 0;
    for size in [3usize, 0, 11, 1, 25, 7, 10] {
        for req in c.push(&input[start..start + size]) {
            assert_eq!(req.pcm.len(), 10);
            offsets.push(req.offset_ms);
            got.extend(req.pcm);
        }
        start += size;
    }
    assert_eq!(start, input.len());
    assert_eq!(offsets, vec![0, 1_000, 2_000, 3_000, 4_000]);
    let tail = c.flush().unwrap();
    assert_eq!(tail.offset_ms, 5_000);
    got.extend(tail.pcm);
    assert_eq!(got, input);
}
