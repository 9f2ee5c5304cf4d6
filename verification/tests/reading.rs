use buf_ref_reader::{BufRefReader, BufRefReaderBuilder, Buffer, MmapBuffer, SliceSource, VecBuffer};

/// Deterministic corpus of newline-terminated pseudo-words, standing in
/// for a system word list. Some words carry the rare byte `Q`.
fn words_corpus() -> Vec<u8> {
    let syllables: [&[u8]; 12] = [
        b"lo", b"rem", b"ip", b"sum", b"do", b"lor", b"sit", b"amet", b"Qua", b"ver", b"us",
        b"que",
    ];
    let mut state: u64 = 0x2545_F491_4F6C_DD1D;
    let mut out: Vec<u8> = Vec::new();
    for _ in 0..3000 {
        state = state.wrapping_mul(6364136223846793005).wrapping_add(1442695040888963407);
        let parts = 1 + (state >> 33) % 4;
        for _ in 0..parts {
            state = state.wrapping_mul(6364136223846793005).wrapping_add(1442695040888963407);
            let pick = ((state >> 33) % 12) as usize;
            out.extend_from_slice(syllables[pick]);
        }
        out.push(b'\n');
    }
    out
}

fn read_until_empty_lines<B: Buffer>() {
    // two spaces, three spaces, two spaces
    let data = b"  lorem   ipsum  ".to_vec();
    let mut r = BufRefReaderBuilder::new(SliceSource::new(data))
        .capacity(4)
        .build::<B>()
        .unwrap();
    assert_eq!(r.read_until(b' ').unwrap(), Some(b"".to_vec()));
    assert_eq!(r.read_until(b' ').unwrap(), Some(b"".to_vec()));
    assert_eq!(r.read_until(b' ').unwrap(), Some(b"lorem".to_vec()));
    assert_eq!(r.read_until(b' ').unwrap(), Some(b"".to_vec()));
    assert_eq!(r.read_until(b' ').unwrap(), Some(b"".to_vec()));
    assert_eq!(r.read_until(b' ').unwrap(), Some(b"ipsum".to_vec()));
    assert_eq!(r.read_until(b' ').unwrap(), Some(b"".to_vec()));
    assert_eq!(r.read_until(b' ').unwrap(), None);
}

#[test]
fn read_until_empty_lines_vec() {
    read_until_empty_lines::<VecBuffer>()
}

#[test]
fn read_until_empty_lines_mmap() {
    read_until_empty_lines::<MmapBuffer>()
}

fn read_until_words<B: Buffer>() {
    let corpus = words_corpus();
    let mut r = BufRefReaderBuilder::new(SliceSource::new(corpus.clone()))
        .capacity(4)
        .build::<B>()
        .unwrap();
    let mut words = corpus.split(|&c| c == b'\n');
    while let Ok(Some(slice_buf)) = r.read_until(b'\n') {
        let ref_word = words.next().unwrap();
        assert_eq!(slice_buf, ref_word.to_vec());
    }

    // reader: returned nothing after hitting EOF past the last b'\n'
    // words: this is .split(), hence an empty string past the last b'\n'
    assert_eq!(words.next(), Some(&b""[..]));

    assert_eq!(words.next(), None);
}

#[test]
fn read_until_words_vec() {
    read_until_words::<VecBuffer>()
}

#[test]
fn read_until_words_mmap() {
    read_until_words::<MmapBuffer>()
}

// like read_until_words, but splits by the rarest character, which is b'Q'
// also uses slightly bigger initial buffers
fn read_until_words_long<B: Buffer>() {
    let corpus = words_corpus();
    let mut r = BufRefReaderBuilder::new(SliceSource::new(corpus.clone()))
        .capacity(32)
        .build::<B>()
        .unwrap();
    let mut words = corpus.split(|&c| c == b'Q');
    while let Ok(Some(slice_buf)) = r.read_until(b'Q') {
        let ref_word = words.next().unwrap();
        assert_eq!(slice_buf, ref_word.to_vec());
    }

    assert_eq!(words.next(), None);
}

#[test]
fn read_until_words_long_vec() {
    read_until_words_long::<VecBuffer>()
}

#[test]
fn read_until_words_long_mmap() {
    read_until_words_long::<MmapBuffer>()
}

fn read<B: Buffer>() {
    let data = b"lorem ipsum dolor sit amet".to_vec();
    let mut r = BufRefReaderBuilder::new(SliceSource::new(data))
        .capacity(4)
        .build::<B>()
        .unwrap();
    assert_eq!(r.read(5).unwrap(), Some(b"lorem".to_vec()));
    assert_eq!(r.read(6).unwrap(), Some(b" ipsum".to_vec()));
    // a short read at the end of the stream, not an error
    assert_eq!(r.read(1024).unwrap(), Some(b" dolor sit amet".to_vec()));
    assert_eq!(r.read(1).unwrap(), None);
}

#[test]
fn read_vec() {
    read::<VecBuffer>()
}

#[test]
fn read_mmap() {
    read::<MmapBuffer>()
}

fn read_words<B: Buffer>(cap: usize, read: usize) {
    let corpus = words_corpus();
    let mut r = BufRefReaderBuilder::new(SliceSource::new(corpus.clone()))
        .capacity(cap)
        .build::<B>()
        .unwrap();
    let mut words = corpus.chunks(read);
    while let Ok(Some(slice_buf)) = r.read(read) {
        let ref_word = words.next().unwrap();
        assert_eq!(slice_buf, ref_word.to_vec());
    }
    assert_eq!(words.next(), None);
}

#[test]
fn read_words_vec_4x3() {
    read_words::<VecBuffer>(4, 3)
}

#[test]
fn read_words_vec_4x5() {
    read_words::<VecBuffer>(4, 5)
}

#[test]
fn read_words_mmap_4x3() {
    read_words::<MmapBuffer>(4, 3)
}

#[test]
fn read_words_mmap_4x5() {
    read_words::<MmapBuffer>(4, 5)
}

fn word_scenario<B: Buffer>() {
    let data = b"lorem ipsum dolor sit amet".to_vec();
    let mut r = BufRefReaderBuilder::new(SliceSource::new(data))
        .capacity(4)
        .build::<B>()
        .unwrap();
    assert_eq!(r.read_until(b' ').unwrap(), Some(b"lorem".to_vec()));
    assert_eq!(r.read_until(b' ').unwrap(), Some(b"ipsum".to_vec()));
    assert_eq!(r.read_until(b' ').unwrap(), Some(b"dolor".to_vec()));
    assert_eq!(r.read_until(b' ').unwrap(), Some(b"sit".to_vec()));
    assert_eq!(r.read_until(b' ').unwrap(), Some(b"amet".to_vec()));
    assert_eq!(r.read_until(b' ').unwrap(), None);
    assert_eq!(r.read_until(b' ').unwrap(), None);
}

#[test]
fn word_scenario_vec() {
    word_scenario::<VecBuffer>()
}

#[test]
fn word_scenario_mmap() {
    word_scenario::<MmapBuffer>()
}

// once the reader reports no more data, every further call does too,
// for both reading functions in any order
fn no_data_is_terminal<B: Buffer>() {
    let data = b"ab".to_vec();
    let mut r = BufRefReaderBuilder::new(SliceSource::new(data))
        .capacity(1)
        .build::<B>()
        .unwrap();
    assert_eq!(r.read(10).unwrap(), Some(b"ab".to_vec()));
    assert_eq!(r.read(1).unwrap(), None);
    assert_eq!(r.read_until(b'x').unwrap(), None);
    assert_eq!(r.read(1024).unwrap(), None);
    assert_eq!(r.read_until(b'a').unwrap(), None);
    assert_eq!(r.read(1).unwrap(), None);
}

#[test]
fn no_data_is_terminal_vec() {
    no_data_is_terminal::<VecBuffer>()
}

#[test]
fn no_data_is_terminal_mmap() {
    no_data_is_terminal::<MmapBuffer>()
}

// concatenating every read_until record, with the delimiter put back after
// each one except possibly the last, reproduces the input exactly
fn round_trip_one<B: Buffer>(input: &[u8], delim: u8, cap: usize) {
    let mut r = BufRefReaderBuilder::new(SliceSource::new(input.to_vec()))
        .capacity(cap)
        .build::<B>()
        .unwrap();
    let mut records: Vec<Vec<u8>> = Vec::new();
    while let Some(rec) = r.read_until(delim).unwrap() {
        records.push(rec);
    }
    let mut rebuilt: Vec<u8> = Vec::new();
    for (i, rec) in records.iter().enumerate() {
        rebuilt.extend_from_slice(rec);
        if i + 1 < records.len() {
            rebuilt.push(delim);
        }
    }
    // when the input ends with the delimiter, it also follows the last record
    if input.last() == Some(&delim) {
        rebuilt.push(delim);
    }
    assert_eq!(rebuilt, input.to_vec());
}

fn round_trip<B: Buffer>() {
    let caps: [usize; 6] = [1, 2, 3, 4, 32, 8192];
    let inputs: [&[u8]; 6] = [
        b"lorem ipsum dolor sit amet",
        b"lorem ipsum dolor sit amet ",
        b" ",
        b"",
        b"   ",
        b"no delimiter here",
    ];
    for cap in caps {
        for input in inputs {
            round_trip_one::<B>(input, b' ', cap);
            round_trip_one::<B>(input, b'Q', cap);
        }
        let corpus = words_corpus();
        round_trip_one::<B>(&corpus, b'\n', cap);
        round_trip_one::<B>(&corpus, b'Q', cap);
    }
}

#[test]
fn round_trip_vec() {
    round_trip::<VecBuffer>()
}

#[test]
fn round_trip_mmap() {
    round_trip::<MmapBuffer>()
}

// a read of nothing yields nothing, but is no end-of-stream signal while
// buffered data remains
fn read_nothing<B: Buffer>() {
    let data = b"xy".to_vec();
    let mut r: BufRefReader<SliceSource, B> =
        BufRefReader::new(SliceSource::new(data)).unwrap();
    assert_eq!(r.read(0).unwrap(), None);
    assert_eq!(r.read(1).unwrap(), Some(b"x".to_vec()));
    assert_eq!(r.read(0).unwrap(), Some(b"".to_vec()));
    assert_eq!(r.read(2).unwrap(), Some(b"y".to_vec()));
    assert_eq!(r.read(0).unwrap(), None);
}

#[test]
fn read_nothing_vec() {
    read_nothing::<VecBuffer>()
}

#[test]
fn read_nothing_mmap() {
    read_nothing::<MmapBuffer>()
}
