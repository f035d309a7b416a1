use audiostar::audio_hash::{audio_window_hash, format_hash, HASH_WINDOW_LEN};
use audiostar::audio_start::{scan_flac_block, scan_header, ScanStep, DEFAULT_SKIP, MAX_BLOCK_POS};
use std::hash::Hasher;

fn read_header(file: &[u8]) -> Option<[u8; 10]> {
    if file.len() < 10 {
        None
    } else {
        let mut h = [0u8; 10];
        h.copy_from_slice(&file[..10]);
        Some(h)
    }
}

fn read_block(file: &[u8], pos: u64) -> Option<[u8; 4]> {
    let p = pos as usize;
    if p + 4 > file.len() {
        None
    } else {
        let mut b = [0u8; 4];
        b.copy_from_slice(&file[p..p + 4]);
        Some(b)
    }
}

/// Drives the scanner with the bytes of an in-memory file.
fn audio_start(file: &[u8]) -> u64 {
    let len = file.len() as u64;
    let mut step = scan_header(read_header(file), len);
    loop {
        match step {
            ScanStep::Done(start) => return start,
            ScanStep::ReadBlockHeader(pos) => {
                assert!(pos <= MAX_BLOCK_POS);
                step = scan_flac_block(pos, read_block(file, pos), len);
            }
        }
    }
}

fn window_hash(file: &[u8]) -> String {
    let start = audio_start(file) as usize;
    let end = std::cmp::min(start + HASH_WINDOW_LEN, file.len());
    audio_window_hash(&file[start..end])
}

fn id3_file(size_bytes: [u8; 4], total: usize) -> Vec<u8> {
    let mut f = vec![0u8; total];
    f[0] = b'I';
    f[1] = b'D';
    f[2] = b'3';
    f[3] = 4;
    f[6..10].copy_from_slice(&size_bytes);
    f
}

#[test]
fn short_file_starts_at_zero() {
    assert_eq!(scan_header(None, 5), ScanStep::Done(0));
    assert_eq!(audio_start(b"ID3ab"), 0);
}

#[test]
fn id3_tag_is_skipped() {
    // syncsafe size 0x01 0x00 -> 128 bytes of tag after the 10-byte header
    let f = id3_file([0, 0, 1, 0], 1000);
    assert_eq!(audio_start(&f), 138);
    let f = id3_file([0, 1, 0, 5], 100_000);
    assert_eq!(audio_start(&f), 10 + 16384 + 5);
}

#[test]
fn id3_tag_longer_than_file_is_capped() {
    let f = id3_file([0x7f, 0x7f, 0x7f, 0x7f], 50);
    assert_eq!(audio_start(&f), 50);
}

#[test]
fn id3_size_bytes_with_high_bit_are_or_combined() {
    let mut h = [0u8; 10];
    h[..3].copy_from_slice(b"ID3");
    h[6] = 0;
    h[7] = 0;
    h[8] = 0x81;
    h[9] = 0xff;
    // (0x81 << 7) | 0xff = 0x40ff
    assert_eq!(scan_header(Some(h), u64::MAX), ScanStep::Done(10 + 0x40ff));
}

#[test]
fn flac_walk_stops_after_last_block() {
    let mut f = b"fLaC".to_vec();
    f.extend_from_slice(&[0x00, 0x00, 0x00, 34]);
    f.extend_from_slice(&[0u8; 34]);
    f.extend_from_slice(&[0x81, 0x00, 0x00, 10]);
    f.extend_from_slice(&[0u8; 10]);
    f.extend_from_slice(&[0xAA; 200]);
    assert_eq!(scan_header(read_header(&f), f.len() as u64), ScanStep::ReadBlockHeader(4));
    assert_eq!(audio_start(&f), 4 + 4 + 34 + 4 + 10);
}

#[test]
fn flac_block_steps() {
    assert_eq!(scan_flac_block(4, Some([0x00, 0x00, 0x01, 0x00]), 1000), ScanStep::ReadBlockHeader(264));
    assert_eq!(scan_flac_block(4, Some([0x80, 0x00, 0x01, 0x00]), 1000), ScanStep::Done(264));
    assert_eq!(scan_flac_block(4, Some([0x80, 0x01, 0x00, 0x00]), 1000), ScanStep::Done(1000));
    assert_eq!(scan_flac_block(996, None, 1000), ScanStep::Done(996));
    assert_eq!(scan_flac_block(1200, None, 1000), ScanStep::Done(1000));
}

#[test]
fn flac_walk_without_last_block_ends_where_reading_fails() {
    let mut f = b"fLaC".to_vec();
    f.extend_from_slice(&[0x00, 0x00, 0x00, 20]);
    f.extend_from_slice(&[0u8; 22]);
    // next header would be at 28, but only 2 bytes remain there
    assert_eq!(audio_start(&f), 28);
}

#[test]
fn other_formats_skip_default_window() {
    let f = vec![1u8; 300_000];
    assert_eq!(audio_start(&f), DEFAULT_SKIP);
    let f = vec![1u8; 1000];
    assert_eq!(audio_start(&f), 1000);
}

#[test]
fn appended_bytes_do_not_move_audio_start() {
    let f = id3_file([0, 0, 1, 0], 70_000);
    let mut g = f.clone();
    g.extend_from_slice(b"TAGtrailing metadata");
    assert_eq!(audio_start(&f), audio_start(&g));
    assert_eq!(window_hash(&f), window_hash(&g));
}

#[test]
fn replacing_id3_tag_keeps_fingerprint() {
    let audio: Vec<u8> = (0..5000u32).map(|i| (i * 7 % 251) as u8).collect();
    let mut f = id3_file([0, 0, 0, 20], 30);
    f.extend_from_slice(&audio);
    let mut g = id3_file([0, 0, 2, 0], 266);
    g[100] = 0x55;
    g.extend_from_slice(&audio);
    assert_eq!(window_hash(&f), window_hash(&g));
    let mut h = g.clone();
    let last = h.len() - 1;
    h[last] ^= 1;
    assert_ne!(window_hash(&g), window_hash(&h));
}

#[test]
fn hash_text_is_sixteen_lowercase_hex_digits() {
    assert_eq!(format_hash(0), "0000000000000000");
    assert_eq!(format_hash(0x1234abcd), "000000001234abcd");
    assert_eq!(format_hash(u64::MAX), "ffffffffffffffff");
    for h in [1u64, 0xdead_beef_0000_0001, 0x8000_0000_0000_0000, 42] {
        assert_eq!(format_hash(h), format!("{:016x}", h));
    }
}

#[test]
fn window_hash_is_default_hasher_digest() {
    let window = b"some raw audio bytes".to_vec();
    let mut hasher = std::collections::hash_map::DefaultHasher::new();
    hasher.write(&window);
    assert_eq!(audio_window_hash(&window), format!("{:016x}", hasher.finish()));
    assert_ne!(audio_window_hash(b"abc"), audio_window_hash(b"abd"));
    assert_eq!(audio_window_hash(b"abc").len(), 16);
}

#[test]
fn replacing_flac_metadata_keeps_fingerprint() {
    let audio: Vec<u8> = (0..3000u32).map(|i| (i * 13 % 241) as u8).collect();
    let mut f = b"fLaC".to_vec();
    f.extend_from_slice(&[0x80, 0x00, 0x00, 34]);
    f.extend_from_slice(&[7u8; 34]);
    f.extend_from_slice(&audio);
    let mut g = b"fLaC".to_vec();
    g.extend_from_slice(&[0x00, 0x00, 0x00, 34]);
    g.extend_from_slice(&[7u8; 34]);
    g.extend_from_slice(&[0x06, 0x00, 0x01, 0x00]);
    g.extend_from_slice(&[9u8; 256]);
    g.extend_from_slice(&[0x81, 0x00, 0x00, 0x00]);
    g.extend_from_slice(&audio);
    assert_eq!(audio_start(&f), 42);
    assert_eq!(audio_start(&g), 4 + 38 + 260 + 4);
    assert_eq!(window_hash(&f), window_hash(&g));
}
