//! Locating the first byte of audio data in a music file, skipping leading
//! metadata (ID3v2 tags, FLAC metadata blocks).
//!
//! The file is read by the caller: `scan_header` decides from the first ten
//! bytes, and for FLAC files `scan_flac_block` is driven with each 4-byte
//! METADATA_BLOCK header until it answers `Done`.
use vstd::prelude::*;

verus! {

/// Number of bytes read at the start of a file to recognise its format.
pub const HEADER_LEN: usize = 10;

/// Offset of the first FLAC METADATA_BLOCK header (right after `fLaC`).
pub const FLAC_FIRST_BLOCK: u64 = 4;

/// Bytes skipped for formats whose metadata is not parsed (256 KiB).
pub const DEFAULT_SKIP: u64 = 262144;

/// Largest block position that `scan_flac_block` accepts: the next position,
/// `pos + 4 + block_len`, must fit in a `u64`.
pub const MAX_BLOCK_POS: u64 = 0xFFFF_FFFF_FEFF_FFFC;

/// What the scanner wants next.
#[derive(PartialEq, Eq, Structural, Debug, Clone, Copy)]
pub enum ScanStep {
    /// Read the 4-byte FLAC METADATA_BLOCK header at this offset.
    ReadBlockHeader(u64),
    /// The audio data starts at this offset.
    Done(u64),
}

pub open spec fn min_int(a: int, b: int) -> int {
    if a <= b { a } else { b }
}

/// The header begins with the ID3v2 magic `ID3`.
pub open spec fn is_id3_magic(h: Seq<u8>) -> bool {
    h[0] == 0x49u8 && h[1] == 0x44u8 && h[2] == 0x33u8
}

/// The header begins with the FLAC magic `fLaC`.
pub open spec fn is_flac_magic(h: Seq<u8>) -> bool {
    h[0] == 0x66u8 && h[1] == 0x4Cu8 && h[2] == 0x61u8 && h[3] == 0x43u8
}

/// The ID3v2 tag size from header bytes 6..=9, each byte shifted into place
/// by 7 bits and combined with bitwise or.
pub open spec fn id3_tag_size(b6: u8, b7: u8, b8: u8, b9: u8) -> u64 {
    ((b6 as u64) << 21u64) | ((b7 as u64) << 14u64) | ((b8 as u64) << 7u64) | (b9 as u64)
}

/// The 24-bit big-endian length of a FLAC metadata block.
pub open spec fn flac_block_len(b1: u8, b2: u8, b3: u8) -> u64 {
    ((b1 as u64) << 16u64) | ((b2 as u64) << 8u64) | (b3 as u64)
}

/// The last-metadata-block flag (high bit of the first header byte).
pub open spec fn flac_is_last(b0: u8) -> bool {
    b0 & 0x80u8 != 0
}

/// The scanner's decision on the first ten bytes of the file (`None` when
/// the file is too short to read them).
pub open spec fn header_step(header: Option<[u8; 10]>, file_len: u64) -> ScanStep {
    match header {
        None => ScanStep::Done(0),
        Some(h) => {
            let h = h@;
            if is_id3_magic(h) {
                ScanStep::Done(
                    min_int(10 + id3_tag_size(h[6], h[7], h[8], h[9]), file_len as int) as u64,
                )
            } else if is_flac_magic(h) {
                ScanStep::ReadBlockHeader(4)
            } else {
                ScanStep::Done(min_int(262144, file_len as int) as u64)
            }
        },
    }
}

/// The scanner's decision on the block header read at `pos` (`None` when it
/// could not be read).
pub open spec fn block_step(pos: u64, block: Option<[u8; 4]>, file_len: u64) -> ScanStep {
    match block {
        None => ScanStep::Done(min_int(pos as int, file_len as int) as u64),
        Some(b) => {
            let b = b@;
            let next = pos + 4 + flac_block_len(b[1], b[2], b[3]);
            if flac_is_last(b[0]) {
                ScanStep::Done(min_int(next, file_len as int) as u64)
            } else {
                ScanStep::ReadBlockHeader(next as u64)
            }
        },
    }
}

proof fn lemma_id3_tag_size_bound(b6: u8, b7: u8, b8: u8, b9: u8)
    ensures
        id3_tag_size(b6, b7, b8, b9) < 0x2000_0000,
{
    assert(((b6 as u64) << 21u64) | ((b7 as u64) << 14u64) | ((b8 as u64) << 7u64) | (b9 as u64)
        < 0x2000_0000u64) by (bit_vector);
}

proof fn lemma_flac_block_len_bound(b1: u8, b2: u8, b3: u8)
    ensures
        flac_block_len(b1, b2, b3) <= 0xFF_FFFF,
{
    assert(((b1 as u64) << 16u64) | ((b2 as u64) << 8u64) | (b3 as u64) <= 0xFF_FFFFu64)
        by (bit_vector);
}

/// Decides from the first ten bytes of a file of `file_len` bytes where its
/// audio starts, or that its FLAC metadata blocks must be walked from offset 4.
pub fn scan_header(header: Option<[u8; 10]>, file_len: u64) -> (step: ScanStep)
    ensures
        step == header_step(header, file_len),
        step matches ScanStep::Done(start) ==> start <= file_len,
{
    match header {
        None => ScanStep::Done(0),
        Some(h) => {
            if h[0] == 0x49u8 && h[1] == 0x44u8 && h[2] == 0x33u8 {
                let size: u64 = ((h[6] as u64) << 21u64) | ((h[7] as u64) << 14u64) | ((
                h[8] as u64) << 7u64) | (h[9] as u64);
                proof {
                    lemma_id3_tag_size_bound(h@[6], h@[7], h@[8], h@[9]);
                }
                let end: u64 = 10 + size;
                ScanStep::Done(if end < file_len { end } else { file_len })
            } else if h[0] == 0x66u8 && h[1] == 0x4Cu8 && h[2] == 0x61u8 && h[3] == 0x43u8 {
                ScanStep::ReadBlockHeader(FLAC_FIRST_BLOCK)
            } else {
                ScanStep::Done(if DEFAULT_SKIP < file_len { DEFAULT_SKIP } else { file_len })
            }
        },
    }
}

/// Decides, from the FLAC METADATA_BLOCK header read at `pos` (`None` when
/// it could not be read), where the audio starts or which block comes next.
pub fn scan_flac_block(pos: u64, block: Option<[u8; 4]>, file_len: u64) -> (step: ScanStep)
    requires
        pos <= MAX_BLOCK_POS,
    ensures
        step == block_step(pos, block, file_len),
        step matches ScanStep::Done(start) ==> start <= file_len,
        step matches ScanStep::ReadBlockHeader(next) ==> pos + 4 <= next <= pos + 4 + 0xFF_FFFF,
{
    match block {
        None => ScanStep::Done(if pos < file_len { pos } else { file_len }),
        Some(b) => {
            let len: u64 = ((b[1] as u64) << 16u64) | ((b[2] as u64) << 8u64) | (b[3] as u64);
            proof {
                lemma_flac_block_len_bound(b@[1], b@[2], b@[3]);
            }
            let next: u64 = pos + 4 + len;
            if b[0] & 0x80u8 != 0 {
                ScanStep::Done(if next < file_len { next } else { file_len })
            } else {
                ScanStep::ReadBlockHeader(next)
            }
        },
    }
}


/// Where the FLAC metadata walk that starts at `pos` ends in `file`: each
/// block header is read at the current position, the position advances past
/// the header and the block, and the walk stops after a block flagged as last
/// or when the next header cannot be read.
pub open spec fn flac_walk(file: Seq<u8>, pos: int) -> int
    decreases file.len() - pos,
{
    if pos < 0 || pos + 4 > file.len() {
        pos
    } else {
        let next = pos + 4 + flac_block_len(file[pos + 1], file[pos + 2], file[pos + 3]);
        if flac_is_last(file[pos]) || next + 4 > file.len() {
            next
        } else {
            flac_walk(file, next)
        }
    }
}

/// The offset at which the audio data of a file with contents `file` starts.
pub open spec fn audio_start_of(file: Seq<u8>) -> int {
    let len = file.len() as int;
    if len < 10 {
        0
    } else if is_id3_magic(file) {
        min_int(10 + id3_tag_size(file[6], file[7], file[8], file[9]), len)
    } else if is_flac_magic(file) {
        min_int(flac_walk(file, 4), len)
    } else {
        min_int(262144, len)
    }
}

/// `header` is what reading the first ten bytes of `file` yields.
pub open spec fn reads_header(file: Seq<u8>, header: Option<[u8; 10]>) -> bool {
    match header {
        None => file.len() < 10,
        Some(h) => file.len() >= 10 && h@ == file.subrange(0, 10),
    }
}

/// `block` is what reading four bytes at `pos` of `file` yields.
pub open spec fn reads_block(file: Seq<u8>, pos: int, block: Option<[u8; 4]>) -> bool {
    match block {
        None => pos + 4 > file.len(),
        Some(b) => pos + 4 <= file.len() && b@ == file.subrange(pos, pos + 4),
    }
}

/// Fed the file's own first ten bytes, the scanner either answers the file's
/// audio start, or asks for the FLAC block at offset 4 and the audio start is
/// where the walk from there ends.
pub proof fn law_header_step_follows_file(file: Seq<u8>, header: Option<[u8; 10]>)
    requires
        file.len() <= u64::MAX,
        reads_header(file, header),
    ensures
        match header_step(header, file.len() as u64) {
            ScanStep::Done(start) => start == audio_start_of(file),
            ScanStep::ReadBlockHeader(pos) => pos == 4 && audio_start_of(file) == min_int(
                flac_walk(file, 4),
                file.len() as int,
            ),
        },
{
    if let Some(h) = header {
        assert(h@[0] == file[0] && h@[1] == file[1] && h@[2] == file[2] && h@[3] == file[3]);
        assert(h@[6] == file[6] && h@[7] == file[7] && h@[8] == file[8] && h@[9] == file[9]);
        lemma_id3_tag_size_bound(file[6], file[7], file[8], file[9]);
    }
}

/// Fed the file's own bytes at `pos`, a FLAC block step either answers where
/// the walk from `pos` ends (capped at the file length), or moves to a later
/// position from which the walk ends at the same place.
pub proof fn law_block_step_follows_file(file: Seq<u8>, pos: u64, block: Option<[u8; 4]>)
    requires
        file.len() <= u64::MAX,
        pos <= MAX_BLOCK_POS,
        reads_block(file, pos as int, block),
    ensures
        match block_step(pos, block, file.len() as u64) {
            ScanStep::Done(start) => start == min_int(flac_walk(file, pos as int), file.len() as int),
            ScanStep::ReadBlockHeader(next) => pos < next && flac_walk(file, next as int)
                == flac_walk(file, pos as int),
        },
{
    if let Some(b) = block {
        let p = pos as int;
        assert(b@[0] == file[p] && b@[1] == file[p + 1] && b@[2] == file[p + 2] && b@[3] == file[p
            + 3]);
        lemma_flac_block_len_bound(b@[1], b@[2], b@[3]);
        let next = p + 4 + flac_block_len(file[p + 1], file[p + 2], file[p + 3]);
        if !flac_is_last(file[p]) && next + 4 > file.len() {
            assert(flac_walk(file, next) == next);
        }
    }
}

/// A well-formed ID3v2 size (four bytes below 0x80) is the syncsafe integer
/// with seven usable bits per byte.
pub proof fn law_syncsafe_size(b6: u8, b7: u8, b8: u8, b9: u8)
    requires
        b6 < 0x80,
        b7 < 0x80,
        b8 < 0x80,
        b9 < 0x80,
    ensures
        id3_tag_size(b6, b7, b8, b9) == b6 * 0x20_0000 + b7 * 0x4000 + b8 * 0x80 + b9,
{
    assert(b6 < 0x80 && b7 < 0x80 && b8 < 0x80 && b9 < 0x80 ==> ((b6 as u64) << 21u64) | ((
    b7 as u64) << 14u64) | ((b8 as u64) << 7u64) | (b9 as u64) == (b6 as u64) * 0x20_0000u64 + (
    b7 as u64) * 0x4000u64 + (b8 as u64) * 0x80u64 + (b9 as u64)) by (bit_vector);
}

proof fn lemma_flac_walk_advances(file: Seq<u8>, pos: int)
    requires
        pos >= 0,
    ensures
        flac_walk(file, pos) >= pos,
    decreases file.len() - pos,
{
    if pos + 4 <= file.len() {
        let next = pos + 4 + flac_block_len(file[pos + 1], file[pos + 2], file[pos + 3]);
        if !flac_is_last(file[pos]) && next + 4 <= file.len() {
            lemma_flac_walk_advances(file, next);
        }
    }
}

/// The audio start always lies within the file.
pub proof fn law_audio_start_within_file(file: Seq<u8>)
    ensures
        0 <= audio_start_of(file) <= file.len(),
{
    lemma_flac_walk_advances(file, 4);
}

/// The walk from `pos` reaches a block flagged as last whose header lies
/// inside `file`.
pub open spec fn flac_walk_ends_at_last_block(file: Seq<u8>, pos: int) -> bool
    decreases file.len() - pos,
{
    if pos < 0 || pos + 4 > file.len() {
        false
    } else {
        let next = pos + 4 + flac_block_len(file[pos + 1], file[pos + 2], file[pos + 3]);
        if flac_is_last(file[pos]) {
            true
        } else if next + 4 > file.len() {
            false
        } else {
            flac_walk_ends_at_last_block(file, next)
        }
    }
}

proof fn lemma_flac_walk_append(file: Seq<u8>, tail: Seq<u8>, pos: int)
    requires
        flac_walk_ends_at_last_block(file, pos),
    ensures
        flac_walk(file + tail, pos) == flac_walk(file, pos),
        flac_walk_ends_at_last_block(file + tail, pos),
    decreases file.len() - pos,
{
    let whole = file + tail;
    assert(whole[pos] == file[pos] && whole[pos + 1] == file[pos + 1] && whole[pos + 2] == file[pos
        + 2] && whole[pos + 3] == file[pos + 3]);
    let next = pos + 4 + flac_block_len(file[pos + 1], file[pos + 2], file[pos + 3]);
    if !flac_is_last(file[pos]) {
        lemma_flac_walk_append(file, tail, next);
    }
}

/// Bytes appended after the leading metadata (such as trailing ID3v1 or APEv2
/// tags) do not move the audio start, provided the metadata already ends
/// inside the file: the whole ID3v2 tag, the FLAC walk up to its last block,
/// or the default skip.
pub proof fn law_audio_start_ignores_appended_bytes(file: Seq<u8>, tail: Seq<u8>)
    requires
        file.len() >= 10,
        is_id3_magic(file) ==> 10 + id3_tag_size(file[6], file[7], file[8], file[9]) <= file.len(),
        !is_id3_magic(file) && is_flac_magic(file) ==> flac_walk_ends_at_last_block(file, 4)
            && flac_walk(file, 4) <= file.len(),
        !is_id3_magic(file) && !is_flac_magic(file) ==> 262144 <= file.len(),
    ensures
        audio_start_of(file + tail) == audio_start_of(file),
{
    let whole = file + tail;
    assert(whole[0] == file[0] && whole[1] == file[1] && whole[2] == file[2] && whole[3] == file[3]);
    assert(whole[6] == file[6] && whole[7] == file[7] && whole[8] == file[8] && whole[9] == file[9]);
    if !is_id3_magic(file) && is_flac_magic(file) {
        lemma_flac_walk_append(file, tail, 4);
    }
}


/// An ID3v2 tag whose header is well formed: it starts with `ID3` and its
/// declared size covers exactly the bytes after the 10-byte header.
pub open spec fn is_whole_id3_tag(tag: Seq<u8>) -> bool {
    &&& tag.len() >= 10
    &&& is_id3_magic(tag)
    &&& 10 + id3_tag_size(tag[6], tag[7], tag[8], tag[9]) == tag.len()
}

/// Audio that follows a whole ID3v2 tag starts right after the tag.
pub proof fn law_audio_start_after_id3_tag(tag: Seq<u8>, audio: Seq<u8>)
    requires
        is_whole_id3_tag(tag),
    ensures
        audio_start_of(tag + audio) == tag.len(),
{
    let file = tag + audio;
    assert(file[0] == tag[0] && file[1] == tag[1] && file[2] == tag[2]);
    assert(file[6] == tag[6] && file[7] == tag[7] && file[8] == tag[8] && file[9] == tag[9]);
}

/// The FLAC stream marker `fLaC`.
pub open spec fn flac_marker() -> Seq<u8> {
    seq![0x66u8, 0x4Cu8, 0x61u8, 0x43u8]
}

/// The chain of metadata blocks from offset `q` of `blocks` ends, with a
/// block flagged as last, exactly at the end of `blocks`.
pub open spec fn flac_chain_fits(blocks: Seq<u8>, q: int) -> bool
    decreases blocks.len() - q,
{
    if q < 0 || q + 4 > blocks.len() {
        false
    } else {
        let next = q + 4 + flac_block_len(blocks[q + 1], blocks[q + 2], blocks[q + 3]);
        if flac_is_last(blocks[q]) {
            next == blocks.len()
        } else if next + 4 > blocks.len() {
            false
        } else {
            flac_chain_fits(blocks, next)
        }
    }
}

/// A well-formed sequence of FLAC metadata blocks, the last one flagged.
pub open spec fn is_flac_metadata(blocks: Seq<u8>) -> bool {
    flac_chain_fits(blocks, 0)
}

proof fn lemma_flac_walk_over_chain(blocks: Seq<u8>, audio: Seq<u8>, q: int)
    requires
        flac_chain_fits(blocks, q),
    ensures
        flac_walk(flac_marker() + blocks + audio, 4 + q) == 4 + blocks.len(),
    decreases blocks.len() - q,
{
    let file = flac_marker() + blocks + audio;
    assert(file[4 + q] == blocks[q] && file[4 + q + 1] == blocks[q + 1] && file[4 + q + 2]
        == blocks[q + 2] && file[4 + q + 3] == blocks[q + 3]);
    let next = q + 4 + flac_block_len(blocks[q + 1], blocks[q + 2], blocks[q + 3]);
    if !flac_is_last(blocks[q]) {
        lemma_flac_walk_over_chain(blocks, audio, next);
        assert(4 + q + 4 + flac_block_len(blocks[q + 1], blocks[q + 2], blocks[q + 3]) == 4 + next);
    }
}

/// Audio that follows the FLAC marker and a well-formed chain of metadata
/// blocks starts right after the block flagged as last.
pub proof fn law_audio_start_after_flac_metadata(blocks: Seq<u8>, audio: Seq<u8>)
    requires
        is_flac_metadata(blocks),
        4 + blocks.len() + audio.len() >= 10,
    ensures
        audio_start_of(flac_marker() + blocks + audio) == 4 + blocks.len(),
{
    let file = flac_marker() + blocks + audio;
    assert(file[0] == 0x66u8 && file[1] == 0x4Cu8 && file[2] == 0x61u8 && file[3] == 0x43u8);
    lemma_flac_walk_over_chain(blocks, audio, 0);
}

/// A file too short to hold the ten header bytes has its audio at offset 0.
pub proof fn law_short_file_starts_at_zero(file_len: u64)
    ensures
        header_step(None, file_len) == ScanStep::Done(0),
{
}

/// A header that begins with `ID3` puts the audio right after the tag: ten
/// header bytes plus the size in bytes 6..=9, each shifted by 7 bits and
/// or-ed together, capped at the file length.
pub proof fn law_id3_header_skips_tag(h: [u8; 10], file_len: u64)
    requires
        h@[0] == 0x49u8,
        h@[1] == 0x44u8,
        h@[2] == 0x33u8,
    ensures
        ({
            let size = ((h@[6] as u64) << 21u64) | ((h@[7] as u64) << 14u64) | ((h@[8] as u64)
                << 7u64) | (h@[9] as u64);
            header_step(Some(h), file_len) == ScanStep::Done(
                if 10 + size < file_len {
                    (10 + size) as u64
                } else {
                    file_len
                },
            )
        }),
{
    lemma_id3_tag_size_bound(h@[6], h@[7], h@[8], h@[9]);
}

/// With a well-formed syncsafe size (bytes below 0x80) the ID3v2 tag covers
/// `10 + b6 * 2^21 + b7 * 2^14 + b8 * 2^7 + b9` bytes.
pub proof fn law_id3_header_syncsafe_start(h: [u8; 10], file_len: u64)
    requires
        h@[0] == 0x49u8,
        h@[1] == 0x44u8,
        h@[2] == 0x33u8,
        h@[6] < 0x80,
        h@[7] < 0x80,
        h@[8] < 0x80,
        h@[9] < 0x80,
    ensures
        ({
            let end = 10 + h@[6] * 0x20_0000 + h@[7] * 0x4000 + h@[8] * 0x80 + h@[9];
            header_step(Some(h), file_len) == ScanStep::Done(
                if end < file_len {
                    end as u64
                } else {
                    file_len
                },
            )
        }),
{
    law_syncsafe_size(h@[6], h@[7], h@[8], h@[9]);
}

/// A header that begins with `fLaC` starts the walk of the metadata blocks
/// at offset 4, right after the marker.
pub proof fn law_flac_header_walks_from_four(h: [u8; 10], file_len: u64)
    requires
        h@[0] == 0x66u8,
        h@[1] == 0x4Cu8,
        h@[2] == 0x61u8,
        h@[3] == 0x43u8,
    ensures
        header_step(Some(h), file_len) == ScanStep::ReadBlockHeader(4),
{
}

/// A header that begins with neither `ID3` nor `fLaC` (Ogg, MP4, WAV, ...),
/// whatever its other bytes, puts the audio 256 KiB (262144 bytes) in, or at
/// the end of a shorter file.
pub proof fn law_other_formats_skip_256_kib(h: [u8; 10], file_len: u64)
    requires
        !(h@[0] == 0x49u8 && h@[1] == 0x44u8 && h@[2] == 0x33u8),
        !(h@[0] == 0x66u8 && h@[1] == 0x4Cu8 && h@[2] == 0x61u8 && h@[3] == 0x43u8),
    ensures
        header_step(Some(h), file_len) == ScanStep::Done(
            if file_len < 262144 {
                file_len
            } else {
                262144u64
            },
        ),
{
}

/// The same, for a whole file: at least ten bytes, starting with neither
/// `ID3` nor `fLaC`, the audio starts at `min(262144, file length)`.
pub proof fn law_other_format_file_starts_after_256_kib(file: Seq<u8>)
    requires
        file.len() >= 10,
        !(file[0] == 0x49u8 && file[1] == 0x44u8 && file[2] == 0x33u8),
        !(file[0] == 0x66u8 && file[1] == 0x4Cu8 && file[2] == 0x61u8 && file[3] == 0x43u8),
    ensures
        audio_start_of(file) == if file.len() < 262144 {
            file.len() as int
        } else {
            262144
        },
{
}

proof fn lemma_block_fields(b0: u8, b1: u8, b2: u8, b3: u8)
    ensures
        flac_block_len(b1, b2, b3) == b1 * 0x1_0000 + b2 * 0x100 + b3,
        flac_is_last(b0) <==> b0 >= 0x80,
{
    assert(((b1 as u64) << 16u64) | ((b2 as u64) << 8u64) | (b3 as u64) == (b1 as u64)
        * 0x1_0000u64 + (b2 as u64) * 0x100u64 + (b3 as u64)) by (bit_vector);
    assert((b0 & 0x80u8 != 0u8) <==> b0 >= 0x80u8) by (bit_vector);
}

/// A FLAC block header read at `pos` describes a block of
/// `b1 * 2^16 + b2 * 2^8 + b3` bytes after its 4 header bytes. When its first
/// byte has the high bit set (the last metadata block) the audio starts right
/// after the block, capped at the file length; otherwise the next header is
/// read right after the block. When no header could be read the audio starts
/// at `pos`, capped at the file length.
pub proof fn law_flac_block_step(pos: u64, block: Option<[u8; 4]>, file_len: u64)
    requires
        pos <= MAX_BLOCK_POS,
    ensures
        match block {
            None => block_step(pos, block, file_len) == ScanStep::Done(
                if pos < file_len {
                    pos
                } else {
                    file_len
                },
            ),
            Some(b) => {
                let next = pos + 4 + b@[1] * 0x1_0000 + b@[2] * 0x100 + b@[3];
                if b@[0] >= 0x80 {
                    block_step(pos, block, file_len) == ScanStep::Done(
                        if next < file_len {
                            next as u64
                        } else {
                            file_len
                        },
                    )
                } else {
                    block_step(pos, block, file_len) == ScanStep::ReadBlockHeader(next as u64)
                }
            },
        },
{
    if let Some(b) = block {
        lemma_block_fields(b@[0], b@[1], b@[2], b@[3]);
    }
}

} // verus!
