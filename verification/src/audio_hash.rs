//! The audio fingerprint of a music file: a 64-bit hash of a fixed window of
//! raw bytes starting where the audio data starts, written as 16 lowercase
//! hexadecimal digits.
use std::hash::Hasher;
use vstd::prelude::*;
use crate::audio_start::{
    audio_start_of,
    flac_marker,
    is_flac_metadata,
    is_whole_id3_tag,
    law_audio_start_after_flac_metadata,
    law_audio_start_after_id3_tag,
    flac_walk,
    flac_walk_ends_at_last_block,
    id3_tag_size,
    is_flac_magic,
    is_id3_magic,
    law_audio_start_ignores_appended_bytes,
    law_audio_start_within_file,
    min_int,
};

verus! {

/// Number of bytes, starting at the audio start, that make up the window.
pub const HASH_WINDOW_LEN: usize = 65536;

/// What `std::collections::hash_map::DefaultHasher::new()` finishes with
/// after one `write` of `bytes`.
pub uninterp spec fn default_hasher_digest(bytes: Seq<u8>) -> u64;

/// Calls `DefaultHasher::new()`, `Hasher::write` with `bytes` and
/// `Hasher::finish`. All hashers made by `new` start from the same fixed
/// keys, so the result depends on the bytes alone; nothing is claimed of the
/// value itself.
#[verifier::external_body]
fn default_hash(bytes: &[u8]) -> (h: u64)
    ensures
        h == default_hasher_digest(bytes@),
{
    let mut hasher = std::collections::hash_map::DefaultHasher::new();
    hasher.write(bytes);
    hasher.finish()
}

/// Calls `String::push`, which appends `c` to the end of `s`.
#[verifier::external_body]
fn push_char(s: &mut String, c: char)
    ensures
        final(s)@ == old(s)@.push(c),
{
    s.push(c);
}

/// The lowercase hexadecimal digit for a nibble.
pub open spec fn hex_digit(n: int) -> char {
    if n < 10 {
        (n + 48) as char
    } else {
        (n + 87) as char
    }
}

/// Nibble `i` of `h`, counting from the most significant one.
pub open spec fn nibble(h: u64, i: int) -> u64 {
    (h >> ((60 - 4 * i) as u64)) & 15u64
}

/// `h` as exactly 16 lowercase hexadecimal digits, most significant first
/// (what `format!("{:016x}", h)` writes).
pub open spec fn hex16(h: u64) -> Seq<char> {
    Seq::new(16, |i: int| hex_digit(nibble(h, i) as int))
}

/// The window of `file` that is hashed: up to 65536 bytes from the audio start.
pub open spec fn audio_window(file: Seq<u8>) -> Seq<u8> {
    let start = audio_start_of(file);
    file.subrange(start, min_int(start + HASH_WINDOW_LEN, file.len() as int))
}

/// The audio fingerprint of a file with contents `file`.
pub open spec fn audio_hash_of(file: Seq<u8>) -> Seq<char> {
    hex16(default_hasher_digest(audio_window(file)))
}

fn hex_digit_char(n: u64) -> (c: char)
    requires
        n < 16,
    ensures
        c == hex_digit(n as int),
{
    let b: u8 = n as u8;
    if b < 10 {
        (b + 48) as char
    } else {
        (b + 87) as char
    }
}

/// Writes `h` as 16 lowercase hexadecimal digits, zero-padded.
pub fn format_hash(h: u64) -> (text: String)
    ensures
        text@ == hex16(h),
{
    let mut text = String::new();
    let mut i: u64 = 0;
    while i < 16
        invariant
            i <= 16,
            text@.len() == i,
            forall|j: int| 0 <= j < i ==> text@[j] == hex_digit(nibble(h, j) as int),
        decreases 16 - i,
    {
        let shift: u64 = 60 - 4 * i;
        let n: u64 = (h >> shift) & 15u64;
        assert(n < 16) by (bit_vector)
            requires
                n == (h >> shift) & 15u64,
        ;
        let c = hex_digit_char(n);
        push_char(&mut text, c);
        i = i + 1;
    }
    assert(text@ =~= hex16(h));
    text
}

/// The fingerprint of the bytes read from the audio start of a file (at
/// most `HASH_WINDOW_LEN` of them): the hasher's digest of exactly those
/// bytes, as 16 hexadecimal digits.
pub fn audio_window_hash(window: &[u8]) -> (text: String)
    ensures
        text@ == hex16(default_hasher_digest(window@)),
{
    let h = default_hash(window);
    format_hash(h)
}

proof fn lemma_hex_digit_injective(a: u64, b: u64)
    requires
        a < 16,
        b < 16,
        hex_digit(a as int) == hex_digit(b as int),
    ensures
        a == b,
{
    let ca = hex_digit(a as int);
    let cb = hex_digit(b as int);
    assert(ca as int == if a < 10 { a + 48 } else { a + 87 });
    assert(cb as int == if b < 10 { b + 48 } else { b + 87 });
}

proof fn lemma_nibbles_determine(a: u64, b: u64)
    requires
        forall|i: int| 0 <= i < 16 ==> #[trigger] nibble(a, i) == nibble(b, i),
    ensures
        a == b,
{
    assert(nibble(a, 0) == nibble(b, 0));
    assert(nibble(a, 1) == nibble(b, 1));
    assert(nibble(a, 2) == nibble(b, 2));
    assert(nibble(a, 3) == nibble(b, 3));
    assert(nibble(a, 4) == nibble(b, 4));
    assert(nibble(a, 5) == nibble(b, 5));
    assert(nibble(a, 6) == nibble(b, 6));
    assert(nibble(a, 7) == nibble(b, 7));
    assert(nibble(a, 8) == nibble(b, 8));
    assert(nibble(a, 9) == nibble(b, 9));
    assert(nibble(a, 10) == nibble(b, 10));
    assert(nibble(a, 11) == nibble(b, 11));
    assert(nibble(a, 12) == nibble(b, 12));
    assert(nibble(a, 13) == nibble(b, 13));
    assert(nibble(a, 14) == nibble(b, 14));
    assert(nibble(a, 15) == nibble(b, 15));
    assert(a == b) by (bit_vector)
        requires
            (a >> 60u64) & 15u64 == (b >> 60u64) & 15u64,
            (a >> 56u64) & 15u64 == (b >> 56u64) & 15u64,
            (a >> 52u64) & 15u64 == (b >> 52u64) & 15u64,
            (a >> 48u64) & 15u64 == (b >> 48u64) & 15u64,
            (a >> 44u64) & 15u64 == (b >> 44u64) & 15u64,
            (a >> 40u64) & 15u64 == (b >> 40u64) & 15u64,
            (a >> 36u64) & 15u64 == (b >> 36u64) & 15u64,
            (a >> 32u64) & 15u64 == (b >> 32u64) & 15u64,
            (a >> 28u64) & 15u64 == (b >> 28u64) & 15u64,
            (a >> 24u64) & 15u64 == (b >> 24u64) & 15u64,
            (a >> 20u64) & 15u64 == (b >> 20u64) & 15u64,
            (a >> 16u64) & 15u64 == (b >> 16u64) & 15u64,
            (a >> 12u64) & 15u64 == (b >> 12u64) & 15u64,
            (a >> 8u64) & 15u64 == (b >> 8u64) & 15u64,
            (a >> 4u64) & 15u64 == (b >> 4u64) & 15u64,
            (a >> 0u64) & 15u64 == (b >> 0u64) & 15u64,
    ;
}

/// Distinct hashes are written as distinct texts.
pub proof fn law_hash_text_injective(a: u64, b: u64)
    requires
        hex16(a) == hex16(b),
    ensures
        a == b,
{
    assert forall|i: int| 0 <= i < 16 implies #[trigger] nibble(a, i) == nibble(b, i) by {
        assert(hex16(a)[i] == hex_digit(nibble(a, i) as int));
        assert(hex16(b)[i] == hex_digit(nibble(b, i) as int));
        let sa = (60 - 4 * i) as u64;
        assert(((a >> sa) & 15u64) < 16) by (bit_vector);
        assert(((b >> sa) & 15u64) < 16) by (bit_vector);
        lemma_hex_digit_injective(nibble(a, i), nibble(b, i));
    }
    lemma_nibbles_determine(a, b);
}

/// Bytes appended to a file (trailing ID3v1 or APEv2 tags) leave its
/// fingerprint unchanged once the leading metadata and the whole hash window
/// already lie inside the file.
pub proof fn law_audio_hash_ignores_appended_bytes(file: Seq<u8>, tail: Seq<u8>)
    requires
        file.len() >= 10,
        is_id3_magic(file) ==> 10 + id3_tag_size(file[6], file[7], file[8], file[9]) <= file.len(),
        !is_id3_magic(file) && is_flac_magic(file) ==> flac_walk_ends_at_last_block(file, 4)
            && flac_walk(file, 4) <= file.len(),
        !is_id3_magic(file) && !is_flac_magic(file) ==> 262144 <= file.len(),
        audio_start_of(file) + HASH_WINDOW_LEN <= file.len(),
    ensures
        audio_hash_of(file + tail) == audio_hash_of(file),
{
    law_audio_start_ignores_appended_bytes(file, tail);
    law_audio_start_within_file(file);
    let start = audio_start_of(file);
    let whole = file + tail;
    assert(whole.subrange(start, start + HASH_WINDOW_LEN) =~= file.subrange(
        start,
        start + HASH_WINDOW_LEN,
    ));
}

/// Replacing the ID3v2 tag in front of the audio (edited fields, new album
/// art) by any other well-formed tag leaves the fingerprint unchanged.
pub proof fn law_audio_hash_ignores_id3_tag(tag1: Seq<u8>, tag2: Seq<u8>, audio: Seq<u8>)
    requires
        is_whole_id3_tag(tag1),
        is_whole_id3_tag(tag2),
    ensures
        audio_hash_of(tag1 + audio) == audio_hash_of(tag2 + audio),
{
    law_audio_start_after_id3_tag(tag1, audio);
    law_audio_start_after_id3_tag(tag2, audio);
    assert(audio_window(tag1 + audio) =~= audio_window(tag2 + audio));
}

/// Replacing the FLAC metadata blocks in front of the audio frames (edited
/// tags, new pictures, padding) by any other well-formed chain of blocks
/// leaves the fingerprint unchanged.
pub proof fn law_audio_hash_ignores_flac_metadata(blocks1: Seq<u8>, blocks2: Seq<u8>, audio: Seq<u8>)
    requires
        is_flac_metadata(blocks1),
        is_flac_metadata(blocks2),
        audio.len() >= 2,
    ensures
        audio_hash_of(flac_marker() + blocks1 + audio) == audio_hash_of(
            flac_marker() + blocks2 + audio,
        ),
{
    law_audio_start_after_flac_metadata(blocks1, audio);
    law_audio_start_after_flac_metadata(blocks2, audio);
    assert(audio_window(flac_marker() + blocks1 + audio) =~= audio_window(
        flac_marker() + blocks2 + audio,
    ));
}

/// The value of a hexadecimal digit: `0`-`9` and `a`-`f`; -1 for anything
/// else.
pub open spec fn hex_digit_value(c: char) -> int {
    if 48 <= (c as int) <= 57 {
        c as int - 48
    } else if 97 <= (c as int) <= 102 {
        c as int - 87
    } else {
        -1
    }
}

/// The number that a text of hexadecimal digits spells, most significant
/// digit first.
pub open spec fn hex_value(text: Seq<char>) -> int
    decreases text.len(),
{
    if text.len() == 0 {
        0
    } else {
        hex_value(text.drop_last()) * 16 + hex_digit_value(text.last())
    }
}

proof fn lemma_shift_step(h: u64, s: u64)
    requires
        4 <= s <= 60,
    ensures
        (h >> ((s - 4) as u64)) as int == (h >> s) as int * 16 + ((h >> ((s - 4) as u64)) & 15u64) as int,
{
    assert(4u64 <= s && s <= 60u64 ==> (h >> ((s - 4) as u64)) == (h >> s) * 16u64 + ((h >> ((s
        - 4) as u64)) & 15u64)) by (bit_vector);
    assert((h >> s) <= 0x0FFF_FFFF_FFFF_FFFFu64) by (bit_vector)
        requires
            4u64 <= s,
    ;
}

proof fn lemma_digit_reads_back(h: u64, i: int)
    requires
        0 <= i < 16,
    ensures
        hex_digit_value(hex16(h)[i]) == nibble(h, i) as int,
        48 <= (hex16(h)[i] as int) <= 57 || 97 <= (hex16(h)[i] as int) <= 102,
{
    let sh = (60 - 4 * i) as u64;
    assert(((h >> sh) & 15u64) < 16) by (bit_vector);
    assert(hex16(h)[i] == hex_digit(nibble(h, i) as int));
}

proof fn lemma_hex_prefix(h: u64, k: int)
    requires
        1 <= k <= 16,
    ensures
        hex_value(hex16(h).take(k)) == (h >> ((64 - 4 * k) as u64)) as int,
    decreases k,
{
    let t = hex16(h).take(k);
    lemma_digit_reads_back(h, k - 1);
    assert(t.last() == hex16(h)[k - 1]);
    let low = (64 - 4 * k) as u64;
    assert(nibble(h, k - 1) == (h >> low) & 15u64);
    if k == 1 {
        assert(t.drop_last() =~= Seq::<char>::empty());
        assert(low == 60);
        assert((h >> 60u64) & 15u64 == h >> 60u64) by (bit_vector);
        assert(hex_value(t) == hex_value(t.drop_last()) * 16 + hex_digit_value(t.last()));
    } else {
        let high = (68 - 4 * k) as u64;
        assert(t.drop_last() =~= hex16(h).take(k - 1));
        lemma_hex_prefix(h, k - 1);
        assert((64 - 4 * (k - 1)) as u64 == high);
        lemma_shift_step(h, high);
        assert(((high - 4) as u64) == low);
        assert(hex_value(t) == hex_value(t.drop_last()) * 16 + hex_digit_value(t.last()));
    }
}

/// The hash text is 16 lowercase hexadecimal digits that spell the hash:
/// read back as a hexadecimal number, it is `h`.
pub proof fn law_hash_text_reads_back(h: u64)
    ensures
        hex16(h).len() == 16,
        forall|i: int|
            0 <= i < 16 ==> 48 <= (#[trigger] hex16(h)[i] as int) <= 57 || 97 <= (
            hex16(h)[i] as int) <= 102,
        hex_value(hex16(h)) == h as int,
{
    assert forall|i: int| 0 <= i < 16 implies 48 <= (#[trigger] hex16(h)[i] as int) <= 57 || 97
        <= (hex16(h)[i] as int) <= 102 by {
        lemma_digit_reads_back(h, i);
    }
    lemma_hex_prefix(h, 16);
    assert(hex16(h).take(16) =~= hex16(h));
    assert(h >> 0u64 == h) by (bit_vector);
}

/// The hashed window is the 65536 bytes that follow the audio start, or all
/// bytes from the audio start to the end of a shorter file.
pub proof fn law_window_follows_audio_start(file: Seq<u8>)
    ensures
        audio_window(file).len() == if file.len() - audio_start_of(file) < 65536 {
            file.len() - audio_start_of(file)
        } else {
            65536
        },
        forall|i: int|
            0 <= i < audio_window(file).len() ==> #[trigger] audio_window(file)[i] == file[audio_start_of(
                file,
            ) + i],
{
    law_audio_start_within_file(file);
}

} // verus!
