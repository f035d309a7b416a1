//! Which directory entries are listed: visible subdirectories, and regular
//! files whose extension names a supported music format; both in
//! alphabetical order.
use vstd::prelude::*;
use vstd::string::*;
use vstd::multiset::Multiset;
use crate::order::{chars_of, sort_by_chars, sorted_by_chars};

verus! {

broadcast use vstd::seq_lib::group_seq_properties;

/// A directory entry that is a regular file: its full path and its file name.
pub struct FileEntry {
    pub path: String,
    pub name: String,
}

/// Names that begin with `.` are hidden.
pub open spec fn is_hidden_name(name: Seq<char>) -> bool {
    name.len() > 0 && name[0] == '.'
}

/// Position of the last `.` in `s`, or -1 when there is none.
pub open spec fn last_dot(s: Seq<char>) -> int
    decreases s.len(),
{
    if s.len() == 0 {
        -1
    } else if s.last() == '.' {
        s.len() - 1
    } else {
        last_dot(s.drop_last())
    }
}

/// The extension of a file name, as `std::path::Path::extension` defines it:
/// the part after the final `.`; none when there is no `.`, when the only
/// `.` is the leading one, or for the name `..`.
pub open spec fn extension_of(name: Seq<char>) -> Option<Seq<char>> {
    let k = last_dot(name);
    if k <= 0 || name == seq!['.', '.'] {
        None
    } else {
        Some(name.subrange(k + 1, name.len() as int))
    }
}

/// The extensions of the supported music formats, in lowercase.
pub open spec fn music_extensions() -> Seq<Seq<char>> {
    seq![
        "aac"@,
        "ac3"@,
        "aif"@,
        "aiff"@,
        "amr"@,
        "caf"@,
        "flac"@,
        "m4a"@,
        "mp3"@,
        "ogg"@,
        "opus"@,
        "pcm"@,
        "wav"@,
        "wma"@,
    ]
}

/// What `str::to_lowercase` returns for a string with characters `s`.
pub uninterp spec fn unicode_lowercase(s: Seq<char>) -> Seq<char>;

/// Calls `str::to_lowercase`: the lowercase equivalent of `s` as Unicode
/// defines it, a function of `s` alone. Nothing more is claimed of it.
#[verifier::external_body]
fn to_lowercase(s: &str) -> (lower: String)
    ensures
        lower@ == unicode_lowercase(s@),
{
    s.to_lowercase()
}

/// A file name whose extension, in lowercase, is a supported music format.
pub open spec fn is_music_name(name: Seq<char>) -> bool {
    match extension_of(name) {
        Some(ext) => music_extensions().contains(unicode_lowercase(ext)),
        None => false,
    }
}

/// Whether a name is hidden (begins with `.`).
pub fn is_hidden(name: &str) -> (hidden: bool)
    ensures
        hidden == is_hidden_name(name@),
{
    if name.is_empty() {
        false
    } else {
        name.get_char(0) == '.'
    }
}

/// The extension of a file name (see `extension_of`).
pub fn file_extension(name: &str) -> (ext: Option<String>)
    ensures
        match ext {
            Some(e) => extension_of(name@) == Some(e@),
            None => extension_of(name@) is None,
        },
{
    let chars = chars_of(name);
    let n = chars.len();
    let mut found: bool = false;
    let mut last: usize = 0;
    let mut i: usize = 0;
    assert(chars@.take(0) =~= Seq::<char>::empty());
    while i < n
        invariant
            n == chars@.len(),
            chars@ == name@,
            i <= n,
            last_dot(chars@.take(i as int)) == if found { last as int } else { -1 },
            found ==> last < i,
        decreases n - i,
    {
        assert(chars@.take(i + 1).drop_last() =~= chars@.take(i as int));
        if chars[i] == '.' {
            found = true;
            last = i;
        }
        i = i + 1;
    }
    assert(chars@.take(n as int) =~= chars@);
    if !found || last == 0 || (n == 2 && chars[0] == '.' && chars[1] == '.') {
        proof {
            if n == 2 && chars@[0] == '.' && chars@[1] == '.' {
                assert(name@ =~= seq!['.', '.']);
            }
        }
        None
    } else {
        proof {
            if name@ == seq!['.', '.'] {
                assert(chars@[0] == '.' && chars@[1] == '.');
            }
        }
        let start: usize = last + 1;
        let ext = name.substring_char(start, n);
        Some(ext.to_owned())
    }
}

/// The supported extensions, as strings.
fn music_extension_strings() -> (list: Vec<String>)
    ensures
        list@.len() == music_extensions().len(),
        forall|k: int| 0 <= k < list@.len() ==> #[trigger] list@[k]@ == music_extensions()[k],
{
    let mut list: Vec<String> = Vec::new();
    list.push("aac".to_owned());
    list.push("ac3".to_owned());
    list.push("aif".to_owned());
    list.push("aiff".to_owned());
    list.push("amr".to_owned());
    list.push("caf".to_owned());
    list.push("flac".to_owned());
    list.push("m4a".to_owned());
    list.push("mp3".to_owned());
    list.push("ogg".to_owned());
    list.push("opus".to_owned());
    list.push("pcm".to_owned());
    list.push("wav".to_owned());
    list.push("wma".to_owned());
    list
}

/// Whether an (already lowercased) extension is one of the supported formats.
pub fn is_listed_music_extension(lower: &String) -> (listed: bool)
    ensures
        listed == music_extensions().contains(lower@),
{
    let list = music_extension_strings();
    let mut k: usize = 0;
    while k < list.len()
        invariant
            k <= list@.len(),
            list@.len() == music_extensions().len(),
            forall|m: int| 0 <= m < list@.len() ==> #[trigger] list@[m]@ == music_extensions()[m],
            forall|m: int| 0 <= m < k ==> music_extensions()[m] != lower@,
        decreases list@.len() - k,
    {
        if list[k] == *lower {
            assert(music_extensions()[k as int] == lower@);
            return true;
        }
        k = k + 1;
    }
    assert forall|m: int| 0 <= m < music_extensions().len() implies music_extensions()[m]
        != lower@ by {
        assert(list@[m]@ == music_extensions()[m]);
    }
    false
}

/// Whether an extension, once lowercased, is one of the supported formats.
pub fn is_music_extension(ext: &str) -> (music: bool)
    ensures
        music == music_extensions().contains(unicode_lowercase(ext@)),
{
    let lower = to_lowercase(ext);
    is_listed_music_extension(&lower)
}

/// Whether a file name has a supported music extension.
pub fn is_music_file_name(name: &str) -> (music: bool)
    ensures
        music == is_music_name(name@),
{
    match file_extension(name) {
        Some(ext) => is_music_extension(ext.as_str()),
        None => false,
    }
}

/// The visible directory names, in alphabetical order.
pub fn visible_directories(names: &Vec<String>) -> (dirs: Vec<String>)
    ensures
        sorted_by_chars(dirs@),
        dirs@.to_multiset() == names@.filter(|n: String| !is_hidden_name(n@)).to_multiset(),
{
    let ghost pred = |n: String| !is_hidden_name(n@);
    let mut kept: Vec<String> = Vec::new();
    let mut i: usize = 0;
    assert(names@.take(0) =~= Seq::<String>::empty());
    while i < names.len()
        invariant
            i <= names.len(),
            pred == (|n: String| !is_hidden_name(n@)),
            kept@ == names@.take(i as int).filter(pred),
        decreases names.len() - i,
    {
        let name = &names[i];
        assert(names@.take(i + 1) =~= names@.take(i as int).push(names@[i as int]));
        proof {
            names@.take(i as int).lemma_filter_push(names@[i as int], pred);
        }
        if !is_hidden(name.as_str()) {
            kept.push(name.clone());
        }
        i = i + 1;
    }
    assert(names@.take(names.len() as int) =~= names@);
    sort_by_chars(&kept)
}

/// The paths of the entries whose names have a supported music extension,
/// in alphabetical order.
pub fn select_music_files(entries: &Vec<FileEntry>) -> (paths: Vec<String>)
    ensures
        sorted_by_chars(paths@),
        paths@.to_multiset() == entries@.filter(|e: FileEntry| is_music_name(e.name@)).map_values(
            |e: FileEntry| e.path,
        ).to_multiset(),
{
    let ghost pred = |e: FileEntry| is_music_name(e.name@);
    let ghost path_of = |e: FileEntry| e.path;
    let mut kept: Vec<String> = Vec::new();
    let mut i: usize = 0;
    assert(entries@.take(0) =~= Seq::<FileEntry>::empty());
    assert(entries@.take(0).filter(pred).map_values(path_of) =~= Seq::<String>::empty());
    while i < entries.len()
        invariant
            i <= entries.len(),
            pred == (|e: FileEntry| is_music_name(e.name@)),
            path_of == (|e: FileEntry| e.path),
            kept@ == entries@.take(i as int).filter(pred).map_values(path_of),
        decreases entries.len() - i,
    {
        let entry = &entries[i];
        assert(entries@.take(i + 1) =~= entries@.take(i as int).push(entries@[i as int]));
        proof {
            entries@.take(i as int).lemma_filter_push(entries@[i as int], pred);
        }
        if is_music_file_name(entry.name.as_str()) {
            kept.push(entry.path.clone());
            assert(kept@ =~= entries@.take(i + 1).filter(pred).map_values(path_of));
        }
        i = i + 1;
    }
    assert(entries@.take(entries.len() as int) =~= entries@);
    sort_by_chars(&kept)
}

/// The supported formats are exactly aac, ac3, aif, aiff, amr, caf, flac,
/// m4a, mp3, ogg, opus, pcm, wav and wma: fourteen extensions, no others.
pub proof fn law_music_extensions_exact(e: Seq<char>)
    ensures
        music_extensions().len() == 14,
        music_extensions().contains(e) <==> (e == "aac"@
            || e == "ac3"@
            || e == "aif"@
            || e == "aiff"@
            || e == "amr"@
            || e == "caf"@
            || e == "flac"@
            || e == "m4a"@
            || e == "mp3"@
            || e == "ogg"@
            || e == "opus"@
            || e == "pcm"@
            || e == "wav"@
            || e == "wma"@),
{
    if music_extensions().contains(e) {
        let i = choose|i: int| 0 <= i < music_extensions().len() && music_extensions()[i] == e;
        assert(0 <= i < 14);
    }
    if e == "aac"@
            || e == "ac3"@
            || e == "aif"@
            || e == "aiff"@
            || e == "amr"@
            || e == "caf"@
            || e == "flac"@
            || e == "m4a"@
            || e == "mp3"@
            || e == "ogg"@
            || e == "opus"@
            || e == "pcm"@
            || e == "wav"@
            || e == "wma"@ {
        assert(music_extensions()[0] == "aac"@);
        assert(music_extensions()[1] == "ac3"@);
        assert(music_extensions()[2] == "aif"@);
        assert(music_extensions()[3] == "aiff"@);
        assert(music_extensions()[4] == "amr"@);
        assert(music_extensions()[5] == "caf"@);
        assert(music_extensions()[6] == "flac"@);
        assert(music_extensions()[7] == "m4a"@);
        assert(music_extensions()[8] == "mp3"@);
        assert(music_extensions()[9] == "ogg"@);
        assert(music_extensions()[10] == "opus"@);
        assert(music_extensions()[11] == "pcm"@);
        assert(music_extensions()[12] == "wav"@);
        assert(music_extensions()[13] == "wma"@);
    }
}

/// A file name is a music name exactly when it has an extension whose
/// lowercase form is one of the fourteen supported ones.
pub proof fn law_music_name_exact(name: Seq<char>)
    ensures
        is_music_name(name) <==> (extension_of(name) is Some && (unicode_lowercase(extension_of(name)->0) == "aac"@
            || unicode_lowercase(extension_of(name)->0) == "ac3"@
            || unicode_lowercase(extension_of(name)->0) == "aif"@
            || unicode_lowercase(extension_of(name)->0) == "aiff"@
            || unicode_lowercase(extension_of(name)->0) == "amr"@
            || unicode_lowercase(extension_of(name)->0) == "caf"@
            || unicode_lowercase(extension_of(name)->0) == "flac"@
            || unicode_lowercase(extension_of(name)->0) == "m4a"@
            || unicode_lowercase(extension_of(name)->0) == "mp3"@
            || unicode_lowercase(extension_of(name)->0) == "ogg"@
            || unicode_lowercase(extension_of(name)->0) == "opus"@
            || unicode_lowercase(extension_of(name)->0) == "pcm"@
            || unicode_lowercase(extension_of(name)->0) == "wav"@
            || unicode_lowercase(extension_of(name)->0) == "wma"@)),
{
    if let Some(ext) = extension_of(name) {
        law_music_extensions_exact(unicode_lowercase(ext));
    }
}

proof fn lemma_last_dot(s: Seq<char>)
    ensures
        -1 <= last_dot(s) < s.len(),
        last_dot(s) >= 0 ==> s[last_dot(s)] == '.',
        forall|j: int| last_dot(s) < j < s.len() ==> s[j] != '.',
    decreases s.len(),
{
    if s.len() > 0 && s.last() != '.' {
        lemma_last_dot(s.drop_last());
        assert forall|j: int| last_dot(s) < j < s.len() implies s[j] != '.' by {
            if j < s.len() - 1 {
                assert(s[j] == s.drop_last()[j]);
            }
        }
    }
}

/// What the extension is, in terms of the name alone: when there is one, the
/// name is a non-empty stem, a `.`, and the extension, which holds no `.`;
/// when there is none, the name holds no `.` after its first character, or
/// is `..`.
pub proof fn law_extension_splits_name(name: Seq<char>)
    ensures
        match extension_of(name) {
            Some(ext) => exists|stem: Seq<char>|
                stem.len() > 0 && name == stem + seq!['.'] + ext && !ext.contains('.'),
            None => name == seq!['.', '.'] || forall|i: int| 0 < i < name.len() ==> name[i] != '.',
        },
{
    lemma_last_dot(name);
    let k = last_dot(name);
    if let Some(ext) = extension_of(name) {
        let stem = name.subrange(0, k);
        assert(name =~= stem + seq!['.'] + ext);
        assert(!ext.contains('.')) by {
            if ext.contains('.') {
                let j = choose|j: int| 0 <= j < ext.len() && ext[j] == '.';
                assert(name[k + 1 + j] == '.');
            }
        }
    }
}

proof fn lemma_visible_count(names: Seq<String>, n: String)
    ensures
        names.filter(|x: String| !is_hidden_name(x@)).to_multiset().count(n) == if n@.len() > 0
            && n@[0] == '.' {
            0
        } else {
            names.to_multiset().count(n)
        },
    decreases names.len(),
{
    let pred = |x: String| !is_hidden_name(x@);
    if names.len() == 0 {
        assert(names.filter(pred) =~= Seq::<String>::empty());
        vstd::seq_lib::to_multiset_len(names);
        vstd::seq_lib::to_multiset_len(names.filter(pred));
        assert(names.to_multiset() =~= Multiset::empty());
        assert(names.filter(pred).to_multiset() =~= Multiset::empty());
    } else {
        let init = names.drop_last();
        let x = names.last();
        lemma_visible_count(init, n);
        assert(init.push(x) =~= names);
        init.lemma_filter_push(x, pred);
        vstd::seq_lib::to_multiset_build(init, x);
        if pred(x) {
            vstd::seq_lib::to_multiset_build(init.filter(pred), x);
        }
    }
}

/// The visible directories are exactly the names that do not begin with
/// `.`: such a name appears in the listing as often as among the entries,
/// a name beginning with `.` not at all.
pub proof fn law_visible_directories_keep_non_dot_names(
    names: Seq<String>,
    dirs: Seq<String>,
    n: String,
)
    requires
        dirs.to_multiset() == names.filter(|x: String| !is_hidden_name(x@)).to_multiset(),
    ensures
        dirs.to_multiset().count(n) == if n@.len() > 0 && n@[0] == '.' {
            0
        } else {
            names.to_multiset().count(n)
        },
{
    lemma_visible_count(names, n);
}

} // verus!
