use audiostar::listing::{
    file_extension, is_hidden, is_listed_music_extension, is_music_extension, is_music_file_name, select_music_files,
    visible_directories, FileEntry,
};
use audiostar::order::{chars_le_exec, chars_of, sort_by_chars};
use std::path::Path;

fn strings(v: &[&str]) -> Vec<String> {
    v.iter().map(|s| s.to_string()).collect()
}

#[test]
fn hidden_names_start_with_dot() {
    assert!(is_hidden(".git"));
    assert!(is_hidden("."));
    assert!(!is_hidden("music"));
    assert!(!is_hidden(""));
    assert!(!is_hidden("a.b"));
}

#[test]
fn extension_agrees_with_std_path() {
    for name in [
        "song.mp3", "a.b.c", "a.", "noext", ".mp3", "..mp3", "..", ".", "x.FLAC", "é.ogg", "",
        "double..dot",
    ] {
        let expected = Path::new(name).extension().and_then(|e| e.to_str()).map(|e| e.to_string());
        assert_eq!(file_extension(name), expected, "{}", name);
    }
}

#[test]
fn music_extensions_ignore_case() {
    assert!(is_music_extension("mp3"));
    assert!(is_music_extension("MP3"));
    assert!(is_music_extension("Flac"));
    assert!(is_music_extension("aiff"));
    assert!(is_music_extension("wma"));
    assert!(!is_music_extension("txt"));
    assert!(!is_music_extension("mp"));
    assert!(!is_music_extension(""));
}

#[test]
fn music_file_names() {
    assert!(is_music_file_name("track01.M4A"));
    assert!(is_music_file_name("a.b.opus"));
    assert!(!is_music_file_name(".mp3"));
    assert!(!is_music_file_name("cover.jpg"));
    assert!(!is_music_file_name("mp3"));
}

#[test]
fn character_order() {
    let a = chars_of("abc");
    let b = chars_of("abd");
    let p = chars_of("ab");
    assert!(chars_le_exec(&a, &b));
    assert!(!chars_le_exec(&b, &a));
    assert!(chars_le_exec(&p, &a));
    assert!(!chars_le_exec(&a, &p));
    assert!(chars_le_exec(&a, &a));
    assert!(chars_le_exec(&chars_of("Z"), &chars_of("a")));
    assert_eq!(chars_of("héllo"), vec!['h', 'é', 'l', 'l', 'o']);
}

#[test]
fn sorting_matches_string_order() {
    let names = strings(&["b", "a", "B", "ä", "ab", "a", "", "Zed", "zed"]);
    let mut expected = names.clone();
    expected.sort();
    assert_eq!(sort_by_chars(&names), expected);
}

#[test]
fn directories_are_visible_and_sorted() {
    let names = strings(&["Rock", ".cache", "Jazz", "ambient", ".", "Blues"]);
    assert_eq!(visible_directories(&names), strings(&["Blues", "Jazz", "Rock", "ambient"]));
    assert_eq!(visible_directories(&Vec::new()), Vec::<String>::new());
}

#[test]
fn music_files_are_selected_and_sorted() {
    let entry = |path: &str, name: &str| FileEntry { path: path.to_string(), name: name.to_string() };
    let entries = vec![
        entry("/m/b.mp3", "b.mp3"),
        entry("/m/cover.jpg", "cover.jpg"),
        entry("/m/A.FLAC", "A.FLAC"),
        entry("/m/.hidden.ogg", ".hidden.ogg"),
        entry("/m/.ogg", ".ogg"),
        entry("/m/notes", "notes"),
    ];
    assert_eq!(
        select_music_files(&entries),
        strings(&["/m/.hidden.ogg", "/m/A.FLAC", "/m/b.mp3"])
    );
}

#[test]
fn listed_extensions_are_lowercase() {
    for ext in ["aac", "ac3", "aif", "aiff", "amr", "caf", "flac", "m4a", "mp3", "ogg", "opus", "pcm", "wav", "wma"] {
        assert!(is_listed_music_extension(&ext.to_string()));
    }
    assert!(!is_listed_music_extension(&"MP3".to_string()));
    assert!(!is_listed_music_extension(&"mp4".to_string()));
}
