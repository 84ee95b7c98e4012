use audio_resolver::extension::extension;
use audio_resolver::extension::has_recognized_extension;
use audio_resolver::extension::is_recognized_extension;
use audio_resolver::text::str_lt;

#[test]
fn test_recognized_extensions() {
    assert!(is_recognized_extension("mp4"));
    assert!(is_recognized_extension("wav"));
    assert!(is_recognized_extension("mp3"));
    assert!(is_recognized_extension("m4a"));
    assert!(is_recognized_extension("webm"));
    assert!(is_recognized_extension("ogg"));
}

#[test]
fn test_recognition_ignores_ascii_case() {
    assert!(is_recognized_extension("MP4"));
    assert!(is_recognized_extension("Mp4"));
    assert!(is_recognized_extension("WEBM"));
    assert!(is_recognized_extension("oGg"));
}

#[test]
fn test_unrecognized_extensions() {
    assert!(!is_recognized_extension("txt"));
    assert!(!is_recognized_extension("mp5"));
    assert!(!is_recognized_extension("webx"));
    assert!(!is_recognized_extension("mp44"));
    assert!(!is_recognized_extension(""));
    assert!(!is_recognized_extension("mp"));
}

#[test]
fn test_extension_is_taken_after_the_final_dot() {
    assert_eq!(extension("notes.old.mp4"), Some("mp4"));
    assert_eq!(extension("a.tar.gz"), Some("gz"));
    assert_eq!(extension("trailing."), Some(""));
    assert_eq!(extension("nodot"), None);
    assert_eq!(extension(""), None);
    assert_eq!(extension(".mp4"), Some("mp4"));
}

#[test]
fn test_names_with_recognized_extensions() {
    assert!(has_recognized_extension("recording.mp4"));
    assert!(has_recognized_extension("CLIP.MP4"));
    assert!(has_recognized_extension("notes.old.mp4"));
    assert!(!has_recognized_extension("notes.txt"));
    assert!(!has_recognized_extension("mp4"));
    assert!(!has_recognized_extension("trailing."));
}

#[test]
fn test_str_lt_is_codepoint_lexicographic() {
    assert!(str_lt("alpha.mp4", "zebra.mp4"));
    assert!(!str_lt("zebra.mp4", "alpha.mp4"));
    assert!(str_lt("a", "ab"));
    assert!(!str_lt("ab", "a"));
    assert!(!str_lt("same", "same"));
    assert!(str_lt("", "a"));
    assert!(str_lt("A", "a"));
}
