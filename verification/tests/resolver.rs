use audio_resolver::resolve::resolve_recording;
use audio_resolver::resolve::select_recording;
use audio_resolver::resolve::FolderEntry;
use audio_resolver::resolve::FolderView;
use audio_resolver::resolve::ResolveError;

fn entry(dir: &str, name: &str, is_regular: bool) -> FolderEntry {
    FolderEntry { path: format!("{}/{}", dir, name), name: name.to_string(), is_regular }
}

fn listed(dir: &str, names: &[&str]) -> FolderView {
    FolderView::Listed { entries: names.iter().map(|n| entry(dir, n, true)).collect() }
}

#[test]
fn test_get_meeting_audio_path_with_mp4() {
    let result = resolve_recording("/meetings/m1", listed("/meetings/m1", &["recording.mp4"]));
    assert!(result.is_ok());
    let path = result.unwrap();
    assert!(path.is_some());
    assert!(path.unwrap().ends_with("recording.mp4"));
}

#[test]
fn test_get_meeting_audio_path_with_wav() {
    let result = resolve_recording("/meetings/m2", listed("/meetings/m2", &["audio.wav"]));
    assert!(result.is_ok());
    let path = result.unwrap();
    assert!(path.is_some());
    assert!(path.unwrap().ends_with("audio.wav"));
}

#[test]
fn test_get_meeting_audio_path_no_audio() {
    let result = resolve_recording("/meetings/m3", listed("/meetings/m3", &["notes.txt"]));
    assert!(result.is_ok());
    assert!(result.unwrap().is_none());
}

#[test]
fn test_get_meeting_audio_path_invalid_folder() {
    let result = resolve_recording(
        "/nonexistent/folder/path",
        FolderView::Unresolved { cause: "No such file or directory (os error 2)".to_string() },
    );
    assert!(result.is_err());
}

#[test]
fn test_get_meeting_audio_path_multiple_files_returns_first_alphabetically() {
    let result = resolve_recording(
        "/meetings/m4",
        listed("/meetings/m4", &["zebra.mp4", "alpha.mp4", "beta.wav"]),
    );
    assert!(result.is_ok());
    let path = result.unwrap();
    assert!(path.is_some());
    assert!(path.unwrap().ends_with("alpha.mp4"));
}

#[test]
fn test_uppercase_extension_is_selected() {
    let result = resolve_recording("/m", listed("/m", &["CLIP.MP4"]));
    assert_eq!(result.unwrap(), Some("/m/CLIP.MP4".to_string()));
}

#[test]
fn test_mixed_case_extension_is_selected() {
    let result = resolve_recording("/m", listed("/m", &["take.WeBm"]));
    assert_eq!(result.unwrap(), Some("/m/take.WeBm".to_string()));
}

#[test]
fn test_non_regular_entry_is_never_selected() {
    let view = FolderView::Listed { entries: vec![entry("/m", "audio.mp4", false)] };
    let result = resolve_recording("/m", view);
    assert_eq!(result.unwrap(), None);
}

#[test]
fn test_non_regular_entry_does_not_shadow_regular_one() {
    let view = FolderView::Listed {
        entries: vec![entry("/m", "aaa.mp4", false), entry("/m", "bbb.ogg", true)],
    };
    let result = resolve_recording("/m", view);
    assert_eq!(result.unwrap(), Some("/m/bbb.ogg".to_string()));
}

#[test]
fn test_empty_folder_gives_none() {
    let result = resolve_recording("/m", FolderView::Listed { entries: Vec::new() });
    assert_eq!(result.unwrap(), None);
}

#[test]
fn test_not_a_directory_error() {
    let result = resolve_recording("/m/plain.txt", FolderView::NotDirectory);
    assert!(matches!(
        result,
        Err(ResolveError::NotADirectory { ref input }) if input == "/m/plain.txt"
    ));
}

#[test]
fn test_path_resolution_error_keeps_input_and_cause() {
    let result = resolve_recording(
        "/gone",
        FolderView::Unresolved { cause: "No such file or directory (os error 2)".to_string() },
    );
    match result {
        Err(ResolveError::PathResolution { input, cause }) => {
            assert_eq!(input, "/gone");
            assert_eq!(cause, "No such file or directory (os error 2)");
        }
        _ => panic!("expected a path resolution error"),
    }
}

#[test]
fn test_directory_read_error_keeps_input_and_cause() {
    let result = resolve_recording(
        "/locked",
        FolderView::Unreadable { cause: "Permission denied (os error 13)".to_string() },
    );
    match result {
        Err(ResolveError::DirectoryRead { input, cause }) => {
            assert_eq!(input, "/locked");
            assert_eq!(cause, "Permission denied (os error 13)");
        }
        _ => panic!("expected a directory read error"),
    }
}

#[test]
fn test_error_messages() {
    let e = ResolveError::PathResolution {
        input: "/gone".to_string(),
        cause: "No such file or directory (os error 2)".to_string(),
    };
    assert_eq!(e.message(), "Failed to resolve path /gone: No such file or directory (os error 2)");
    let e = ResolveError::NotADirectory { input: "/m/plain.txt".to_string() };
    assert_eq!(e.message(), "Path is not a directory: /m/plain.txt");
    let e = ResolveError::DirectoryRead {
        input: "/locked".to_string(),
        cause: "Permission denied (os error 13)".to_string(),
    };
    assert_eq!(e.message(), "Failed to read directory /locked: Permission denied (os error 13)");
}

#[test]
fn test_repeated_lookups_agree() {
    let first = resolve_recording("/m", listed("/m", &["b.ogg", "a.txt", "c.mp3"]));
    let second = resolve_recording("/m", listed("/m", &["b.ogg", "a.txt", "c.mp3"]));
    assert_eq!(first.unwrap(), second.unwrap());
}

#[test]
fn test_select_recording_ignores_unrecognized_names() {
    let entries = vec![
        entry("/m", "README", true),
        entry("/m", "slides.pdf", true),
        entry("/m", "track.ogg", true),
    ];
    assert_eq!(select_recording(&entries), Some("/m/track.ogg".to_string()));
}

#[test]
fn test_select_recording_orders_by_full_path() {
    let entries = vec![
        entry("/m", "b.wav", true),
        entry("/m", "a.webm", true),
        entry("/m", "a.wav", true),
    ];
    assert_eq!(select_recording(&entries), Some("/m/a.wav".to_string()));
}
