use fs_librarian::config::{Filter, Libraries};
use fs_librarian::library::{path_within, ClassifiedFile, Error, Library};

fn lib_config(command: &str, dirs: &[&str], patterns: Option<&[&str]>) -> Libraries {
    Libraries {
        command: command.to_string(),
        filter: Filter {
            directories: dirs.iter().map(|d| d.to_string()).collect(),
            mime_type_regexes: patterns
                .map(|ps| ps.iter().map(|p| p.to_string()).collect()),
        },
    }
}

fn file(path: &str, mime: &str) -> ClassifiedFile {
    ClassifiedFile {
        path: path.to_string(),
        mime_type: mime.to_string(),
    }
}

#[test]
fn test_process_counts_matching_files() {
    let cfg = lib_config(
        "handle {{ file_path }} as {{ mime_type }}",
        &["tests/files/audio"],
        Some(&["^audio/"]),
    );
    let dry = false;
    let lib = Library::new(&cfg, &dry);
    let files = vec![
        file("tests/files/audio/flac", "audio/flac"),
        file("tests/files/audio/notes", "text/plain"),
        file("tests/files/audio/opus", "audio/x-opus+ogg"),
    ];
    let (count, lines) = lib.process(&files).unwrap();
    assert_eq!(count, 2);
    assert_eq!(
        lines,
        vec![
            "handle tests/files/audio/flac as audio/flac".to_string(),
            "handle tests/files/audio/opus as audio/x-opus+ogg".to_string(),
        ]
    );
}

#[test]
fn test_process_batch_is_not_debounced() {
    // A second identical batch pass reports the same count again.
    let cfg = lib_config("echo {{ file_path }}", &["tests/files/audio"], Some(&["^audio/"]));
    let dry = false;
    let lib = Library::new(&cfg, &dry);
    let files = vec![file("tests/files/audio/flac", "audio/flac")];
    let (first, _) = lib.process(&files).unwrap();
    let (second, _) = lib.process(&files).unwrap();
    assert_eq!(first, 1);
    assert_eq!(second, 1);
}

#[test]
fn test_rule_without_patterns_matches_everything() {
    let cfg = lib_config("echo {{ file_path }}", &["d"], None);
    let dry = false;
    let lib = Library::new(&cfg, &dry);
    let files = vec![
        file("a", "audio/flac"),
        file("b", "text/plain"),
        file("c", "application/zip"),
    ];
    let (count, _) = lib.process(&files).unwrap();
    assert_eq!(count, 3);
}

#[test]
fn test_rule_matches_iff_any_pattern_matches() {
    let cfg = lib_config("echo {{ file_path }}", &["d"], Some(&["^audio/", "mp4$"]));
    let dry = false;
    let lib = Library::new(&cfg, &dry);

    let matched_by_second = vec![file("v", "video/mp4")];
    let (count, _) = lib.process(&matched_by_second).unwrap();
    assert_eq!(count, 1);

    let matched_by_none = vec![file("t", "text/plain")];
    let (count, _) = lib.process(&matched_by_none).unwrap();
    assert_eq!(count, 0);
}

#[test]
fn test_pattern_is_anchored_matching_not_substring_fooled() {
    // The engine must really be consulted: "^audio/" must not accept a type
    // that merely contains "audio/".
    let cfg = lib_config("echo {{ file_path }}", &["d"], Some(&["^audio/"]));
    let dry = false;
    let lib = Library::new(&cfg, &dry);
    let files = vec![file("x", "xaudio/flac")];
    let (count, _) = lib.process(&files).unwrap();
    assert_eq!(count, 0);
}

#[test]
fn test_invalid_regex_is_an_error() {
    let cfg = lib_config("echo {{ file_path }}", &["d"], Some(&["("]));
    let dry = false;
    let lib = Library::new(&cfg, &dry);
    let files = vec![file("a", "audio/flac")];
    assert_eq!(lib.process(&files).unwrap_err(), Error::Regex);
    assert!(Error::Regex.to_message().contains("regex error"));
}

#[test]
fn test_invalid_regex_after_match_is_not_reached() {
    // The scan stops on the first matching pattern, so an invalid pattern
    // standing after it is never compiled.
    let cfg = lib_config("echo {{ file_path }}", &["d"], Some(&["^audio/", "("]));
    let dry = false;
    let lib = Library::new(&cfg, &dry);

    let (count, _) = lib.process(&vec![file("a", "audio/flac")]).unwrap();
    assert_eq!(count, 1);

    assert_eq!(
        lib.process(&vec![file("t", "text/plain")]).unwrap_err(),
        Error::Regex
    );
}

#[test]
fn test_unresolved_command_variable_is_an_error() {
    let cfg = lib_config("echo {{ nope }}", &["d"], None);
    let dry = false;
    let lib = Library::new(&cfg, &dry);
    let files = vec![file("a", "audio/flac")];
    assert_eq!(lib.process(&files).unwrap_err(), Error::Template);
}

#[test]
fn test_dry_run_takes_the_same_render_path() {
    // A dry run prepares exactly the lines a real run would execute, so
    // its printed output is representative — including rendering errors.
    let cfg = lib_config("echo {{ file_path }}", &["d"], None);
    let dry = true;
    let lib = Library::new(&cfg, &dry);
    assert!(lib.is_dry_run());
    let files = vec![file("a", "audio/flac"), file("b", "text/plain")];
    let (count, lines) = lib.process(&files).unwrap();
    assert_eq!(count, 2);
    assert_eq!(lines, vec!["echo a".to_string(), "echo b".to_string()]);

    let bad = lib_config("echo {{ nope }}", &["d"], None);
    let lib = Library::new(&bad, &dry);
    assert_eq!(lib.process(&files).unwrap_err(), Error::Template);
}

#[test]
fn test_process_file_single() {
    let cfg = lib_config("do {{ file_path }}", &["d"], Some(&["^audio/"]));
    let dry = false;
    let lib = Library::new(&cfg, &dry);
    assert_eq!(
        lib.process_file(&file("a", "audio/flac")).unwrap(),
        Some("do a".to_string())
    );
    assert_eq!(lib.process_file(&file("t", "text/plain")).unwrap(), None);
}

#[test]
fn test_run_command_renders_both_variables() {
    let cfg = lib_config("mv {{ file_path }} /x # {{ mime_type }}", &["d"], None);
    let dry = false;
    let lib = Library::new(&cfg, &dry);
    let line = lib
        .run_command(&"a b".to_string(), &"text/plain".to_string())
        .unwrap();
    assert_eq!(line, "mv a b /x # text/plain");
}

#[test]
fn test_path_within_respects_boundaries() {
    assert!(path_within("/lib/books", "/lib/books/sub/file.pdf"));
    assert!(path_within("/lib/books", "/lib/books/file.pdf"));
    assert!(path_within("/lib/books", "/lib/books"));
    assert!(!path_within("/lib/books", "/lib/book2/file.pdf"));
    assert!(!path_within("/lib/books", "/lib/books2/file.pdf"));
    assert!(!path_within("/lib/books", "/lib"));
    assert!(!path_within("/lib/books", ""));
    assert!(!path_within("/lib/books", "/elsewhere/lib/books/file.pdf"));
}

#[test]
fn test_contains_path() {
    let cfg = lib_config("echo {{ file_path }}", &["/data/audio", "/missing"], Some(&["^audio/"]));
    let dry = false;
    let lib = Library::new(&cfg, &dry);
    let canonical_dirs = vec![Some("/data/audio".to_string()), None];
    assert!(lib.contains_path(&canonical_dirs, "/data/audio/flac"));
    assert!(!lib.contains_path(&canonical_dirs, "/data/audio2/flac"));
    assert!(!lib.contains_path(&canonical_dirs, "/missing/file"));
}
