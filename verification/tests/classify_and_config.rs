use fs_librarian::config::{Config, Filter, FsWatch, Libraries};
use fs_librarian::library::Error as LibraryError;
use fs_librarian::mime_type::Error as MimeError;
use fs_librarian::{any_failed, library, mime_type, Test, TestCommands};

/// The leading bytes of a FLAC stream: the `fLaC` marker.
fn flac_prefix() -> Vec<u8> {
    let mut bytes = vec![0x66, 0x4c, 0x61, 0x43];
    bytes.extend_from_slice(&[0u8; 64]);
    bytes
}

#[test]
fn test_classifier_yields_a_mime_type() {
    // The classifier's exact answer depends on the machine's shared-MIME
    // database, so only the shape of the answer is checked here.
    let path = "tests/files/audio/flac".to_string();
    let lib_file = library::mime_type::File::new(path);
    let mime = lib_file.get_mime_type(&flac_prefix());
    assert!(mime.contains('/'));

    let file = mime_type::File::new("tests/files/text/plain");
    let mime = file.get_mime_type("plain text, nothing else\n".as_bytes());
    assert!(mime.contains('/'));
}

#[test]
fn test_file_wrappers_keep_their_paths() {
    let lib_file = library::mime_type::File::new("a/b".to_string());
    assert_eq!(lib_file.path(), "a/b");

    let file = mime_type::File::new("c/d");
    assert_eq!(file.path(), "c/d");

    assert!(MimeError::Io
        .to_message()
        .contains("An IO error was thrown while trying to determine the MIME type of a file"));
}

#[test]
fn test_config_shapes() {
    let config = Config {
        libraries: vec![(
            "audio".to_string(),
            Libraries {
                command: "echo {{ file_path }}".to_string(),
                filter: Filter {
                    directories: vec!["tests/files/audio".to_string()],
                    mime_type_regexes: Some(vec!["^audio/".to_string()]),
                },
            },
        )],
        fs_watch: Some(FsWatch {
            min_command_exec_freq: Some(60),
        }),
    };
    assert_eq!(config.libraries.len(), 1);
    assert_eq!(config.libraries[0].0, "audio");
    assert_eq!(
        config.fs_watch.as_ref().unwrap().min_command_exec_freq,
        Some(60)
    );
}

#[test]
fn test_diagnostic_dispatch() {
    let request = Test {
        command: TestCommands::Mime {
            file_path: "/tmp/x".to_string(),
        },
    };
    assert_eq!(fs_librarian::test(&request), "/tmp/x");
}

#[test]
fn test_any_failed() {
    let all_ok: Vec<Result<u64, LibraryError>> = vec![Ok(1), Ok(0)];
    assert!(!any_failed(&all_ok));

    let one_err: Vec<Result<u64, LibraryError>> = vec![Ok(1), Err(LibraryError::Regex)];
    assert!(any_failed(&one_err));

    let none: Vec<Result<u64, LibraryError>> = vec![];
    assert!(!any_failed(&none));
}
