//! Process instances, files, paths and text.

use microsandbox::host_paths::{
    move_path, read_components, same_path, windows_file_name, windows_join, windows_parent_path,
};
use microsandbox::identity::{
    clock_unix_micros, linux_start, macos_start, process_lookup_error, signal_result,
    windows_start, words_of, DatabaseIdentity, FileId, HandleOpen, HandlePoll, IdentityError,
    ProcessIdentity, ProcessStart, SignalRoute,
};
use microsandbox::namemap::NameMap;
use microsandbox::paths::{
    path_components, path_file_name, path_join, path_parent_name,
};
use microsandbox::text::{
    decimal_text, hex_text, is_before, join_text, parse_i32, parse_u64, signed_text, trim_text,
};

/// A status line of Linux with the given state and start time.
fn stat(state: &str, ticks: u64) -> String {
    format!(
        "4321 (msb ) control) {state} 1 4321 4321 0 -1 4194560 100 0 0 0 1 2 0 0 20 0 1 0 {ticks} 1000 10 18446744073709551615"
    )
}

#[test]
fn linux_process_identity_handles_parentheses_and_detects_exit() {
    // Linux comm is parenthesized but may itself contain ')' and spaces.
    let start = linux_start(&stat("S", 8_675_309));
    assert_eq!(start, Ok(ProcessStart(8_675_309, 0)));
    let identity =
        ProcessIdentity::capture(4321, start, HandleOpen::Opened, HandlePoll::Quiet, start)
            .unwrap();
    assert!(identity.pinned);
    assert_eq!(identity.verify_peer(4321, HandlePoll::Quiet, start), Ok(()));
    assert_eq!(
        identity.verify_peer(4322, HandlePoll::Quiet, start),
        Err(IdentityError::RuntimeChanged)
    );
    assert!(identity.verify(HandlePoll::Ready, start).is_err());
    assert_eq!(identity.has_exited(HandlePoll::Ready, start), Ok(true));
    assert_eq!(identity.has_exited(HandlePoll::Quiet, start), Ok(false));
}

#[test]
fn linux_zombie_is_not_a_reusable_runtime_identity() {
    let start = linux_start(&stat("R", 7));
    let identity =
        ProcessIdentity::capture(4321, start, HandleOpen::Opened, HandlePoll::Quiet, start)
            .unwrap();
    // The PID and its record still exist; the runtime does not.
    for state in ["Z", "X", "x"] {
        let zombie = linux_start(&stat(state, 7));
        assert_eq!(zombie, Err(IdentityError::RuntimeChanged));
        assert_eq!(
            identity.verify(HandlePoll::Quiet, zombie),
            Err(IdentityError::RuntimeChanged)
        );
        assert_eq!(
            ProcessIdentity::capture(4321, zombie, HandleOpen::Opened, HandlePoll::Quiet, zombie),
            Err(IdentityError::RuntimeChanged)
        );
    }
}

#[test]
fn recycled_pids_are_not_confirmed() {
    let start = Ok(ProcessStart(7, 0));
    let other = Ok(ProcessStart(8, 0));
    let identity =
        ProcessIdentity::capture(1, start, HandleOpen::Failed(38), HandlePoll::Quiet, start)
            .unwrap();
    assert!(!identity.pinned);
    assert_eq!(identity.verify(HandlePoll::Quiet, other), Err(IdentityError::RuntimeChanged));
    assert_eq!(identity.has_exited(HandlePoll::Quiet, other), Ok(true));
    assert_eq!(identity.signal(Ok(())), Ok(SignalRoute::Pid(1)));
    assert_eq!(
        identity.signal(Err(IdentityError::RuntimeChanged)),
        Ok(SignalRoute::Nothing)
    );
    let failed = Err(IdentityError::Transport(5));
    assert_eq!(identity.signal(failed), Err(IdentityError::Transport(5)));
    assert_eq!(identity.has_exited(HandlePoll::Quiet, Err(IdentityError::Transport(5))),
        Err(IdentityError::Transport(5)));
}

#[test]
fn captures_fail_with_their_reason() {
    let start = Ok(ProcessStart(7, 0));
    let capture = |pid, open, poll| ProcessIdentity::capture(pid, start, open, poll, start);
    let quiet = HandlePoll::Quiet;
    assert_eq!(capture(0, HandleOpen::Opened, quiet), Err(IdentityError::RuntimeChanged));
    assert_eq!(capture(1, HandleOpen::Failed(3), quiet), Err(IdentityError::RuntimeChanged));
    assert_eq!(capture(1, HandleOpen::Failed(1), quiet), Err(IdentityError::Transport(1)));
    assert_eq!(
        capture(1, HandleOpen::Opened, HandlePoll::Failed(9)),
        Err(IdentityError::Transport(9))
    );
    assert_eq!(linux_start("no parenthesis"), Err(IdentityError::InvalidData));
    assert_eq!(linux_start("1 (x) S 1"), Err(IdentityError::InvalidData));
    assert_eq!(process_lookup_error(2), IdentityError::RuntimeChanged);
    assert_eq!(process_lookup_error(13), IdentityError::Transport(13));
    assert_eq!(signal_result(true, 0), Ok(()));
    assert_eq!(signal_result(false, 3), Ok(()));
    assert_eq!(signal_result(false, 1), Err(1));
}

#[test]
fn other_platforms_have_birth_tokens_too() {
    assert_eq!(macos_start(5, 5, false, 10, 20), Ok(ProcessStart(10, 20)));
    assert_eq!(macos_start(5, 6, false, 10, 20), Err(IdentityError::RuntimeChanged));
    assert_eq!(macos_start(5, 5, true, 10, 20), Err(IdentityError::RuntimeChanged));
    assert_eq!(windows_start(true, 1, 2), Ok(ProcessStart(0x1_0000_0002, 0)));
    assert_eq!(windows_start(false, 1, 2), Err(IdentityError::RuntimeChanged));
}

#[test]
fn birth_tokens_become_times() {
    let identity = ProcessIdentity { pid: 1, start: ProcessStart(250, 0), pinned: false };
    assert_eq!(identity.created_unix_micros(100, 1_000_000_000, 900_000_000), Some(102_500_000));
    assert_eq!(identity.created_unix_micros(0, 1, 1), None);
    let absolute = ProcessIdentity { pid: 1, start: ProcessStart(3, 7), pinned: false };
    assert_eq!(absolute.created_unix_micros_absolute(), 3_000_007);
    assert_eq!(clock_unix_micros(2, 1_999), 2_000_001);
    assert_eq!(clock_unix_micros(0, -1_999), -1);
}

#[test]
fn databases_are_known_by_their_file() {
    let database = DatabaseIdentity::capture("/db", Ok(FileId(1, 2, 3))).ok().unwrap();
    assert_eq!(database.path, "/db");
    assert_eq!(database.verify(Some(Ok(FileId(1, 2, 3)))), Ok(()));
    assert_eq!(
        database.verify(Some(Ok(FileId(1, 2, 4)))),
        Err(IdentityError::RuntimeChanged)
    );
    assert_eq!(database.verify(None), Err(IdentityError::RuntimeChanged));
    assert_eq!(database.verify(Some(Err(5))), Err(IdentityError::Transport(5)));
    assert!(matches!(
        DatabaseIdentity::capture("/db", Err(2)),
        Err(IdentityError::Transport(2))
    ));
}

#[test]
fn paths_have_components() {
    assert_eq!(path_components("/a//b/./c/"), vec!["/", "a", "b", "c"]);
    assert_eq!(path_components("./a"), vec![".", "a"]);
    assert_eq!(path_file_name("/a/b/").as_deref(), Some("b"));
    assert_eq!(path_file_name("/a/..").as_deref(), None);
    assert_eq!(path_file_name("/").as_deref(), None);
    assert_eq!(path_parent_name("/a/b").as_deref(), Some("a"));
    assert_eq!(path_join("/a", "b"), "/a/b");
    assert_eq!(path_join("/a", "/b"), "/b");
    assert_eq!(move_path("/a/b/c", "/a/b", "/x", false), "/x/c");
    assert_eq!(move_path("/a/./b//c//d/", "/a//b/", "/x", false), "/x/c//d");
    assert_eq!(move_path("/a/b", "/a/b", "/x", false), "/x/");
    assert_eq!(move_path("./a/b", ".", "/x", false), "/x/a/b");
    assert_eq!(move_path("/a/bb", "/a/b", "/x", false), "/a/bb");
    assert_eq!(move_path("/a\\b", "/a", "/x", false), "/a\\b");
    assert!(same_path("/a//b", "/a/./b/", false));
    assert!(!same_path("/a/b", "a/b", false));
}

#[test]
fn windows_paths_are_taken_apart() {
    let name = |path: &str| windows_file_name(path);
    assert_eq!(name("C:\\data\\a.txt").as_deref(), Some("a.txt"));
    assert_eq!(name("C:\\data\\a.txt\\").as_deref(), Some("a.txt"));
    assert_eq!(name("C:/data/./").as_deref(), Some("data"));
    assert_eq!(name("C:a.txt").as_deref(), Some("a.txt"));
    assert_eq!(name("..\\x").as_deref(), Some("x"));
    assert_eq!(name("x\\..").as_deref(), None);
    assert_eq!(name("C:").as_deref(), None);
    assert_eq!(name("C:\\").as_deref(), None);
    assert_eq!(name("").as_deref(), None);
    assert_eq!(name(".").as_deref(), None);
    assert_eq!(name("\\\\server\\share").as_deref(), None);
    assert_eq!(name("\\\\server\\share\\a").as_deref(), Some("a"));
    assert_eq!(name("\\\\.\\COM1").as_deref(), None);
    assert_eq!(name("\\\\?\\C:\\a\\b/c").as_deref(), Some("b/c"));
    assert_eq!(name("\\\\?\\C:\\a\\.").as_deref(), None);
    assert_eq!(name("\\\\?\\UNC\\server\\share\\a").as_deref(), Some("a"));
    assert_eq!(windows_parent_path("C:\\data\\a.txt"), "C:\\data");
    assert_eq!(windows_parent_path("C:\\a.txt"), "C:\\");
    assert_eq!(windows_parent_path("C:a.txt"), "C:");
    assert_eq!(windows_parent_path("a\\.\\b"), "a");
    assert_eq!(windows_parent_path("a"), "");
    assert_eq!(windows_join("C:\\data", "x"), "C:\\data\\x");
    assert_eq!(windows_join("C:\\", "x"), "C:\\x");
    assert_eq!(windows_join("C:", "x"), "C:x");
    assert_eq!(windows_join("C:\\data", "D:\\x"), "D:\\x");
    assert_eq!(windows_join("C:\\data", "\\x"), "C:\\x");
    assert_eq!(windows_join("", "x"), "x");
    assert_eq!(windows_join("\\\\?\\C:\\a", "..\\b/./c"), "\\\\?\\C:\\b\\c");
    assert_eq!(windows_join("\\\\?\\C:\\a", "/"), "\\\\?\\C:\\");
    let parts = |path: &str| read_components(path, true);
    assert_eq!(parts("c:/a/./b\\"), vec!["C:", "\\", "a", "b"]);
    assert_eq!(parts("//server/share/a"), vec!["\\\\server\\share", "\\", "a"]);
    assert_eq!(parts("\\\\?\\c:\\a/b\\."), vec!["\\\\?\\C:", "\\", "a/b", "."]);
    assert_eq!(parts(".\\a"), vec![".", "a"]);
    assert_eq!(parts("C:.\\a"), vec!["C:", "a"]);
    assert_eq!(move_path("c:\\s\\.x\\u//v\\", "C:/s/.x", "D:\\t", true), "D:\\t\\u//v");
    assert_eq!(move_path("C:\\s\\y\\u", "C:\\s\\x", "D:\\t", true), "C:\\s\\y\\u");
    assert_eq!(move_path("C:\\s", "C:", "D:\\t", true), "D:\\s");
    assert_eq!(
        move_path("\\\\?\\C:\\s\\a\\b", "\\\\?\\C:\\s", "\\\\?\\C:\\t", true),
        "\\\\?\\C:\\t\\a\\b"
    );
    assert!(same_path("c:\\a/b", "C:/a\\.\\b", true));
    assert!(!same_path("C:\\a", "C:a", true));
    assert!(!same_path("\\\\?\\C:\\a", "C:\\a", true));
}

#[test]
fn numbers_are_written_and_read() {
    assert_eq!(decimal_text(0), "0");
    assert_eq!(decimal_text(u64::MAX), u64::MAX.to_string());
    assert_eq!(signed_text(i64::MIN), i64::MIN.to_string());
    assert_eq!(parse_u64("18446744073709551615"), Some(u64::MAX));
    assert_eq!(parse_u64("18446744073709551616"), None);
    assert_eq!(parse_u64("+7"), Some(7));
    assert_eq!(parse_u64(""), None);
    assert_eq!(parse_i32("-2147483648"), Some(i32::MIN));
    assert_eq!(parse_i32("2147483648"), None);
    assert_eq!(parse_i32("1x"), None);
    assert_eq!(hex_text(&[0, 15, 255]), "000fff");
    assert_eq!(trim_text(" \tmsb\n"), "msb");
    assert_eq!(join_text(&vec!["a".to_string(), "b".to_string()], ";"), "a;b");
    assert!(is_before("a", "b"));
    assert!(is_before("a", "aa"));
    assert!(!is_before("b", "aa"));
    assert_eq!(words_of(" a  b\tc "), vec!["a", "b", "c"]);
}

#[test]
fn maps_hold_one_value_per_name() {
    let map = NameMap::new().with("a".to_string(), 1).with("b".to_string(), 2);
    let map = map.with("a".to_string(), 3);
    assert_eq!(map.get("a"), Some(&3));
    assert_eq!(map.get("b"), Some(&2));
    assert_eq!(map.get("c"), None);
    assert_eq!(map.entries().len(), 2);
}
