use centerpiece::index::{git_repository_paths, is_searched};
use centerpiece::lock::{lock_file_name, read_pid};

#[test]
fn lock_file_is_named_after_the_launcher() {
    assert_eq!(lock_file_name(), "centerpiece.lock");
}

#[test]
fn pid_is_read_from_the_lock_file() {
    assert_eq!(read_pid("4242\n"), Some(4242));
    assert_eq!(read_pid("  17  "), Some(17));
    assert_eq!(read_pid("+5"), Some(5));
    assert_eq!(read_pid(""), None);
    assert_eq!(read_pid("abc"), None);
    assert_eq!(read_pid("4294967295"), Some(u32::MAX));
    assert_eq!(read_pid("4294967296"), None);
}

#[test]
fn index_keeps_repositories_of_git_directories() {
    let dirs = vec![
        String::from("/home/u/code/app/.git"),
        String::from("/home/u/notes"),
        String::from("/home/u/code/lib/.git"),
    ];
    assert_eq!(git_repository_paths(&dirs), vec!["/home/u/code/app", "/home/u/code/lib"]);
}

#[test]
fn search_keeps_git_and_visible_directories() {
    assert!(is_searched(".git"));
    assert!(is_searched("code"));
    assert!(!is_searched(".cache"));
    assert!(is_searched(""));
}
