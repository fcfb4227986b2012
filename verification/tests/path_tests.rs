use std::path::Path;

use ftx::path::{
    expand_tilde_path, expand_tilde_with_home, join_path, join_remote_path,
    normalize_and_validate, normalize_path_for_create, rebase_path, resolve_for_create,
    remote_list_entry_display_name, safe_join, sanitize_filename,
};

#[test]
fn test_expand_tilde_path_home_prefix() {
    let home = dirs::home_dir().expect("home dir");
    assert_eq!(Path::new(&expand_tilde_path("~").unwrap()), home);
    assert_eq!(Path::new(&expand_tilde_path("~/").unwrap()), home);
    assert_eq!(Path::new(&expand_tilde_path("~/Documents").unwrap()), home.join("Documents"));
}

#[test]
fn test_expand_tilde_path_absolute_unchanged() {
    let p = "/absolute/id_rsa";
    assert_eq!(expand_tilde_path(p).unwrap(), p);
}

#[test]
fn test_expand_tilde_path_empty_err() {
    assert!(expand_tilde_path("").is_err());
    assert!(expand_tilde_path("   ").is_err());
}

#[test]
fn expand_tilde_with_given_home() {
    assert_eq!(
        expand_tilde_with_home("~/keys/id", Some("/home/ann".to_string())).unwrap(),
        "/home/ann/keys/id"
    );
    assert_eq!(expand_tilde_with_home("~", Some("/home/ann".to_string())).unwrap(), "/home/ann");
    assert_eq!(
        expand_tilde_with_home("  ~/x  ", Some("/home/ann/".to_string())).unwrap(),
        "/home/ann/x"
    );
    assert_eq!(expand_tilde_with_home("~ann/x", None).unwrap(), "~ann/x");
    assert_eq!(expand_tilde_with_home("~/x", None).unwrap_err(), "无法获取用户主目录");
    assert_eq!(expand_tilde_with_home(" ", None).unwrap_err(), "路径不能为空");
}

#[test]
fn test_normalize_and_validate_empty() {
    assert!(normalize_and_validate("").is_err());
    assert!(normalize_and_validate("   ").is_err());
}

#[test]
fn test_normalize_and_validate_nonexistent() {
    let result = normalize_and_validate("/nonexistent/path/xyz");
    assert!(result.is_err());
}

#[test]
fn normalize_and_validate_resolves_dots() {
    assert_eq!(normalize_and_validate("/").unwrap(), "/");
    assert_eq!(normalize_and_validate(" /. ").unwrap(), "/");
    assert!(normalize_and_validate("/no/such/ftx/path").unwrap_err().starts_with("路径无效: "));
}

#[test]
fn normalize_path_for_create_under_root() {
    let r = normalize_path_for_create("/ftx_no_such_dir_abc/sub/new").unwrap();
    assert_eq!(r, "/ftx_no_such_dir_abc/sub/new");
    assert!(normalize_path_for_create("").is_err());
}

#[test]
fn rebase_path_replaces_ancestor() {
    assert_eq!(rebase_path("/a/b/c", "/a", "/real/a").unwrap(), "/real/a/b/c");
    assert_eq!(rebase_path("/a", "/a", "/real/a").unwrap(), "/real/a/");
}

#[test]
fn rebase_path_refuses_to_climb_out() {
    assert_eq!(rebase_path("/a/b/../../etc", "/a", "/real/a").unwrap_err(), "路径无效");
    assert_eq!(rebase_path("/a/..", "/a", "/real/a").unwrap_err(), "路径无效");
    assert_eq!(rebase_path("/a/b..c", "/a", "/real/a").unwrap(), "/real/a/b..c");
    assert_eq!(rebase_path("/x/b", "/a", "/real/a").unwrap_err(), "路径无效");
}

#[test]
fn normalize_path_for_create_never_escapes_ancestor() {
    assert_eq!(
        normalize_path_for_create("/ftx_no_such_dir_abc/../etc/x").unwrap_err(),
        "路径无效"
    );
}

#[test]
fn test_sanitize_filename_ok() {
    assert_eq!(sanitize_filename("a.txt").unwrap(), "a.txt");
    assert_eq!(sanitize_filename("my file").unwrap(), "my file");
}

#[test]
fn test_sanitize_filename_rejects_traversal() {
    assert!(sanitize_filename("..").is_err());
    assert!(sanitize_filename("../etc").is_err());
    assert!(sanitize_filename("a/b").is_err());
    assert!(sanitize_filename("a\\b").is_err());
    assert!(sanitize_filename(".").is_err());
    assert!(sanitize_filename("").is_err());
}

#[test]
fn sanitize_filename_error_texts() {
    assert_eq!(sanitize_filename("").unwrap_err(), "文件名不能为空");
    assert_eq!(sanitize_filename("a/b").unwrap_err(), "非法文件名: a/b");
    assert_eq!(sanitize_filename("x..y").unwrap_err(), "非法文件名: x..y");
    assert_eq!(sanitize_filename(".hidden").unwrap(), ".hidden");
}

#[test]
fn test_safe_join() {
    let base = "/tmp/ftx_test";
    let result = safe_join(base, "file.txt").unwrap();
    assert_eq!(result, "/tmp/ftx_test/file.txt");

    assert!(safe_join(base, "../etc").is_err());
    assert!(safe_join(base, "..").is_err());
}

#[test]
fn safe_join_result_starts_with_base() {
    let r = safe_join("/srv/data/", "f.bin").unwrap();
    assert_eq!(r, "/srv/data/f.bin");
    assert!(r.starts_with("/srv/data/"));
}

#[test]
fn path_test_join_remote_path() {
    assert_eq!(join_remote_path("/home/u", "a.txt"), "/home/u/a.txt");
    assert_eq!(join_remote_path("/home/u/", "b"), "/home/u/b");
    assert_eq!(join_remote_path("/", "etc"), "/etc");
    assert_eq!(join_remote_path("//", "tmp"), "/tmp");
    assert_eq!(join_remote_path("", "x"), "/x");
}

#[test]
fn sftp_client_test_join_remote_path() {
    assert_eq!(join_remote_path("/home/u", "a.txt"), "/home/u/a.txt");
    assert_eq!(join_remote_path("/home/u/", "b"), "/home/u/b");
    assert_eq!(join_remote_path("/", "etc"), "/etc");
    assert_eq!(join_remote_path("//", "tmp"), "/tmp");
    assert_eq!(join_remote_path("", "x"), "/x");
}

#[test]
fn join_remote_path_drops_leading_slashes_of_name() {
    assert_eq!(join_remote_path("/data", "//f"), "/data/f");
}

#[test]
fn join_path_rules() {
    assert_eq!(join_path("/a", "b"), "/a/b");
    assert_eq!(join_path("/a/", "b"), "/a/b");
    assert_eq!(join_path("/a", "/b"), "/b");
    assert_eq!(join_path("", "b"), "b");
}

#[test]
fn test_remote_list_entry_display_name_plain() {
    assert_eq!(remote_list_entry_display_name("subdir"), "subdir");
    assert_eq!(remote_list_entry_display_name("my file.txt"), "my file.txt");
}

#[test]
fn test_remote_list_entry_display_name_absolute() {
    assert_eq!(remote_list_entry_display_name("/home/user/myproject"), "myproject");
}

#[test]
fn test_remote_list_entry_display_name_relative_segments() {
    assert_eq!(remote_list_entry_display_name("a/b"), "b");
}

#[test]
fn test_remote_list_entry_display_name_symlink_preserves_arrow() {
    assert_eq!(remote_list_entry_display_name("link -> /abs/target"), "link -> /abs/target");
}

#[test]
fn resolve_for_create_follows_the_answers() {
    let r = resolve_for_create("/a/b/c", &vec![false, false, true], Ok("/real".to_string()));
    assert_eq!(r.unwrap(), "/real/b/c");
    let r = resolve_for_create(" /x ", &vec![true], Ok("/canon/x".to_string()));
    assert_eq!(r.unwrap(), "/canon/x");
    let r = resolve_for_create("/a/b", &vec![false], Ok("/real".to_string()));
    assert_eq!(r.unwrap_err(), "无法解析路径");
    let r = resolve_for_create("x", &vec![false, false, false], Ok("/real".to_string()));
    assert_eq!(r.unwrap_err(), "无法解析路径");
    let r = resolve_for_create("/a/b", &vec![false, true], Err("boom".to_string()));
    assert_eq!(r.unwrap_err(), "路径无效: boom");
    let r = resolve_for_create("/a/../../b", &vec![false, false, false, true], Ok("/real".to_string()));
    assert_eq!(r.unwrap_err(), "路径无效");
    let r = resolve_for_create("  ", &vec![], Ok("/real".to_string()));
    assert_eq!(r.unwrap_err(), "路径不能为空");
}
