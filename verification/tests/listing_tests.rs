use ftx::listing::{
    effective_sftp_payload_max, fmt_mtime, ftp_list_entries, ftp_remote_parent_and_filename,
    listing_has_file, parse_ftp_list_entry, parse_long_ls_line, quote_sftp_token, sftp_endpoint,
    ssh_client_config, SFTP_ABS_PAYLOAD_MAX, SFTP_DEFAULT_PAYLOAD_MAX,
};

fn pair(a: &str, b: &str) -> (String, String) {
    (a.to_string(), b.to_string())
}

#[test]
fn test_ftp_remote_parent_and_filename() {
    assert_eq!(ftp_remote_parent_and_filename("/home/u/a.txt").unwrap(), pair("/home/u", "a.txt"));
    assert_eq!(ftp_remote_parent_and_filename("/a.txt").unwrap(), pair("/", "a.txt"));
    assert_eq!(ftp_remote_parent_and_filename("rel/x.bin").unwrap(), pair("rel", "x.bin"));
    assert_eq!(ftp_remote_parent_and_filename("/home/u/a.txt/").unwrap(), pair("/home/u", "a.txt"));
    assert!(ftp_remote_parent_and_filename("").is_err());
}

#[test]
fn ftp_remote_parent_and_filename_edge_cases() {
    assert_eq!(ftp_remote_parent_and_filename("plain").unwrap(), pair(".", "plain"));
    assert_eq!(ftp_remote_parent_and_filename("  /x/y  ").unwrap(), pair("/x", "y"));
    assert_eq!(ftp_remote_parent_and_filename("").unwrap_err(), "路径不能为空");
    assert_eq!(ftp_remote_parent_and_filename("///").unwrap_err(), "路径无效");
}

#[test]
fn test_parse_ftp_list_entry_file() {
    let line = "-rw-r--r--   1 user group   1024 Jan 01 12:00 test.txt";
    let entry = parse_ftp_list_entry(line, "/home").unwrap();
    assert_eq!(entry.name, "test.txt");
    assert_eq!(entry.path, "/home/test.txt");
    assert!(!entry.is_dir);
    assert_eq!(entry.size, 1024);
}

#[test]
fn parse_ftp_list_entry_modified_and_bad_size() {
    let line = "-rw-r--r--   1 user group   big Jan 01 12:00 t.txt";
    let entry = parse_ftp_list_entry(line, "/").unwrap();
    assert_eq!(entry.size, 0);
    assert_eq!(entry.modified, Some("Jan 01 12:00".to_string()));
    assert_eq!(entry.path, "/t.txt");
}

#[test]
fn test_parse_ftp_list_entry_dir() {
    let line = "drwxr-xr-x   2 user group   4096 Jan 01 12:00 subdir";
    let entry = parse_ftp_list_entry(line, "/home/").unwrap();
    assert_eq!(entry.name, "subdir");
    assert_eq!(entry.path, "/home/subdir");
    assert!(entry.is_dir);
}

#[test]
fn test_parse_ftp_list_entry_skips_dots() {
    let line = "drwxr-xr-x   2 user group   4096 Jan 01 12:00 .";
    assert!(parse_ftp_list_entry(line, "/").is_none());

    let line = "drwxr-xr-x   2 user group   4096 Jan 01 12:00 ..";
    assert!(parse_ftp_list_entry(line, "/").is_none());
}

#[test]
fn test_parse_ftp_list_entry_dir_full_path_name() {
    let line = "drwxr-xr-x   2 user group   4096 Jan 01 12:00 /home/user/mydir";
    let entry = parse_ftp_list_entry(line, "/home/user").unwrap();
    assert_eq!(entry.name, "mydir");
    assert_eq!(entry.path, "/home/user/mydir");
    assert!(entry.is_dir);
}

#[test]
fn test_parse_ftp_list_entry_invalid() {
    let line = "short line";
    assert!(parse_ftp_list_entry(line, "/").is_none());
}

#[test]
fn test_parse_ftp_list_entry_filename_with_spaces() {
    let line = "-rw-r--r--   1 user group   2048 Feb 15 09:30 my file name.txt";
    let entry = parse_ftp_list_entry(line, "/data").unwrap();
    assert_eq!(entry.name, "my file name.txt");
    assert_eq!(entry.path, "/data/my file name.txt");
    assert_eq!(entry.size, 2048);
}

#[test]
fn ftp_list_entries_keeps_order_and_skips() {
    let lines = vec![
        "drwxr-xr-x 2 u g 4096 Jan 01 12:00 .".to_string(),
        "-rw-r--r-- 1 u g 5 Jan 01 12:00 b.txt".to_string(),
        "total 8".to_string(),
        "drwxr-xr-x 2 u g 4096 Jan 01 12:00 sub".to_string(),
    ];
    let entries = ftp_list_entries(&lines, "/d");
    assert_eq!(entries.len(), 2);
    assert_eq!(entries[0].path, "/d/b.txt");
    assert_eq!(entries[1].name, "sub");
    assert!(entries[1].is_dir);
    assert!(listing_has_file(&entries, "b.txt"));
    assert!(!listing_has_file(&entries, "sub"));
    assert!(!listing_has_file(&entries, "c.txt"));
}

#[test]
fn test_parse_long_ls_file() {
    let line = "-rw-r--r--    1 user  staff   12345 Jan 15 10:30 foo.txt";
    let (name, is_dir, size, m) = parse_long_ls_line(line).unwrap();
    assert_eq!(name, "foo.txt");
    assert!(!is_dir);
    assert_eq!(size, 12345);
    assert!(m.is_some());
}

#[test]
fn test_parse_long_ls_dir() {
    let line = "drwxr-xr-x    4 user  staff   128 Jan  1  2020 mydir";
    let (name, is_dir, _, _) = parse_long_ls_line(line).unwrap();
    assert_eq!(name, "mydir");
    assert!(is_dir);
}

#[test]
fn test_parse_long_ls_name_with_spaces() {
    let line = "-rw-r--r--    1 user  staff   1 Jan  1 12:00 a b c.txt";
    let (name, _, size, _) = parse_long_ls_line(line).unwrap();
    assert_eq!(name, "a b c.txt");
    assert_eq!(size, 1);
}

#[test]
fn parse_long_ls_rejects_other_lines() {
    assert!(parse_long_ls_line("").is_none());
    assert!(parse_long_ls_line("sftp> ls -la /tmp").is_none());
    assert!(parse_long_ls_line("-rw-r--r-- 1 u g x Jan 1 12:00 f").is_none());
    assert!(parse_long_ls_line("drwxr-xr-x 2 u g 64 Jan 1 12:00 ..").is_none());
    let (_, _, _, m) = parse_long_ls_line("  lrwxr-xr-x 1 u g 7 Mar 3 2021 l -> t  ").unwrap();
    assert_eq!(m, Some("Mar 3 2021".to_string()));
}

#[test]
fn test_quote_sftp_token() {
    assert_eq!(quote_sftp_token("/tmp/a b"), "\"/tmp/a b\"");
}

#[test]
fn quote_sftp_token_escapes() {
    assert_eq!(quote_sftp_token("a\"b\\c"), "\"a\\\"b\\\\c\"");
}

#[test]
fn sftp_endpoint_brackets_ipv6() {
    assert_eq!(sftp_endpoint("u", "example.com"), "u@example.com");
    assert_eq!(sftp_endpoint("u", "::1"), "u@[::1]");
    assert_eq!(sftp_endpoint("u", "[::1]"), "u@[::1]");
}

#[test]
fn test_ssh_config_nodelay_and_window() {
    let c = ssh_client_config();
    assert!(c.nodelay);
    assert!(c.window_size >= 16 * 1024 * 1024);
    assert!(c.maximum_packet_size >= 256 * 1024);
    assert!(c.channel_buffer_size >= 256);
}

#[test]
fn test_effective_sftp_payload_max() {
    assert_eq!(effective_sftp_payload_max(None, None), SFTP_DEFAULT_PAYLOAD_MAX);
    assert_eq!(effective_sftp_payload_max(Some(0), Some(0)), SFTP_DEFAULT_PAYLOAD_MAX);
    assert_eq!(effective_sftp_payload_max(Some(16 * 1024), None), 16 * 1024);
    assert_eq!(effective_sftp_payload_max(Some(2 * 1024 * 1024), None), SFTP_ABS_PAYLOAD_MAX);
    assert_eq!(
        effective_sftp_payload_max(Some(2 * 1024 * 1024), Some(32 * 1024)),
        32 * 1024
    );
}

#[test]
fn effective_sftp_payload_max_floor() {
    assert_eq!(effective_sftp_payload_max(Some(100), None), 8192);
    assert_eq!(effective_sftp_payload_max(None, Some(50_000)), 50_000);
}

#[test]
fn effective_sftp_payload_max_reads_limits_as_32_bits() {
    assert_eq!(effective_sftp_payload_max(Some(1u64 << 32), None), 8192);
    assert_eq!(effective_sftp_payload_max(Some((1u64 << 32) + 16384), None), 16384);
    assert_eq!(effective_sftp_payload_max(Some(u64::MAX), None), SFTP_ABS_PAYLOAD_MAX);
    assert_eq!(effective_sftp_payload_max(Some((1u64 << 32) + 100), Some(40_000)), 8192);
}

#[test]
fn test_fmt_mtime_some() {
    let s = fmt_mtime(Some(0));
    assert!(s.is_some());
}

#[test]
fn fmt_mtime_exact_text() {
    assert_eq!(fmt_mtime(Some(0)).unwrap(), "1970-01-01 00:00:00 UTC");
    assert_eq!(fmt_mtime(Some(86_400 + 3_661)).unwrap(), "1970-01-02 01:01:01 UTC");
}

#[test]
fn test_fmt_mtime_none() {
    assert!(fmt_mtime(None).is_none());
}

#[test]
fn split_then_join_round_trip() {
    for path in ["/home/u/a.txt", "/a.txt", "rel/x.bin", " /srv/data/f/ "] {
        let (parent, name) = ftp_remote_parent_and_filename(path).unwrap();
        assert_eq!(
            ftx::path::join_remote_path(&parent, &name),
            path.trim().trim_end_matches('/')
        );
    }
}
