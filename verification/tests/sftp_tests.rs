use ftx::batch::{
    batch_args_with, batch_result, download_batch, download_end_position, download_moved,
    exists_from_run, list_dir_batch, mkdir_batch, parse_ls_output, remove_dir_batch,
    remove_file_batch, rename_batch, sftp_batch_args, size_from_stat_line, stat_batch, stat_line,
    upload_batch, upload_moved,
};
use ftx::sftp::{
    auth_method, check_auth, exists_from_stat, host_key_decision, limits_advertised,
    sftp_dir_entry, stat_size, AuthMethod, HostKeyDecision, KnownHostKey, StatFailure,
};
use ftx::text::{chars_of, split_lines};

fn s(v: &[&str]) -> Vec<String> {
    v.iter().map(|x| x.to_string()).collect()
}

#[test]
fn batch_commands() {
    assert_eq!(list_dir_batch("/tmp/a b"), "ls -la \"/tmp/a b\"\n");
    assert_eq!(stat_batch("/x"), "ls -ld \"/x\"\n");
    assert_eq!(upload_batch("/l/f", "/r/f", 0), "put -f \"/l/f\" \"/r/f\"\n");
    assert_eq!(upload_batch("/l/f", "/r/f", 9), "reput \"/l/f\" \"/r/f\"\n");
    assert_eq!(download_batch("/r/f", "/l/f", 0), "get -f \"/r/f\" \"/l/f\"\n");
    assert_eq!(download_batch("/r/f", "/l/f", 1), "reget \"/r/f\" \"/l/f\"\n");
    assert_eq!(mkdir_batch("/d"), "mkdir \"/d\"\n");
    assert_eq!(remove_file_batch("/f"), "rm \"/f\"\n");
    assert_eq!(remove_dir_batch("/d"), "rmdir \"/d\"\n");
    assert_eq!(rename_batch("/a", "/b"), "rename \"/a\" \"/b\"\n");
}

#[test]
fn batch_args_by_auth() {
    assert_eq!(
        batch_args_with(2222, "u", "h", true, None),
        s(&["-o", "StrictHostKeyChecking=accept-new", "-o", "ConnectTimeout=30", "-P", "2222", "u@h"])
    );
    assert_eq!(
        batch_args_with(22, "u", "::1", false, Some("/k/id".into())),
        s(&[
            "-o",
            "StrictHostKeyChecking=accept-new",
            "-o",
            "ConnectTimeout=30",
            "-P",
            "22",
            "-o",
            "BatchMode=yes",
            "-i",
            "/k/id",
            "u@[::1]"
        ])
    );
    assert_eq!(
        sftp_batch_args(22, "u", "h", &None, &None).unwrap_err(),
        "No authentication method provided"
    );
    let with_key = sftp_batch_args(22, "u", "h", &None, &Some("/abs/key".into())).unwrap();
    assert_eq!(with_key[8], "-i");
    assert_eq!(with_key[9], "/abs/key");
    assert!(sftp_batch_args(22, "u", "h", &None, &Some("  ".into())).is_err());
}

#[test]
fn batch_run_results() {
    assert_eq!(batch_result("out", "err", true, Some(0)).unwrap(), "errout");
    assert_eq!(batch_result(" x ", "", false, Some(1)).unwrap_err(), "x");
    assert_eq!(batch_result("", "  \n", false, Some(255)).unwrap_err(), "sftp 失败，退出码 Some(255)");
    assert_eq!(batch_result("", "", false, None).unwrap_err(), "sftp 失败，退出码 None");
    assert_eq!(batch_result("", "", false, Some(-1)).unwrap_err(), "sftp 失败，退出码 Some(-1)");
}

#[test]
fn lines_like_std() {
    for text in ["", "a", "a\n", "a\r\nb", "a\n\nb\n", "x\r", "\n", "a\r\r\n"] {
        let ours: Vec<String> =
            split_lines(&chars_of(text)).iter().map(|l| l.iter().collect()).collect();
        let std: Vec<String> = text.lines().map(|l| l.to_string()).collect();
        assert_eq!(ours, std, "for {:?}", text);
    }
}

#[test]
fn ls_output_entries() {
    let out = "sftp> ls -la /data\r\ndrwxr-xr-x 4 u g 128 Jan 1 2020 .\n-rw-r--r-- 1 u g 12 Jan 15 10:30 a b.txt\ndrwxr-xr-x 2 u g 64 Feb 2 09:00 sub\n";
    let entries = parse_ls_output(out, "/data");
    assert_eq!(entries.len(), 2);
    assert_eq!(entries[0].name, "a b.txt");
    assert_eq!(entries[0].path, "/data/a b.txt");
    assert_eq!(entries[0].size, 12);
    assert_eq!(entries[0].modified, Some("Jan 15 10:30".to_string()));
    assert!(entries[1].is_dir);
}

#[test]
fn stat_line_and_size() {
    let out = "sftp> ls -ld /f\n  -rw-r--r-- 1 u g 4096 Jan 1 12:00 /f  \n";
    let line = stat_line(out).unwrap();
    assert_eq!(line, "-rw-r--r-- 1 u g 4096 Jan 1 12:00 /f");
    assert_eq!(size_from_stat_line(&line).unwrap(), 4096);
    assert_eq!(stat_line("nothing here\n").unwrap_err(), "Unable to stat remote path");
    assert_eq!(size_from_stat_line("a b c").unwrap_err(), "Unable to determine file size");
    assert_eq!(
        size_from_stat_line("-rw 1 u g many Jan 1 12:00 f").unwrap_err(),
        "Unable to determine file size"
    );
}

#[test]
fn exists_from_batch_output() {
    assert_eq!(exists_from_run(Ok("-rw-r--r-- 1 u g 1 Jan 1 12:00 f".into())), Ok(true));
    assert_eq!(exists_from_run(Ok("Couldn't stat remote file".into())), Ok(false));
    assert_eq!(exists_from_run(Ok("x not found".into())), Ok(false));
    assert_eq!(exists_from_run(Err("NO SUCH FILE or directory".into())), Ok(false));
    assert_eq!(exists_from_run(Err("COULDN'T STAT".into())), Ok(false));
    assert_eq!(exists_from_run(Err("Permission denied".into())), Err("Permission denied".to_string()));
}

#[test]
fn batch_transfer_counts() {
    assert_eq!(upload_moved(0, 100), 100);
    assert_eq!(upload_moved(30, 100), 70);
    assert_eq!(upload_moved(300, 100), 0);
    assert_eq!(download_moved(100, 30), 70);
    assert_eq!(download_moved(10, 30), 0);
    assert_eq!(download_end_position(120, 100), 100);
    assert_eq!(download_end_position(80, 100), 80);
}

#[test]
fn auth_choice() {
    match auth_method(Some("pw".into()), Some("/k".into())).unwrap() {
        AuthMethod::PublicKey { key_path, passphrase } => {
            assert_eq!(key_path, "/k");
            assert_eq!(passphrase, Some("pw".to_string()));
        }
        other => panic!("unexpected {:?}", other),
    }
    match auth_method(Some("pw".into()), None).unwrap() {
        AuthMethod::Password { password } => assert_eq!(password, "pw"),
        other => panic!("unexpected {:?}", other),
    }
    assert_eq!(auth_method(None, None).unwrap_err(), "No authentication method provided");
    assert!(check_auth(true).is_ok());
    assert_eq!(check_auth(false).unwrap_err(), "Authentication failed");
    assert!(limits_advertised(Some("1")));
    assert!(!limits_advertised(Some("2")));
    assert!(!limits_advertised(None));
}

#[test]
fn sftp_entries_from_names() {
    assert!(sftp_dir_entry("/d", ".", true, None, None).is_none());
    let e = sftp_dir_entry("/d", "/abs/name.txt", false, Some(9), Some(0)).unwrap();
    assert_eq!(e.name, "name.txt");
    assert_eq!(e.path, "/d/name.txt");
    assert_eq!(e.size, 9);
    assert_eq!(e.modified, Some("1970-01-01 00:00:00 UTC".to_string()));
    let e = sftp_dir_entry("/", "f", false, None, None).unwrap();
    assert_eq!(e.size, 0);
    assert_eq!(e.modified, None);
    assert!(sftp_dir_entry("/d", "a/..", true, None, None).is_none());
}

#[test]
fn stat_based_answers() {
    assert_eq!(stat_size(Some(5)), Ok(5));
    assert_eq!(stat_size(None).unwrap_err(), "Unable to determine file size");
    assert_eq!(exists_from_stat(Ok(false)), Ok(true));
    assert_eq!(exists_from_stat(Ok(true)), Ok(false));
    assert_eq!(exists_from_stat(Err(StatFailure::NoSuchFile)), Ok(false));
    assert_eq!(exists_from_stat(Err(StatFailure::Other("x".into()))), Err("x".to_string()));
}

#[test]
fn host_key_rules() {
    assert!(matches!(host_key_decision(KnownHostKey::Matches), HostKeyDecision::Accept));
    assert!(matches!(host_key_decision(KnownHostKey::NotRecorded), HostKeyDecision::LearnThenAccept));
    match host_key_decision(KnownHostKey::Changed) {
        HostKeyDecision::Refuse(msg) => {
            assert_eq!(msg, "主机密钥不匹配，可能存在中间人攻击。请检查 ~/.ssh/known_hosts")
        }
        other => panic!("unexpected {:?}", other),
    }
}
