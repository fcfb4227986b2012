use ftx::connection::{CancelCheck, ConnectionTrait, FileEntry, ProgressCallback};
use ftx::walk::{remote_child_path, DownloadWalk, LocalEntry, UploadWalk};

fn local(name: &str, path: &str, is_dir: bool, size: u64) -> LocalEntry {
    LocalEntry { name: name.into(), path: path.into(), is_dir, size }
}

#[test]
fn remote_child_trims_trailing_slashes() {
    assert_eq!(remote_child_path("/remote/dir/", "f.txt"), "/remote/dir/f.txt");
    assert_eq!(remote_child_path("/remote/dir", "f.txt"), "/remote/dir/f.txt");
    assert_eq!(remote_child_path("/", "f"), "/f");
}

#[test]
fn upload_walk_flat() {
    let mut w = UploadWalk::new("/l".into(), "/remote/testdir".into());
    let (l, r) = w.next_dir().unwrap();
    assert_eq!((l.as_str(), r.as_str()), ("/l", "/remote/testdir"));
    w.add_entries(&r, vec![local("a.txt", "/l/a.txt", false, 5), local("b.txt", "/l/b.txt", false, 5)]);
    assert!(w.next_dir().is_none());
    let res = w.finish();
    assert_eq!(res.dirs, vec!["/remote/testdir".to_string()]);
    assert_eq!(res.files.len(), 2);
    assert_eq!(res.files[0].2, "a.txt");
    assert_eq!(res.files[1].1, "/remote/testdir/b.txt");
}

#[test]
fn upload_walk_nested() {
    let mut w = UploadWalk::new("/l".into(), "/remote/nested".into());
    let mut rounds = 0;
    while let Some((l, r)) = w.next_dir() {
        rounds += 1;
        let entries = match l.as_str() {
            "/l" => vec![local("root.txt", "/l/root.txt", false, 4), local("sub1", "/l/sub1", true, 0)],
            "/l/sub1" => vec![local("mid.txt", "/l/sub1/mid.txt", false, 3), local("sub2", "/l/sub1/sub2", true, 0)],
            _ => vec![local("deep.txt", "/l/sub1/sub2/deep.txt", false, 4)],
        };
        w.add_entries(&r, entries);
    }
    assert_eq!(rounds, 3);
    let res = w.finish();
    assert_eq!(
        res.dirs,
        vec![
            "/remote/nested".to_string(),
            "/remote/nested/sub1".to_string(),
            "/remote/nested/sub1/sub2".to_string()
        ]
    );
    let names: Vec<&str> = res.files.iter().map(|f| f.2.as_str()).collect();
    assert_eq!(names, vec!["root.txt", "mid.txt", "deep.txt"]);
    assert_eq!(res.files[2].1, "/remote/nested/sub1/sub2/deep.txt");
    assert_eq!(res.files[2].3, 4);
}

#[test]
fn upload_walk_trailing_slash_and_empty() {
    let mut w = UploadWalk::new("/l".into(), "/remote/dir/".into());
    let (_, r) = w.next_dir().unwrap();
    w.add_entries(&r, vec![local("f.txt", "/l/f.txt", false, 4)]);
    let res = w.finish();
    assert_eq!(res.files[0].1, "/remote/dir/f.txt");

    let mut e = UploadWalk::new("/l".into(), "/remote/empty".into());
    let (_, r) = e.next_dir().unwrap();
    e.add_entries(&r, vec![]);
    let res = e.finish();
    assert_eq!(res.dirs, vec!["/remote/empty".to_string()]);
    assert!(res.files.is_empty());
}

struct TreeClient;

fn entry(name: &str, path: &str, is_dir: bool, size: u64) -> FileEntry {
    FileEntry { name: name.into(), path: path.into(), is_dir, size, modified: None }
}

impl ConnectionTrait for TreeClient {
    fn connect(&mut self) -> Result<(), String> {
        Ok(())
    }
    fn disconnect(&mut self) -> Result<(), String> {
        Ok(())
    }
    fn is_connected(&self) -> bool {
        true
    }
    fn list_dir(&mut self, path: &str) -> Result<Vec<FileEntry>, String> {
        match path {
            "/srv" => Ok(vec![
                entry(".", "/srv/.", true, 0),
                entry("a.txt", "/srv/a.txt", false, 10),
                entry("docs", "/srv/docs", true, 0),
            ]),
            "/srv/docs" => Ok(vec![entry("b.md", "/srv/docs/b.md", false, 20)]),
            "/bad" => Ok(vec![entry("ok.txt", "/bad/ok.txt", false, 1), entry("x\\y", "/bad/x", false, 1)]),
            _ => Err(format!("no such dir {}", path)),
        }
    }
    fn file_size(&mut self, _path: &str) -> Result<u64, String> {
        Ok(0)
    }
    fn file_exists(&mut self, _path: &str) -> Result<bool, String> {
        Ok(false)
    }
    fn upload(
        &mut self,
        _l: &str,
        _r: &str,
        _o: u64,
        _p: Option<&dyn ProgressCallback>,
        _c: Option<&dyn CancelCheck>,
    ) -> Result<u64, String> {
        Ok(0)
    }
    fn download(
        &mut self,
        _r: &str,
        _l: &str,
        _o: u64,
        _p: Option<&dyn ProgressCallback>,
        _c: Option<&dyn CancelCheck>,
    ) -> Result<u64, String> {
        Ok(0)
    }
    fn mkdir(&mut self, _path: &str) -> Result<(), String> {
        Ok(())
    }
    fn remove_file(&mut self, _path: &str) -> Result<(), String> {
        Ok(())
    }
    fn remove_dir(&mut self, _path: &str) -> Result<(), String> {
        Ok(())
    }
    fn rename(&mut self, _from: &str, _to: &str) -> Result<(), String> {
        Ok(())
    }
}

#[test]
fn download_walk_lists_tree() {
    let mut conn = TreeClient;
    let mut w = DownloadWalk::new("/srv".into(), "/home/me/dl".into());
    while w.step(&mut conn).unwrap() {}
    let res = w.finish();
    assert_eq!(res.dirs, vec!["/home/me/dl".to_string(), "/home/me/dl/docs".to_string()]);
    assert_eq!(res.files.len(), 2);
    assert_eq!(res.files[0], ("/srv/a.txt".to_string(), "/home/me/dl/a.txt".to_string(), "a.txt".to_string(), 10));
    assert_eq!(res.files[1].0, "/srv/docs/b.md");
    assert_eq!(res.files[1].1, "/home/me/dl/docs/b.md");
    for f in &res.files {
        assert!(f.1.starts_with("/home/me/dl"));
    }
}

#[test]
fn download_walk_refuses_unsafe_names() {
    let mut conn = TreeClient;
    let mut w = DownloadWalk::new("/bad".into(), "/dl".into());
    assert_eq!(w.step(&mut conn).unwrap_err(), "非法文件名: x\\y");
    let res = w.finish();
    assert!(res.files.is_empty());
    assert_eq!(res.dirs, vec!["/dl".to_string()]);
}

#[test]
fn download_walk_passes_listing_errors() {
    let mut conn = TreeClient;
    let mut w = DownloadWalk::new("/missing".into(), "/dl".into());
    assert_eq!(w.step(&mut conn).unwrap_err(), "no such dir /missing");
}

#[test]
fn download_walk_add_listing_directly() {
    let mut w = DownloadWalk::new("/r".into(), "/d".into());
    let r = w.add_listing("/r/", "/d", vec![entry("..", "/", true, 0), entry("s", "/r/s", true, 0)]);
    assert!(r.is_ok());
    let mut conn = TreeClient;
    // The queued "/r/s" directory is listed first and fails in this mock.
    assert_eq!(w.step(&mut conn).unwrap_err(), "no such dir /r/s");
}

#[test]
fn download_walk_next_dir_takes_the_latest() {
    let mut w = DownloadWalk::new("/r".into(), "/d".into());
    assert_eq!(w.next_dir(), Some(("/r".to_string(), "/d".to_string())));
    assert_eq!(w.next_dir(), None);
    let mut w = DownloadWalk::new("/r".into(), "/d".into());
    let _ = w.next_dir();
    w.add_listing("/r", "/d", vec![entry("a", "/r/a", true, 0), entry("b", "/r/b", true, 0)]).unwrap();
    assert_eq!(w.next_dir(), Some(("/r/b".to_string(), "/d/b".to_string())));
    assert_eq!(w.next_dir(), Some(("/r/a".to_string(), "/d/a".to_string())));
    assert_eq!(w.next_dir(), None);
}
