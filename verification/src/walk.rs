//! Walks of a directory tree for a directory transfer. Each walk keeps a
//! stack of directories still to visit, the directories to create on the
//! other side, and the files to transfer, each as (source path, target
//! path, name, size). An upload walk is fed the entries of each local
//! directory; a download walk lists each remote directory itself.

use vstd::prelude::*;
use vstd::string::*;
use crate::connection::{entries_view, ClientCall, ConnectionTrait, FileEntry, FileEntryView};
use crate::listing::is_dot_name;
use crate::path::{is_safe_filename, join_path, path_join, sanitize_filename, sanitize_spec};
use crate::text::{chars_of, concat_chars, string_of, trim_end_char, trim_end_char_chars};

verus! {

/// A remote directory's child: the directory without trailing `/`, then
/// `/` and the name.
pub open spec fn remote_child(remote: Seq<char>, name: Seq<char>) -> Seq<char> {
    trim_end_char(remote, '/') + seq!['/'] + name
}

/// Builds `remote_child(remote, name)`.
pub fn remote_child_path(remote: &str, name: &str) -> (r: String)
    ensures
        r@ == remote_child(remote@, name@),
{
    let base = trim_end_char_chars(&chars_of(remote), '/');
    let sep: [char; 1] = ['/'];
    assert(sep@ =~= seq!['/']);
    let with_sep = concat_chars(&base, &sep);
    string_of(&concat_chars(&with_sep, &chars_of(name)))
}

/// A directory pending a visit: (where it is read, where it goes).
pub type PendingDir = (String, String);

/// A file to transfer: (source path, target path, name, size).
pub type PlannedFile = (String, String, String, u64);

pub open spec fn pending_view(p: PendingDir) -> (Seq<char>, Seq<char>) {
    (p.0@, p.1@)
}

pub open spec fn planned_view(f: PlannedFile) -> (Seq<char>, Seq<char>, Seq<char>, u64) {
    (f.0@, f.1@, f.2@, f.3)
}

pub open spec fn pendings_view(s: Seq<PendingDir>) -> Seq<(Seq<char>, Seq<char>)> {
    s.map_values(|p: PendingDir| pending_view(p))
}

pub open spec fn planned_files_view(s: Seq<PlannedFile>) -> Seq<(Seq<char>, Seq<char>, Seq<char>, u64)> {
    s.map_values(|f: PlannedFile| planned_view(f))
}

pub open spec fn strings_view(s: Seq<String>) -> Seq<Seq<char>> {
    s.map_values(|x: String| x@)
}

/// What a finished walk found.
pub struct DirWalkResult {
    pub files: Vec<PlannedFile>,
    pub dirs: Vec<String>,
}

/// One entry of a local directory.
pub struct LocalEntry {
    pub name: String,
    pub path: String,
    pub is_dir: bool,
    pub size: u64,
}

/// Every file of a local directory is planned for upload, whatever its
/// size: the plan holds one file for each entry that is not a directory,
/// and each such entry is planned to its place under `remote`, with its
/// size.
pub proof fn upload_plans_every_file(remote: Seq<char>, entries: Seq<LocalEntry>)
    ensures
        upload_files(remote, entries).len() == entries.filter(|e: LocalEntry| !e.is_dir).len(),
        forall|i: int|
            0 <= i < entries.len() && !(#[trigger] entries[i]).is_dir ==> upload_files(remote, entries).contains(
                (entries[i].path@, remote_child(remote, entries[i].name@), entries[i].name@, entries[i].size),
            ),
    decreases entries.len(),
{
    reveal(Seq::filter);
    if entries.len() > 0 {
        let init = entries.drop_last();
        upload_plans_every_file(remote, init);
        let prev = upload_files(remote, init);
        let cur = upload_files(remote, entries);
        assert forall|i: int|
            0 <= i < entries.len() && !(#[trigger] entries[i]).is_dir implies cur.contains(
                (entries[i].path@, remote_child(remote, entries[i].name@), entries[i].name@, entries[i].size),
            ) by {
            let t = (entries[i].path@, remote_child(remote, entries[i].name@), entries[i].name@, entries[i].size);
            if i < entries.len() - 1 {
                assert(init[i] == entries[i]);
                assert(prev.contains(t));
                let k = choose|k: int| 0 <= k < prev.len() && prev[k] == t;
                if !entries.last().is_dir {
                    assert(cur[k] == t);
                }
            } else {
                assert(cur[cur.len() - 1] == t);
            }
        }
    }
}

/// The subdirectories among `entries` of the local directory whose remote
/// counterpart is `remote`, in order: (local path, remote path).
pub open spec fn upload_subdirs(remote: Seq<char>, entries: Seq<LocalEntry>) -> Seq<
    (Seq<char>, Seq<char>),
>
    decreases entries.len(),
{
    if entries.len() == 0 {
        Seq::empty()
    } else {
        let prev = upload_subdirs(remote, entries.drop_last());
        let e = entries.last();
        if e.is_dir {
            prev.push((e.path@, remote_child(remote, e.name@)))
        } else {
            prev
        }
    }
}

/// The files among `entries`, in order: (local path, remote path, name,
/// size).
pub open spec fn upload_files(remote: Seq<char>, entries: Seq<LocalEntry>) -> Seq<
    (Seq<char>, Seq<char>, Seq<char>, u64),
>
    decreases entries.len(),
{
    if entries.len() == 0 {
        Seq::empty()
    } else {
        let prev = upload_files(remote, entries.drop_last());
        let e = entries.last();
        if e.is_dir {
            prev
        } else {
            prev.push((e.path@, remote_child(remote, e.name@), e.name@, e.size))
        }
    }
}

/// The walk of a local tree to upload.
pub struct UploadWalk {
    queue: Vec<PendingDir>,
    files: Vec<PlannedFile>,
    dirs: Vec<String>,
}

impl UploadWalk {
    /// Directories still to read: (local path, remote path); the last is
    /// read next.
    pub closed spec fn queue(&self) -> Seq<(Seq<char>, Seq<char>)> {
        pendings_view(self.queue@)
    }

    pub closed spec fn files(&self) -> Seq<(Seq<char>, Seq<char>, Seq<char>, u64)> {
        planned_files_view(self.files@)
    }

    /// Remote directories to create, parents first.
    pub closed spec fn dirs(&self) -> Seq<Seq<char>> {
        strings_view(self.dirs@)
    }

    /// A walk that starts at `local_root`, uploaded to `remote_dir`.
    pub fn new(local_root: String, remote_dir: String) -> (w: Self)
        ensures
            w.queue() == seq![(local_root@, remote_dir@)],
            w.files() == Seq::<(Seq<char>, Seq<char>, Seq<char>, u64)>::empty(),
            w.dirs() == Seq::<Seq<char>>::empty(),
    {
        let mut queue: Vec<PendingDir> = Vec::new();
        queue.push((local_root, remote_dir));
        let w = UploadWalk { queue, files: Vec::new(), dirs: Vec::new() };
        assert(w.queue() =~= seq![(local_root@, remote_dir@)]);
        assert(w.files() =~= Seq::<(Seq<char>, Seq<char>, Seq<char>, u64)>::empty());
        assert(w.dirs() =~= Seq::<Seq<char>>::empty());
        w
    }

    /// Takes the next directory to read, most recently found first, and
    /// records its remote path as a directory to create.
    pub fn next_dir(&mut self) -> (r: Option<PendingDir>)
        ensures
            old(self).queue().len() == 0 ==> r is None && final(self).queue() == old(self).queue()
                && final(self).dirs() == old(self).dirs(),
            old(self).queue().len() > 0 ==> (r matches Some(p) && pending_view(p)
                == old(self).queue().last()),
            old(self).queue().len() > 0 ==> final(self).queue() == old(self).queue().drop_last(),
            old(self).queue().len() > 0 ==> final(self).dirs() == old(self).dirs().push(
                old(self).queue().last().1,
            ),
            final(self).files() == old(self).files(),
    {
        let ghost q0 = self.queue@;
        let ghost d0 = self.dirs@;
        match self.queue.pop() {
            None => None,
            Some(p) => {
                self.dirs.push(p.1.clone());
                proof {
                    assert(self.queue@ == q0.drop_last());
                    assert(pendings_view(q0.drop_last()) =~= pendings_view(q0).drop_last());
                    assert(strings_view(d0.push(p.1)) =~= strings_view(d0).push(p.1@));
                }
                Some(p)
            },
        }
    }

    /// Takes in the entries read from the local directory whose remote
    /// counterpart is `remote`: subdirectories are queued, files planned.
    pub fn add_entries(&mut self, remote: &str, entries: Vec<LocalEntry>)
        ensures
            final(self).queue() == old(self).queue() + upload_subdirs(remote@, entries@),
            final(self).files() == old(self).files() + upload_files(remote@, entries@),
            final(self).dirs() == old(self).dirs(),
    {
        let ghost q0 = self.queue();
        let ghost f0 = self.files();
        let ghost all = entries@;
        let mut i: usize = 0;
        assert(all.take(0) =~= Seq::<LocalEntry>::empty());
        assert(q0 + upload_subdirs(remote@, all.take(0)) =~= q0);
        assert(f0 + upload_files(remote@, all.take(0)) =~= f0);
        while i < entries.len()
            invariant
                i <= all.len(),
                all == entries@,
                self.queue() == q0 + upload_subdirs(remote@, all.take(i as int)),
                self.files() == f0 + upload_files(remote@, all.take(i as int)),
                self.dirs() == old(self).dirs(),
            decreases all.len() - i,
        {
            let e = &entries[i];
            proof {
                assert(all.take(i + 1).drop_last() =~= all.take(i as int));
                assert(all.take(i + 1).last() == *e);
            }
            let target = remote_child_path(remote, e.name.as_str());
            let ghost q1 = self.queue@;
            let ghost f1 = self.files@;
            if e.is_dir {
                self.queue.push((e.path.clone(), target));
                proof {
                    assert(pendings_view(self.queue@) =~= pendings_view(q1).push(
                        (e.path@, remote_child(remote@, e.name@)),
                    ));
                }
            } else {
                self.files.push((e.path.clone(), target, e.name.clone(), e.size));
                proof {
                    assert(planned_files_view(self.files@) =~= planned_files_view(f1).push(
                        (e.path@, remote_child(remote@, e.name@), e.name@, e.size),
                    ));
                }
            }
            i += 1;
        }
        assert(all.take(all.len() as int) =~= all);
    }

    /// The directories and files found.
    pub fn finish(self) -> (r: DirWalkResult)
        ensures
            strings_view(r.dirs@) == self.dirs(),
            planned_files_view(r.files@) == self.files(),
    {
        DirWalkResult { files: self.files, dirs: self.dirs }
    }
}

/// What the listing `entries` of remote directory `remote`, mirrored at
/// local directory `local`, adds to a download walk: subdirectories to
/// visit, (remote path, local path), and files to fetch, (remote path,
/// local path, name, size). `.` and `..` are skipped; every other name must
/// pass `sanitize_filename`, and the first that fails stops the walk with
/// its error.
pub open spec fn download_listing(remote: Seq<char>, local: Seq<char>, entries: Seq<FileEntryView>) -> Result<
    (Seq<(Seq<char>, Seq<char>)>, Seq<(Seq<char>, Seq<char>, Seq<char>, u64)>),
    Seq<char>,
>
    decreases entries.len(),
{
    if entries.len() == 0 {
        Ok((Seq::empty(), Seq::empty()))
    } else {
        match download_listing(remote, local, entries.drop_last()) {
            Err(e) => Err(e),
            Ok((dirs, files)) => {
                let e = entries.last();
                if is_dot_name(e.name) {
                    Ok((dirs, files))
                } else {
                    match sanitize_spec(e.name) {
                        Err(m) => Err(m),
                        Ok(safe) => {
                            let target = path_join(local, safe);
                            if e.is_dir {
                                Ok((dirs.push((remote_child(remote, e.name), target)), files))
                            } else {
                                Ok((dirs, files.push((e.path, target, e.name, e.size))))
                            }
                        },
                    }
                }
            },
        }
    }
}

/// A listing is taken in exactly when every name in it other than `.` and
/// `..` is a safe file name; then every file in it (whatever its size) is
/// planned for download and every directory queued, one each, and nothing
/// else.
pub proof fn download_plans_every_entry(remote: Seq<char>, local: Seq<char>, entries: Seq<FileEntryView>)
    ensures
        download_listing(remote, local, entries) is Ok <==> (forall|i: int|
            0 <= i < entries.len() && (#[trigger] entries[i]).name != seq!['.'] && entries[i].name
                != seq!['.', '.'] ==> is_safe_filename(entries[i].name)),
        download_listing(remote, local, entries) matches Ok((d, f)) ==> f.len() == entries.filter(
            |e: FileEntryView| !e.is_dir && e.name != seq!['.'] && e.name != seq!['.', '.'],
        ).len() && d.len() == entries.filter(
            |e: FileEntryView| e.is_dir && e.name != seq!['.'] && e.name != seq!['.', '.'],
        ).len(),
    decreases entries.len(),
{
    reveal(Seq::filter);
    if entries.len() > 0 {
        let init = entries.drop_last();
        download_plans_every_entry(remote, local, init);
        let last = entries.last();
        assert forall|i: int| 0 <= i < init.len() implies #[trigger] init[i] == entries[i] by {}
        if download_listing(remote, local, entries) is Ok {
            assert forall|i: int|
                0 <= i < entries.len() && (#[trigger] entries[i]).name != seq!['.'] && entries[i].name
                    != seq!['.', '.'] implies is_safe_filename(entries[i].name) by {
                if i < entries.len() - 1 {
                    assert(init[i] == entries[i]);
                }
            }
        } else {
            if download_listing(remote, local, init) is Ok {
                let i = entries.len() - 1;
                assert(entries[i] == last);
            } else {
                let i = choose|i: int|
                    0 <= i < init.len() && (#[trigger] init[i]).name != seq!['.'] && init[i].name
                        != seq!['.', '.'] && !is_safe_filename(init[i].name);
                assert(init[i] == entries[i]);
            }
        }
    }
}

/// The walk of a remote tree to download.
pub struct DownloadWalk {
    queue: Vec<PendingDir>,
    files: Vec<PlannedFile>,
    dirs: Vec<String>,
    root: Ghost<Seq<char>>,
}

/// `p` lies in the directory `root` or below it: `root` is a prefix of it.
pub open spec fn under(root: Seq<char>, p: Seq<char>) -> bool {
    p.len() >= root.len() && p.take(root.len() as int) == root
}

/// Joining a name that passes `sanitize_filename` under a directory inside
/// `root` stays inside `root`.
pub proof fn safe_name_stays_under(root: Seq<char>, dir: Seq<char>, name: Seq<char>)
    requires
        under(root, dir),
        sanitize_spec(name) is Ok,
    ensures
        under(root, path_join(dir, name)),
{
    let j = path_join(dir, name);
    assert(!name.contains('/'));
    if name.len() > 0 && name[0] == '/' {
        assert(name.contains('/'));
    }
    if dir.len() == 0 {
        assert(root.len() == 0);
        assert(j.take(0) =~= root);
    } else if dir.last() == '/' {
        assert(j.take(root.len() as int) =~= dir.take(root.len() as int));
    } else {
        assert(j.take(root.len() as int) =~= dir.take(root.len() as int));
    }
}

pub open spec fn locals_under(root: Seq<char>, q: Seq<(Seq<char>, Seq<char>)>) -> bool {
    forall|i: int| 0 <= i < q.len() ==> under(root, #[trigger] q[i].1)
}

pub open spec fn paths_under(root: Seq<char>, d: Seq<Seq<char>>) -> bool {
    forall|i: int| 0 <= i < d.len() ==> under(root, #[trigger] d[i])
}

pub open spec fn targets_under(root: Seq<char>, f: Seq<(Seq<char>, Seq<char>, Seq<char>, u64)>) -> bool {
    forall|i: int| 0 <= i < f.len() ==> under(root, #[trigger] f[i].1)
}

proof fn lemma_locals_concat(root: Seq<char>, a: Seq<(Seq<char>, Seq<char>)>, b: Seq<(Seq<char>, Seq<char>)>)
    requires
        locals_under(root, a),
        locals_under(root, b),
    ensures
        locals_under(root, a + b),
{
    assert forall|i: int| 0 <= i < (a + b).len() implies under(root, #[trigger] (a + b)[i].1) by {
        if i < a.len() {
            assert((a + b)[i] == a[i]);
        } else {
            assert((a + b)[i] == b[i - a.len()]);
        }
    }
}

proof fn lemma_targets_concat(
    root: Seq<char>,
    a: Seq<(Seq<char>, Seq<char>, Seq<char>, u64)>,
    b: Seq<(Seq<char>, Seq<char>, Seq<char>, u64)>,
)
    requires
        targets_under(root, a),
        targets_under(root, b),
    ensures
        targets_under(root, a + b),
{
    assert forall|i: int| 0 <= i < (a + b).len() implies under(root, #[trigger] (a + b)[i].1) by {
        if i < a.len() {
            assert((a + b)[i] == a[i]);
        } else {
            assert((a + b)[i] == b[i - a.len()]);
        }
    }
}

proof fn lemma_locals_drop_last(root: Seq<char>, q: Seq<(Seq<char>, Seq<char>)>)
    requires
        locals_under(root, q),
        q.len() > 0,
    ensures
        locals_under(root, q.drop_last()),
        under(root, q.last().1),
{
    assert(q.last() == q[q.len() - 1]);
    assert forall|i: int| 0 <= i < q.drop_last().len() implies under(
        root,
        #[trigger] q.drop_last()[i].1,
    ) by {
        assert(q.drop_last()[i] == q[i]);
    }
}

proof fn lemma_paths_push(root: Seq<char>, d: Seq<Seq<char>>, x: Seq<char>)
    requires
        paths_under(root, d),
        under(root, x),
    ensures
        paths_under(root, d.push(x)),
{
    assert forall|i: int| 0 <= i < d.push(x).len() implies under(root, #[trigger] d.push(x)[i]) by {
        if i < d.len() {
            assert(d.push(x)[i] == d[i]);
        }
    }
}

impl DownloadWalk {
    /// The local directory the walk downloads into.
    pub closed spec fn root(&self) -> Seq<char> {
        self.root@
    }

    /// Every local path of the walk (directories still to visit,
    /// directories to create, file targets) lies inside the root.
    pub closed spec fn wf(&self) -> bool {
        &&& locals_under(self.root(), self.queue())
        &&& paths_under(self.root(), self.dirs())
        &&& targets_under(self.root(), self.files())
    }

    /// Directories still to list: (remote path, local path); the last is
    /// listed next.
    pub closed spec fn queue(&self) -> Seq<(Seq<char>, Seq<char>)> {
        pendings_view(self.queue@)
    }

    pub closed spec fn files(&self) -> Seq<(Seq<char>, Seq<char>, Seq<char>, u64)> {
        planned_files_view(self.files@)
    }

    /// Local directories to create, parents first.
    pub closed spec fn dirs(&self) -> Seq<Seq<char>> {
        strings_view(self.dirs@)
    }

    /// A walk that starts at `remote_dir`, downloaded to `local_dir`.
    pub fn new(remote_dir: String, local_dir: String) -> (w: Self)
        ensures
            w.wf(),
            w.root() == local_dir@,
            w.queue() == seq![(remote_dir@, local_dir@)],
            w.files() == Seq::<(Seq<char>, Seq<char>, Seq<char>, u64)>::empty(),
            w.dirs() == Seq::<Seq<char>>::empty(),
    {
        let ghost root = local_dir@;
        let mut queue: Vec<PendingDir> = Vec::new();
        queue.push((remote_dir, local_dir));
        let w = DownloadWalk { queue, files: Vec::new(), dirs: Vec::new(), root: Ghost(root) };
        assert(root.take(root.len() as int) =~= root);
        assert(w.queue() =~= seq![(remote_dir@, local_dir@)]);
        assert(w.files() =~= Seq::<(Seq<char>, Seq<char>, Seq<char>, u64)>::empty());
        assert(w.dirs() =~= Seq::<Seq<char>>::empty());
        w
    }

    /// Takes in the listing of remote directory `remote`, mirrored at
    /// `local` inside the root. On an error nothing changes.
    pub fn add_listing(&mut self, remote: &str, local: &str, entries: Vec<FileEntry>) -> (r: Result<
        (),
        String,
    >)
        requires
            old(self).wf(),
            under(old(self).root(), local@),
        ensures
            final(self).wf(),
            final(self).root() == old(self).root(),
            final(self).dirs() == old(self).dirs(),
            match download_listing(remote@, local@, entries_view(entries@)) {
                Ok((d, f)) => r is Ok && final(self).queue() == old(self).queue() + d
                    && final(self).files() == old(self).files() + f,
                Err(e) => (r matches Err(m) && m@ == e) && final(self).queue() == old(self).queue()
                    && final(self).files() == old(self).files(),
            },
    {
        let ghost all = entries_view(entries@);
        let mut new_dirs: Vec<PendingDir> = Vec::new();
        let mut new_files: Vec<PlannedFile> = Vec::new();
        assert(all.take(0) =~= Seq::<FileEntryView>::empty());
        assert(pendings_view(new_dirs@) =~= Seq::<(Seq<char>, Seq<char>)>::empty());
        assert(planned_files_view(new_files@) =~= Seq::<(Seq<char>, Seq<char>, Seq<char>, u64)>::empty());
        let mut i: usize = 0;
        while i < entries.len()
            invariant
                i <= entries@.len(),
                all == entries_view(entries@),
                self.wf(),
                under(self.root(), local@),
                locals_under(self.root(), pendings_view(new_dirs@)),
                targets_under(self.root(), planned_files_view(new_files@)),
                download_listing(remote@, local@, all.take(i as int)) == Ok::<
                    (Seq<(Seq<char>, Seq<char>)>, Seq<(Seq<char>, Seq<char>, Seq<char>, u64)>),
                    Seq<char>,
                >((pendings_view(new_dirs@), planned_files_view(new_files@))),
            decreases entries.len() - i,
        {
            let e = &entries[i];
            let ghost pre = all.take(i as int);
            proof {
                assert(all.take(i + 1).drop_last() =~= pre);
                assert(all.take(i + 1).last() == e@);
            }
            let name_chars = chars_of(e.name.as_str());
            let dot: [char; 1] = ['.'];
            let dots: [char; 2] = ['.', '.'];
            assert(dot@ =~= seq!['.']);
            assert(dots@ =~= seq!['.', '.']);
            if crate::text::same_chars(&name_chars, &dot) || crate::text::same_chars(&name_chars, &dots) {
                i += 1;
            } else {
                let safe = match sanitize_filename(e.name.as_str()) {
                    Ok(s) => s,
                    Err(m) => {
                        proof {
                            assert(download_listing(remote@, local@, all.take(i + 1)) == Err::<
                                (Seq<(Seq<char>, Seq<char>)>, Seq<(Seq<char>, Seq<char>, Seq<char>, u64)>),
                                Seq<char>,
                            >(m@));
                            lemma_download_listing_err_stays(remote@, local@, all, i as int + 1);
                        }
                        return Err(m);
                    },
                };
                let target = join_path(local, safe.as_str());
                proof {
                    safe_name_stays_under(self.root(), local@, e.name@);
                }
                let ghost d1 = new_dirs@;
                let ghost f1 = new_files@;
                if e.is_dir {
                    let child = remote_child_path(remote, e.name.as_str());
                    new_dirs.push((child, target));
                    assert(pendings_view(new_dirs@) =~= pendings_view(d1).push(
                        (remote_child(remote@, e.name@), path_join(local@, e.name@)),
                    ));
                } else {
                    new_files.push((e.path.clone(), target, e.name.clone(), e.size));
                    assert(planned_files_view(new_files@) =~= planned_files_view(f1).push(
                        (e.path@, path_join(local@, e.name@), e.name@, e.size),
                    ));
                }
                i += 1;
            }
        }
        assert(all.take(entries@.len() as int) =~= all);
        let ghost q0 = self.queue@;
        let ghost f0 = self.files@;
        let ghost nd = new_dirs@;
        let ghost nf = new_files@;
        self.queue.append(&mut new_dirs);
        self.files.append(&mut new_files);
        proof {
            assert(self.queue@ == q0 + nd);
            assert(self.files@ == f0 + nf);
            assert(pendings_view(q0 + nd) =~= pendings_view(q0) + pendings_view(nd));
            assert(planned_files_view(f0 + nf) =~= planned_files_view(f0) + planned_files_view(nf));
            lemma_locals_concat(self.root(), pendings_view(q0), pendings_view(nd));
            lemma_targets_concat(self.root(), planned_files_view(f0), planned_files_view(nf));
        }
        Ok(())
    }

    /// Takes the next directory to visit, the one found most recently, off
    /// the queue and records its local path as a directory to create; it
    /// is the remote directory to list next. `None` when nothing is left,
    /// and then nothing changes.
    pub fn next_dir(&mut self) -> (r: Option<PendingDir>)
        requires
            old(self).wf(),
        ensures
            final(self).wf(),
            final(self).root() == old(self).root(),
            final(self).files() == old(self).files(),
            old(self).queue().len() == 0 ==> r is None && final(self).queue() == old(self).queue()
                && final(self).dirs() == old(self).dirs(),
            old(self).queue().len() > 0 ==> (r matches Some(p) && pending_view(p) == old(self).queue().last())
                && final(self).queue() == old(self).queue().drop_last() && final(self).dirs()
                == old(self).dirs().push(old(self).queue().last().1),
            r matches Some(p) ==> under(final(self).root(), p.1@),
    {
        let ghost q0 = self.queue@;
        let ghost d0 = self.dirs@;
        let next = self.queue.pop();
        let (remote, local) = match next {
            None => {
                assert(self.queue@ =~= q0);
                return None;
            },
            Some(p) => p,
        };
        self.dirs.push(local.clone());
        proof {
            assert(pendings_view(q0.drop_last()) =~= pendings_view(q0).drop_last());
            assert(strings_view(d0.push(local)) =~= strings_view(d0).push(local@));
            lemma_locals_drop_last(self.root(), pendings_view(q0));
            assert(pendings_view(q0).last().1 == local@);
            lemma_paths_push(self.root(), strings_view(d0), local@);
            assert(pendings_view(q0).last() == pending_view(q0.last()));
        }
        Some((remote, local))
    }

    /// Visits the next directory, most recently found first: takes it with
    /// `next_dir`, lists its remote path on `conn`, and takes in the
    /// listing with `add_listing`. `Ok(false)` when nothing is left to visit. A listing
    /// error stops the walk with that error.
    pub fn step<C: ConnectionTrait + ?Sized>(&mut self, conn: &mut C) -> (r: Result<bool, String>)
        requires
            old(self).wf(),
        ensures
            final(self).wf(),
            final(self).root() == old(self).root(),
            old(self).queue().len() == 0 ==> r == Ok::<bool, String>(false),
            old(self).queue().len() == 0 ==> final(self).queue() == old(self).queue(),
            old(self).queue().len() == 0 ==> final(self).files() == old(self).files(),
            old(self).queue().len() == 0 ==> final(self).dirs() == old(self).dirs(),
            old(self).queue().len() > 0 ==> final(self).dirs() == old(self).dirs().push(
                old(self).queue().last().1,
            ),
            old(self).queue().len() > 0 && r is Err ==> final(self).queue() == old(self).queue().drop_last()
                && final(self).files() == old(self).files(),
            old(self).queue().len() == 0 ==> final(conn).calls() == old(conn).calls(),
            old(self).queue().len() > 0 ==> (old(conn).calls() matches Some(log) ==> exists|
                lr: Result<Seq<FileEntryView>, Seq<char>>,
            |
                final(conn).calls() == Some(
                    log.push(ClientCall::ListDir { path: old(self).queue().last().0, result: lr }),
                )),
            old(self).queue().len() > 0 && r is Ok ==> r == Ok::<bool, String>(true) && exists|
                entries: Seq<FileEntryView>,
                d: Seq<(Seq<char>, Seq<char>)>,
                f: Seq<(Seq<char>, Seq<char>, Seq<char>, u64)>,
            |
                download_listing(old(self).queue().last().0, old(self).queue().last().1, entries)
                    == Ok::<
                    (Seq<(Seq<char>, Seq<char>)>, Seq<(Seq<char>, Seq<char>, Seq<char>, u64)>),
                    Seq<char>,
                >((d, f)) && final(self).queue() == old(self).queue().drop_last() + d
                    && final(self).files() == old(self).files() + f && (old(conn).calls() matches Some(
                    log,
                ) ==> final(conn).calls() == Some(
                    log.push(
                        ClientCall::ListDir {
                            path: old(self).queue().last().0,
                            result: Ok::<Seq<FileEntryView>, Seq<char>>(entries),
                        },
                    ),
                )),
    {
        let ghost q0 = self.queue@;
        let ghost d0 = self.dirs@;
        let (remote, local) = match self.next_dir() {
            None => {
                return Ok(false);
            },
            Some(p) => p,
        };
        let listed = conn.list_dir(remote.as_str());
        let entries = match listed {
            Ok(v) => v,
            Err(e) => {
                return Err(e);
            },
        };
        let ghost ev = entries_view(entries@);
        let ghost mid_q = self.queue();
        let ghost mid_f = self.files();
        let ghost dl = download_listing(remote@, local@, ev);
        let added = self.add_listing(remote.as_str(), local.as_str(), entries);
        if added.is_err() {
            return match added {
                Err(e) => Err(e),
                Ok(()) => Ok(true),
            };
        }
        proof {
            assert(pendings_view(q0).last() == pending_view(q0.last()));
            let d = dl->Ok_0.0;
            let f = dl->Ok_0.1;
            assert(dl == Ok::<
                (Seq<(Seq<char>, Seq<char>)>, Seq<(Seq<char>, Seq<char>, Seq<char>, u64)>),
                Seq<char>,
            >((d, f)));
            assert(self.queue() == mid_q + d);
            assert(self.files() == mid_f + f);
            assert(mid_q == pendings_view(q0).drop_last());
            assert(pendings_view(q0).last() == (remote@, local@));
            assert(download_listing(pendings_view(q0).last().0, pendings_view(q0).last().1, ev)
                == Ok::<
                (Seq<(Seq<char>, Seq<char>)>, Seq<(Seq<char>, Seq<char>, Seq<char>, u64)>),
                Seq<char>,
            >((d, f)) && self.queue() == pendings_view(q0).drop_last() + d && self.files() == mid_f
                + f);
        }
        Ok(true)
    }

    /// The directories and files found. A download never reaches outside
    /// its local directory: every directory to create and every file target
    /// lies inside it.
    pub fn finish(self) -> (r: DirWalkResult)
        requires
            self.wf(),
        ensures
            strings_view(r.dirs@) == self.dirs(),
            planned_files_view(r.files@) == self.files(),
            forall|i: int| 0 <= i < r.dirs@.len() ==> under(self.root(), #[trigger] r.dirs@[i]@),
            forall|i: int| 0 <= i < r.files@.len() ==> under(self.root(), #[trigger] r.files@[i].1@),
    {
        proof {
            assert forall|i: int| 0 <= i < self.dirs@.len() implies under(
                self.root(),
                #[trigger] self.dirs@[i]@,
            ) by {
                assert(self.dirs()[i] == self.dirs@[i]@);
            }
            assert forall|i: int| 0 <= i < self.files@.len() implies under(
                self.root(),
                #[trigger] self.files@[i].1@,
            ) by {
                assert(self.files()[i] == planned_view(self.files@[i]));
                assert(self.files()[i].1 == self.files@[i].1@);
            }
        }
        DirWalkResult { files: self.files, dirs: self.dirs }
    }
}

/// Once a prefix of a listing fails, every longer prefix fails the same way.
proof fn lemma_download_listing_err_stays(
    remote: Seq<char>,
    local: Seq<char>,
    all: Seq<FileEntryView>,
    i: int,
)
    requires
        0 <= i <= all.len(),
        download_listing(remote, local, all.take(i)) is Err,
    ensures
        download_listing(remote, local, all) == download_listing(remote, local, all.take(i)),
    decreases all.len() - i,
{
    if i < all.len() {
        assert(all.take(i + 1).drop_last() =~= all.take(i));
        lemma_download_listing_err_stays(remote, local, all, i + 1);
    } else {
        assert(all.take(i) =~= all);
    }
}

} // verus!
