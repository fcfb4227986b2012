//! SFTP through the system's OpenSSH `sftp` program in batch mode: the
//! command-line arguments, the batch commands for each operation, and how
//! the program's output is read back.

use vstd::prelude::*;
use vstd::string::*;
use crate::connection::{entries_view, FileEntry, FileEntryView};
use crate::listing::{endpoint_spec, long_ls_spec, parse_long_ls_line, quote_spec, quote_sftp_token, sftp_endpoint};
use crate::path::{expand_tilde_path, expand_tilde_spec, join_remote_path, join_remote_spec, res_view};
use crate::text::{
    chars_of, contains_chars, contains_seq, i64_text, int_text, lines_spec, nat_text, parse_u64,
    parse_u64_spec, split_lines, split_words, string_of, trim, trim_chars, u64_res_view, u64_text, words,
};

verus! {

pub open spec fn msg_no_auth() -> Seq<char> {
    "No authentication method provided"@
}

pub open spec fn msg_no_stat() -> Seq<char> {
    "Unable to stat remote path"@
}

pub open spec fn msg_no_size() -> Seq<char> {
    "Unable to determine file size"@
}

// ---------------------------------------------------------------------
// Batch commands.
// ---------------------------------------------------------------------

/// `cmd` followed by one quoted argument and a newline.
pub open spec fn command1(cmd: Seq<char>, a: Seq<char>) -> Seq<char> {
    cmd + quote_spec(a) + "\n"@
}

/// `cmd` followed by two quoted arguments and a newline.
pub open spec fn command2(cmd: Seq<char>, a: Seq<char>, b: Seq<char>) -> Seq<char> {
    cmd + quote_spec(a) + " "@ + quote_spec(b) + "\n"@
}

fn command_line1(cmd: &str, a: &str) -> (r: String)
    ensures
        r@ == command1(cmd@, a@),
{
    let mut s = String::from_str(cmd);
    s.append(quote_sftp_token(a).as_str());
    s.append("\n");
    s
}

fn command_line2(cmd: &str, a: &str, b: &str) -> (r: String)
    ensures
        r@ == command2(cmd@, a@, b@),
{
    let mut s = String::from_str(cmd);
    s.append(quote_sftp_token(a).as_str());
    s.append(" ");
    s.append(quote_sftp_token(b).as_str());
    s.append("\n");
    s
}

/// Lists a directory, long format, hidden entries included.
pub fn list_dir_batch(path: &str) -> (r: String)
    ensures
        r@ == command1("ls -la "@, path@),
{
    command_line1("ls -la ", path)
}

/// Lists one path itself, long format.
pub fn stat_batch(path: &str) -> (r: String)
    ensures
        r@ == command1("ls -ld "@, path@),
{
    command_line1("ls -ld ", path)
}

/// Sends a local file: resumed with `reput` past a non-zero offset,
/// otherwise `put -f`.
pub fn upload_batch(local_path: &str, remote_path: &str, offset: u64) -> (r: String)
    ensures
        offset > 0 ==> r@ == command2("reput "@, local_path@, remote_path@),
        offset == 0 ==> r@ == command2("put -f "@, local_path@, remote_path@),
{
    if offset > 0 {
        command_line2("reput ", local_path, remote_path)
    } else {
        command_line2("put -f ", local_path, remote_path)
    }
}

/// Fetches a remote file: resumed with `reget` past a non-zero offset,
/// otherwise `get -f`.
pub fn download_batch(remote_path: &str, local_path: &str, offset: u64) -> (r: String)
    ensures
        offset > 0 ==> r@ == command2("reget "@, remote_path@, local_path@),
        offset == 0 ==> r@ == command2("get -f "@, remote_path@, local_path@),
{
    if offset > 0 {
        command_line2("reget ", remote_path, local_path)
    } else {
        command_line2("get -f ", remote_path, local_path)
    }
}

pub fn mkdir_batch(path: &str) -> (r: String)
    ensures
        r@ == command1("mkdir "@, path@),
{
    command_line1("mkdir ", path)
}

pub fn remove_file_batch(path: &str) -> (r: String)
    ensures
        r@ == command1("rm "@, path@),
{
    command_line1("rm ", path)
}

pub fn remove_dir_batch(path: &str) -> (r: String)
    ensures
        r@ == command1("rmdir "@, path@),
{
    command_line1("rmdir ", path)
}

pub fn rename_batch(from: &str, to: &str) -> (r: String)
    ensures
        r@ == command2("rename "@, from@, to@),
{
    command_line2("rename ", from, to)
}

// ---------------------------------------------------------------------
// The command line.
// ---------------------------------------------------------------------

/// The arguments of `sftp`: new host keys accepted and remembered, a 30 s
/// connect timeout, the port; batch mode (no prompts) unless a password
/// will be supplied; the identity file if any; then `user@host`.
pub open spec fn batch_args_spec(
    port: u16,
    username: Seq<char>,
    host: Seq<char>,
    has_password: bool,
    key_file: Option<Seq<char>>,
) -> Seq<Seq<char>> {
    seq![
        "-o"@,
        "StrictHostKeyChecking=accept-new"@,
        "-o"@,
        "ConnectTimeout=30"@,
        "-P"@,
        nat_text(port as nat),
    ] + (if has_password {
        Seq::empty()
    } else {
        seq!["-o"@, "BatchMode=yes"@]
    }) + (match key_file {
        Some(k) => seq!["-i"@, k],
        None => Seq::empty(),
    }) + seq![endpoint_spec(username, host)]
}

pub open spec fn strings_of(v: Seq<String>) -> Seq<Seq<char>> {
    v.map_values(|s: String| s@)
}

fn push_str(v: &mut Vec<String>, s: &str)
    ensures
        strings_of(final(v)@) == strings_of(old(v)@).push(s@),
{
    let ghost before = v@;
    v.push(String::from_str(s));
    assert(strings_of(v@) =~= strings_of(before).push(s@));
}

/// The arguments for an identity file already resolved.
pub fn batch_args_with(
    port: u16,
    username: &str,
    host: &str,
    has_password: bool,
    key_file: Option<String>,
) -> (r: Vec<String>)
    ensures
        strings_of(r@) == batch_args_spec(port, username@, host@, has_password, match key_file {
            Some(k) => Some(k@),
            None => None,
        }),
{
    let mut v: Vec<String> = Vec::new();
    push_str(&mut v, "-o");
    push_str(&mut v, "StrictHostKeyChecking=accept-new");
    push_str(&mut v, "-o");
    push_str(&mut v, "ConnectTimeout=30");
    push_str(&mut v, "-P");
    let port_text = u64_text(port as u64);
    push_str(&mut v, port_text.as_str());
    if !has_password {
        push_str(&mut v, "-o");
        push_str(&mut v, "BatchMode=yes");
    }
    match &key_file {
        Some(k) => {
            push_str(&mut v, "-i");
            push_str(&mut v, k.as_str());
        },
        None => {},
    }
    let endpoint = sftp_endpoint(username, host);
    push_str(&mut v, endpoint.as_str());
    assert(strings_of(v@) =~= batch_args_spec(port, username@, host@, has_password, match key_file {
        Some(k) => Some(k@),
        None => None,
    }));
    v
}

/// The arguments for a host: without a password and without a key there
/// is no way to log in; a key path has its leading `~` expanded, and the
/// expansion's error is returned as is.
pub fn sftp_batch_args(
    port: u16,
    username: &str,
    host: &str,
    password: &Option<String>,
    key_path: &Option<String>,
) -> (r: Result<Vec<String>, String>)
    ensures
        password is None && key_path is None ==> (r matches Err(e) && e@ == msg_no_auth()),
        password is Some && key_path is None ==> (r matches Ok(v) && strings_of(v@)
            == batch_args_spec(port, username@, host@, true, None)),
        key_path matches Some(k) ==> exists|home: Option<Seq<char>>|
            match #[trigger] expand_tilde_spec(k@, home) {
                Ok(f) => r matches Ok(v) && strings_of(v@) == batch_args_spec(
                    port,
                    username@,
                    host@,
                    password is Some,
                    Some(f),
                ),
                Err(e) => r matches Err(m) && m@ == e,
            },
{
    if key_path.is_none() && password.is_none() {
        return Err(String::from_str("No authentication method provided"));
    }
    let has_password = password.is_some();
    match key_path {
        None => Ok(batch_args_with(port, username, host, has_password, None)),
        Some(k) => {
            let expanded = expand_tilde_path(k.as_str());
            let ghost h = choose|h: Option<Seq<char>>| res_view(expanded) == expand_tilde_spec(k@, h);
            match expanded {
                Ok(f) => {
                    let r = batch_args_with(port, username, host, has_password, Some(f));
                    assert(expand_tilde_spec(k@, h) is Ok);
                    Ok(r)
                },
                Err(e) => {
                    assert(expand_tilde_spec(k@, h) == Err::<Seq<char>, Seq<char>>(e@));
                    Err(e)
                },
            }
        },
    }
}

// ---------------------------------------------------------------------
// Reading the program's output.
// ---------------------------------------------------------------------

/// The failure text for an exit code, written as `Option<i32>` prints
/// with `{:?}`.
pub open spec fn msg_exit_code(code: Option<i32>) -> Seq<char> {
    "sftp 失败，退出码 "@ + match code {
        Some(c) => "Some("@ + int_text(c as int) + ")"@,
        None => "None"@,
    }
}

/// What a batch run gives: standard error then standard output on
/// success; on failure that text trimmed, or the exit code when it is
/// blank.
pub open spec fn batch_result_spec(
    stdout: Seq<char>,
    stderr: Seq<char>,
    success: bool,
    code: Option<i32>,
) -> Result<Seq<char>, Seq<char>> {
    let combined = stderr + stdout;
    if success {
        Ok(combined)
    } else if trim(combined).len() == 0 {
        Err(msg_exit_code(code))
    } else {
        Err(trim(combined))
    }
}

fn exit_code_message(code: Option<i32>) -> (r: String)
    ensures
        r@ == msg_exit_code(code),
{
    let mut s = String::from_str("sftp 失败，退出码 ");
    match code {
        Some(c) => {
            s.append("Some(");
            s.append(i64_text(c as i64).as_str());
            s.append(")");
        },
        None => {
            s.append("None");
        },
    }
    s
}

/// Interprets a finished batch run.
pub fn batch_result(stdout: &str, stderr: &str, success: bool, code: Option<i32>) -> (r: Result<
    String,
    String,
>)
    ensures
        res_view(r) == batch_result_spec(stdout@, stderr@, success, code),
{
    let mut combined = String::from_str(stderr);
    combined.append(stdout);
    if success {
        return Ok(combined);
    }
    let t = trim_chars(&chars_of(combined.as_str()));
    if t.len() == 0 {
        Err(exit_code_message(code))
    } else {
        Err(string_of(&t))
    }
}

/// The entry an `ls -l` line describes in directory `parent`.
pub open spec fn ls_entry(line: Seq<char>, parent: Seq<char>) -> Option<FileEntryView> {
    match long_ls_spec(line) {
        Some((name, is_dir, size, modified)) => Some(
            FileEntryView {
                name: name,
                path: join_remote_spec(parent, name),
                is_dir: is_dir,
                size: size,
                modified: modified,
            },
        ),
        None => None,
    }
}

/// The entries of a listing, in order; lines that describe none are
/// skipped.
pub open spec fn ls_entries(lines: Seq<Seq<char>>, parent: Seq<char>) -> Seq<FileEntryView>
    decreases lines.len(),
{
    if lines.len() == 0 {
        Seq::empty()
    } else {
        let prev = ls_entries(lines.drop_last(), parent);
        match ls_entry(lines.last(), parent) {
            Some(e) => prev.push(e),
            None => prev,
        }
    }
}

/// No entry of an `ls -l` listing is lost: the entry of every line that
/// describes one is in the listing read from all the lines, and the
/// listing holds nothing else.
pub proof fn ls_listing_keeps_every_entry(lines: Seq<Seq<char>>, parent: Seq<char>)
    ensures
        forall|i: int|
            0 <= i < lines.len() && (#[trigger] ls_entry(lines[i], parent)) is Some
                ==> ls_entries(lines, parent).contains(ls_entry(lines[i], parent)->0),
        forall|k: int|
            0 <= k < ls_entries(lines, parent).len() ==> exists|i: int|
                0 <= i < lines.len() && #[trigger] ls_entry(lines[i], parent) == Some(
                    #[trigger] ls_entries(lines, parent)[k],
                ),
    decreases lines.len(),
{
    if lines.len() > 0 {
        let init = lines.drop_last();
        ls_listing_keeps_every_entry(init, parent);
        let prev = ls_entries(init, parent);
        let cur = ls_entries(lines, parent);
        assert forall|i: int|
            0 <= i < lines.len() && (#[trigger] ls_entry(lines[i], parent)) is Some
                implies cur.contains(ls_entry(lines[i], parent)->0) by {
            if i < lines.len() - 1 {
                assert(init[i] == lines[i]);
                assert(ls_entry(init[i], parent) is Some);
                let k = choose|k: int| 0 <= k < prev.len() && prev[k] == ls_entry(lines[i], parent)->0;
                assert(cur[k] == prev[k]);
            } else {
                assert(cur[cur.len() - 1] == ls_entry(lines[i], parent)->0);
            }
        }
        assert forall|k: int| 0 <= k < cur.len() implies exists|i: int|
            0 <= i < lines.len() && #[trigger] ls_entry(lines[i], parent) == Some(
                #[trigger] cur[k],
            ) by {
            if k < prev.len() {
                assert(cur[k] == prev[k]);
                let i = choose|i: int| 0 <= i < init.len() && #[trigger] ls_entry(init[i], parent) == Some(prev[k]);
                assert(init[i] == lines[i]);
            } else {
                let i = lines.len() - 1;
                assert(ls_entry(lines[i], parent) == Some(cur[k]));
            }
        }
    }
}

/// Reads an `ls -la` listing of `parent`.
pub fn parse_ls_output(output: &str, parent: &str) -> (r: Vec<FileEntry>)
    ensures
        entries_view(r@) == ls_entries(lines_spec(output@), parent@),
{
    let lines = split_lines(&chars_of(output));
    let ghost ls = lines_spec(output@);
    let mut files: Vec<FileEntry> = Vec::new();
    let mut i: usize = 0;
    assert(ls.take(0) =~= Seq::<Seq<char>>::empty());
    assert(entries_view(files@) =~= Seq::<FileEntryView>::empty());
    while i < lines.len()
        invariant
            i <= lines@.len(),
            lines@.map_values(|l: Vec<char>| l@) == ls,
            entries_view(files@) == ls_entries(ls.take(i as int), parent@),
        decreases lines.len() - i,
    {
        let line = string_of(&lines[i]);
        proof {
            assert(ls[i as int] == lines@[i as int]@);
            assert(ls.take(i + 1).drop_last() =~= ls.take(i as int));
            assert(ls.take(i + 1).last() == line@);
        }
        let ghost before = files@;
        match parse_long_ls_line(line.as_str()) {
            Some((name, is_dir, size, modified)) => {
                let path = join_remote_path(parent, name.as_str());
                let e = FileEntry { name, path, is_dir, size, modified };
                files.push(e);
                assert(entries_view(files@) =~= entries_view(before).push(e@));
            },
            None => {},
        }
        i += 1;
    }
    assert(ls.take(lines@.len() as int) =~= ls);
    files
}

/// The first line of a listing that describes an entry.
pub open spec fn first_listed(lines: Seq<Seq<char>>) -> Option<Seq<char>>
    decreases lines.len(),
{
    if lines.len() == 0 {
        None
    } else if long_ls_spec(lines[0]) is Some {
        Some(lines[0])
    } else {
        first_listed(lines.drop_first())
    }
}

/// The `ls -ld` line of a path, trimmed: the first line of the output that
/// describes an entry.
pub fn stat_line(output: &str) -> (r: Result<String, String>)
    ensures
        match first_listed(lines_spec(output@)) {
            Some(l) => r matches Ok(s) && s@ == trim(l),
            None => r matches Err(e) && e@ == msg_no_stat(),
        },
{
    let lines = split_lines(&chars_of(output));
    let ghost ls = lines_spec(output@);
    let mut i: usize = 0;
    assert(ls.skip(0) =~= ls);
    while i < lines.len()
        invariant
            i <= lines@.len(),
            ls == lines_spec(output@),
            lines@.map_values(|l: Vec<char>| l@) == ls,
            first_listed(ls) == first_listed(ls.skip(i as int)),
        decreases lines.len() - i,
    {
        let line = string_of(&lines[i]);
        assert(ls[i as int] == line@);
        assert(ls.skip(i as int)[0] == line@);
        let parsed = parse_long_ls_line(line.as_str());
        if parsed.is_some() {
            assert(long_ls_spec(line@) is Some);
            assert(ls.skip(i as int).len() > 0);
            assert(first_listed(ls.skip(i as int)) == Some(line@));
            let lv = chars_of(line.as_str());
            let t = trim_chars(&lv);
            let out = string_of(&t);
            assert(out@ == trim(line@));
            return Ok(out);
        }
        assert(ls.skip(i as int).drop_first() =~= ls.skip(i + 1));
        i += 1;
    }
    assert(ls.skip(lines@.len() as int) =~= Seq::<Seq<char>>::empty());
    Err(String::from_str("Unable to stat remote path"))
}

/// The size an `ls -ld` line gives: its fifth word, which must be a
/// number; a line of fewer than nine words gives none.
pub open spec fn stat_size_spec(line: Seq<char>) -> Result<u64, Seq<char>> {
    let parts = words(line);
    if parts.len() < 9 {
        Err(msg_no_size())
    } else {
        match parse_u64_spec(parts[4]) {
            Ok(n) => Ok(n),
            Err(_) => Err(msg_no_size()),
        }
    }
}

/// Reads the size from an `ls -ld` line.
pub fn size_from_stat_line(line: &str) -> (r: Result<u64, String>)
    ensures
        u64_res_view(r) == stat_size_spec(line@),
{
    let v = chars_of(line);
    let parts = split_words(&v);
    if parts.len() < 9 {
        return Err(String::from_str("Unable to determine file size"));
    }
    match parse_u64(&parts[4]) {
        Ok(n) => Ok(n),
        Err(_) => Err(String::from_str("Unable to determine file size")),
    }
}

/// `str::to_lowercase`: the Unicode lower-case mapping of every character.
pub uninterp spec fn lowercase_spec(s: Seq<char>) -> Seq<char>;

/// `str::to_lowercase`. Only the name of the result is stated.
#[verifier::external_body]
fn to_lowercase(s: &str) -> (r: String)
    ensures
        r@ == lowercase_spec(s@),
{
    s.to_lowercase()
}

/// Whether a path exists as the output of `ls -ld` on it tells: output
/// that says the path is missing means no; a failed run whose error says
/// so (in any case) means no; any other error is passed on.
pub open spec fn exists_spec(run: Result<Seq<char>, Seq<char>>) -> Result<bool, Seq<char>> {
    match run {
        Ok(out) => Ok(
            !(contains_seq(out, "No such file"@) || contains_seq(out, "not found"@)
                || contains_seq(out, "Couldn't stat"@)),
        ),
        Err(e) => {
            let el = lowercase_spec(e);
            if contains_seq(el, "no such file"@) || contains_seq(el, "couldn't stat"@) {
                Ok(false)
            } else {
                Err(e)
            }
        },
    }
}

/// A successful `ls -ld` run whose output says the path is missing ("No
/// such file", "not found" or "Couldn't stat") means the path does not
/// exist; any other output means it does. A failed run never reports an
/// existing path.
pub proof fn exists_follows_ls_output(out: Seq<char>, err: Seq<char>)
    ensures
        contains_seq(out, "No such file"@) ==> exists_spec(Ok(out)) == Ok::<bool, Seq<char>>(false),
        contains_seq(out, "not found"@) ==> exists_spec(Ok(out)) == Ok::<bool, Seq<char>>(false),
        contains_seq(out, "Couldn't stat"@) ==> exists_spec(Ok(out)) == Ok::<bool, Seq<char>>(false),
        !contains_seq(out, "No such file"@) && !contains_seq(out, "not found"@) && !contains_seq(
            out,
            "Couldn't stat"@,
        ) ==> exists_spec(Ok(out)) == Ok::<bool, Seq<char>>(true),
        exists_spec(Err(err)) != Ok::<bool, Seq<char>>(true),
{
}

pub open spec fn bool_res_view(r: Result<bool, String>) -> Result<bool, Seq<char>> {
    match r {
        Ok(b) => Ok(b),
        Err(e) => Err(e@),
    }
}

/// Reads whether a path exists from an `ls -ld` run.
pub fn exists_from_run(run: Result<String, String>) -> (r: Result<bool, String>)
    ensures
        bool_res_view(r) == exists_spec(res_view(run)),
{
    match run {
        Ok(out) => {
            let o = chars_of(out.as_str());
            let missing = contains_chars(&o, &chars_of("No such file")) || contains_chars(
                &o,
                &chars_of("not found"),
            ) || contains_chars(&o, &chars_of("Couldn't stat"));
            Ok(!missing)
        },
        Err(e) => {
            let el = chars_of(to_lowercase(e.as_str()).as_str());
            if contains_chars(&el, &chars_of("no such file")) || contains_chars(
                &el,
                &chars_of("couldn't stat"),
            ) {
                Ok(false)
            } else {
                Err(e)
            }
        },
    }
}

/// Bytes an upload moved: the rest of the file past a non-zero offset,
/// the whole file otherwise.
pub fn upload_moved(offset: u64, total: u64) -> (r: u64)
    ensures
        r == (if offset > 0 {
            if total >= offset {
                (total - offset) as u64
            } else {
                0
            }
        } else {
            total
        }),
{
    if offset > 0 {
        total.saturating_sub(offset)
    } else {
        total
    }
}

/// Bytes a download moved, from the local file's length after it.
pub fn download_moved(end_len: u64, offset: u64) -> (r: u64)
    ensures
        r == (if end_len >= offset {
            (end_len - offset) as u64
        } else {
            0
        }),
{
    end_len.saturating_sub(offset)
}

/// The position reported when a download ends: the local length, but never
/// past the remote size.
pub fn download_end_position(end_len: u64, total: u64) -> (r: u64)
    ensures
        r == (if end_len < total {
            end_len
        } else {
            total
        }),
{
    if end_len < total {
        end_len
    } else {
        total
    }
}

} // verus!
