//! Decisions of the SSH-based SFTP client: which server keys it trusts, how
//! it logs in, when it asks the server for its packet limits, which
//! directory entries it shows, and how it reads a file's existence and size
//! from `stat`.

use vstd::prelude::*;
use vstd::string::*;
use crate::connection::{FileEntry, FileEntryView};
use crate::listing::{fmt_mtime, is_dot_name, utc_timestamp_text};
use crate::path::{display_name_spec, join_remote_path, join_remote_spec, opt_view, remote_list_entry_display_name};
use crate::text::{chars_of, same_chars};

verus! {

pub open spec fn msg_auth_failed() -> Seq<char> {
    "Authentication failed"@
}

pub open spec fn msg_no_auth_method() -> Seq<char> {
    "No authentication method provided"@
}

/// How to log in.
#[derive(Debug)]
pub enum AuthMethod {
    /// With the private key at `key_path`, unlocked by the password when
    /// there is one.
    PublicKey { key_path: String, passphrase: Option<String> },
    /// With the password.
    Password { password: String },
}

/// A key, when configured, is preferred (the password then unlocks it);
/// otherwise the password is used; with neither there is no way in.
pub fn auth_method(password: Option<String>, key_path: Option<String>) -> (r: Result<
    AuthMethod,
    String,
>)
    ensures
        key_path matches Some(k) ==> r == Ok::<AuthMethod, String>(
            AuthMethod::PublicKey { key_path: k, passphrase: password },
        ),
        key_path is None ==> (password matches Some(p) ==> r == Ok::<AuthMethod, String>(
            AuthMethod::Password { password: p },
        )),
        key_path is None && password is None ==> (r matches Err(e) && e@ == msg_no_auth_method()),
{
    match key_path {
        Some(k) => Ok(AuthMethod::PublicKey { key_path: k, passphrase: password }),
        None => match password {
            Some(p) => Ok(AuthMethod::Password { password: p }),
            None => Err(String::from_str("No authentication method provided")),
        },
    }
}

/// A login the server turned down is an error.
pub fn check_auth(success: bool) -> (r: Result<(), String>)
    ensures
        success ==> r is Ok,
        !success ==> (r matches Err(e) && e@ == msg_auth_failed()),
{
    if success {
        Ok(())
    } else {
        Err(String::from_str("Authentication failed"))
    }
}

/// The server's packet limits are asked for only when it advertises the
/// `limits@openssh.com` extension with version `1`.
pub fn limits_advertised(version: Option<&str>) -> (r: bool)
    ensures
        r == (version matches Some(v) && v@ == seq!['1']),
{
    match version {
        Some(v) => {
            let one: [char; 1] = ['1'];
            assert(one@ =~= seq!['1']);
            same_chars(&chars_of(v), &one)
        },
        None => false,
    }
}

/// The entry a directory read shows for a name the server sent: `.` and
/// `..` are skipped, the name is reduced to its last segment, and what is
/// left must be neither empty nor `.` or `..`. A missing size shows as
/// zero.
pub open spec fn sftp_entry_spec(
    dir: Seq<char>,
    raw_name: Seq<char>,
    is_dir: bool,
    size: Option<u64>,
    mtime_text: Option<Seq<char>>,
) -> Option<FileEntryView> {
    if is_dot_name(raw_name) {
        None
    } else {
        let name = display_name_spec(raw_name);
        if is_dot_name(name) || name.len() == 0 {
            None
        } else {
            Some(
                FileEntryView {
                    name: name,
                    path: join_remote_spec(dir, name),
                    is_dir: is_dir,
                    size: match size {
                        Some(n) => n,
                        None => 0,
                    },
                    modified: mtime_text,
                },
            )
        }
    }
}

pub open spec fn entry_opt_view(e: Option<FileEntry>) -> Option<FileEntryView> {
    match e {
        Some(x) => Some(x@),
        None => None,
    }
}

/// Every named entry of a directory read is kept, dotfiles included: a
/// raw name other than `.` and `..` whose shown name is neither empty nor
/// `.` nor `..` gives an entry with exactly that name, under `dir`, with
/// the attributes given; `.` and `..` give none.
pub proof fn sftp_entry_kept_iff_named(
    dir: Seq<char>,
    raw_name: Seq<char>,
    is_dir: bool,
    size: Option<u64>,
    mtime_text: Option<Seq<char>>,
)
    ensures
        ({
            let name = display_name_spec(raw_name);
            (raw_name != seq!['.'] && raw_name != seq!['.', '.'] && name.len() > 0 && name != seq!['.']
                && name != seq!['.', '.']) <==> sftp_entry_spec(dir, raw_name, is_dir, size, mtime_text)
                is Some
        }),
        sftp_entry_spec(dir, raw_name, is_dir, size, mtime_text) matches Some(e) ==> e.name
            == display_name_spec(raw_name) && e.path == join_remote_spec(dir, e.name) && e.is_dir
            == is_dir && e.modified == mtime_text,
{
}

fn is_dot_text(v: &[char]) -> (r: bool)
    ensures
        r == is_dot_name(v@),
{
    let dot: [char; 1] = ['.'];
    let dots: [char; 2] = ['.', '.'];
    assert(dot@ =~= seq!['.']);
    assert(dots@ =~= seq!['.', '.']);
    same_chars(v, &dot) || same_chars(v, &dots)
}

/// The entry for one name of a directory read, with the server's
/// attributes: whether it is a directory, its size and modification time.
pub fn sftp_dir_entry(
    dir: &str,
    raw_name: &str,
    is_dir: bool,
    size: Option<u64>,
    mtime: Option<u32>,
) -> (r: Option<FileEntry>)
    ensures
        entry_opt_view(r) == sftp_entry_spec(dir@, raw_name@, is_dir, size, match mtime {
            Some(t) => utc_timestamp_text(t),
            None => None,
        }),
{
    if is_dot_text(&chars_of(raw_name)) {
        return None;
    }
    let name = remote_list_entry_display_name(raw_name);
    let nv = chars_of(name.as_str());
    if is_dot_text(&nv) || nv.len() == 0 {
        return None;
    }
    let path = join_remote_path(dir, name.as_str());
    let modified = fmt_mtime(mtime);
    let e = FileEntry {
        name,
        path,
        is_dir,
        size: match size {
            Some(n) => n,
            None => 0,
        },
        modified,
    };
    assert(e@.modified == opt_view(modified));
    Some(e)
}

/// The size a `stat` reply gives, when it has one.
pub fn stat_size(size: Option<u64>) -> (r: Result<u64, String>)
    ensures
        size matches Some(n) ==> r == Ok::<u64, String>(n),
        size is None ==> (r matches Err(e) && e@ == "Unable to determine file size"@),
{
    match size {
        Some(n) => Ok(n),
        None => Err(String::from_str("Unable to determine file size")),
    }
}

/// Why a `stat` failed.
#[derive(Debug)]
pub enum StatFailure {
    /// The server answered that there is no such file.
    NoSuchFile,
    /// Any other failure, with its text.
    Other(String),
}

/// Whether a file exists, from a `stat` of it that gave whether the path is
/// a directory: a directory is not a file, a missing path is no error.
pub fn exists_from_stat(stat: Result<bool, StatFailure>) -> (r: Result<bool, String>)
    ensures
        stat matches Ok(is_dir) ==> r == Ok::<bool, String>(!is_dir),
        stat matches Err(StatFailure::NoSuchFile) ==> r == Ok::<bool, String>(false),
        stat matches Err(StatFailure::Other(e)) ==> r == Err::<bool, String>(e),
{
    match stat {
        Ok(is_dir) => Ok(!is_dir),
        Err(StatFailure::NoSuchFile) => Ok(false),
        Err(StatFailure::Other(e)) => Err(e),
    }
}

pub open spec fn msg_host_key_changed() -> Seq<char> {
    "主机密钥不匹配，可能存在中间人攻击。请检查 ~/.ssh/known_hosts"@
}

/// What the known-hosts file says of the key a server presented.
#[derive(Debug, PartialEq, Eq, Structural, Clone, Copy)]
pub enum KnownHostKey {
    /// The recorded key for this host and port matches.
    Matches,
    /// No key is recorded for this host and port.
    NotRecorded,
    /// A different key is recorded: the server may be an impostor.
    Changed,
}

/// What to do with a server's key.
#[derive(Debug)]
pub enum HostKeyDecision {
    /// Go on.
    Accept,
    /// Record the key, then go on (trust on first use).
    LearnThenAccept,
    /// Stop with this error.
    Refuse(String),
}

/// A known key is accepted, an unknown one is learnt and accepted, and a
/// changed one is refused.
pub fn host_key_decision(check: KnownHostKey) -> (d: HostKeyDecision)
    ensures
        check == KnownHostKey::Matches ==> d is Accept,
        check == KnownHostKey::NotRecorded ==> d is LearnThenAccept,
        check == KnownHostKey::Changed ==> (d matches HostKeyDecision::Refuse(e) && e@
            == msg_host_key_changed()),
{
    match check {
        KnownHostKey::Matches => HostKeyDecision::Accept,
        KnownHostKey::NotRecorded => HostKeyDecision::LearnThenAccept,
        KnownHostKey::Changed => HostKeyDecision::Refuse(
            String::from_str("主机密钥不匹配，可能存在中间人攻击。请检查 ~/.ssh/known_hosts"),
        ),
    }
}

} // verus!
