//! Saved host entries and the checks every entry passes before it is stored
//! or used: bounded lengths, no `file://` address, a non-zero port, and a
//! key path that is absolute, free of `..` and resolvable on disk.

use vstd::prelude::*;
use vstd::string::*;
use crate::path::{
    ask_for_create, canonicalize_path, create_spec, expand_tilde_spec, expand_tilde_with_home,
    home_dir, opt_view, path_exists, path_is_absolute, path_is_absolute_spec, res_view,
    resolve_for_create, validate_spec,
};
use crate::text::{
    byte_len, byte_len_exceeds, chars_of, contains_chars, contains_seq, same_chars, starts_with,
    starts_with_chars, string_of, trim, trim_chars,
};

verus! {

pub const MAX_NAME_LEN: usize = 128;

pub const MAX_HOST_LEN: usize = 256;

pub const MAX_USERNAME_LEN: usize = 128;

pub const MAX_PASSWORD_LEN: usize = 512;

pub const MAX_KEY_PATH_LEN: usize = 1024;

/// The protocol a host is reached by.
#[derive(PartialEq, Eq, Structural, Debug, Clone, Copy)]
pub enum Protocol {
    Ftp,
    Sftp,
}

/// A saved remote host.
#[derive(Debug, Clone)]
pub struct Host {
    pub id: Option<i64>,
    pub name: String,
    pub host: String,
    pub port: u16,
    pub protocol: Protocol,
    pub username: String,
    pub password: Option<String>,
    pub key_path: Option<String>,
    pub created_at: Option<String>,
    pub updated_at: Option<String>,
}

pub open spec fn name_error(name: Seq<char>) -> Option<Seq<char>> {
    let t = trim(name);
    if t.len() == 0 {
        Some("主机名称不能为空"@)
    } else if byte_len(t) > MAX_NAME_LEN {
        Some("主机名称不能超过 128 个字符"@)
    } else {
        None
    }
}

pub open spec fn file_scheme() -> Seq<char> {
    seq!['f', 'i', 'l', 'e', ':', '/', '/']
}

pub open spec fn address_error(host: Seq<char>) -> Option<Seq<char>> {
    let t = trim(host);
    if t.len() == 0 {
        Some("主机地址不能为空"@)
    } else if byte_len(t) > MAX_HOST_LEN {
        Some("主机地址不能超过 256 个字符"@)
    } else if starts_with(t, file_scheme()) {
        Some("不允许 file:// 协议"@)
    } else {
        None
    }
}

pub open spec fn port_error(port: u16) -> Option<Seq<char>> {
    if port == 0 {
        Some("端口不能为 0"@)
    } else {
        None
    }
}

pub open spec fn username_error(username: Seq<char>) -> Option<Seq<char>> {
    let t = trim(username);
    if t.len() == 0 {
        Some("用户名不能为空"@)
    } else if byte_len(t) > MAX_USERNAME_LEN {
        Some("用户名不能超过 128 个字符"@)
    } else {
        None
    }
}

/// A password is limited in bytes, untrimmed.
pub open spec fn password_error(password: Seq<char>) -> Option<Seq<char>> {
    if byte_len(password) > MAX_PASSWORD_LEN {
        Some("密码不能超过 512 个字符"@)
    } else {
        None
    }
}

/// The checks on a key path that need neither the environment nor the disk.
pub open spec fn key_path_text_error(key_path: Seq<char>) -> Option<Seq<char>> {
    let t = trim(key_path);
    if t.len() == 0 {
        Some("密钥路径不能为空"@)
    } else if byte_len(t) > MAX_KEY_PATH_LEN {
        Some("密钥路径不能超过 1024 个字符"@)
    } else if contains_seq(t, seq!['.', '.']) {
        Some("密钥路径不允许包含 .."@)
    } else {
        None
    }
}

pub open spec fn first_error(a: Option<Seq<char>>, b: Option<Seq<char>>) -> Option<Seq<char>> {
    if a is Some {
        a
    } else {
        b
    }
}

/// The first failing check of a host that needs neither the environment
/// nor the disk, in the order the checks run.
pub open spec fn host_text_error(h: Host) -> Option<Seq<char>> {
    first_error(
        name_error(h.name@),
        first_error(
            address_error(h.host@),
            first_error(
                port_error(h.port),
                first_error(
                    username_error(h.username@),
                    first_error(
                        match h.password {
                            Some(p) => password_error(p@),
                            None => None,
                        },
                        match h.key_path {
                            Some(k) => key_path_text_error(k@),
                            None => None,
                        },
                    ),
                ),
            ),
        ),
    )
}

pub open spec fn unit_result(e: Option<Seq<char>>) -> Result<(), Seq<char>> {
    match e {
        Some(m) => Err(m),
        None => Ok(()),
    }
}

pub open spec fn unit_view(r: Result<(), String>) -> Result<(), Seq<char>> {
    match r {
        Ok(()) => Ok(()),
        Err(e) => Err(e@),
    }
}

fn validate_name(name: &str) -> (r: Result<(), String>)
    ensures
        unit_view(r) == unit_result(name_error(name@)),
{
    let t = trim_chars(&chars_of(name));
    if t.len() == 0 {
        return Err(String::from_str("主机名称不能为空"));
    }
    if byte_len_exceeds(&t, MAX_NAME_LEN) {
        return Err(String::from_str("主机名称不能超过 128 个字符"));
    }
    Ok(())
}

fn validate_host_address(host: &str) -> (r: Result<(), String>)
    ensures
        unit_view(r) == unit_result(address_error(host@)),
{
    let t = trim_chars(&chars_of(host));
    if t.len() == 0 {
        return Err(String::from_str("主机地址不能为空"));
    }
    if byte_len_exceeds(&t, MAX_HOST_LEN) {
        return Err(String::from_str("主机地址不能超过 256 个字符"));
    }
    let scheme: [char; 7] = ['f', 'i', 'l', 'e', ':', '/', '/'];
    assert(scheme@ =~= file_scheme());
    if starts_with_chars(&t, &scheme) {
        return Err(String::from_str("不允许 file:// 协议"));
    }
    Ok(())
}

fn validate_port(port: u16) -> (r: Result<(), String>)
    ensures
        unit_view(r) == unit_result(port_error(port)),
{
    if port == 0 {
        return Err(String::from_str("端口不能为 0"));
    }
    Ok(())
}

fn validate_username(username: &str) -> (r: Result<(), String>)
    ensures
        unit_view(r) == unit_result(username_error(username@)),
{
    let t = trim_chars(&chars_of(username));
    if t.len() == 0 {
        return Err(String::from_str("用户名不能为空"));
    }
    if byte_len_exceeds(&t, MAX_USERNAME_LEN) {
        return Err(String::from_str("用户名不能超过 128 个字符"));
    }
    Ok(())
}

fn validate_password(password: &str) -> (r: Result<(), String>)
    ensures
        unit_view(r) == unit_result(password_error(password@)),
{
    if byte_len_exceeds(&chars_of(password), MAX_PASSWORD_LEN) {
        return Err(String::from_str("密码不能超过 512 个字符"));
    }
    Ok(())
}

/// What the key-path check decides once the home directory is `home`,
/// before the disk is consulted: the text checks, then the expansion of a
/// leading `~`, which must give an absolute path.
pub open spec fn key_path_expansion(key_path: Seq<char>, home: Option<Seq<char>>) -> Result<
    Seq<char>,
    Seq<char>,
> {
    match key_path_text_error(key_path) {
        Some(e) => Err(e),
        None => match expand_tilde_spec(trim(key_path), home) {
            Err(e) => Err(e),
            Ok(x) => if path_is_absolute_spec(x) {
                Ok(x)
            } else {
                Err("密钥路径必须为绝对路径"@)
            },
        },
    }
}

/// Runs the key-path checks that need no disk, once the home directory is
/// known to be `home`: the text checks, the expansion of a leading `~`,
/// and that the expansion is absolute. The expanded path is returned.
pub fn expand_key_path(key_path: &str, home: Option<String>) -> (r: Result<String, String>)
    ensures
        res_view(r) == key_path_expansion(key_path@, opt_view(home)),
{
    let t = trim_chars(&chars_of(key_path));
    if t.len() == 0 {
        return Err(String::from_str("密钥路径不能为空"));
    }
    if byte_len_exceeds(&t, MAX_KEY_PATH_LEN) {
        return Err(String::from_str("密钥路径不能超过 1024 个字符"));
    }
    let dots: [char; 2] = ['.', '.'];
    assert(dots@ =~= seq!['.', '.']);
    if contains_chars(&t, &dots) {
        return Err(String::from_str("密钥路径不允许包含 .."));
    }
    let ts = string_of(&t);
    let expanded = expand_tilde_with_home(ts.as_str(), home)?;
    if !path_is_absolute(expanded.as_str()) {
        return Err(String::from_str("密钥路径必须为绝对路径"));
    }
    Ok(expanded)
}

/// What the key-path check gives, when `home` is the home directory,
/// `first` is whether the expanded path was found on disk, and `answers`
/// and `canonical` are the file system's later answers: an existing key
/// must canonicalise (`canonical` is that outcome); a missing one must have
/// an ancestor on disk to be created under (as `create_spec` decides from
/// `answers` and `canonical`).
pub open spec fn key_path_spec(
    key_path: Seq<char>,
    home: Option<Seq<char>>,
    first: bool,
    answers: Seq<bool>,
    canonical: Result<Seq<char>, Seq<char>>,
) -> Result<(), Seq<char>> {
    match key_path_expansion(key_path, home) {
        Err(e) => Err(e),
        Ok(x) => {
            let r = if first {
                validate_spec(x, canonical)
            } else {
                create_spec(x, answers, canonical)
            };
            match r {
                Ok(_) => Ok(()),
                Err(e) => Err(e),
            }
        },
    }
}

/// A key path whose expansion is resolved on disk is accepted.
pub proof fn key_path_accepted_when_resolved(
    key_path: Seq<char>,
    home: Option<Seq<char>>,
    first: bool,
    answers: Seq<bool>,
    canonical: Result<Seq<char>, Seq<char>>,
)
    ensures
        key_path_spec(key_path, home, first, answers, canonical) is Ok <==> (key_path_expansion(
            key_path,
            home,
        ) matches Ok(x) && (if first {
            validate_spec(x, canonical)
        } else {
            create_spec(x, answers, canonical)
        }) is Ok),
{
}

/// Decides the key-path check from the answers the environment and the
/// file system gave: `home` is the home directory; `first` is whether the
/// expanded path is on disk; then either `canonical` is the outcome of
/// canonicalising it, or `answers` and `canonical` are what creating under
/// it asked (see `resolve_for_create`).
pub fn key_path_verdict(
    key_path: &str,
    home: Option<String>,
    first: bool,
    answers: &Vec<bool>,
    canonical: Result<String, String>,
) -> (r: Result<(), String>)
    ensures
        unit_view(r) == key_path_spec(key_path@, opt_view(home), first, answers@, res_view(canonical)),
{
    let ghost cv = res_view(canonical);
    let expanded = expand_key_path(key_path, home)?;
    let resolved = if first {
        let t = trim_chars(&chars_of(expanded.as_str()));
        if t.len() == 0 {
            Err(String::from_str("路径不能为空"))
        } else {
            match canonical {
                Ok(c) => Ok(c),
                Err(cause) => {
                    let mut e = String::from_str("路径无效: ");
                    e.append(cause.as_str());
                    Err(e)
                },
            }
        }
    } else {
        resolve_for_create(expanded.as_str(), answers, canonical)
    };
    match resolved {
        Ok(_) => Ok(()),
        Err(e) => Err(e),
    }
}

fn validate_key_path(key_path: &str) -> (r: Result<(), String>)
    ensures
        key_path_text_error(key_path@) matches Some(e) ==> unit_view(r) == Err::<(), Seq<char>>(e),
        exists|
            home: Option<Seq<char>>,
            first: bool,
            answers: Seq<bool>,
            canonical: Result<Seq<char>, Seq<char>>,
        |
            (canonical matches Ok(c) ==> path_is_absolute_spec(c)) && unit_view(r) == key_path_spec(
                key_path@,
                home,
                first,
                answers,
                canonical,
            ),
{
    let t = trim_chars(&chars_of(key_path));
    let tilde: [char; 1] = ['~'];
    let tilde_slash: [char; 2] = ['~', '/'];
    let needs = t.len() > 0 && (same_chars(&t, &tilde) || starts_with_chars(&t, &tilde_slash));
    let home = if needs {
        home_dir()
    } else {
        None
    };
    let ghost hv = opt_view(home);
    let (first, answers, canonical) = match expand_key_path(key_path, home.clone()) {
        Err(_) => (false, Vec::new(), Err(String::new())),
        Ok(x) => {
            if path_exists(x.as_str()) {
                let tx = trim_chars(&chars_of(x.as_str()));
                let c = if tx.len() == 0 {
                    Err(String::new())
                } else {
                    canonicalize_path(string_of(&tx).as_str())
                };
                (true, Vec::new(), c)
            } else {
                let (a, c) = ask_for_create(x.as_str());
                (false, a, c)
            }
        },
    };
    assert(res_view(canonical) matches Ok(c) ==> path_is_absolute_spec(c));
    key_path_verdict(key_path, home, first, &answers, canonical)
}

/// What checking a host gives: the first failing check on names, address,
/// port, user, password and the key path's text, in that order; then, for
/// a key path, what `key_path_spec` gives for the same answers.
pub open spec fn host_spec(
    h: Host,
    home: Option<Seq<char>>,
    first: bool,
    answers: Seq<bool>,
    canonical: Result<Seq<char>, Seq<char>>,
) -> Result<(), Seq<char>> {
    match host_text_error(h) {
        Some(e) => Err(e),
        None => match h.key_path {
            None => Ok(()),
            Some(k) => key_path_spec(k@, home, first, answers, canonical),
        },
    }
}

/// A host is accepted exactly when its checks that need no disk all pass
/// and, when it has a key path, the key-path check accepts it.
pub proof fn host_accepted_iff_checks_pass(
    h: Host,
    home: Option<Seq<char>>,
    first: bool,
    answers: Seq<bool>,
    canonical: Result<Seq<char>, Seq<char>>,
)
    ensures
        host_spec(h, home, first, answers, canonical) is Ok <==> (host_text_error(h) is None && (
        h.key_path matches Some(k) ==> key_path_spec(k@, home, first, answers, canonical) is Ok)),
{
}

/// Checks a host before it is stored or used. The checks on names,
/// address, port, user and password, and the text checks on the key path,
/// give exactly the first failure; a key path is then expanded against the
/// home directory, must be absolute, and is resolved on disk, with the
/// result `host_spec` gives for the answers the environment and the file
/// system gave (a canonical path being absolute).
pub fn validate_host(host: &Host) -> (r: Result<(), String>)
    ensures
        host_text_error(*host) matches Some(e) ==> unit_view(r) == Err::<(), Seq<char>>(e),
        host_text_error(*host) is None && host.key_path is None ==> r is Ok,
        r is Ok ==> host_text_error(*host) is None,
        exists|
            home: Option<Seq<char>>,
            first: bool,
            answers: Seq<bool>,
            canonical: Result<Seq<char>, Seq<char>>,
        |
            (canonical matches Ok(c) ==> path_is_absolute_spec(c)) && unit_view(r) == host_spec(
                *host,
                home,
                first,
                answers,
                canonical,
            ),
{
    let ghost none_ok = Err::<Seq<char>, Seq<char>>(seq![]);
    validate_name(host.name.as_str())?;
    validate_host_address(host.host.as_str())?;
    validate_port(host.port)?;
    validate_username(host.username.as_str())?;
    if let Some(p) = &host.password {
        validate_password(p.as_str())?;
    }
    if let Some(k) = &host.key_path {
        let r = validate_key_path(k.as_str());
        let ghost (home, first, answers, canonical) = choose|
            h: Option<Seq<char>>,
            f: bool,
            a: Seq<bool>,
            c: Result<Seq<char>, Seq<char>>,
        | (c matches Ok(z) ==> path_is_absolute_spec(z)) && unit_view(r) == key_path_spec(k@, h, f, a, c);
        assert(unit_view(r) == host_spec(*host, home, first, answers, canonical));
        return r;
    }
    assert(host_spec(*host, None, false, seq![], none_ok) == Ok::<(), Seq<char>>(()));
    Ok(())
}

} // verus!
