//! Path handling: local paths are normalised and checked before any file is
//! read or created, remote POSIX paths are joined and listed names cleaned,
//! and file names are checked against traversal.

use vstd::prelude::*;
use vstd::string::*;
use crate::text::{
    chars_of, concat_chars, contains_chars, contains_seq, drop_trailing, has_char,
    last_index_of, lemma_drop_trailing_at, lemma_last_index_of, rfind_char, same_chars,
    starts_with, starts_with_chars, string_of, sub_chars, trim, trim_chars, trim_end_char,
    trim_end_char_chars, trim_start_char, trim_start_char_chars,
};

verus! {

/// Views a `Result<String, String>` as character sequences.
pub open spec fn res_view(r: Result<String, String>) -> Result<Seq<char>, Seq<char>> {
    match r {
        Ok(s) => Ok(s@),
        Err(e) => Err(e@),
    }
}

pub open spec fn opt_view(o: Option<String>) -> Option<Seq<char>> {
    match o {
        Some(s) => Some(s@),
        None => None,
    }
}

pub open spec fn msg_empty_path() -> Seq<char> {
    "路径不能为空"@
}

pub open spec fn msg_no_home() -> Seq<char> {
    "无法获取用户主目录"@
}

pub open spec fn msg_bad_path() -> Seq<char> {
    "路径无效"@
}

pub open spec fn msg_unresolvable() -> Seq<char> {
    "无法解析路径"@
}

pub open spec fn msg_empty_filename() -> Seq<char> {
    "文件名不能为空"@
}

pub open spec fn msg_illegal_filename(name: Seq<char>) -> Seq<char> {
    "非法文件名: "@ + name
}

/// A Unix path is absolute when it starts at the root.
pub open spec fn is_absolute(p: Seq<char>) -> bool {
    p.len() > 0 && p[0] == '/'
}

/// `PathBuf::join` on Unix: an absolute `rest` replaces `base`; otherwise
/// `rest` is appended after a separator, unless `base` is empty or already
/// ends in one.
pub open spec fn path_join(base: Seq<char>, rest: Seq<char>) -> Seq<char> {
    if is_absolute(rest) {
        rest
    } else if base.len() == 0 {
        rest
    } else if base.last() == '/' {
        base + rest
    } else {
        base + seq!['/'] + rest
    }
}

pub fn join_path(base: &str, rest: &str) -> (r: String)
    ensures
        r@ == path_join(base@, rest@),
{
    let b = chars_of(base);
    let t = chars_of(rest);
    if t.len() > 0 && t[0] == '/' {
        return string_of(&t);
    }
    if b.len() == 0 {
        return string_of(&t);
    }
    if b[b.len() - 1] == '/' {
        let j = concat_chars(&b, &t);
        return string_of(&j);
    }
    let sep: [char; 1] = ['/'];
    let bs = concat_chars(&b, &sep);
    let j = concat_chars(&bs, &t);
    string_of(&j)
}

/// `dirs::home_dir`: the current user's home directory, if the environment
/// reveals one. Nothing is promised about the value: it comes from the
/// environment of the running process.
#[verifier::external_body]
pub(crate) fn home_dir() -> (r: Option<String>) {
    dirs::home_dir().map(|p| p.to_string_lossy().into_owned())
}

/// What expanding a leading `~` gives, when the home directory is `home`.
pub open spec fn expand_tilde_spec(path: Seq<char>, home: Option<Seq<char>>) -> Result<
    Seq<char>,
    Seq<char>,
> {
    let p = trim(path);
    if p.len() == 0 {
        Err(msg_empty_path())
    } else if p == seq!['~'] {
        match home {
            Some(h) => Ok(h),
            None => Err(msg_no_home()),
        }
    } else if starts_with(p, seq!['~', '/']) {
        match home {
            Some(h) => Ok(path_join(h, p.skip(2))),
            None => Err(msg_no_home()),
        }
    } else {
        Ok(p)
    }
}

/// Whether expanding `path` needs the home directory at all.
pub open spec fn tilde_needs_home(path: Seq<char>) -> bool {
    let p = trim(path);
    p.len() > 0 && (p == seq!['~'] || starts_with(p, seq!['~', '/']))
}

/// Expands a leading `~` or `~/` of `path` (after trimming) against `home`.
pub fn expand_tilde_with_home(path: &str, home: Option<String>) -> (r: Result<String, String>)
    ensures
        res_view(r) == expand_tilde_spec(path@, opt_view(home)),
{
    let p = trim_chars(&chars_of(path));
    if p.len() == 0 {
        return Err(String::from_str("路径不能为空"));
    }
    let tilde: [char; 1] = ['~'];
    let tilde_slash: [char; 2] = ['~', '/'];
    let is_home = same_chars(&p, &tilde);
    let under_home = starts_with_chars(&p, &tilde_slash);
    proof {
        assert(tilde@ =~= seq!['~']);
        assert(tilde_slash@ =~= seq!['~', '/']);
    }
    if is_home || under_home {
        match home {
            None => Err(String::from_str("无法获取用户主目录")),
            Some(h) => {
                if is_home {
                    Ok(h)
                } else {
                    let rest = string_of(&sub_chars(&p, 2, p.len()));
                    assert(rest@ =~= p@.skip(2));
                    Ok(join_path(h.as_str(), rest.as_str()))
                }
            },
        }
    } else {
        Ok(string_of(&p))
    }
}

/// Expands a leading `~` (alone) or `~/` to the user's home directory.
/// The home directory is looked up only when the path needs it.
pub fn expand_tilde_path(path: &str) -> (r: Result<String, String>)
    ensures
        !tilde_needs_home(path@) ==> res_view(r) == expand_tilde_spec(path@, None),
        exists|h: Option<Seq<char>>| res_view(r) == expand_tilde_spec(path@, h),
{
    let p = trim_chars(&chars_of(path));
    let tilde: [char; 1] = ['~'];
    let tilde_slash: [char; 2] = ['~', '/'];
    proof {
        assert(tilde@ =~= seq!['~']);
        assert(tilde_slash@ =~= seq!['~', '/']);
    }
    let needs = p.len() > 0 && (same_chars(&p, &tilde) || starts_with_chars(&p, &tilde_slash));
    let home = if needs {
        home_dir()
    } else {
        None
    };
    let r = expand_tilde_with_home(path, home);
    assert(res_view(r) == expand_tilde_spec(path@, opt_view(home)));
    r
}

/// What `Path::is_absolute` answers for a path, by its characters, on the
/// target the library is built for.
pub uninterp spec fn path_is_absolute_spec(p: Seq<char>) -> bool;

/// `Path::is_absolute`: whether the path is independent of the current
/// directory (on Unix, it starts at the root; on Windows, it has a prefix
/// and a root). Only the name of the answer is stated.
#[verifier::external_body]
pub(crate) fn path_is_absolute(p: &str) -> (r: bool)
    ensures
        r == path_is_absolute_spec(p@),
{
    std::path::Path::new(p).is_absolute()
}

/// `Path::canonicalize`: the absolute form of an existing path, with every
/// symbolic link resolved, or the text of the I/O error. What it returns
/// depends on the file system; the only fact stated is the one its
/// documentation gives, that a path it returns is absolute.
#[verifier::external_body]
pub(crate) fn canonicalize_path(p: &str) -> (r: Result<String, String>)
    ensures
        r matches Ok(s) ==> path_is_absolute_spec(s@),
{
    std::path::Path::new(p).canonicalize().map(|b| b.to_string_lossy().into_owned()).map_err(
        |e| e.to_string(),
    )
}

pub open spec fn msg_invalid_path(cause: Seq<char>) -> Seq<char> {
    "路径无效: "@ + cause
}

/// What a canonicalisation outcome becomes: a path is kept, and the cause
/// of a failure is reported as an invalid path.
pub open spec fn canon_checked_spec(o: Result<Seq<char>, Seq<char>>) -> Result<Seq<char>, Seq<char>> {
    match o {
        Ok(s) => Ok(s),
        Err(cause) => Err(msg_invalid_path(cause)),
    }
}

/// `Path::exists`: whether the path names something on disk now. Nothing is
/// promised: the answer depends on the file system.
#[verifier::external_body]
pub(crate) fn path_exists(p: &str) -> (r: bool) {
    std::path::Path::new(p).exists()
}

/// What `Path::parent` returns for a path, by its characters.
pub uninterp spec fn parent_spec(p: Seq<char>) -> Option<Seq<char>>;

/// What `Path::strip_prefix` returns for a path and a base, by their characters.
pub uninterp spec fn strip_prefix_spec(p: Seq<char>, base: Seq<char>) -> Option<Seq<char>>;

/// `Path::parent`: the path without its final component (`None` at a root
/// or for the empty path). Stated: the result is named by `parent_spec`,
/// and it is a strictly shorter prefix of the path, since a component of at
/// least one character is removed from the end.
#[verifier::external_body]
fn path_parent(p: &str) -> (r: Option<String>)
    ensures
        opt_view(r) == parent_spec(p@),
        r matches Some(q) ==> q@.len() < p@.len() && q@ == p@.take(q@.len() as int),
{
    std::path::Path::new(p).parent().map(|q| q.to_string_lossy().into_owned())
}

/// `Path::strip_prefix`: the part of `p` after the components of `base`,
/// `None` when `base` is not a component prefix of `p`. Only its name is stated.
#[verifier::external_body]
fn path_strip_prefix(p: &str, base: &str) -> (r: Option<String>)
    ensures
        opt_view(r) == strip_prefix_spec(p@, base@),
{
    std::path::Path::new(p).strip_prefix(base).ok().map(|q| q.to_string_lossy().into_owned())
}

/// What reading a path gives when canonicalising its trimmed form had the
/// outcome `canonical`: an empty path is refused, a failure is an invalid
/// path, and a canonical path is returned.
pub open spec fn validate_spec(path: Seq<char>, canonical: Result<Seq<char>, Seq<char>>) -> Result<
    Seq<char>,
    Seq<char>,
> {
    let t = trim(path);
    if t.len() == 0 {
        Err(msg_empty_path())
    } else {
        canon_checked_spec(canonical)
    }
}

/// Canonicalises an existing path for reading: the trimmed path must not be
/// empty. The result is what `validate_spec` gives for the outcome of the
/// one canonicalisation made, and a path returned is absolute.
pub fn normalize_and_validate(path: &str) -> (r: Result<String, String>)
    ensures
        trim(path@).len() == 0 ==> res_view(r) == Err::<Seq<char>, Seq<char>>(msg_empty_path()),
        r matches Ok(s) ==> trim(path@).len() > 0 && path_is_absolute_spec(s@),
        exists|canonical: Result<Seq<char>, Seq<char>>|
            (canonical matches Ok(c) ==> path_is_absolute_spec(c)) && res_view(r) == validate_spec(
                path@,
                canonical,
            ),
{
    let p = trim_chars(&chars_of(path));
    if p.len() == 0 {
        let r = Err(String::from_str("路径不能为空"));
        assert(res_view(r) == validate_spec(path@, Err::<Seq<char>, Seq<char>>(seq![])));
        return r;
    }
    let ps = string_of(&p);
    let c = canonicalize_path(ps.as_str());
    let ghost o = res_view(c);
    let r = match c {
        Ok(s) => Ok(s),
        Err(cause) => {
            let mut e = String::from_str("路径无效: ");
            e.append(cause.as_str());
            Err(e)
        },
    };
    assert(res_view(r) == validate_spec(path@, o));
    r
}

/// A remainder that contains a `..` component.
pub open spec fn has_parent_component(rem: Seq<char>) -> bool {
    contains_seq(seq!['/'] + rem + seq!['/'], seq!['/', '.', '.', '/'])
}

/// The path a creation targets, once its longest existing ancestor
/// `ancestor` is known to canonicalise to `canonical_ancestor`: the part of
/// `path` below the ancestor, joined onto the canonical ancestor. A
/// remainder that is absolute or climbs with `..` would leave the ancestor
/// and is refused.
pub open spec fn rebase_spec(path: Seq<char>, ancestor: Seq<char>, canonical_ancestor: Seq<char>) -> Result<
    Seq<char>,
    Seq<char>,
> {
    match strip_prefix_spec(path, ancestor) {
        Some(rem) => if is_absolute(rem) || has_parent_component(rem) {
            Err(msg_bad_path())
        } else {
            Ok(path_join(canonical_ancestor, rem))
        },
        None => Err(msg_bad_path()),
    }
}

pub fn rebase_path(path: &str, ancestor: &str, canonical_ancestor: &str) -> (r: Result<String, String>)
    ensures
        res_view(r) == rebase_spec(path@, ancestor@, canonical_ancestor@),
{
    match path_strip_prefix(path, ancestor) {
        Some(rem) => {
            let rc = chars_of(rem.as_str());
            let sep: [char; 1] = ['/'];
            let up: [char; 4] = ['/', '.', '.', '/'];
            let framed = concat_chars(&concat_chars(&sep, &rc), &sep);
            proof {
                assert(sep@ =~= seq!['/']);
                assert(up@ =~= seq!['/', '.', '.', '/']);
                assert(framed@ =~= seq!['/'] + rem@ + seq!['/']);
            }
            if (rc.len() > 0 && rc[0] == '/') || contains_chars(&framed, &up) {
                Err(String::from_str("路径无效"))
            } else {
                Ok(join_path(canonical_ancestor, rem.as_str()))
            }
        },
        None => Err(String::from_str("路径无效")),
    }
}

/// A path that `rebase_path` returns stays under the canonical ancestor:
/// it starts with it, and the rest holds no `..` component.
pub proof fn rebase_stays_under_ancestor(path: Seq<char>, ancestor: Seq<char>, canonical_ancestor: Seq<char>)
    requires
        rebase_spec(path, ancestor, canonical_ancestor) is Ok,
    ensures
        ({
            let r = rebase_spec(path, ancestor, canonical_ancestor)->Ok_0;
            let rem = strip_prefix_spec(path, ancestor)->0;
            &&& r.take(canonical_ancestor.len() as int) == canonical_ancestor
            &&& r.skip(r.len() - rem.len()) == rem
            &&& !has_parent_component(rem)
        }),
{
    let r = rebase_spec(path, ancestor, canonical_ancestor)->Ok_0;
    let rem = strip_prefix_spec(path, ancestor)->0;
    let c = canonical_ancestor;
    if c.len() == 0 {
        assert(r =~= rem);
        assert(r.take(0) =~= c);
        assert(r.skip(0) =~= rem);
    } else {
        assert(r.take(c.len() as int) =~= c);
        assert(r.skip(r.len() - rem.len()) =~= rem);
    }
}

/// Climbing from `cur`, the ancestor `k` levels above the trimmed `path`,
/// towards the root: `answers[k + 1]` says whether the next parent is on
/// disk. The first parent found there (whose canonicalisation had the
/// outcome `canonical`) is the one the path is rebased onto; running out
/// of parents, or of answers, is an error.
pub open spec fn climb_spec(
    path: Seq<char>,
    cur: Seq<char>,
    answers: Seq<bool>,
    k: nat,
    canonical: Result<Seq<char>, Seq<char>>,
) -> Result<Seq<char>, Seq<char>>
    decreases cur.len(),
{
    match parent_spec(cur) {
        Some(parent) => if parent.len() < cur.len() && k + 1 < answers.len() {
            if answers[k + 1 as int] {
                match canonical {
                    Ok(base) => rebase_spec(path, parent, base),
                    Err(cause) => Err(msg_invalid_path(cause)),
                }
            } else {
                climb_spec(path, parent, answers, k + 1, canonical)
            }
        } else {
            Err(msg_unresolvable())
        },
        None => Err(msg_unresolvable()),
    }
}

/// What normalising a path for creation gives, when `answers` are the file
/// system's answers to "is it on disk?" for the trimmed path and then for
/// its parents in turn, and `canonical` is the outcome of canonicalising
/// the first of them found on disk: an empty path is refused; a path on
/// disk is canonicalised; otherwise the path is rebased onto its nearest
/// ancestor on disk.
pub open spec fn create_spec(
    path: Seq<char>,
    answers: Seq<bool>,
    canonical: Result<Seq<char>, Seq<char>>,
) -> Result<Seq<char>, Seq<char>> {
    let t = trim(path);
    if t.len() == 0 {
        Err(msg_empty_path())
    } else if answers.len() > 0 && answers[0] {
        canon_checked_spec(canonical)
    } else {
        climb_spec(t, t, answers, 0, canonical)
    }
}

/// Decides where a creation lands, from the file system's answers: whether
/// the trimmed path is on disk (`answers[0]`), then whether each parent in
/// turn is, and the outcome of canonicalising the first found there.
pub fn resolve_for_create(path: &str, answers: &Vec<bool>, canonical: Result<String, String>) -> (r:
    Result<String, String>)
    ensures
        res_view(r) == create_spec(path@, answers@, res_view(canonical)),
{
    let ghost cv = res_view(canonical);
    let pc = trim_chars(&chars_of(path));
    if pc.len() == 0 {
        return Err(String::from_str("路径不能为空"));
    }
    let p = string_of(&pc);
    let ghost t = trim(path@);
    if answers.len() > 0 && answers[0] {
        return match canonical {
            Ok(s) => Ok(s),
            Err(cause) => {
                let mut e = String::from_str("路径无效: ");
                e.append(cause.as_str());
                Err(e)
            },
        };
    }
    let mut current = p.clone();
    let mut k: usize = 0;
    loop
        invariant
            p@ == t,
            t == trim(path@),
            t.len() > 0,
            !(answers@.len() > 0 && answers@[0]),
            cv == res_view(canonical),
            k <= answers@.len(),
            climb_spec(t, t, answers@, 0, cv) == climb_spec(t, current@, answers@, k as nat, cv),
        decreases current@.len(),
    {
        match path_parent(current.as_str()) {
            Some(parent) => {
                if answers.len() - k <= 1 {
                    return Err(String::from_str("无法解析路径"));
                }
                if answers[k + 1] {
                    return match canonical {
                        Ok(base) => rebase_path(p.as_str(), parent.as_str(), base.as_str()),
                        Err(cause) => {
                            let mut e = String::from_str("路径无效: ");
                            e.append(cause.as_str());
                            Err(e)
                        },
                    };
                }
                current = parent;
                k = k + 1;
            },
            None => {
                return Err(String::from_str("无法解析路径"));
            },
        }
    }
}

/// Asks the file system what normalising `path` for creation needs to
/// know: whether the trimmed path is on disk, then whether each parent in
/// turn is, until one is; and the outcome of canonicalising the one found.
/// A path it returns as canonical is absolute.
pub(crate) fn ask_for_create(path: &str) -> (r: (Vec<bool>, Result<String, String>))
    ensures
        r.1 matches Ok(c) ==> path_is_absolute_spec(c@),
{
    let pc = trim_chars(&chars_of(path));
    let p = string_of(&pc);
    let mut answers: Vec<bool> = Vec::new();
    let mut target: Option<String> = None;
    if pc.len() > 0 {
        let here = path_exists(p.as_str());
        answers.push(here);
        if here {
            target = Some(p.clone());
        } else {
            let mut current = p.clone();
            loop
                decreases current@.len(),
            {
                match path_parent(current.as_str()) {
                    Some(parent) => {
                        let found = path_exists(parent.as_str());
                        answers.push(found);
                        if found {
                            target = Some(parent);
                            break;
                        }
                        current = parent;
                    },
                    None => {
                        break;
                    },
                }
            }
        }
    }
    let canonical = match target {
        Some(q) => canonicalize_path(q.as_str()),
        None => Err(String::new()),
    };
    (answers, canonical)
}

/// Normalises a path that may not exist yet, for creation: an existing path
/// is canonicalised; otherwise its nearest existing ancestor is
/// canonicalised and the rest of the path is joined onto it. The file
/// system is asked about the trimmed path, then about each parent in turn
/// until one is on disk, and that one is canonicalised; the result is what
/// `resolve_for_create` decides from those answers. A path returned starts
/// with a canonical, absolute path.
pub fn normalize_path_for_create(path: &str) -> (r: Result<String, String>)
    ensures
        trim(path@).len() == 0 ==> res_view(r) == Err::<Seq<char>, Seq<char>>(msg_empty_path()),
        exists|answers: Seq<bool>, canonical: Result<Seq<char>, Seq<char>>|
            (canonical matches Ok(c) ==> path_is_absolute_spec(c)) && res_view(r) == create_spec(
                path@,
                answers,
                canonical,
            ),
        r matches Ok(s) ==> exists|c: Seq<char>|
            path_is_absolute_spec(c) && #[trigger] s@.take(c.len() as int) == c,
{
    let (answers, canonical) = ask_for_create(path);
    let ghost cv = res_view(canonical);
    assert(cv matches Ok(c) ==> path_is_absolute_spec(c));
    let r = resolve_for_create(path, &answers, canonical);
    proof {
        if r is Ok {
            create_starts_with_canonical(path@, answers@, cv);
        }
    }
    r
}

/// What `climb_spec` returns on success is a rebase onto the canonical
/// ancestor, so it starts with it.
proof fn climb_starts_with_canonical(
    path: Seq<char>,
    cur: Seq<char>,
    answers: Seq<bool>,
    k: nat,
    canonical: Result<Seq<char>, Seq<char>>,
)
    requires
        climb_spec(path, cur, answers, k, canonical) is Ok,
    ensures
        canonical is Ok,
        ({
            let s = climb_spec(path, cur, answers, k, canonical)->Ok_0;
            let c = canonical->Ok_0;
            &&& s.take(c.len() as int) == c
            &&& exists|a: Seq<char>| #[trigger] rebase_spec(path, a, c) == Ok::<Seq<char>, Seq<char>>(s)
        }),
    decreases cur.len(),
{
    let parent = parent_spec(cur)->0;
    if answers[k + 1 as int] {
        rebase_stays_under_ancestor(path, parent, canonical->Ok_0);
    } else {
        climb_starts_with_canonical(path, parent, answers, k + 1, canonical);
    }
}

/// A path that normalising for creation returns never escapes: it is the
/// canonical form of the path itself, or it is the path's remainder below
/// an ancestor, free of `..` and not absolute, joined under that
/// ancestor's canonical form. Either way it starts with the canonical path.
pub proof fn create_starts_with_canonical(path: Seq<char>, answers: Seq<bool>, canonical: Result<Seq<char>, Seq<char>>)
    requires
        create_spec(path, answers, canonical) is Ok,
    ensures
        canonical is Ok,
        ({
            let s = create_spec(path, answers, canonical)->Ok_0;
            let c = canonical->Ok_0;
            &&& s.take(c.len() as int) == c
            &&& s == c || exists|a: Seq<char>| #[trigger] rebase_spec(trim(path), a, c) == Ok::<
                Seq<char>,
                Seq<char>,
            >(s)
        }),
{
    let t = trim(path);
    if answers.len() > 0 && answers[0] {
        let c = canonical->Ok_0;
        assert(c.take(c.len() as int) =~= c);
    } else {
        climb_starts_with_canonical(t, t, answers, 0, canonical);
    }
}

// ---------------------------------------------------------------------
// Remote POSIX paths and listed names.
// ---------------------------------------------------------------------

/// `parent` and `name` joined by exactly one `/`: separators at the end of
/// `parent` and at the start of `name` are dropped first, and an empty
/// parent stands for the root.
pub open spec fn join_remote_spec(parent: Seq<char>, name: Seq<char>) -> Seq<char> {
    let n = trim_start_char(name, '/');
    let p = trim_end_char(parent, '/');
    if p.len() == 0 {
        seq!['/'] + n
    } else {
        p + seq!['/'] + n
    }
}

/// Joins a remote directory and an entry name.
pub fn join_remote_path(parent: &str, name: &str) -> (r: String)
    ensures
        r@ == join_remote_spec(parent@, name@),
{
    let n = trim_start_char_chars(&chars_of(name), '/');
    let p = trim_end_char_chars(&chars_of(parent), '/');
    let sep: [char; 1] = ['/'];
    assert(sep@ =~= seq!['/']);
    if p.len() == 0 {
        string_of(&concat_chars(&sep, &n))
    } else {
        let ps = concat_chars(&p, &sep);
        string_of(&concat_chars(&ps, &n))
    }
}

pub proof fn lemma_drop_trailing_prefix(s: Seq<char>, x: char)
    ensures
        trim_end_char(s, x) == s.take(trim_end_char(s, x).len() as int),
        trim_end_char(s, x).len() <= s.len(),
    decreases s.len(),
{
    if s.len() > 0 && s.last() == x {
        lemma_drop_trailing_prefix(s.drop_last(), x);
        let t = trim_end_char(s.drop_last(), x);
        assert(s.drop_last().take(t.len() as int) =~= s.take(t.len() as int));
    } else {
        assert(s.take(s.len() as int) =~= s);
    }
}

/// Joining under a parent that starts at the root never yields a relative
/// path: the result starts with `/`, and keeps the parent (without its
/// trailing separators) as its prefix.
pub proof fn join_remote_keeps_root(parent: Seq<char>, name: Seq<char>)
    requires
        is_absolute(parent),
    ensures
        is_absolute(join_remote_spec(parent, name)),
        join_remote_spec(parent, name).take(trim_end_char(parent, '/').len() as int)
            == trim_end_char(parent, '/'),
{
    lemma_drop_trailing_prefix(parent, '/');
    let p = trim_end_char(parent, '/');
    if p.len() > 0 {
        assert(p[0] == parent[0]);
        let r = join_remote_spec(parent, name);
        assert(r.take(p.len() as int) =~= p);
    } else {
        assert(join_remote_spec(parent, name).take(0) =~= p);
    }
}

pub open spec fn is_slash_or_backslash() -> spec_fn(char) -> bool {
    |c: char| c == '/' || c == '\\'
}

pub open spec fn arrow() -> Seq<char> {
    seq![' ', '-', '>', ' ']
}

/// The name shown for a raw listed name: trimmed, with trailing `/` and `\`
/// dropped; a symbolic-link line (holding ` -> `) is kept whole; otherwise
/// the part after the last `/` (else the last `\`) is kept.
pub open spec fn display_name_spec(raw: Seq<char>) -> Seq<char> {
    let s = drop_trailing(trim(raw), is_slash_or_backslash());
    if s.len() == 0 {
        seq![]
    } else if contains_seq(s, arrow()) {
        s
    } else if s.contains('/') {
        s.skip(last_index_of(s, '/')->0 + 1)
    } else if s.contains('\\') {
        s.skip(last_index_of(s, '\\')->0 + 1)
    } else {
        s
    }
}

/// Drops trailing `/` and `\` characters.
fn trim_end_separators(v: &[char]) -> (r: Vec<char>)
    ensures
        r@ == drop_trailing(v@, is_slash_or_backslash()),
{
    let mut j: usize = v.len();
    while j > 0 && (v[j - 1] == '/' || v[j - 1] == '\\')
        invariant
            j <= v.len(),
            forall|k: int| j <= k < v.len() ==> (is_slash_or_backslash())(#[trigger] v@[k]),
        decreases j,
    {
        j -= 1;
    }
    proof {
        lemma_drop_trailing_at(v@, is_slash_or_backslash(), j as int);
    }
    sub_chars(v, 0, j)
}

/// The last path segment of a name as a remote listing returns it.
pub fn remote_list_entry_display_name(raw: &str) -> (r: String)
    ensures
        r@ == display_name_spec(raw@),
{
    let s = trim_end_separators(&trim_chars(&chars_of(raw)));
    if s.len() == 0 {
        return String::new();
    }
    let arrow_chars: [char; 4] = [' ', '-', '>', ' '];
    assert(arrow_chars@ =~= arrow());
    if contains_chars(&s, &arrow_chars) {
        return string_of(&s);
    }
    if has_char(&s, '/') {
        proof {
            lemma_last_index_of(s@, '/');
        }
        match rfind_char(&s, '/') {
            Some(i) => {
                return string_of(&sub_chars(&s, i + 1, s.len()));
            },
            None => {
                return string_of(&s);
            },
        }
    }
    if has_char(&s, '\\') {
        proof {
            lemma_last_index_of(s@, '\\');
        }
        match rfind_char(&s, '\\') {
            Some(i) => {
                return string_of(&sub_chars(&s, i + 1, s.len()));
            },
            None => {
                return string_of(&s);
            },
        }
    }
    string_of(&s)
}

/// A file name that can be joined under a directory without leaving it:
/// not empty, no `..` anywhere, no `/` or `\`, and not `.` itself.
pub open spec fn is_safe_filename(name: Seq<char>) -> bool {
    &&& name.len() > 0
    &&& !contains_seq(name, seq!['.', '.'])
    &&& !name.contains('/')
    &&& !name.contains('\\')
    &&& name != seq!['.']
    &&& name != seq!['.', '.']
}

pub open spec fn sanitize_spec(name: Seq<char>) -> Result<Seq<char>, Seq<char>> {
    if name.len() == 0 {
        Err(msg_empty_filename())
    } else if is_safe_filename(name) {
        Ok(name)
    } else {
        Err(msg_illegal_filename(name))
    }
}

/// Checks a file name against path traversal.
pub fn sanitize_filename(name: &str) -> (r: Result<String, String>)
    ensures
        res_view(r) == sanitize_spec(name@),
{
    let v = chars_of(name);
    if v.len() == 0 {
        return Err(String::from_str("文件名不能为空"));
    }
    let dots: [char; 2] = ['.', '.'];
    let dot: [char; 1] = ['.'];
    assert(dots@ =~= seq!['.', '.']);
    assert(dot@ =~= seq!['.']);
    if contains_chars(&v, &dots) || has_char(&v, '/') || has_char(&v, '\\') || same_chars(&v, &dot)
        || same_chars(&v, &dots) {
        let mut msg = String::from_str("非法文件名: ");
        msg.append(name);
        return Err(msg);
    }
    Ok(string_of(&v))
}

/// What `safe_join` gives: the checked name joined under `base`.
pub open spec fn safe_join_spec(base: Seq<char>, name: Seq<char>) -> Result<Seq<char>, Seq<char>> {
    match sanitize_spec(name) {
        Ok(n) => Ok(path_join(base, n)),
        Err(e) => Err(e),
    }
}

/// Joins a checked file name under an already validated base directory.
pub fn safe_join(base: &str, name: &str) -> (r: Result<String, String>)
    ensures
        res_view(r) == safe_join_spec(base@, name@),
{
    let sanitized = sanitize_filename(name)?;
    Ok(join_path(base, sanitized.as_str()))
}

/// A name accepted by `safe_join` never escapes the base: the joined path
/// is the base, a separator where the base lacks one, and the name as one
/// final component holding no separator.
pub proof fn safe_join_stays_under_base(base: Seq<char>, name: Seq<char>)
    requires
        safe_join_spec(base, name) is Ok,
    ensures
        ({
            let r = safe_join_spec(base, name)->Ok_0;
            &&& r.take(base.len() as int) == base
            &&& r.skip(r.len() - name.len()) == name
            &&& !name.contains('/')
            &&& r.len() == base.len() + name.len() || (r.len() == base.len() + 1 + name.len()
                && r[base.len() as int] == '/')
        }),
{
    let r = safe_join_spec(base, name)->Ok_0;
    assert(!is_absolute(name));
    if base.len() == 0 {
        assert(r =~= name);
        assert(r.take(0) =~= base);
        assert(r.skip(0) =~= name);
    } else if base.last() == '/' {
        assert(r.take(base.len() as int) =~= base);
        assert(r.skip(r.len() - name.len()) =~= name);
    } else {
        assert(r.take(base.len() as int) =~= base);
        assert(r.skip(r.len() - name.len()) =~= name);
    }
}

} // verus!
