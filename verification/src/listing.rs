//! Reading remote directory listings: `LIST` lines from FTP servers and
//! `ls -l` lines from OpenSSH's `sftp`, splitting remote paths, quoting
//! arguments for `sftp` batch commands, and sizing SFTP packets.

use vstd::prelude::*;
use vstd::string::*;
use crate::connection::{entries_view, FileEntry, FileEntryView};
use crate::path::{
    display_name_spec, join_remote_path, join_remote_spec, lemma_drop_trailing_prefix, opt_view,
    remote_list_entry_display_name, res_view,
};
use crate::text::{
    IntErrorKind,
    chars_of, concat_chars, contains_seq, has_char, join_spaced, join_words_from, last_index_of,
    lemma_last_index_of, occurs_at, parse_u64, parse_u64_spec, rfind_char, same_chars,
    split_words, string_of, sub_chars, trim, trim_chars, trim_end_char, trim_end_char_chars,
    trim_start_char, words,
};

verus! {

/// The words from index `from` on, joined by single spaces.
pub open spec fn tail_joined(parts: Seq<Seq<char>>, from: int) -> Seq<char> {
    join_spaced(parts.skip(from))
}

/// Month, day and time (or year) of a long listing, joined by spaces.
pub open spec fn modified_text(parts: Seq<Seq<char>>) -> Seq<char> {
    parts[5] + seq![' '] + parts[6] + seq![' '] + parts[7]
}

pub open spec fn is_dot_name(name: Seq<char>) -> bool {
    name == seq!['.'] || name == seq!['.', '.']
}

/// The entry an FTP `LIST` line describes under `parent`: at least nine
/// words (mode, links, owner, group, size, month, day, time, name...); the
/// name is the rest of the line from the ninth word, reduced to its last
/// segment; `.` and `..` and empty names give nothing; an unreadable size
/// counts as zero.
pub open spec fn ftp_entry_spec(line: Seq<char>, parent: Seq<char>) -> Option<FileEntryView> {
    let parts = words(line);
    if parts.len() < 9 {
        None
    } else {
        let name = display_name_spec(tail_joined(parts, 8));
        if name.len() == 0 || is_dot_name(name) {
            None
        } else {
            Some(
                FileEntryView {
                    name: name,
                    path: join_remote_spec(parent, name),
                    is_dir: line.len() > 0 && line[0] == 'd',
                    size: match parse_u64_spec(parts[4]) {
                        Ok(n) => n,
                        Err(_) => 0,
                    },
                    modified: Some(modified_text(parts)),
                },
            )
        }
    }
}

/// Every named entry of an FTP `LIST` line is kept, dotfiles included: a
/// line of at least nine words whose name (the rest of the line from the
/// ninth word, reduced to its last segment) is neither empty nor `.` nor
/// `..` gives an entry with exactly that name, at that name under
/// `parent`; no other line gives one.
pub proof fn ftp_entry_kept_iff_named(line: Seq<char>, parent: Seq<char>)
    ensures
        ({
            let parts = words(line);
            let name = display_name_spec(join_spaced(parts.skip(8)));
            (parts.len() >= 9 && name.len() > 0 && name != seq!['.'] && name != seq!['.', '.'])
                <==> ftp_entry_spec(line, parent) is Some
        }),
        ftp_entry_spec(line, parent) matches Some(e) ==> e.name == display_name_spec(
            join_spaced(words(line).skip(8)),
        ) && e.path == join_remote_spec(parent, e.name) && e.is_dir == (line.len() > 0 && line[0]
            == 'd'),
{
}

pub open spec fn opt_entry_view(e: Option<FileEntry>) -> Option<FileEntryView> {
    match e {
        Some(x) => Some(x@),
        None => None,
    }
}

proof fn lemma_words_view(parts: Seq<Vec<char>>, line: Seq<char>)
    requires
        parts.len() == words(line).len(),
        forall|k: int| 0 <= k < parts.len() ==> #[trigger] parts[k]@ == words(line)[k],
    ensures
        parts.map_values(|w: Vec<char>| w@) == words(line),
{
    assert(parts.map_values(|w: Vec<char>| w@) =~= words(line));
}

fn modified_of(parts: &Vec<Vec<char>>) -> (r: String)
    requires
        parts@.len() >= 9,
    ensures
        r@ == modified_text(parts@.map_values(|w: Vec<char>| w@)),
{
    let sp: [char; 1] = [' '];
    let a = concat_chars(&parts[5], &sp);
    let b = concat_chars(&a, &parts[6]);
    let c = concat_chars(&b, &sp);
    let d = concat_chars(&c, &parts[7]);
    let ghost pv = parts@.map_values(|w: Vec<char>| w@);
    assert(d@ =~= modified_text(pv));
    string_of(&d)
}

/// Reads one line of an FTP `LIST` reply.
pub fn parse_ftp_list_entry(line: &str, parent_path: &str) -> (r: Option<FileEntry>)
    ensures
        opt_entry_view(r) == ftp_entry_spec(line@, parent_path@),
{
    let lc = chars_of(line);
    let parts = split_words(&lc);
    proof {
        lemma_words_view(parts@, line@);
    }
    let ghost pv = parts@.map_values(|w: Vec<char>| w@);
    if parts.len() < 9 {
        return None;
    }
    proof {
        assert(parts@.skip(8).map_values(|w: Vec<char>| w@) =~= pv.skip(8));
    }
    let raw = string_of(&join_words_from(&parts, 8));
    let name = remote_list_entry_display_name(raw.as_str());
    let nc = chars_of(name.as_str());
    let dot: [char; 1] = ['.'];
    let dots: [char; 2] = ['.', '.'];
    assert(dot@ =~= seq!['.']);
    assert(dots@ =~= seq!['.', '.']);
    if nc.len() == 0 || same_chars(&nc, &dot) || same_chars(&nc, &dots) {
        return None;
    }
    let is_dir = lc.len() > 0 && lc[0] == 'd';
    let size: u64 = match parse_u64(&parts[4]) {
        Ok(n) => n,
        Err(_) => 0,
    };
    let path = join_remote_path(parent_path, name.as_str());
    let modified = modified_of(&parts);
    let e = FileEntry { name, path, is_dir, size, modified: Some(modified) };
    assert(e@ == ftp_entry_spec(line@, parent_path@)->0);
    Some(e)
}

/// The entries of an FTP `LIST` reply for `parent`, in order; lines that
/// describe none are skipped.
pub open spec fn ftp_entries(lines: Seq<Seq<char>>, parent: Seq<char>) -> Seq<FileEntryView>
    decreases lines.len(),
{
    if lines.len() == 0 {
        Seq::empty()
    } else {
        let prev = ftp_entries(lines.drop_last(), parent);
        match ftp_entry_spec(lines.last(), parent) {
            Some(e) => prev.push(e),
            None => prev,
        }
    }
}

/// Reads every line of an FTP `LIST` reply for directory `parent`.
pub fn ftp_list_entries(lines: &Vec<String>, parent: &str) -> (r: Vec<FileEntry>)
    ensures
        entries_view(r@) == ftp_entries(lines@.map_values(|l: String| l@), parent@),
{
    let ghost lv = lines@.map_values(|l: String| l@);
    let mut files: Vec<FileEntry> = Vec::new();
    let mut i: usize = 0;
    assert(lv.take(0) =~= Seq::<Seq<char>>::empty());
    assert(entries_view(files@) =~= Seq::<FileEntryView>::empty());
    while i < lines.len()
        invariant
            i <= lines@.len(),
            lv == lines@.map_values(|l: String| l@),
            entries_view(files@) == ftp_entries(lv.take(i as int), parent@),
        decreases lines.len() - i,
    {
        proof {
            assert(lv.take(i + 1).drop_last() =~= lv.take(i as int));
            assert(lv.take(i + 1).last() == lines@[i as int]@);
        }
        let ghost before = files@;
        match parse_ftp_list_entry(lines[i].as_str(), parent) {
            Some(e) => {
                files.push(e);
                assert(entries_view(files@) =~= entries_view(before).push(e@));
            },
            None => {},
        }
        i += 1;
    }
    assert(lv.take(lines@.len() as int) =~= lv);
    files
}

/// Whether a listing holds a file (not a directory) called `name`.
pub fn listing_has_file(entries: &Vec<FileEntry>, name: &str) -> (r: bool)
    ensures
        r == exists|i: int| 0 <= i < entries@.len() && #[trigger] entries@[i].name@ == name@
            && !entries@[i].is_dir,
{
    let key = String::from_str(name);
    let mut i: usize = 0;
    while i < entries.len()
        invariant
            i <= entries@.len(),
            key@ == name@,
            forall|k: int| 0 <= k < i ==> !(#[trigger] entries@[k].name@ == name@ && !entries@[k].is_dir),
        decreases entries.len() - i,
    {
        if entries[i].name == key && !entries[i].is_dir {
            return true;
        }
        i += 1;
    }
    false
}

/// How `ftp_remote_parent_and_filename` splits a remote file path.
pub open spec fn ftp_split_spec(path: Seq<char>) -> Result<(Seq<char>, Seq<char>), Seq<char>> {
    let p = trim(path);
    let t = trim_end_char(p, '/');
    if p.len() == 0 {
        Err("路径不能为空"@)
    } else if t.len() == 0 {
        Err("路径无效"@)
    } else {
        match last_index_of(t, '/') {
            None => Ok((seq!['.'], t)),
            Some(i) => if i == 0 {
                Ok((seq!['/'], t.skip(1)))
            } else if i + 1 == t.len() {
                Err("路径无效"@)
            } else {
                Ok((t.take(i), t.skip(i + 1)))
            },
        }
    }
}

pub open spec fn pair_view(r: Result<(String, String), String>) -> Result<
    (Seq<char>, Seq<char>),
    Seq<char>,
> {
    match r {
        Ok((a, b)) => Ok((a@, b@)),
        Err(e) => Err(e@),
    }
}

/// A trimmed path without trailing `/` does not end in `/`.
proof fn lemma_trim_end_last(s: Seq<char>, x: char)
    ensures
        trim_end_char(s, x).len() > 0 ==> trim_end_char(s, x).last() != x,
    decreases s.len(),
{
    if s.len() > 0 && s.last() == x {
        lemma_trim_end_last(s.drop_last(), x);
    }
}

/// Splitting a remote file path and joining the two parts again gives the
/// path back (trimmed, without trailing `/`), for every path that holds a
/// `/` before its file name and never two `/` in a row.
pub proof fn split_then_join_gives_path(path: Seq<char>)
    requires
        trim_end_char(trim(path), '/').contains('/'),
        !contains_seq(trim(path), seq!['/', '/']),
    ensures
        ftp_split_spec(path) is Ok,
        join_remote_spec(ftp_split_spec(path)->Ok_0.0, ftp_split_spec(path)->Ok_0.1)
            == trim_end_char(trim(path), '/'),
{
    let p = trim(path);
    let t = trim_end_char(p, '/');
    lemma_last_index_of(t, '/');
    lemma_trim_end_last(p, '/');
    lemma_drop_trailing_prefix(p, '/');
    let i = last_index_of(t, '/')->0;
    let name = t.skip(i + 1);
    assert(i + 1 < t.len());
    assert(!name.contains('/')) by {
        if name.contains('/') {
            let k = choose|k: int| 0 <= k < name.len() && name[k] == '/';
            assert(t[i + 1 + k] == '/');
        }
    }
    assert(name[0] != '/') by {
        assert(name[0] == t[i + 1]);
    }
    assert(trim_start_char(name, '/') == name);
    if i == 0 {
        assert(trim_end_char(seq!['/'], '/') =~= Seq::<char>::empty()) by {
            let one = seq!['/'];
            assert(one.drop_last() =~= Seq::<char>::empty());
            assert(one.last() == '/');
            assert(trim_end_char(Seq::<char>::empty(), '/') == Seq::<char>::empty());
            assert(trim_end_char(one, '/') == trim_end_char(one.drop_last(), '/'));
        }
        assert(join_remote_spec(seq!['/'], name) =~= t);
    } else {
        let parent = t.take(i);
        assert(parent.last() != '/') by {
            if t[i - 1] == '/' {
                assert(p[i - 1] == t[i - 1]);
                assert(p[i] == t[i]);
                assert(occurs_at(p, seq!['/', '/'], i - 1)) by {
                    assert(p.subrange(i - 1, i + 1) =~= seq!['/', '/']);
                }
            }
        }
        assert(trim_end_char(parent, '/') == parent);
        assert(join_remote_spec(parent, name) =~= t);
    }
}

/// Splits a remote file path into its directory and its file name; a path
/// without `/` lives in `.`, one directly under the root in `/`.
pub fn ftp_remote_parent_and_filename(path: &str) -> (r: Result<(String, String), String>)
    ensures
        pair_view(r) == ftp_split_spec(path@),
{
    let p = trim_chars(&chars_of(path));
    if p.len() == 0 {
        return Err(String::from_str("路径不能为空"));
    }
    let t = trim_end_char_chars(&p, '/');
    if t.len() == 0 {
        return Err(String::from_str("路径无效"));
    }
    proof {
        lemma_last_index_of(t@, '/');
    }
    match rfind_char(&t, '/') {
        None => {
            let dot: [char; 1] = ['.'];
            assert(dot@ =~= seq!['.']);
            Ok((string_of(&dot), string_of(&t)))
        },
        Some(i) => {
            if i == 0 {
                let root: [char; 1] = ['/'];
                assert(root@ =~= seq!['/']);
                let name = sub_chars(&t, 1, t.len());
                Ok((string_of(&root), string_of(&name)))
            } else if i + 1 == t.len() {
                Err(String::from_str("路径无效"))
            } else {
                let parent = sub_chars(&t, 0, i);
                let name = sub_chars(&t, i + 1, t.len());
                Ok((string_of(&parent), string_of(&name)))
            }
        },
    }
}

/// What an OpenSSH `ls -l` line gives: name, directory flag, size and
/// modification text. The trimmed line must start with `d`, `-` or `l`,
/// have at least nine words and a readable size; `.` and `..` give nothing.
pub open spec fn long_ls_spec(line: Seq<char>) -> Option<(Seq<char>, bool, u64, Option<Seq<char>>)> {
    let t = trim(line);
    let parts = words(t);
    if t.len() == 0 {
        None
    } else if !(t[0] == 'd' || t[0] == '-' || t[0] == 'l') {
        None
    } else if parts.len() < 9 {
        None
    } else {
        match parse_u64_spec(parts[4]) {
            Err(_) => None,
            Ok(size) => {
                let name = tail_joined(parts, 8);
                if is_dot_name(name) {
                    None
                } else {
                    Some((name, parts[0][0] == 'd', size, Some(modified_text(parts))))
                }
            },
        }
    }
}

/// Every named entry of an `ls -l` line is kept, dotfiles included: a
/// trimmed line that starts with `d`, `-` or `l`, has at least nine words
/// and a readable size, and whose name (the rest of the line from the
/// ninth word) is neither `.` nor `..`, gives that name with that size and
/// a directory flag taken from its first character; no other line gives
/// an entry.
pub proof fn long_ls_kept_iff_named(line: Seq<char>)
    ensures
        ({
            let t = trim(line);
            let parts = words(t);
            let name = join_spaced(parts.skip(8));
            (t.len() > 0 && (t[0] == 'd' || t[0] == '-' || t[0] == 'l') && parts.len() >= 9
                && parse_u64_spec(parts[4]) is Ok && name != seq!['.'] && name != seq!['.', '.'])
                <==> long_ls_spec(line) is Some
        }),
        long_ls_spec(line) matches Some((name, is_dir, size, _m)) ==> ({
            let parts = words(trim(line));
            &&& name == join_spaced(parts.skip(8))
            &&& parse_u64_spec(parts[4]) == Ok::<u64, IntErrorKind>(size)
            &&& is_dir == (parts[0][0] == 'd')
        }),
{
}

/// No entry of an FTP listing is lost: the entry of every line that
/// describes one is in the listing read from all the lines, and the
/// listing holds nothing else.
pub proof fn ftp_listing_keeps_every_entry(lines: Seq<Seq<char>>, parent: Seq<char>)
    ensures
        forall|i: int|
            0 <= i < lines.len() && (#[trigger] ftp_entry_spec(lines[i], parent)) is Some
                ==> ftp_entries(lines, parent).contains(ftp_entry_spec(lines[i], parent)->0),
        forall|k: int|
            0 <= k < ftp_entries(lines, parent).len() ==> exists|i: int|
                0 <= i < lines.len() && #[trigger] ftp_entry_spec(lines[i], parent) == Some(
                    #[trigger] ftp_entries(lines, parent)[k],
                ),
    decreases lines.len(),
{
    if lines.len() > 0 {
        let init = lines.drop_last();
        ftp_listing_keeps_every_entry(init, parent);
        let prev = ftp_entries(init, parent);
        let cur = ftp_entries(lines, parent);
        assert forall|i: int|
            0 <= i < lines.len() && (#[trigger] ftp_entry_spec(lines[i], parent)) is Some
                implies cur.contains(ftp_entry_spec(lines[i], parent)->0) by {
            if i < lines.len() - 1 {
                assert(init[i] == lines[i]);
                assert(ftp_entry_spec(init[i], parent) is Some);
                let k = choose|k: int| 0 <= k < prev.len() && prev[k] == ftp_entry_spec(lines[i], parent)->0;
                assert(cur[k] == prev[k]);
            } else {
                assert(cur[cur.len() - 1] == ftp_entry_spec(lines[i], parent)->0);
            }
        }
        assert forall|k: int| 0 <= k < cur.len() implies exists|i: int|
            0 <= i < lines.len() && #[trigger] ftp_entry_spec(lines[i], parent) == Some(
                #[trigger] cur[k],
            ) by {
            if k < prev.len() {
                assert(cur[k] == prev[k]);
                let i = choose|i: int| 0 <= i < init.len() && #[trigger] ftp_entry_spec(init[i], parent) == Some(prev[k]);
                assert(init[i] == lines[i]);
            } else {
                let i = lines.len() - 1;
                assert(ftp_entry_spec(lines[i], parent) == Some(cur[k]));
            }
        }
    }
}

pub open spec fn ls_view(r: Option<(String, bool, u64, Option<String>)>) -> Option<
    (Seq<char>, bool, u64, Option<Seq<char>>),
> {
    match r {
        Some((n, d, s, m)) => Some(
            (
                n@,
                d,
                s,
                match m {
                    Some(x) => Some(x@),
                    None => None,
                },
            ),
        ),
        None => None,
    }
}

/// Reads one line of an OpenSSH `ls -l` listing.
pub fn parse_long_ls_line(line: &str) -> (r: Option<(String, bool, u64, Option<String>)>)
    ensures
        ls_view(r) == long_ls_spec(line@),
{
    let t = trim_chars(&chars_of(line));
    if t.len() == 0 {
        return None;
    }
    let first = t[0];
    if first != 'd' && first != '-' && first != 'l' {
        return None;
    }
    let parts = split_words(&t);
    proof {
        lemma_words_view(parts@, t@);
    }
    if parts.len() < 9 {
        return None;
    }
    proof {
        // every word is non-empty
        lemma_words_nonempty(t@);
        assert(parts@[0]@ == words(t@)[0]);
    }
    let is_dir = parts[0][0] == 'd';
    let size = match parse_u64(&parts[4]) {
        Ok(n) => n,
        Err(_) => {
            return None;
        },
    };
    proof {
        assert(parts@.skip(8).map_values(|w: Vec<char>| w@) =~= parts@.map_values(
            |w: Vec<char>| w@,
        ).skip(8));
    }
    let name = join_words_from(&parts, 8);
    let dot: [char; 1] = ['.'];
    let dots: [char; 2] = ['.', '.'];
    assert(dot@ =~= seq!['.']);
    assert(dots@ =~= seq!['.', '.']);
    if same_chars(&name, &dot) || same_chars(&name, &dots) {
        return None;
    }
    let modified = modified_of(&parts);
    Some((string_of(&name), is_dir, size, Some(modified)))
}

/// Every word of a text has at least one character.
pub proof fn lemma_words_nonempty(s: Seq<char>)
    ensures
        forall|k: int| 0 <= k < words(s).len() ==> #[trigger] words(s)[k].len() > 0,
    decreases s.len(),
{
    let t = crate::text::drop_leading(s, crate::text::ws_pred());
    crate::text::lemma_drop_leading_shorter(s, crate::text::ws_pred());
    if t.len() > 0 {
        crate::text::lemma_word_len_bound(t);
        let w = t.take(crate::text::word_len(t) as int);
        let rest = t.skip(crate::text::word_len(t) as int);
        lemma_words_nonempty(rest);
        assert forall|k: int| 0 <= k < words(s).len() implies #[trigger] words(s)[k].len() > 0 by {
            if k > 0 {
                assert(words(s)[k] == words(rest)[k - 1]);
            }
        }
    }
}

// ---------------------------------------------------------------------
// Quoting for `sftp -b` batch commands.
// ---------------------------------------------------------------------

/// A backslash or a double quote gets a backslash before it.
pub open spec fn escape_char(c: char) -> Seq<char> {
    if c == '\\' || c == '"' {
        seq!['\\', c]
    } else {
        seq![c]
    }
}

pub open spec fn escape_seq(s: Seq<char>) -> Seq<char>
    decreases s.len(),
{
    if s.len() == 0 {
        seq![]
    } else {
        escape_seq(s.drop_last()) + escape_char(s.last())
    }
}

/// `p` with `\` and `"` escaped, inside double quotes.
pub open spec fn quote_spec(p: Seq<char>) -> Seq<char> {
    seq!['"'] + escape_seq(p) + seq!['"']
}

/// Reads an escaped token back: a backslash takes the next character as it
/// is.
pub open spec fn unescape_seq(s: Seq<char>) -> Seq<char>
    decreases s.len(),
{
    if s.len() == 0 {
        seq![]
    } else if s[0] == '\\' && s.len() >= 2 {
        seq![s[1]] + unescape_seq(s.skip(2))
    } else {
        seq![s[0]] + unescape_seq(s.skip(1))
    }
}

proof fn lemma_escape_prepend(c: char, p: Seq<char>)
    ensures
        escape_seq(seq![c] + p) == escape_char(c) + escape_seq(p),
    decreases p.len(),
{
    if p.len() == 0 {
        assert((seq![c] + p).drop_last() =~= Seq::<char>::empty());
        assert(seq![c] + p =~= seq![c]);
        assert(escape_seq(Seq::<char>::empty()) =~= Seq::<char>::empty());
        assert(escape_char(c) + escape_seq(p) =~= escape_char(c));
        assert(escape_seq(seq![c]) =~= escape_seq(Seq::<char>::empty()) + escape_char(c));
    } else {
        lemma_escape_prepend(c, p.drop_last());
        assert((seq![c] + p).drop_last() =~= seq![c] + p.drop_last());
        assert((seq![c] + p).last() == p.last());
        assert(escape_seq(seq![c] + p) =~= escape_char(c) + escape_seq(p));
    }
}

/// Quoting loses nothing: unescaping what was escaped gives the argument
/// back, so `sftp` receives every path exactly, quotes and backslashes
/// included.
pub proof fn quoting_is_reversible(p: Seq<char>)
    ensures
        unescape_seq(escape_seq(p)) == p,
        quote_spec(p) == seq!['"'] + escape_seq(p) + seq!['"'],
    decreases p.len(),
{
    if p.len() > 0 {
        let c = p[0];
        let rest = p.skip(1);
        assert(p =~= seq![c] + rest);
        lemma_escape_prepend(c, rest);
        quoting_is_reversible(rest);
        let e = escape_char(c) + escape_seq(rest);
        if c == '\\' || c == '"' {
            assert(e[0] == '\\');
            assert(e[1] == c);
            assert(e.skip(2) =~= escape_seq(rest));
        } else {
            assert(e[0] == c);
            assert(e.skip(1) =~= escape_seq(rest));
        }
        assert(unescape_seq(e) =~= seq![c] + rest);
    } else {
        assert(escape_seq(p) =~= Seq::<char>::empty());
    }
}

/// Quotes one argument of an `sftp` batch command.
pub fn quote_sftp_token(p: &str) -> (r: String)
    ensures
        r@ == quote_spec(p@),
{
    let v = chars_of(p);
    let mut out: Vec<char> = Vec::new();
    out.push('"');
    let mut i: usize = 0;
    while i < v.len()
        invariant
            i <= v.len(),
            out@ == seq!['"'] + escape_seq(v@.take(i as int)),
        decreases v.len() - i,
    {
        let c = v[i];
        proof {
            assert(v@.take(i + 1).drop_last() =~= v@.take(i as int));
            assert(v@.take(i + 1).last() == c);
        }
        if c == '\\' || c == '"' {
            out.push('\\');
        }
        out.push(c);
        i += 1;
        assert(out@ =~= seq!['"'] + escape_seq(v@.take(i as int)));
    }
    out.push('"');
    assert(v@.take(v.len() as int) =~= v@);
    assert(out@ =~= quote_spec(p@));
    string_of(&out)
}

/// `user@host`, with an IPv6 address (holding `:` and not already
/// bracketed) put in brackets.
pub open spec fn endpoint_spec(username: Seq<char>, host: Seq<char>) -> Seq<char> {
    if host.contains(':') && !(host.len() > 0 && host[0] == '[') {
        username + seq!['@', '['] + host + seq![']']
    } else {
        username + seq!['@'] + host
    }
}

/// The `sftp` command-line destination for a user and host.
pub fn sftp_endpoint(username: &str, host: &str) -> (r: String)
    ensures
        r@ == endpoint_spec(username@, host@),
{
    let u = chars_of(username);
    let h = chars_of(host);
    if has_char(&h, ':') && !(h.len() > 0 && h[0] == '[') {
        let open: [char; 2] = ['@', '['];
        let close: [char; 1] = [']'];
        let a = concat_chars(&u, &open);
        let b = concat_chars(&a, &h);
        let c = concat_chars(&b, &close);
        assert(c@ =~= endpoint_spec(username@, host@));
        string_of(&c)
    } else {
        let at: [char; 1] = ['@'];
        let a = concat_chars(&u, &at);
        let b = concat_chars(&a, &h);
        assert(b@ =~= endpoint_spec(username@, host@));
        string_of(&b)
    }
}

// ---------------------------------------------------------------------
// SFTP packet sizing.
// ---------------------------------------------------------------------

/// Payload per SFTP read or write when the server states no limit.
pub const SFTP_DEFAULT_PAYLOAD_MAX: u32 = 261_120;

/// Largest payload ever used per packet.
pub const SFTP_ABS_PAYLOAD_MAX: u32 = 1024 * 1024;

/// Smallest payload ever used per packet.
pub const SFTP_MIN_PAYLOAD: u32 = 8192;

/// A server limit, as the payload cap it allows: zero means no limit; any
/// other limit is taken as a 32-bit count (its low 32 bits) and capped at
/// the absolute maximum, so no cap ever exceeds it.
pub open spec fn limit_cap(l: Option<u64>) -> Option<u32> {
    match l {
        Some(x) => if x > 0 {
            let t = (x % 0x1_0000_0000) as u32;
            Some(if t < SFTP_ABS_PAYLOAD_MAX { t } else { SFTP_ABS_PAYLOAD_MAX })
        } else {
            None
        },
        None => None,
    }
}

/// The payload per packet: the smallest cap the server's read and write
/// limits allow (the default when neither does), but at least 8192.
pub open spec fn payload_max_spec(read_len: Option<u64>, write_len: Option<u64>) -> u32 {
    let cap = match (limit_cap(read_len), limit_cap(write_len)) {
        (Some(a), Some(b)) => if a < b { a } else { b },
        (Some(a), None) => a,
        (None, Some(b)) => b,
        (None, None) => SFTP_DEFAULT_PAYLOAD_MAX,
    };
    if cap < SFTP_MIN_PAYLOAD {
        SFTP_MIN_PAYLOAD
    } else {
        cap
    }
}

fn cap_of(l: Option<u64>) -> (r: Option<u32>)
    ensures
        r == limit_cap(l),
{
    match l {
        Some(x) => {
            if x > 0 {
                let t = (x % 0x1_0000_0000) as u32;
                Some(if t < SFTP_ABS_PAYLOAD_MAX { t } else { SFTP_ABS_PAYLOAD_MAX })
            } else {
                None
            }
        },
        None => None,
    }
}

/// Chooses the SFTP payload size from the limits a server announced.
pub fn effective_sftp_payload_max(limits_read_len: Option<u64>, limits_write_len: Option<u64>) -> (r: u32)
    ensures
        r == payload_max_spec(limits_read_len, limits_write_len),
        SFTP_MIN_PAYLOAD <= r <= SFTP_ABS_PAYLOAD_MAX,
{
    let cap = match (cap_of(limits_read_len), cap_of(limits_write_len)) {
        (Some(a), Some(b)) => if a < b { a } else { b },
        (Some(a), None) => a,
        (None, Some(b)) => b,
        (None, None) => SFTP_DEFAULT_PAYLOAD_MAX,
    };
    if cap < SFTP_MIN_PAYLOAD {
        SFTP_MIN_PAYLOAD
    } else {
        cap
    }
}

// ---------------------------------------------------------------------
// Modification times and SSH session settings.
// ---------------------------------------------------------------------

/// The text chrono writes for the UTC instant `t` seconds after the Unix
/// epoch in the form `%Y-%m-%d %H:%M:%S UTC`, `None` when chrono has no
/// such instant.
pub uninterp spec fn utc_timestamp_text(t: u32) -> Option<Seq<char>>;

/// `chrono::DateTime::<Utc>::from_timestamp(t, 0)` formatted with
/// `%Y-%m-%d %H:%M:%S UTC`. Only the name of the result is stated.
#[verifier::external_body]
fn format_utc_timestamp(t: u32) -> (r: Option<String>)
    ensures
        opt_view(r) == utc_timestamp_text(t),
{
    chrono::DateTime::<chrono::Utc>::from_timestamp(i64::from(t), 0).map(
        |dt| dt.format("%Y-%m-%d %H:%M:%S UTC").to_string(),
    )
}

/// The modification time shown for an SFTP entry, when the server sent one.
pub fn fmt_mtime(mtime: Option<u32>) -> (r: Option<String>)
    ensures
        mtime is None ==> r is None,
        mtime matches Some(t) ==> opt_view(r) == utc_timestamp_text(t),
{
    match mtime {
        Some(t) => format_utc_timestamp(t),
        None => None,
    }
}

/// Settings of an SSH session that matter on slow links.
#[derive(Debug)]
pub struct SshClientSettings {
    pub nodelay: bool,
    pub window_size: u32,
    pub maximum_packet_size: u32,
    pub channel_buffer_size: usize,
}

/// `russh::client::Config::default().channel_buffer_size`, which the
/// crate's source sets to 100.
#[verifier::external_body]
fn default_channel_buffer_size() -> (r: usize)
    ensures
        r == 100,
{
    russh::client::Config::default().channel_buffer_size
}

/// SSH session settings: no Nagle delay, a 16 MiB channel window, 256 KiB
/// packets, and a channel buffer of at least 256 messages.
pub fn ssh_client_config() -> (c: SshClientSettings)
    ensures
        c.nodelay,
        c.window_size == 16 * 1024 * 1024,
        c.maximum_packet_size == 256 * 1024,
        c.channel_buffer_size == 256,
{
    let default_buffer = default_channel_buffer_size();
    SshClientSettings {
        nodelay: true,
        window_size: 16 * 1024 * 1024,
        maximum_packet_size: 256 * 1024,
        channel_buffer_size: if default_buffer > 256 {
            default_buffer
        } else {
            256
        },
    }
}

} // verus!
