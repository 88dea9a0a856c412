//! Reading pi's on-disk session store.
//!
//! pi keeps each session as JSON lines in
//! `agent/sessions/--<slug>--/<timestamp>_<id>.jsonl` under its home. The format is
//! private and may change, so nothing here fails: what cannot be read is not there.
use crate::agents::agent;
use crate::json;
use crate::json::{owned, parse, read_str};
use crate::lines;
use crate::lines::decode_lossy;
use crate::model;
use crate::model::Moment;
use crate::paths;
use crate::paths::{extension, join};
use crate::text;
use crate::text::{chars_of, ends_with, str_eq, text_before, trim};
use vstd::prelude::*;

verus! {

/// The longest prefix of a file that is read, in bytes.
pub const MAX_BYTES: usize = 262144;

/// The longest line that is read, in bytes.
pub const MAX_LINE_BYTES: usize = 65536;

/// The most lines that are read.
pub const MAX_LINES: usize = 512;

/// What the header of a session file tells.
#[derive(Debug, PartialEq, Eq)]
pub struct SessionHeader {
    pub id: String,
    pub cwd: Option<String>,
}

/// [`SessionHeader`] over mathematical text.
pub struct HeaderView {
    pub id: Seq<char>,
    pub cwd: Option<Seq<char>>,
}

impl View for SessionHeader {
    type V = HeaderView;

    open spec fn view(&self) -> HeaderView {
        HeaderView { id: self.id@, cwd: model::opt_text(self.cwd) }
    }
}

/// The root of the session files, from pi's own home or else the user's.
pub open spec fn root_in(pi_home: Option<Seq<char>>, home: Option<Seq<char>>) -> Option<Seq<char>> {
    match pi_home {
        Some(dir) => Some(paths::joined(paths::joined(dir, "agent"@), "sessions"@)),
        None => match home {
            Some(dir) => Some(
                paths::joined(paths::joined(paths::joined(dir, ".pi"@), "agent"@), "sessions"@),
            ),
            None => None,
        },
    }
}

/// The root of the session files, from pi's own home or else the user's.
pub fn sessions_root(pi_home: Option<&str>, home: Option<&str>) -> (root: Option<String>)
    ensures
        model::opt_text(root) == root_in(json::opt_str(pi_home), json::opt_str(home)),
{
    match pi_home {
        Some(dir) => Some(join(join(dir, "agent").as_str(), "sessions")),
        None => match home {
            Some(dir) => Some(
                join(join(join(dir, ".pi").as_str(), "agent").as_str(), "sessions"),
            ),
            None => None,
        },
    }
}

pub open spec fn is_slash(c: char) -> bool {
    c == '/' || c == '\\'
}

/// `s` without slashes at its start.
pub open spec fn unrooted(s: Seq<char>) -> Seq<char>
    decreases s.len(),
{
    if s.len() > 0 && is_slash(s[0]) {
        unrooted(s.skip(1))
    } else {
        s
    }
}

/// The name of the directory that pi keeps for a working directory.
pub open spec fn slug(cwd: Seq<char>) -> Seq<char> {
    unrooted(cwd).map_values(
        |c: char|
            if is_slash(c) || c == ':' {
                '-'
            } else {
                c
            },
    )
}

/// The name of the directory that pi keeps for a working directory: slashes at the
/// start go, other slashes and colons become hyphens.
pub fn cwd_slug(cwd: &str) -> (name: String)
    ensures
        name@ == slug(cwd@),
{
    let v = chars_of(cwd);
    let mut at: usize = 0;
    assert(v@.skip(0) == v@);
    while at < v.len() && (v[at] == '/' || v[at] == '\\')
        invariant
            at <= v@.len(),
            unrooted(v@.skip(at as int)) == unrooted(v@),
        decreases v@.len() - at,
    {
        assert(v@.skip(at as int).skip(1) == v@.skip(at + 1));
        at += 1;
    }
    let start: usize = at;
    assert(unrooted(v@) == v@.skip(start as int));
    let mut name = String::new();
    while at < v.len()
        invariant
            start <= at <= v@.len(),
            v@ == cwd@,
            unrooted(v@) == v@.skip(start as int),
            name@ == slug(cwd@).take(at - start),
            slug(cwd@).len() == v@.len() - start,
        decreases v@.len() - at,
    {
        let c = v[at];
        assert(unrooted(v@)[at - start] == c);
        if c == '/' || c == '\\' || c == ':' {
            name.push('-');
        } else {
            name.push(c);
        }
        assert(name@ == slug(cwd@).take(at + 1 - start));
        at += 1;
    }
    assert(slug(cwd@).take(at - start) == slug(cwd@));
    name
}

/// The header that a line is.
pub open spec fn header_in(line: Seq<char>) -> Option<HeaderView> {
    match json::parsed_text(text::trimmed(line)) {
        Some(value) => if json::str_of(value.get("type"@)) == Some("session"@) && json::str_of(
            value.get("id"@),
        ) is Some {
            Some(
                HeaderView {
                    id: json::str_of(value.get("id"@))->0,
                    cwd: json::str_of(value.get("cwd"@)),
                },
            )
        } else {
            None
        },
        None => None,
    }
}

/// The header that a line is.
pub fn parse_header(line: &str) -> (header: Option<SessionHeader>)
    ensures
        match header {
            Some(header) => header_in(line@) == Some(header@),
            None => header_in(line@) is None,
        },
{
    let value = match parse(trim(line)) {
        Some(value) => value,
        None => {
            return None;
        },
    };
    match read_str(value.get("type")) {
        Some(kind) => {
            if !str_eq(kind, "session") {
                return None;
            }
        },
        None => {
            return None;
        },
    }
    match read_str(value.get("id")) {
        Some(id) => Some(
            SessionHeader { id: id.to_owned(), cwd: owned(read_str(value.get("cwd"))) },
        ),
        None => None,
    }
}

/// The directories where the sessions of `cwd` may be: pi wraps the name in
/// hyphens, but not every version does.
pub fn session_dirs(root: &str, cwd: &str) -> (dirs: [String; 2])
    ensures
        dirs@[0]@ == paths::joined(root@, "--"@ + slug(cwd@) + "--"@),
        dirs@[1]@ == paths::joined(root@, slug(cwd@)),
{
    let name = cwd_slug(cwd);
    [
        join(root, "--".to_owned().concat(name.as_str()).concat("--").as_str()),
        join(root, name.as_str()),
    ]
}

/// A file in one of a session's directories.
#[derive(Debug, PartialEq, Eq)]
pub struct SessionFile {
    pub name: String,
    pub path: String,
    /// When it was last written, where that is known.
    pub modified: Option<Moment>,
}

/// The ending of the files of a session.
pub open spec fn file_suffix(session_id: Seq<char>) -> Seq<char> {
    "_"@ + session_id + ".jsonl"@
}

/// Whether `suffix` ends `name`.
pub open spec fn has_suffix(name: Seq<char>, suffix: Seq<char>) -> bool {
    text::stands_at(name, suffix, name.len() - suffix.len())
}

/// Whether `listed[i]` is the session's newest file: of those with its id in their
/// names, the first whose name no other exceeds. Names begin with a timestamp.
pub open spec fn newest_named(listed: Seq<SessionFile>, session_id: Seq<char>, i: int) -> bool {
    &&& 0 <= i < listed.len()
    &&& has_suffix(listed[i].name@, file_suffix(session_id))
    &&& forall|j: int|
        0 <= j < listed.len() && has_suffix(#[trigger] listed[j].name@, file_suffix(session_id))
            ==> (if j < i {
            text::precedes(listed[j].name@, listed[i].name@)
        } else {
            !text::precedes(listed[i].name@, listed[j].name@)
        })
}

/// The newest file of a session among those listed in its directories.
pub fn find_session_file_in(listed: &Vec<SessionFile>, session_id: &str) -> (path: Option<String>)
    ensures
        match path {
            Some(path) => exists|i: int|
                #[trigger] newest_named(listed@, session_id@, i) && path@ == listed@[i].path@,
            None => forall|i: int|
                0 <= i < listed@.len() ==> !has_suffix(
                    #[trigger] listed@[i].name@,
                    file_suffix(session_id@),
                ),
        },
{
    let suffix = "_".to_owned().concat(session_id).concat(".jsonl");
    let ghost files = listed@;
    let mut best: Option<usize> = None;
    let mut i: usize = 0;
    while i < listed.len()
        invariant
            i <= listed@.len(),
            files == listed@,
            suffix@ == file_suffix(session_id@),
            match best {
                Some(b) => b < i && newest_named(files.take(i as int), session_id@, b as int),
                None => forall|j: int|
                    0 <= j < i ==> !has_suffix(#[trigger] files[j].name@, suffix@),
            },
        decreases listed@.len() - i,
    {
        let ghost shorter = files.take(i as int);
        let ghost longer = files.take(i + 1);
        assert(forall|j: int| 0 <= j < i ==> #[trigger] longer[j] == shorter[j] && shorter[j] == files[j]);
        assert(longer[i as int] == files[i as int]);
        if ends_with(listed[i].name.as_str(), suffix.as_str()) {
            match best {
                None => {
                    assert forall|j: int|
                        0 <= j < longer.len() && has_suffix(
                            #[trigger] longer[j].name@,
                            file_suffix(session_id@),
                        ) implies (if j < i {
                        text::precedes(longer[j].name@, longer[i as int].name@)
                    } else {
                        !text::precedes(longer[i as int].name@, longer[j].name@)
                    }) by {
                        text::lemma_precedes_total(longer[i as int].name@, longer[j].name@);
                        if j < i {
                            assert(longer[j] == files[j]);
                        }
                    }
                    best = Some(i);
                },
                Some(b) => {
                    let ghost old_name = files[b as int].name@;
                    let ghost new_name = files[i as int].name@;
                    proof {
                        text::lemma_precedes_total(old_name, new_name);
                        text::lemma_precedes_total(new_name, new_name);
                    }
                    if text_before(listed[b].name.as_str(), listed[i].name.as_str()) {
                        assert forall|j: int|
                            0 <= j < longer.len() && has_suffix(
                                #[trigger] longer[j].name@,
                                file_suffix(session_id@),
                            ) implies (if j < i {
                            text::precedes(longer[j].name@, longer[i as int].name@)
                        } else {
                            !text::precedes(longer[i as int].name@, longer[j].name@)
                        }) by {
                            if j < i {
                                assert(longer[j] == shorter[j]);
                                assert(has_suffix(shorter[j].name@, file_suffix(session_id@)));
                                text::lemma_precedes_total(shorter[j].name@, old_name);
                                if text::precedes(shorter[j].name@, old_name) {
                                    text::lemma_precedes_transitive(
                                        shorter[j].name@,
                                        old_name,
                                        new_name,
                                    );
                                }
                            }
                        }
                        best = Some(i);
                    } else {
                        assert forall|j: int|
                            0 <= j < longer.len() && has_suffix(
                                #[trigger] longer[j].name@,
                                file_suffix(session_id@),
                            ) implies (if j < b {
                            text::precedes(longer[j].name@, longer[b as int].name@)
                        } else {
                            !text::precedes(longer[b as int].name@, longer[j].name@)
                        }) by {
                            if j < i {
                                assert(longer[j] == shorter[j]);
                                assert(has_suffix(shorter[j].name@, file_suffix(session_id@)));
                            }
                        }
                    }
                },
            }
        } else {
            if let Some(b) = best {
                assert forall|j: int|
                    0 <= j < longer.len() && has_suffix(
                        #[trigger] longer[j].name@,
                        file_suffix(session_id@),
                    ) implies (if j < b {
                    text::precedes(longer[j].name@, longer[b as int].name@)
                } else {
                    !text::precedes(longer[b as int].name@, longer[j].name@)
                }) by {
                    assert(j < i);
                    assert(longer[j] == shorter[j]);
                    assert(has_suffix(shorter[j].name@, file_suffix(session_id@)));
                }
            }
        }
        i += 1;
    }
    assert(files.take(i as int) == files);
    match best {
        Some(b) => {
            assert(newest_named(listed@, session_id@, b as int));
            Some(listed[b].path.clone())
        },
        None => None,
    }
}

/// The newest file of a session; nothing where there is no session root.
pub fn find_session_file(listed: Option<&Vec<SessionFile>>, session_id: &str) -> (path: Option<
    String,
>)
    ensures
        listed is None ==> path is None,
        match path {
            Some(path) => listed is Some && exists|i: int|
                #[trigger] newest_named(listed->0@, session_id@, i) && path@
                    == listed->0@[i].path@,
            None => listed is Some ==> forall|i: int|
                0 <= i < listed->0@.len() ==> !has_suffix(
                    #[trigger] listed->0@[i].name@,
                    file_suffix(session_id@),
                ),
        },
{
    match listed {
        Some(listed) => find_session_file_in(listed, session_id),
        None => None,
    }
}

/// Whether a file may belong to a session that began at `after`.
pub open spec fn is_candidate(file: SessionFile, after: Option<Moment>) -> bool {
    &&& paths::extension_of(file.path@) == Some("jsonl"@)
    &&& file.modified is Some
    &&& after is Some ==> file.modified->0.at_or_after(after->0)
}

fn check_candidate(file: &SessionFile, after: Option<Moment>) -> (yes: bool)
    ensures
        yes == is_candidate(*file, after),
{
    let is_jsonl = match extension(file.path.as_str()) {
        Some(ext) => str_eq(ext.as_str(), "jsonl"),
        None => false,
    };
    if !is_jsonl {
        return false;
    }
    match file.modified {
        Some(modified) => match after {
            Some(after) => modified.is_at_or_after(&after),
            None => true,
        },
        None => false,
    }
}

/// Whether `listed[i]` is the file that was written last of those that were written
/// at or after `after`; of several, the last listed.
pub open spec fn newest_written(listed: Seq<SessionFile>, after: Option<Moment>, i: int) -> bool {
    &&& 0 <= i < listed.len()
    &&& is_candidate(listed[i], after)
    &&& forall|j: int|
        0 <= j < listed.len() && is_candidate(#[trigger] listed[j], after) ==> (if j <= i {
            listed[i].modified->0.at_or_after(listed[j].modified->0)
        } else {
            !listed[j].modified->0.at_or_after(listed[i].modified->0)
        })
}

/// The file that was written last of those that were written at or after `after`:
/// the one that pi creates for a new session wins over older ones.
pub fn newest_session_file_in(listed: &Vec<SessionFile>, after: Option<Moment>) -> (path: Option<
    String,
>)
    ensures
        match path {
            Some(path) => exists|i: int|
                #[trigger] newest_written(listed@, after, i) && path@ == listed@[i].path@,
            None => forall|i: int|
                0 <= i < listed@.len() ==> !is_candidate(#[trigger] listed@[i], after),
        },
{
    let ghost files = listed@;
    let mut best: Option<usize> = None;
    let mut i: usize = 0;
    while i < listed.len()
        invariant
            i <= listed@.len(),
            files == listed@,
            match best {
                Some(b) => b < i && newest_written(files.take(i as int), after, b as int),
                None => forall|j: int| 0 <= j < i ==> !is_candidate(#[trigger] files[j], after),
            },
        decreases listed@.len() - i,
    {
        let ghost shorter = files.take(i as int);
        let ghost longer = files.take(i + 1);
        assert(forall|j: int| 0 <= j < i ==> #[trigger] longer[j] == shorter[j] && shorter[j] == files[j]);
        assert(longer[i as int] == files[i as int]);
        if check_candidate(&listed[i], after) {
            let better = match best {
                Some(b) => match (listed[i].modified, listed[b].modified) {
                    (Some(new), Some(old)) => new.is_at_or_after(&old),
                    _ => true,
                },
                None => true,
            };
            if better {
                assert(newest_written(longer, after, i as int));
                best = Some(i);
            } else if let Some(b) = best {
                assert(newest_written(longer, after, b as int));
            }
        } else if let Some(b) = best {
            assert(newest_written(longer, after, b as int));
        }
        i += 1;
    }
    assert(files.take(i as int) == files);
    match best {
        Some(b) => {
            assert(newest_written(listed@, after, b as int));
            Some(listed[b].path.clone())
        },
        None => None,
    }
}

/// The name that a line gives its session.
pub open spec fn name_in(line: Seq<char>) -> Option<Seq<char>> {
    if agent::byte_len(line) > MAX_LINE_BYTES {
        None
    } else {
        match json::parsed_text(text::trimmed(line)) {
            Some(value) => {
                let name = text::trimmed(json::text_of(value.get("name"@)));
                if json::str_of(value.get("type"@)) == Some("session_info"@) && name.len() > 0 {
                    Some(name)
                } else {
                    None
                }
            },
            None => None,
        }
    }
}

fn read_name(line: &str) -> (name: Option<String>)
    ensures
        model::opt_text(name) == name_in(line@),
{
    if line.as_bytes().len() > MAX_LINE_BYTES {
        return None;
    }
    let value = match parse(trim(line)) {
        Some(value) => value,
        None => {
            return None;
        },
    };
    let is_info = match read_str(value.get("type")) {
        Some(kind) => str_eq(kind, "session_info"),
        None => false,
    };
    let name = trim(value.text("name"));
    if is_info && !name.is_empty() {
        Some(name.to_owned())
    } else {
        None
    }
}

/// The last name that any of `lines` gives its session.
pub open spec fn last_name(lines: Seq<Seq<char>>) -> Option<Seq<char>>
    decreases lines.len(),
{
    if lines.len() == 0 {
        None
    } else {
        json::first_of(name_in(lines.last()), last_name(lines.drop_last()))
    }
}

/// The readable prefix of a file.
pub open spec fn prefix(data: Seq<u8>) -> Seq<u8> {
    if data.len() > MAX_BYTES {
        data.take(MAX_BYTES as int)
    } else {
        data
    }
}

/// The name that a session file gives its session.
pub open spec fn session_name(data: Seq<u8>) -> Option<Seq<char>> {
    let all = text::text_lines(lines::lossy_text(prefix(data)));
    last_name(
        if all.len() > MAX_LINES {
            all.take(MAX_LINES as int)
        } else {
            all
        },
    )
}

/// The last name that a session file gives its session, in its readable prefix.
pub fn read_session_name(data: &[u8]) -> (name: Option<String>)
    ensures
        model::opt_text(name) == session_name(data@),
{
    let shown = if data.len() > MAX_BYTES {
        let head = vstd::slice::slice_subrange(data, 0, MAX_BYTES);
        assert(head@ == data@.take(MAX_BYTES as int));
        decode_lossy(head)
    } else {
        decode_lossy(data)
    };
    let all = text::lines(shown.as_str());
    let ghost whole = text::views(all@);
    let ghost used = if whole.len() > MAX_LINES {
        whole.take(MAX_LINES as int)
    } else {
        whole
    };
    let mut name: Option<String> = None;
    let mut i: usize = 0;
    assert(used.take(0).len() == 0);
    while i < all.len() && i < MAX_LINES
        invariant
            i <= all@.len(),
            i <= MAX_LINES,
            whole == text::views(all@),
            used == if whole.len() > MAX_LINES {
                whole.take(MAX_LINES as int)
            } else {
                whole
            },
            model::opt_text(name) == last_name(used.take(i as int)),
        decreases all@.len() - i,
    {
        assert(used.take(i + 1).drop_last() == used.take(i as int));
        assert(used.take(i + 1).last() == all@[i as int]@);
        if let Some(found) = read_name(all[i].as_str()) {
            name = Some(found);
        }
        i += 1;
    }
    assert(used.take(i as int) == used);
    name
}

} // verus!
