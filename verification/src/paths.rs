//! File paths as text, with `/` between their parts.
use crate::text;
use crate::text::{chars_of, push_text, str_eq, string_from};
use vstd::prelude::*;

verus! {

/// A path by its meaning: whether it begins at the root, and its parts.
pub struct PathView {
    pub absolute: bool,
    pub parts: Seq<Seq<char>>,
}

/// The position of the first `/` of `s`, or its length where it has none.
pub open spec fn slash_at(s: Seq<char>) -> int
    decreases s.len(),
{
    if s.len() == 0 || s[0] == '/' {
        0
    } else {
        1 + slash_at(s.skip(1))
    }
}

/// Whether a piece between slashes is a part of a path. Nothing and `.` are
/// none, but for a `.` at the begin of a relative path.
pub open spec fn is_part(piece: Seq<char>, leading: bool) -> bool {
    piece.len() > 0 && (leading || piece != "."@)
}

/// The parts of `s`; `leading` tells whether it is the begin of a relative path.
pub open spec fn parts_of(s: Seq<char>, leading: bool) -> Seq<Seq<char>>
    decreases s.len(),
{
    if s.len() == 0 {
        Seq::empty()
    } else {
        let end = slash_at(s);
        let piece = s.take(end);
        let rest = if 0 <= end < s.len() {
            parts_of(s.skip(end + 1), false)
        } else {
            Seq::empty()
        };
        if is_part(piece, leading) {
            seq![piece] + rest
        } else {
            rest
        }
    }
}

/// The path that `s` writes. Repeated and trailing slashes do not count.
pub open spec fn path_view(s: Seq<char>) -> PathView {
    let absolute = s.len() > 0 && s[0] == '/';
    PathView { absolute, parts: parts_of(s, !absolute) }
}

proof fn lemma_slash_at(s: Seq<char>, end: int)
    requires
        0 <= end <= s.len(),
        forall|k: int| 0 <= k < end ==> s[k] != '/',
        end < s.len() ==> s[end] == '/',
    ensures
        slash_at(s) == end,
    decreases s.len(),
{
    if end > 0 {
        lemma_slash_at(s.skip(1), end - 1);
    }
}

/// Whether a path begins at the root.
pub fn is_absolute(s: &str) -> (yes: bool)
    ensures
        yes == path_view(s@).absolute,
{
    s.unicode_len() > 0 && s.get_char(0) == '/'
}

/// The parts of a path.
pub fn parts(s: &str) -> (out: Vec<String>)
    ensures
        text::views(out@) == path_view(s@).parts,
{
    let v = chars_of(s);
    let mut leading = !is_absolute(s);
    let ghost all = path_view(s@).parts;
    let mut out: Vec<String> = Vec::new();
    let mut from: usize = 0;
    assert(v@.skip(0) == v@);
    assert(text::views(out@) == Seq::<Seq<char>>::empty());
    while from < v.len()
        invariant
            from <= v@.len(),
            v@ == s@,
            text::views(out@) + parts_of(v@.skip(from as int), leading) == all,
        decreases v@.len() - from,
    {
        let ghost rest = v@.skip(from as int);
        let ghost before = text::views(out@);
        let ghost was = leading;
        let mut end: usize = from;
        while end < v.len() && v[end] != '/'
            invariant
                from <= end <= v@.len(),
                forall|k: int| from <= k < end ==> v@[k] != '/',
            decreases v@.len() - end,
        {
            end += 1;
        }
        let piece = string_from(&v, from, end);
        proof {
            lemma_slash_at(rest, end - from);
            assert(rest.take(end - from) == piece@);
        }
        if !piece.as_str().is_empty() && (leading || !str_eq(piece.as_str(), ".")) {
            push_text(&mut out, piece);
        }
        let ghost after = text::views(out@);
        leading = false;
        if end < v.len() {
            assert(rest.skip(end - from + 1) == v@.skip(end + 1));
            from = end + 1;
        } else {
            from = end;
            assert(v@.skip(from as int) == Seq::<char>::empty());
        }
        assert(before + parts_of(rest, was) == after + parts_of(v@.skip(from as int), false));
    }
    assert(v@.skip(from as int) == Seq::<char>::empty());
    assert(text::views(out@) + Seq::<Seq<char>>::empty() == text::views(out@));
    out
}

/// Whether two lists hold the same texts.
pub fn same_texts(a: &Vec<String>, b: &Vec<String>) -> (same: bool)
    ensures
        same == (text::views(a@) == text::views(b@)),
{
    if a.len() != b.len() {
        assert(text::views(a@).len() != text::views(b@).len());
        return false;
    }
    let mut i: usize = 0;
    while i < a.len()
        invariant
            i <= a@.len(),
            a@.len() == b@.len(),
            forall|k: int| 0 <= k < i ==> text::views(a@)[k] == text::views(b@)[k],
        decreases a@.len() - i,
    {
        assert(text::views(a@)[i as int] == a@[i as int]@ && text::views(b@)[i as int]
            == b@[i as int]@);
        if !str_eq(a[i].as_str(), b[i].as_str()) {
            return false;
        }
        i += 1;
    }
    assert(text::views(a@) == text::views(b@));
    true
}

/// Whether two texts write the same path.
pub fn same_path(a: &str, b: &str) -> (same: bool)
    ensures
        same == (path_view(a@) == path_view(b@)),
{
    is_absolute(a) == is_absolute(b) && same_texts(&parts(a), &parts(b))
}

/// `b` seen from the directory `a`: an absolute path stands for itself.
pub open spec fn joined(a: Seq<char>, b: Seq<char>) -> Seq<char> {
    if (b.len() > 0 && b[0] == '/') || a.len() == 0 {
        b
    } else if a.last() == '/' {
        a + b
    } else {
        a + "/"@ + b
    }
}

/// `b` seen from the directory `a`.
pub fn join(a: &str, b: &str) -> (path: String)
    ensures
        path@ == joined(a@, b@),
{
    let n: usize = a.unicode_len();
    if is_absolute(b) || n == 0 {
        return b.to_owned();
    }
    if a.get_char(n - 1) == '/' {
        a.to_owned().concat(b)
    } else {
        a.to_owned().concat("/").concat(b)
    }
}

/// The name that the last part of a path gives; `..` and a lone `.` name
/// nothing.
pub open spec fn name_of(path: Seq<char>) -> Option<Seq<char>> {
    let parts = path_view(path).parts;
    if parts.len() == 0 || parts.last() == ".."@ || parts.last() == "."@ {
        None
    } else {
        Some(parts.last())
    }
}

/// The position of the last dot of `s`; minus one where it has none.
pub open spec fn last_dot(s: Seq<char>) -> int
    decreases s.len(),
{
    if s.len() == 0 {
        -1
    } else if s.last() == '.' {
        s.len() - 1
    } else {
        last_dot(s.drop_last())
    }
}

/// What stands behind the last dot of a file's name, where the dot does not
/// begin the name.
pub open spec fn extension_of(path: Seq<char>) -> Option<Seq<char>> {
    match name_of(path) {
        Some(name) => if last_dot(name) > 0 {
            Some(name.skip(last_dot(name) + 1))
        } else {
            None
        },
        None => None,
    }
}

/// The extension of a path's last part.
pub fn extension(path: &str) -> (ext: Option<String>)
    ensures
        crate::model::opt_text(ext) == extension_of(path@),
{
    let all = parts(path);
    if all.len() == 0 {
        return None;
    }
    let name = all[all.len() - 1].as_str();
    assert(path_view(path@).parts.last() == name@);
    if str_eq(name, "..") || str_eq(name, ".") {
        return None;
    }
    let v = chars_of(name);
    let mut i: usize = v.len();
    assert(v@.take(v@.len() as int) == v@);
    while i > 0 && v[i - 1] != '.'
        invariant
            i <= v@.len(),
            last_dot(v@.take(i as int)) == last_dot(v@),
        decreases i,
    {
        assert(v@.take(i as int).drop_last() == v@.take(i - 1));
        i -= 1;
    }
    if i <= 1 {
        return None;
    }
    assert(last_dot(v@) == i - 1);
    let ext = string_from(&v, i, v.len());
    assert(ext@ == v@.skip(i as int));
    Some(ext)
}

} // verus!
