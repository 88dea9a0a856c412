//! What the operations on texts, values and paths must give, whatever they are asked of.
use crate::json as tree;
use crate::json::JsonView;
use crate::paths;
use crate::table;
use crate::text;
use vstd::prelude::*;

verus! {

/// Whether all of `s` is white space.
pub open spec fn blank(s: Seq<char>) -> bool {
    forall|i: int| 0 <= i < s.len() ==> text::is_white(#[trigger] s[i])
}

proof fn lemma_start(s: Seq<char>) -> (cut: int)
    ensures
        0 <= cut <= s.len(),
        text::trimmed_start(s) == s.skip(cut),
        blank(s.take(cut)),
        cut < s.len() ==> !text::is_white(s[cut]),
    decreases s.len(),
{
    if s.len() > 0 && text::is_white(s[0]) {
        let rest = s.skip(1);
        let later = lemma_start(rest);
        assert(rest.skip(later) =~= s.skip(later + 1));
        assert forall|i: int| 0 <= i < s.take(later + 1).len() implies text::is_white(
            #[trigger] s.take(later + 1)[i],
        ) by {
            if i > 0 {
                assert(text::is_white(rest.take(later)[i - 1]));
            }
        }
        later + 1
    } else {
        assert(s.skip(0) =~= s);
        0
    }
}

proof fn lemma_end(s: Seq<char>) -> (cut: int)
    ensures
        0 <= cut <= s.len(),
        text::trimmed_end(s) == s.take(cut),
        blank(s.skip(cut)),
        cut > 0 ==> !text::is_white(s[cut - 1]),
    decreases s.len(),
{
    if s.len() > 0 && text::is_white(s.last()) {
        let rest = s.drop_last();
        let cut = lemma_end(rest);
        assert(rest.take(cut) =~= s.take(cut));
        assert forall|i: int| 0 <= i < s.skip(cut).len() implies text::is_white(
            #[trigger] s.skip(cut)[i],
        ) by {
            if i < rest.skip(cut).len() {
                assert(text::is_white(rest.skip(cut)[i]));
            }
        }
        cut
    } else {
        assert(s.take(s.len() as int) =~= s);
        s.len() as int
    }
}

/// A text is trimmed by taking white space from both its ends, all of it and nothing else.
pub proof fn law_trimming_takes_white_space_only(s: Seq<char>)
    ensures
        ({
            let t = text::trimmed(s);
            &&& exists|a: int, b: int|
                0 <= a <= b <= s.len() && t == #[trigger] s.subrange(a, b) && blank(s.take(a))
                    && blank(s.skip(b))
            &&& t.len() > 0 ==> !text::is_white(t[0]) && !text::is_white(t[t.len() - 1])
        }),
{
    let a = lemma_start(s);
    let u = text::trimmed_start(s);
    let n = lemma_end(u);
    let b = a + n;
    assert(u.take(n) =~= s.subrange(a, b));
    assert(u.skip(n) =~= s.skip(b));
    if n > 0 {
        assert(u[0] == s[a]);
    }
}

/// Line ends are all that is taken from the end of a line.
pub proof fn law_chomping_takes_line_ends_only(s: Seq<char>)
    ensures
        ({
            let t = text::chomped(s);
            &&& t.len() <= s.len()
            &&& t =~= s.take(t.len() as int)
            &&& forall|i: int|
                t.len() <= i < s.len() ==> (#[trigger] s[i] == '\n' || s[i] == '\r')
            &&& t.len() > 0 ==> t[t.len() - 1] != '\n' && t[t.len() - 1] != '\r'
        }),
    decreases s.len(),
{
    if s.len() > 0 && (s.last() == '\r' || s.last() == '\n') {
        law_chomping_takes_line_ends_only(s.drop_last());
        let t = text::chomped(s);
        assert forall|i: int| t.len() <= i < s.len() implies (#[trigger] s[i] == '\n' || s[i]
            == '\r') by {
            if i < s.len() - 1 {
                assert(s.drop_last()[i] == s[i]);
            }
        }
    }
}

/// A text in which a word does not occur is not changed by replacing it.
pub proof fn law_nothing_to_replace(s: Seq<char>, p: Seq<char>, r: Seq<char>)
    requires
        p.len() > 0,
        !text::occurs(s, p),
    ensures
        text::replaced(s, p, r) =~= s,
    decreases s.len(),
{
    if s.len() >= p.len() {
        let rest = s.skip(1);
        assert(s.take(p.len() as int) != p) by {
            assert(s.subrange(0, p.len() as int) =~= s.take(p.len() as int));
            assert(!text::stands_at(s, p, 0));
        }
        assert(!text::occurs(rest, p)) by {
            if text::occurs(rest, p) {
                let at = choose|at: int| text::stands_at(rest, p, at);
                assert(rest.subrange(at, at + p.len()) =~= s.subrange(at + 1, at + 1 + p.len()));
                assert(text::stands_at(s, p, at + 1));
            }
        }
        law_nothing_to_replace(rest, p, r);
    }
}

/// The first occurrence of a word is replaced, what stands before it stays, and the rest is
/// replaced in turn.
pub proof fn law_first_occurrence_is_replaced(
    a: Seq<char>,
    p: Seq<char>,
    b: Seq<char>,
    r: Seq<char>,
)
    requires
        p.len() > 0,
        forall|at: int| 0 <= at < a.len() ==> !#[trigger] text::stands_at(a + p + b, p, at),
    ensures
        text::replaced(a + p + b, p, r) =~= a + r + text::replaced(b, p, r),
    decreases a.len(),
{
    let s = a + p + b;
    if a.len() == 0 {
        assert(s.take(p.len() as int) =~= p);
        assert(s.skip(p.len() as int) =~= b);
    } else {
        let rest = a.skip(1);
        assert(s.skip(1) =~= rest + p + b);
        assert(s.take(p.len() as int) != p) by {
            assert(s.subrange(0, p.len() as int) =~= s.take(p.len() as int));
            assert(!text::stands_at(s, p, 0));
        }
        assert forall|at: int| 0 <= at < rest.len() implies !#[trigger] text::stands_at(
            rest + p + b,
            p,
            at,
        ) by {
            if text::stands_at(rest + p + b, p, at) {
                assert((rest + p + b).subrange(at, at + p.len()) =~= s.subrange(
                    at + 1,
                    at + 1 + p.len(),
                ));
                assert(text::stands_at(s, p, at + 1));
            }
        }
        law_first_occurrence_is_replaced(rest, p, b, r);
        assert(s[0] == a[0]);
        assert(seq![a[0]] + rest =~= a);
    }
}

proof fn lemma_line_end(line: Seq<char>, rest: Seq<char>)
    requires
        forall|i: int| 0 <= i < line.len() ==> #[trigger] line[i] != '\n',
        rest.len() > 0 ==> rest[0] == '\n',
    ensures
        text::line_end(line + rest) == line.len(),
    decreases line.len(),
{
    let all = line + rest;
    if line.len() > 0 {
        assert(all[0] == line[0]);
        assert(all.skip(1) =~= line.skip(1) + rest);
        assert forall|i: int| 0 <= i < line.skip(1).len() implies #[trigger] line.skip(1)[i]
            != '\n' by {
            assert(line.skip(1)[i] == line[i + 1]);
        }
        lemma_line_end(line.skip(1), rest);
    } else {
        assert(all =~= rest);
    }
}

/// A text is cut at its line feeds, each of which ends a line with or without a carriage
/// return before it; a last line needs none.
pub proof fn law_text_is_cut_into_lines(line: Seq<char>, rest: Seq<char>)
    requires
        forall|i: int| 0 <= i < line.len() ==> #[trigger] line[i] != '\n',
        line.len() > 0 ==> line[line.len() - 1] != '\r',
    ensures
        text::text_lines(line + seq!['\n'] + rest) =~= seq![line] + text::text_lines(rest),
        text::text_lines(line + seq!['\r', '\n'] + rest) =~= seq![line] + text::text_lines(rest),
        line.len() > 0 ==> text::text_lines(line) =~= seq![line],
        text::text_lines(Seq::empty()).len() == 0,
{
    let a = line + seq!['\n'] + rest;
    lemma_line_end(line, seq!['\n'] + rest);
    assert(a =~= line + (seq!['\n'] + rest));
    assert(a.take(line.len() as int) =~= line);
    assert(a.skip(line.len() as int + 1) =~= rest);
    let b = line + seq!['\r', '\n'] + rest;
    let long = line.push('\r');
    assert forall|i: int| 0 <= i < long.len() implies #[trigger] long[i] != '\n' by {
        if i < line.len() {
            assert(long[i] == line[i]);
        }
    }
    lemma_line_end(long, seq!['\n'] + rest);
    assert(b =~= long + (seq!['\n'] + rest));
    assert(b.take(long.len() as int) =~= long);
    assert(b.skip(long.len() as int + 1) =~= rest);
    assert(long.drop_last() =~= line);
    lemma_line_end(line, Seq::empty());
    assert(line + Seq::<char>::empty() =~= line);
}

/// Parts are linked by the separator between them, and by nothing at the ends.
pub proof fn law_parts_are_linked(parts: Seq<Seq<char>>, last: Seq<char>, sep: Seq<char>)
    ensures
        text::linked(Seq::empty(), sep).len() == 0,
        text::linked(seq![last], sep) == last,
        parts.len() > 0 ==> text::linked(parts.push(last), sep) == text::linked(parts, sep) + sep
            + last,
{
    assert(parts.push(last).drop_last() =~= parts);
}

/// Only the letters from `A` to `Z` have a lower case of their own.
pub proof fn law_ascii_case(c: char)
    ensures
        !('A' <= c && c <= 'Z') ==> text::ascii_lower(c) == c,
        'A' <= c && c <= 'Z' ==> 'a' <= text::ascii_lower(c) && text::ascii_lower(c) <= 'z'
            && text::ascii_lower(c) as int - 'a' as int == c as int - 'A' as int,
{
}

/// The number that decimal digits write.
pub open spec fn value(digits: Seq<char>) -> int
    decreases digits.len(),
{
    if digits.len() == 0 {
        0
    } else {
        10 * value(digits.drop_last()) + (digits.last() as int - '0' as int)
    }
}

/// The digits of a number write it, each of them is one, and none leads that could be left
/// out.
pub proof fn law_digits_write_the_number(n: nat)
    ensures
        ({
            let digits = text::decimal(n);
            &&& value(digits) == n
            &&& digits.len() > 0
            &&& forall|i: int|
                0 <= i < digits.len() ==> '0' <= #[trigger] digits[i] && digits[i] <= '9'
            &&& digits.len() > 1 ==> digits[0] != '0'
        }),
    decreases n,
{
    let digits = text::decimal(n);
    reveal_with_fuel(value, 2);
    if n >= 10 {
        let front = text::decimal(n / 10);
        law_digits_write_the_number(n / 10);
        assert(digits.drop_last() =~= front);
        assert(digits.last() == text::digit(n % 10));
        assert forall|i: int| 0 <= i < digits.len() implies '0' <= #[trigger] digits[i]
            && digits[i] <= '9' by {
            if i < front.len() {
                assert(digits[i] == front[i]);
            }
        }
        assert(digits[0] == front[0]);
        if front.len() == 1 {
            assert(value(front) == value(front.drop_last()) * 10 + (front[0] as int - '0' as int));
            assert(value(front.drop_last()) == 0);
        }
    } else {
        assert(digits.drop_last().len() == 0);
    }
}

proof fn lemma_field(fields: Seq<(Seq<char>, JsonView)>, key: Seq<char>, from: int, at: int)
    requires
        0 <= from <= at <= fields.len(),
        forall|i: int| from <= i < at ==> (#[trigger] fields[i]).0 != key,
        at < fields.len() ==> fields[at].0 == key,
    ensures
        tree::field_from(fields, key, from) == if at < fields.len() {
            Some(fields[at].1)
        } else {
            None
        },
    decreases at - from,
{
    if from < at {
        assert(fields[from].0 != key);
        lemma_field(fields, key, from + 1, at);
    }
}

/// The value under a key is that of the first field of this name; there is none where no
/// field has it, and in what is no object.
pub proof fn law_field_is_found_by_its_name(
    fields: Seq<(Seq<char>, JsonView)>,
    key: Seq<char>,
    at: int,
)
    requires
        0 <= at <= fields.len(),
        forall|i: int| 0 <= i < at ==> (#[trigger] fields[i]).0 != key,
        at < fields.len() ==> fields[at].0 == key,
    ensures
        at < fields.len() ==> JsonView::Object(fields).get(key) == Some(fields[at].1),
        at == fields.len() ==> JsonView::Object(fields).get(key) is None,
        forall|v: JsonView| !(v is Object) ==> (#[trigger] v.get(key)) is None,
{
    lemma_field(fields, key, 0, at);
}

/// A value is read as what it is, and as nothing else.
pub proof fn law_value_is_read_as_what_it_is(v: JsonView)
    ensures
        v matches JsonView::Str(s) ==> v.as_str() == Some(s),
        !(v is Str) ==> v.as_str() is None,
        v matches JsonView::Bool(b) ==> v.as_bool() == Some(b),
        !(v is Bool) ==> v.as_bool() is None,
        v matches JsonView::Array(items) ==> v.as_array() == Some(items),
        !(v is Array) ==> v.as_array() is None,
        v matches JsonView::Number(n) ==> v.as_u64() == n.unsigned && v.as_i64() == n.signed
            && v.as_double_bits() == n.double_bits,
        !(v is Number) ==> v.as_u64() is None && v.as_i64() is None && v.as_double_bits() is None,
{
}

proof fn lemma_texts(items: Seq<JsonView>, more: JsonView, from: int)
    requires
        0 <= from <= items.len(),
    ensures
        tree::texts_from(items.push(more), from) =~= tree::texts_from(items, from) + match more {
            JsonView::Str(s) => seq![s],
            _ => Seq::empty(),
        },
    decreases items.len() - from,
{
    let all = items.push(more);
    if from < items.len() {
        assert(all[from] == items[from]);
        lemma_texts(items, more, from + 1);
    } else {
        assert(all[from] == more);
        assert(tree::texts_from(all, from + 1) =~= Seq::<Seq<char>>::empty());
    }
}

/// The texts of a list are its strings, in order, and nothing else.
pub proof fn law_strings_of_a_list(items: Seq<JsonView>, more: JsonView)
    ensures
        tree::texts_in(Some(JsonView::Array(items.push(more)))) =~= tree::texts_in(
            Some(JsonView::Array(items)),
        ) + match more {
            JsonView::Str(s) => seq![s],
            _ => Seq::empty(),
        },
        tree::texts_in(Some(JsonView::Array(Seq::empty()))).len() == 0,
        tree::texts_in(None).len() == 0,
{
    lemma_texts(items, more, 0);
}

/// What a map holds under a key is found there, and nothing where it holds none.
pub proof fn law_lookup_finds_what_was_put<V>(m: Map<Seq<char>, V>, key: Seq<char>, v: V)
    ensures
        table::lookup(m.insert(key, v), key) == Some(v),
        table::lookup(m.remove(key), key) is None,
        forall|other: Seq<char>|
            other != key ==> #[trigger] table::lookup(m.insert(key, v), other) == table::lookup(
                m,
                other,
            ),
{
}

/// An absolute path stands for itself; a relative one stands behind its directory, with
/// one slash between them.
pub proof fn law_relative_path_is_joined(dir: Seq<char>, path: Seq<char>)
    ensures
        path.len() > 0 && path[0] == '/' ==> paths::joined(dir, path) == path,
        dir.len() == 0 ==> paths::joined(dir, path) == path,
        (path.len() == 0 || path[0] != '/') && dir.len() > 0 ==> {
            &&& dir[dir.len() - 1] == '/' ==> paths::joined(dir, path) =~= dir + path
            &&& dir[dir.len() - 1] != '/' ==> paths::joined(dir, path) =~= dir + seq!['/'] + path
        },
{
    reveal_strlit("/");
    assert("/"@ =~= seq!['/']);
}

proof fn lemma_slash(name: Seq<char>, rest: Seq<char>)
    requires
        forall|i: int| 0 <= i < name.len() ==> #[trigger] name[i] != '/',
        rest.len() > 0 ==> rest[0] == '/',
    ensures
        paths::slash_at(name + rest) == name.len(),
    decreases name.len(),
{
    let all = name + rest;
    if name.len() > 0 {
        assert(all[0] == name[0]);
        assert(all.skip(1) =~= name.skip(1) + rest);
        assert forall|i: int| 0 <= i < name.skip(1).len() implies #[trigger] name.skip(1)[i]
            != '/' by {
            assert(name.skip(1)[i] == name[i + 1]);
        }
        lemma_slash(name.skip(1), rest);
    } else {
        assert(all =~= rest);
    }
}

proof fn lemma_slash_bounds(s: Seq<char>)
    ensures
        0 <= paths::slash_at(s) <= s.len(),
    decreases s.len(),
{
    if s.len() > 0 && s[0] != '/' {
        lemma_slash_bounds(s.skip(1));
    }
}

proof fn lemma_slash_kept(s: Seq<char>, more: Seq<char>)
    requires
        paths::slash_at(s) < s.len(),
    ensures
        paths::slash_at(s + more) == paths::slash_at(s),
    decreases s.len(),
{
    if s.len() > 0 {
        assert((s + more)[0] == s[0]);
        if s[0] != '/' {
            assert((s + more).skip(1) =~= s.skip(1) + more);
            lemma_slash_kept(s.skip(1), more);
        }
    }
}

proof fn lemma_last_part(dir: Seq<char>, name: Seq<char>, leading: bool)
    requires
        name.len() > 0,
        forall|i: int| 0 <= i < name.len() ==> #[trigger] name[i] != '/',
        name != "."@,
    ensures
        paths::parts_of(name, leading) =~= seq![name],
        ({
            let parts = paths::parts_of(dir + seq!['/'] + name, leading);
            parts.len() > 0 && parts.last() == name
        }),
    decreases dir.len(),
{
    lemma_slash(name, Seq::empty());
    assert(name + Seq::<char>::empty() =~= name);
    assert(name.take(name.len() as int) =~= name);
    let all = dir + seq!['/'] + name;
    let at = paths::slash_at(dir);
    lemma_slash_bounds(dir);
    if at < dir.len() {
        lemma_slash_kept(dir, seq!['/'] + name);
        assert(all =~= dir + (seq!['/'] + name));
        assert(all.skip(at + 1) =~= dir.skip(at + 1) + seq!['/'] + name);
        lemma_last_part(dir.skip(at + 1), name, false);
    } else {
        assert forall|i: int| 0 <= i < dir.len() implies #[trigger] dir[i] != '/' by {
            lemma_no_slash(dir, i);
        }
        lemma_slash(dir, seq!['/'] + name);
        assert(all =~= dir + (seq!['/'] + name));
        assert(all.skip(dir.len() as int + 1) =~= name);
        assert(paths::parts_of(name, false) =~= seq![name]) by {
            assert(name.take(paths::slash_at(name)) =~= name);
        }
    }
}

proof fn lemma_no_slash(s: Seq<char>, i: int)
    requires
        paths::slash_at(s) >= s.len(),
        0 <= i < s.len(),
    ensures
        s[i] != '/',
    decreases s.len(),
{
    if i > 0 && s[0] != '/' {
        lemma_no_slash(s.skip(1), i - 1);
    }
}

proof fn lemma_dot(stem: Seq<char>, ext: Seq<char>)
    requires
        forall|i: int| 0 <= i < ext.len() ==> #[trigger] ext[i] != '.',
    ensures
        paths::last_dot(stem + seq!['.'] + ext) == stem.len(),
    decreases ext.len(),
{
    let all = stem + seq!['.'] + ext;
    if ext.len() > 0 {
        assert(all.last() == ext.last());
        assert(ext.last() == ext[ext.len() - 1]);
        assert(all.drop_last() =~= stem + seq!['.'] + ext.drop_last());
        assert forall|i: int| 0 <= i < ext.drop_last().len() implies #[trigger] ext.drop_last()[i]
            != '.' by {
            assert(ext.drop_last()[i] == ext[i]);
        }
        lemma_dot(stem, ext.drop_last());
    } else {
        assert(all.last() == '.');
    }
}

/// The extension of a file is what stands behind the last dot of its name, in whichever
/// directory it is; a name that only begins with a dot has none.
pub proof fn law_extension_is_behind_the_last_dot(dir: Seq<char>, stem: Seq<char>, ext: Seq<char>)
    requires
        forall|i: int| 0 <= i < stem.len() ==> #[trigger] stem[i] != '/',
        forall|i: int| 0 <= i < ext.len() ==> #[trigger] ext[i] != '/' && ext[i] != '.',
        ext.len() > 0,
    ensures
        stem.len() > 0 ==> paths::extension_of(stem + seq!['.'] + ext) == Some(ext),
        stem.len() > 0 ==> paths::extension_of(dir + seq!['/'] + (stem + seq!['.'] + ext)) == Some(
            ext,
        ),
        paths::extension_of(dir + seq!['/'] + (seq!['.'] + ext)) is None,
{
    reveal_strlit(".");
    reveal_strlit("..");
    assert forall|i: int| 0 <= i < ext.len() implies #[trigger] ext[i] != '.' by {}
    let name = stem + seq!['.'] + ext;
    assert(name.last() == ext[ext.len() - 1]);
    assert("."@.last() == '.' && ".."@.last() == '.');
    assert forall|i: int| 0 <= i < name.len() implies #[trigger] name[i] != '/' by {
        if i < stem.len() {
            assert(name[i] == stem[i]);
        } else if i > stem.len() {
            assert(name[i] == ext[i - stem.len() - 1]);
        }
    }
    lemma_dot(stem, ext);
    assert(name.skip(stem.len() as int + 1) =~= ext);
    let whole = dir + seq!['/'] + name;
    lemma_last_part(dir, name, whole[0] != '/');
    lemma_last_part(dir, name, name[0] != '/');
    let hidden = seq!['.'] + ext;
    assert(hidden.last() == ext[ext.len() - 1]);
    assert forall|i: int| 0 <= i < hidden.len() implies #[trigger] hidden[i] != '/' by {
        if i > 0 {
            assert(hidden[i] == ext[i - 1]);
        }
    }
    let none = Seq::<char>::empty();
    lemma_dot(none, ext);
    assert(none + seq!['.'] + ext =~= hidden);
    let tucked = dir + seq!['/'] + hidden;
    lemma_last_part(dir, hidden, tucked[0] != '/');
}

/// Whether `a` stands before `b` at the first place where they differ: by the lesser
/// character there, or by ending there.
pub open spec fn before_at(a: Seq<char>, b: Seq<char>, k: int) -> bool {
    &&& 0 <= k <= a.len()
    &&& k < b.len()
    &&& forall|i: int| 0 <= i < k ==> #[trigger] a[i] == b[i]
    &&& k < a.len() ==> a[k] < b[k]
}

/// Texts are ordered by the first character in which they differ, and a text stands before
/// every longer one that begins with it.
pub proof fn law_texts_are_ordered_by_their_first_difference(a: Seq<char>, b: Seq<char>)
    ensures
        text::precedes(a, b) <==> exists|k: int| before_at(a, b, k),
    decreases a.len(),
{
    if b.len() > 0 && a.len() > 0 && a[0] == b[0] {
        let (c, d) = (a.skip(1), b.skip(1));
        law_texts_are_ordered_by_their_first_difference(c, d);
        if exists|k: int| before_at(c, d, k) {
            let k = choose|k: int| before_at(c, d, k);
            assert forall|i: int| 0 <= i < k + 1 implies #[trigger] a[i] == b[i] by {
                if i > 0 {
                    assert(c[i - 1] == d[i - 1]);
                }
            }
            assert(before_at(a, b, k + 1));
        }
        if exists|k: int| before_at(a, b, k) {
            let k = choose|k: int| before_at(a, b, k);
            assert forall|i: int| 0 <= i < k - 1 implies #[trigger] c[i] == d[i] by {
                assert(a[i + 1] == b[i + 1]);
            }
            assert(before_at(c, d, k - 1));
        }
    } else if b.len() > 0 && a.len() > 0 {
        if a[0] < b[0] {
            assert(before_at(a, b, 0));
        }
        if exists|k: int| before_at(a, b, k) {
            let k = choose|k: int| before_at(a, b, k);
            if k > 0 {
                assert(a[0] == b[0]);
            }
        }
    } else if b.len() > 0 {
        assert(before_at(a, b, 0));
    }
}

/// A slash at the end of a path, a second slash and a step to where one is already do not
/// make another path.
pub proof fn law_same_path_is_written_in_many_ways(name: Seq<char>, rest: Seq<char>)
    requires
        name.len() > 0,
        forall|i: int| 0 <= i < name.len() ==> #[trigger] name[i] != '/',
        name != "."@,
    ensures
        paths::path_view(name + seq!['/']) == paths::path_view(name),
        paths::path_view(name + seq!['/', '/'] + rest) == paths::path_view(name + seq!['/'] + rest),
        paths::path_view(name + seq!['/', '.', '/'] + rest) == paths::path_view(
            name + seq!['/'] + rest,
        ),
        paths::path_view(name).parts =~= seq![name],
        !paths::path_view(name).absolute,
        paths::path_view(seq!['/'] + name) == (paths::PathView { absolute: true, parts: seq![name] }),
{
    reveal_strlit(".");
    assert("."@ =~= seq!['.']);
    let none = Seq::<char>::empty();
    lemma_slash(name, none);
    assert(name + none =~= name);
    assert(name.take(name.len() as int) =~= name);
    let n = name.len() as int;
    let a = name + seq!['/'];
    lemma_slash(name, seq!['/']);
    assert(a.take(n) =~= name && a.skip(n + 1) =~= none);
    assert(a[0] == name[0]);
    assert(paths::parts_of(none, false) =~= Seq::<Seq<char>>::empty());
    assert(paths::parts_of(name, true) =~= seq![name]);
    assert(paths::parts_of(a, true) =~= seq![name]);
    let one = name + seq!['/'] + rest;
    assert(one =~= name + (seq!['/'] + rest));
    lemma_slash(name, seq!['/'] + rest);
    assert(one.take(n) =~= name && one.skip(n + 1) =~= rest);
    assert(one[0] == name[0]);
    let two = name + seq!['/', '/'] + rest;
    assert(two =~= name + (seq!['/', '/'] + rest));
    lemma_slash(name, seq!['/', '/'] + rest);
    let tail = seq!['/'] + rest;
    assert(two.take(n) =~= name && two.skip(n + 1) =~= tail);
    assert(two[0] == name[0]);
    lemma_slash(none, tail);
    assert(none + tail =~= tail);
    assert(tail.skip(1) =~= rest);
    assert(paths::parts_of(tail, false) =~= paths::parts_of(rest, false));
    let dot = name + seq!['/', '.', '/'] + rest;
    let here = seq!['.', '/'] + rest;
    assert(dot =~= name + (seq!['/', '.', '/'] + rest));
    lemma_slash(name, seq!['/', '.', '/'] + rest);
    assert(dot.take(n) =~= name && dot.skip(n + 1) =~= here);
    assert(dot[0] == name[0]);
    lemma_slash(seq!['.'], tail);
    assert(here =~= seq!['.'] + tail);
    assert(here.take(1) =~= seq!['.'] && here.skip(2) =~= rest);
    assert(paths::parts_of(here, false) =~= paths::parts_of(rest, false));
    let root = seq!['/'] + name;
    assert(root[0] == '/');
    lemma_slash(none, root);
    assert(none + root =~= root);
    assert(root.take(0) =~= none && root.skip(1) =~= name);
    assert(paths::parts_of(name, false) =~= seq![name]);
    assert(paths::parts_of(root, false) =~= seq![name]);
}

} // verus!
