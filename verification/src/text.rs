//! Character-level helpers on strings, with their meaning over `Seq<char>`.
use vstd::prelude::*;

verus! {

/// Whether two strings hold the same characters.
///
/// Calls `<str as PartialEq>::eq`, which compares the two texts.
#[verifier::external_body]
pub(crate) fn str_eq(a: &str, b: &str) -> (same: bool)
    ensures
        same == (a@ == b@),
{
    a == b
}

/// Appends one character: `String::push`, which puts `c` behind the last one.
pub assume_specification[ String::push ](s: &mut String, c: char)
    ensures
        final(s)@ == old(s)@.push(c),
;

/// The Unicode `White_Space` property.
pub open spec fn is_white(c: char) -> bool {
    ||| 0x9 <= c as u32 <= 0xd
    ||| c as u32 == 0x20
    ||| c as u32 == 0x85
    ||| c as u32 == 0xa0
    ||| c as u32 == 0x1680
    ||| 0x2000 <= c as u32 <= 0x200a
    ||| c as u32 == 0x2028
    ||| c as u32 == 0x2029
    ||| c as u32 == 0x202f
    ||| c as u32 == 0x205f
    ||| c as u32 == 0x3000
}

/// Whether `c` has the `White_Space` property.
pub fn white_space(c: char) -> (white: bool)
    ensures
        white == is_white(c),
{
    let n: u32 = c as u32;
    (0x9 <= n && n <= 0xd) || n == 0x20 || n == 0x85 || n == 0xa0 || n == 0x1680 || (0x2000 <= n
        && n <= 0x200a) || n == 0x2028 || n == 0x2029 || n == 0x202f || n == 0x205f || n == 0x3000
}

/// `s` without its leading white space.
pub open spec fn trimmed_start(s: Seq<char>) -> Seq<char>
    decreases s.len(),
{
    if s.len() > 0 && is_white(s[0]) {
        trimmed_start(s.skip(1))
    } else {
        s
    }
}

/// `s` without its trailing white space.
pub open spec fn trimmed_end(s: Seq<char>) -> Seq<char>
    decreases s.len(),
{
    if s.len() > 0 && is_white(s.last()) {
        trimmed_end(s.drop_last())
    } else {
        s
    }
}

/// `s` without white space at either end.
pub open spec fn trimmed(s: Seq<char>) -> Seq<char> {
    trimmed_end(trimmed_start(s))
}

/// `s` without the carriage returns and line feeds at its end.
pub open spec fn chomped(s: Seq<char>) -> Seq<char>
    decreases s.len(),
{
    if s.len() > 0 && (s.last() == '\r' || s.last() == '\n') {
        chomped(s.drop_last())
    } else {
        s
    }
}

/// Strips white space at both ends.
pub fn trim(s: &str) -> (t: &str)
    ensures
        t@ == trimmed(s@),
{
    let n: usize = s.unicode_len();
    let mut from: usize = 0;
    assert(s@.skip(0) == s@);
    while from < n && white_space(s.get_char(from))
        invariant
            n == s@.len(),
            from <= n,
            trimmed_start(s@.skip(from as int)) == trimmed_start(s@),
        decreases n - from,
    {
        assert(s@.skip(from as int).skip(1) == s@.skip(from + 1));
        from += 1;
    }
    let rest = s.substring_char(from, n);
    assert(rest@ == s@.skip(from as int));
    assert(rest@ == trimmed_start(s@));
    trim_end(rest)
}

/// Strips white space at the end.
pub fn trim_end(s: &str) -> (t: &str)
    ensures
        t@ == trimmed_end(s@),
{
    let n: usize = s.unicode_len();
    let mut to: usize = n;
    assert(s@.take(n as int) == s@);
    while to > 0 && white_space(s.get_char(to - 1))
        invariant
            n == s@.len(),
            to <= n,
            trimmed_end(s@.take(to as int)) == trimmed_end(s@),
        decreases to,
    {
        assert(s@.take(to as int).drop_last() == s@.take(to - 1));
        to -= 1;
    }
    s.substring_char(0, to)
}

/// Strips trailing carriage returns and line feeds.
pub fn chomp(s: &str) -> (t: &str)
    ensures
        t@ == chomped(s@),
{
    let n: usize = s.unicode_len();
    let mut to: usize = n;
    assert(s@.take(n as int) == s@);
    while to > 0 && (s.get_char(to - 1) == '\r' || s.get_char(to - 1) == '\n')
        invariant
            n == s@.len(),
            to <= n,
            chomped(s@.take(to as int)) == chomped(s@),
        decreases to,
    {
        assert(s@.take(to as int).drop_last() == s@.take(to - 1));
        to -= 1;
    }
    s.substring_char(0, to)
}

/// Whether `p` begins at position `at` of `s`.
pub open spec fn stands_at(s: Seq<char>, p: Seq<char>, at: int) -> bool {
    0 <= at && at + p.len() <= s.len() && s.subrange(at, at + p.len()) == p
}

/// Whether `p` occurs somewhere in `s`.
pub open spec fn occurs(s: Seq<char>, p: Seq<char>) -> bool {
    exists|at: int| stands_at(s, p, at)
}

/// `r` before every character of `s` and behind the last one.
pub open spec fn spread(s: Seq<char>, r: Seq<char>) -> Seq<char>
    decreases s.len(),
{
    if s.len() == 0 {
        r
    } else {
        r + seq![s[0]] + spread(s.skip(1), r)
    }
}

/// `s` with every occurrence of `p` replaced by `r`, from the left and without
/// overlaps. Nothing at all occurs at every position.
pub open spec fn replaced(s: Seq<char>, p: Seq<char>, r: Seq<char>) -> Seq<char>
    decreases s.len(),
{
    if p.len() == 0 {
        spread(s, r)
    } else if s.len() < p.len() {
        s
    } else if s.take(p.len() as int) == p {
        r + replaced(s.skip(p.len() as int), p, r)
    } else {
        seq![s[0]] + replaced(s.skip(1), p, r)
    }
}

/// The characters of `s`.
pub fn chars_of(s: &str) -> (v: Vec<char>)
    ensures
        v@ == s@,
{
    let mut v: Vec<char> = Vec::new();
    for c in it: s.chars()
        invariant
            v@ == it.seq().take(it.index() as int),
            it.seq() == s@,
    {
        v.push(c);
        assert(it.seq().take(it.index() + 1) == it.seq().take(it.index() as int).push(c));
    }
    assert(s@.take(s@.len() as int) == s@);
    v
}

/// The string that the characters of `v` from `from` up to `to` spell.
pub fn string_from(v: &Vec<char>, from: usize, to: usize) -> (s: String)
    requires
        from <= to <= v@.len(),
    ensures
        s@ == v@.subrange(from as int, to as int),
{
    let mut s = String::new();
    let mut i: usize = from;
    while i < to
        invariant
            from <= i <= to <= v@.len(),
            s@ == v@.subrange(from as int, i as int),
        decreases to - i,
    {
        s.push(v[i]);
        assert(v@.subrange(from as int, i + 1) == v@.subrange(from as int, i as int).push(v@[i as int]));
        i += 1;
    }
    s
}

/// Whether `p` begins at position `at` of `v`.
pub fn matches_at(v: &Vec<char>, p: &Vec<char>, at: usize) -> (found: bool)
    ensures
        found == stands_at(v@, p@, at as int),
{
    if at > v.len() || p.len() > v.len() - at {
        return false;
    }
    let mut i: usize = 0;
    while i < p.len()
        invariant
            i <= p@.len(),
            at + p@.len() <= v.len(),
            forall|k: int| 0 <= k < i ==> v@[at + k] == p@[k],
        decreases p@.len() - i,
    {
        if v[at + i] != p[i] {
            assert(v@.subrange(at as int, at + p@.len())[i as int] != p@[i as int]);
            return false;
        }
        i += 1;
    }
    assert(v@.subrange(at as int, at + p@.len()) == p@);
    true
}

/// Whether `p` occurs in `s`.
pub fn contains(s: &str, p: &str) -> (found: bool)
    ensures
        found == occurs(s@, p@),
{
    let v = chars_of(s);
    let w = chars_of(p);
    let mut at: usize = 0;
    while at < v.len()
        invariant
            at <= v@.len(),
            v@ == s@,
            w@ == p@,
            forall|k: int| 0 <= k < at ==> !stands_at(v@, w@, k),
        decreases v@.len() - at,
    {
        if matches_at(&v, &w, at) {
            return true;
        }
        at += 1;
    }
    let found = matches_at(&v, &w, at);
    assert(found == occurs(s@, p@)) by {
        if occurs(s@, p@) {
            let k = choose|k: int| stands_at(s@, p@, k);
            assert(stands_at(v@, w@, k));
        }
    }
    found
}

/// Whether `s` begins with `p`.
pub fn starts_with(s: &str, p: &str) -> (found: bool)
    ensures
        found == stands_at(s@, p@, 0),
{
    matches_at(&chars_of(s), &chars_of(p), 0)
}

/// Whether `s` ends with `p`.
pub fn ends_with(s: &str, p: &str) -> (found: bool)
    ensures
        found == stands_at(s@, p@, s@.len() - p@.len()),
{
    let v = chars_of(s);
    let w = chars_of(p);
    if w.len() > v.len() {
        return false;
    }
    matches_at(&v, &w, v.len() - w.len())
}

/// Puts `r` before every character of `s` and behind the last one.
fn interleave(s: &str, r: &str) -> (t: String)
    ensures
        t@ == spread(s@, r@),
{
    let v = chars_of(s);
    let mut out = String::new();
    let mut at: usize = 0;
    assert(v@.skip(0) == v@);
    while at < v.len()
        invariant
            at <= v@.len(),
            v@ == s@,
            out@ + spread(v@.skip(at as int), r@) == spread(s@, r@),
        decreases v@.len() - at,
    {
        let ghost rest = v@.skip(at as int);
        let ghost before = out@;
        out.append(r);
        out.push(v[at]);
        assert(rest.skip(1) == v@.skip(at + 1));
        assert(before + spread(rest, r@) == out@ + spread(v@.skip(at + 1), r@));
        at += 1;
    }
    assert(v@.skip(at as int).len() == 0);
    out.append(r);
    out
}

/// Replaces every occurrence of `p` in `s` by `r`.
pub fn replace(s: &str, p: &str, r: &str) -> (t: String)
    ensures
        t@ == replaced(s@, p@, r@),
{
    if p.is_empty() {
        return interleave(s, r);
    }
    let v = chars_of(s);
    let w = chars_of(p);
    let mut out = String::new();
    let mut at: usize = 0;
    assert(v@.skip(0) == v@);
    while at < v.len()
        invariant
            at <= v@.len(),
            v@ == s@,
            w@ == p@,
            p@.len() > 0,
            out@ + replaced(v@.skip(at as int), p@, r@) == replaced(s@, p@, r@),
        decreases v@.len() - at,
    {
        let ghost rest = v@.skip(at as int);
        let ghost before = out@;
        if matches_at(&v, &w, at) {
            assert(rest.take(p@.len() as int) == v@.subrange(at as int, at + p@.len()));
            assert(rest.skip(p@.len() as int) == v@.skip(at + p@.len()));
            out.append(r);
            at += w.len();
            assert(before + replaced(rest, p@, r@) == out@ + replaced(v@.skip(at as int), p@, r@));
        } else {
            assert(rest.skip(1) == v@.skip(at + 1));
            proof {
                if rest.len() >= p@.len() {
                    assert(rest.take(p@.len() as int) == v@.subrange(at as int, at + p@.len()));
                }
                if rest.len() < p@.len() {
                    assert(replaced(rest, p@, r@) == seq![rest[0]] + replaced(rest.skip(1), p@, r@));
                }
            }
            out.push(v[at]);
            at += 1;
            assert(before + replaced(rest, p@, r@) == out@ + replaced(v@.skip(at as int), p@, r@));
        }
    }
    assert(v@.skip(at as int) == Seq::<char>::empty());
    assert(out@ + Seq::<char>::empty() == out@);
    out
}

/// The decimal digit of a number below ten.
pub open spec fn digit(n: nat) -> char {
    ('0' as u32 + n) as char
}

/// The decimal digits of a number.
pub open spec fn decimal(n: nat) -> Seq<char>
    decreases n,
{
    if n < 10 {
        seq![digit(n)]
    } else {
        decimal(n / 10).push(digit(n % 10))
    }
}

/// Writes a number in decimal digits.
pub fn to_decimal(n: u64) -> (s: String)
    ensures
        s@ == decimal(n as nat),
    decreases n,
{
    let last: u8 = (n % 10) as u8;
    let mut s = if n < 10 {
        String::new()
    } else {
        to_decimal(n / 10)
    };
    let code: u8 = 48 + last;
    s.push(code as char);
    assert(s@.last() == digit((n % 10) as nat));
    if n < 10 {
        assert(s@ == decimal(n as nat));
    }
    s
}

/// `c` in lower case, where it is an ASCII letter.
pub open spec fn ascii_lower(c: char) -> char {
    if 'A' <= c <= 'Z' {
        (c as u32 + 32) as char
    } else {
        c
    }
}

/// `s` with its ASCII letters in lower case.
pub open spec fn ascii_lowered(s: Seq<char>) -> Seq<char> {
    s.map_values(|c: char| ascii_lower(c))
}

/// Turns ASCII letters into lower case.
pub fn to_ascii_lower(s: &str) -> (t: String)
    ensures
        t@ == ascii_lowered(s@),
{
    let v = chars_of(s);
    let mut t = String::new();
    let mut i: usize = 0;
    while i < v.len()
        invariant
            i <= v@.len(),
            v@ == s@,
            t@ == ascii_lowered(s@).take(i as int),
        decreases v@.len() - i,
    {
        let c = v[i];
        let ghost before = t@;
        if 'A' <= c && c <= 'Z' {
            let lower: u8 = c as u8 + 32;
            t.push(lower as char);
        } else {
            t.push(c);
        }
        assert(t@ == before.push(ascii_lower(c)));
        assert(t@ == ascii_lowered(s@).take(i + 1));
        i += 1;
    }
    assert(ascii_lowered(s@).take(i as int) == ascii_lowered(s@));
    t
}

/// The position of the first line feed of `s`, or its length where it has none.
pub open spec fn line_end(s: Seq<char>) -> int
    decreases s.len(),
{
    if s.len() == 0 || s[0] == '\n' {
        0
    } else {
        1 + line_end(s.skip(1))
    }
}

/// `s` without one carriage return at its end.
pub open spec fn without_return(s: Seq<char>) -> Seq<char> {
    if s.len() > 0 && s.last() == '\r' {
        s.drop_last()
    } else {
        s
    }
}

/// The lines of `s`: what stands between line feeds, without the carriage
/// return before a line feed, and without an empty line behind the last one.
pub open spec fn text_lines(s: Seq<char>) -> Seq<Seq<char>>
    decreases s.len(),
{
    if s.len() == 0 {
        Seq::empty()
    } else {
        let end = line_end(s);
        if 0 <= end < s.len() {
            seq![without_return(s.take(end))] + text_lines(s.skip(end + 1))
        } else {
            seq![s]
        }
    }
}

proof fn lemma_line_end(s: Seq<char>, end: int)
    requires
        0 <= end <= s.len(),
        forall|k: int| 0 <= k < end ==> s[k] != '\n',
        end < s.len() ==> s[end] == '\n',
    ensures
        line_end(s) == end,
    decreases s.len(),
{
    if end > 0 {
        lemma_line_end(s.skip(1), end - 1);
    }
}

/// The strings of `v`, each by its view.
pub open spec fn views(v: Seq<String>) -> Seq<Seq<char>> {
    v.map_values(|s: String| s@)
}

/// Appends one string.
pub fn push_text(v: &mut Vec<String>, s: String)
    ensures
        views(final(v)@) == views(old(v)@).push(s@),
{
    let ghost before = v@;
    v.push(s);
    assert(views(v@) == views(before).push(s@));
}

/// Splits `s` into its lines.
pub fn lines(s: &str) -> (out: Vec<String>)
    ensures
        views(out@) == text_lines(s@),
{
    let v = chars_of(s);
    let mut out: Vec<String> = Vec::new();
    let mut from: usize = 0;
    assert(v@.skip(0) == v@);
    assert(views(out@) == Seq::<Seq<char>>::empty());
    while from < v.len()
        invariant
            from <= v@.len(),
            v@ == s@,
            views(out@) + text_lines(v@.skip(from as int)) == text_lines(s@),
        decreases v@.len() - from,
    {
        let ghost rest = v@.skip(from as int);
        let ghost before = out@;
        let mut end: usize = from;
        while end < v.len() && v[end] != '\n'
            invariant
                from <= end <= v@.len(),
                forall|k: int| from <= k < end ==> v@[k] != '\n',
            decreases v@.len() - end,
        {
            end += 1;
        }
        proof {
            lemma_line_end(rest, end - from);
            assert(rest.take(end - from) == v@.subrange(from as int, end as int));
        }
        if end < v.len() {
            let stop: usize = if end > from && v[end - 1] == '\r' { end - 1 } else { end };
            let line = string_from(&v, from, stop);
            assert(line@ == without_return(rest.take(end - from)));
            out.push(line);
            assert(rest.skip(end - from + 1) == v@.skip(end + 1));
            assert(views(out@) == views(before).push(out@.last()@));
            from = end + 1;
            assert(views(before) + text_lines(rest) == views(out@) + text_lines(v@.skip(from as int)));
        } else {
            let line = string_from(&v, from, end);
            assert(line@ == rest);
            out.push(line);
            assert(views(out@) == views(before).push(out@.last()@));
            from = end;
            assert(v@.skip(from as int) == Seq::<char>::empty());
            assert(views(before) + text_lines(rest) == views(out@) + text_lines(v@.skip(from as int)));
        }
    }
    assert(v@.skip(from as int) == Seq::<char>::empty());
    assert(views(out@) + Seq::<Seq<char>>::empty() == views(out@));
    out
}

/// Whether `a` stands before `b` in the order of their characters.
pub open spec fn precedes(a: Seq<char>, b: Seq<char>) -> bool
    decreases a.len(),
{
    if b.len() == 0 {
        false
    } else if a.len() == 0 {
        true
    } else if a[0] != b[0] {
        a[0] < b[0]
    } else {
        precedes(a.skip(1), b.skip(1))
    }
}

/// Whether `a` stands before `b` in the order of their characters.
pub fn text_before(a: &str, b: &str) -> (yes: bool)
    ensures
        yes == precedes(a@, b@),
{
    let v = chars_of(a);
    let w = chars_of(b);
    let mut i: usize = 0;
    assert(v@.skip(0) == v@ && w@.skip(0) == w@);
    while i < v.len() && i < w.len()
        invariant
            i <= v@.len(),
            i <= w@.len(),
            v@ == a@,
            w@ == b@,
            precedes(v@.skip(i as int), w@.skip(i as int)) == precedes(a@, b@),
        decreases v@.len() - i,
    {
        if v[i] != w[i] {
            assert(v@.skip(i as int)[0] == v@[i as int] && w@.skip(i as int)[0] == w@[i as int]);
            return v[i] < w[i];
        }
        assert(v@.skip(i as int).skip(1) == v@.skip(i + 1));
        assert(w@.skip(i as int).skip(1) == w@.skip(i + 1));
        i += 1;
    }
    i < w.len()
}

/// Two texts that agree on their first `k` characters are ordered by what follows.
pub proof fn lemma_precedes_at(a: Seq<char>, b: Seq<char>, k: int)
    requires
        0 <= k <= a.len(),
        k < b.len(),
        forall|i: int| 0 <= i < k ==> a[i] == b[i],
        k < a.len() ==> a[k] < b[k],
    ensures
        precedes(a, b),
    decreases k,
{
    if k > 0 {
        assert forall|i: int| 0 <= i < k - 1 implies a.skip(1)[i] == b.skip(1)[i] by {
            assert(a.skip(1)[i] == a[i + 1] && b.skip(1)[i] == b[i + 1]);
        }
        lemma_precedes_at(a.skip(1), b.skip(1), k - 1);
    }
}

/// The order of texts is transitive.
pub proof fn lemma_precedes_transitive(a: Seq<char>, b: Seq<char>, c: Seq<char>)
    requires
        precedes(a, b),
        precedes(b, c),
    ensures
        precedes(a, c),
    decreases a.len(),
{
    if a.len() > 0 && b.len() > 0 && c.len() > 0 && a[0] == b[0] && b[0] == c[0] {
        lemma_precedes_transitive(a.skip(1), b.skip(1), c.skip(1));
    }
}

/// Whether each of `keys` stands before the next.
pub open spec fn ascending(keys: Seq<Seq<char>>) -> bool {
    forall|i: int| 0 <= i < keys.len() - 1 ==> precedes(#[trigger] keys[i], keys[i + 1])
}

/// Where each text stands before the next, each stands before all that follow.
pub proof fn lemma_ascending(keys: Seq<Seq<char>>, i: int, j: int)
    requires
        ascending(keys),
        0 <= i < j < keys.len(),
    ensures
        precedes(keys[i], keys[j]),
    decreases j - i,
{
    if i + 1 < j {
        lemma_ascending(keys, i, j - 1);
        assert(precedes(keys[j - 1], keys[j - 1 + 1]));
        lemma_precedes_transitive(keys[i], keys[j - 1], keys[j]);
    }
}

/// `parts` in order, with `sep` between each two.
pub open spec fn linked(parts: Seq<Seq<char>>, sep: Seq<char>) -> Seq<char>
    decreases parts.len(),
{
    if parts.len() == 0 {
        Seq::empty()
    } else if parts.len() == 1 {
        parts[0]
    } else {
        linked(parts.drop_last(), sep) + sep + parts.last()
    }
}

/// Links `parts` in order, with `sep` between each two.
pub fn link(parts: &Vec<String>, sep: &str) -> (s: String)
    ensures
        s@ == linked(views(parts@), sep@),
{
    let mut s = String::new();
    let ghost all = views(parts@);
    let mut i: usize = 0;
    assert(all.take(0).len() == 0);
    while i < parts.len()
        invariant
            i <= parts@.len(),
            all == views(parts@),
            s@ == linked(all.take(i as int), sep@),
        decreases parts@.len() - i,
    {
        assert(all.take(i + 1).drop_last() == all.take(i as int));
        assert(all.take(i + 1).last() == parts@[i as int]@);
        if i > 0 {
            s = s.concat(sep);
        }
        s = s.concat(parts[i].as_str());
        assert(Seq::<char>::empty() + parts@[i as int]@ == parts@[i as int]@);
        i += 1;
    }
    assert(all.take(i as int) == all);
    s
}

/// Whether one of `patterns` occurs in `s`.
pub open spec fn occurs_any(s: Seq<char>, patterns: Seq<Seq<char>>) -> bool {
    exists|i: int| 0 <= i < patterns.len() && occurs(s, #[trigger] patterns[i])
}

/// Whether one of `patterns` occurs in `s`.
pub fn contains_any(s: &str, patterns: &[&str]) -> (found: bool)
    ensures
        found == occurs_any(s@, patterns@.map_values(|p: &str| p@)),
{
    let ghost all = patterns@.map_values(|p: &str| p@);
    let mut i: usize = 0;
    while i < patterns.len()
        invariant
            i <= patterns@.len(),
            all == patterns@.map_values(|p: &str| p@),
            forall|k: int| 0 <= k < i ==> !occurs(s@, #[trigger] all[k]),
        decreases patterns@.len() - i,
    {
        assert(all[i as int] == patterns@[i as int]@);
        if contains(s, patterns[i]) {
            return true;
        }
        i += 1;
    }
    false
}

/// What Unicode makes of `s` in lower case.
pub uninterp spec fn lowered(s: Seq<char>) -> Seq<char>;

/// Whether `s` holds nothing but ASCII characters.
pub open spec fn all_ascii(s: Seq<char>) -> bool {
    forall|i: int| 0 <= i < s.len() ==> (#[trigger] s[i] as u32) < 128
}

/// Calls `str::to_lowercase`, which maps every character by the Unicode tables.
/// The result is a function of the text. An ASCII text has just its letters `A` to
/// `Z` mapped.
#[verifier::external_body]
pub(crate) fn to_lower(s: &str) -> (t: String)
    ensures
        t@ == lowered(s@),
        all_ascii(s@) ==> t@ == ascii_lowered(s@),
{
    s.to_lowercase()
}

/// Of two texts one stands before the other, unless they are one.
pub proof fn lemma_precedes_total(a: Seq<char>, b: Seq<char>)
    ensures
        precedes(a, b) || precedes(b, a) || a == b,
        !(precedes(a, b) && precedes(b, a)),
        a == b ==> !precedes(a, b),
    decreases a.len(),
{
    if a.len() > 0 && b.len() > 0 {
        if a[0] == b[0] {
            lemma_precedes_total(a.skip(1), b.skip(1));
            if a.skip(1) == b.skip(1) {
                assert(a == seq![a[0]] + a.skip(1));
                assert(b == seq![b[0]] + b.skip(1));
            }
        }
    } else if a.len() == 0 && b.len() == 0 {
        assert(a == b);
    }
}

/// Numbers with the same digits are the same.
pub proof fn lemma_decimal_injective(a: nat, b: nat)
    requires
        decimal(a) == decimal(b),
    ensures
        a == b,
    decreases a,
{
    lemma_decimal_len(a);
    lemma_decimal_len(b);
    assert(decimal(a).last() == digit(a % 10));
    assert(decimal(b).last() == digit(b % 10));
    assert(a % 10 == b % 10);
    if a >= 10 {
        assert(decimal(a).drop_last() == decimal(a / 10));
        assert(decimal(b).drop_last() == decimal(b / 10));
        lemma_decimal_injective(a / 10, b / 10);
    }
}

proof fn lemma_decimal_len(n: nat)
    ensures
        decimal(n).len() >= 1,
        n < 10 <==> decimal(n).len() == 1,
    decreases n,
{
    if n >= 10 {
        lemma_decimal_len(n / 10);
    }
}

/// Copies of `parts`.
pub fn texts(parts: &[&str]) -> (copies: Vec<String>)
    ensures
        views(copies@) == parts@.map_values(|p: &str| p@),
{
    let mut copies: Vec<String> = Vec::new();
    let mut i: usize = 0;
    while i < parts.len()
        invariant
            i <= parts@.len(),
            views(copies@) == parts@.map_values(|p: &str| p@).take(i as int),
        decreases parts@.len() - i,
    {
        push_text(&mut copies, parts[i].to_owned());
        assert(views(copies@) == parts@.map_values(|p: &str| p@).take(i + 1));
        i += 1;
    }
    assert(parts@.map_values(|p: &str| p@).take(i as int) == parts@.map_values(|p: &str| p@));
    copies
}

} // verus!
