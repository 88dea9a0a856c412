//! The answers to what an agent asks of its terminal.
//!
//! Programs ask a terminal for its cursor, its modes and its colors, and wait for
//! the answers. The daemon gives them, so that no client has to.
use crate::agents::detect;
use crate::agents::detect::cursor_of;
use crate::lines::append_bytes;
use vstd::prelude::*;
use vstd::slice::slice_subrange;

verus! {

/// The byte that begins a control sequence.
pub const ESCAPE: u8 = 27;

/// Whether `bytes` begins with `pattern`.
pub open spec fn begins(bytes: Seq<u8>, pattern: Seq<u8>) -> bool {
    pattern.len() <= bytes.len() && bytes.take(pattern.len() as int) == pattern
}

fn begins_with(bytes: &[u8], pattern: &[u8]) -> (yes: bool)
    ensures
        yes == begins(bytes@, pattern@),
{
    if bytes.len() < pattern.len() {
        return false;
    }
    let mut i: usize = 0;
    while i < pattern.len()
        invariant
            i <= pattern@.len(),
            pattern@.len() <= bytes@.len(),
            forall|k: int| 0 <= k < i ==> bytes@[k] == pattern@[k],
        decreases pattern@.len() - i,
    {
        if bytes[i] != pattern[i] {
            assert(bytes@.take(pattern@.len() as int)[i as int] == bytes@[i as int]);
            return false;
        }
        i += 1;
    }
    assert(bytes@.take(pattern@.len() as int) == pattern@);
    true
}

/// The decimal digits of a number, as bytes.
pub open spec fn digits(n: nat) -> Seq<u8>
    decreases n,
{
    if n < 10 {
        seq![(48 + n) as u8]
    } else {
        digits(n / 10).push((48 + n % 10) as u8)
    }
}

fn push_digits(out: &mut Vec<u8>, n: u32)
    ensures
        final(out)@ == old(out)@ + digits(n as nat),
    decreases n,
{
    if n >= 10 {
        push_digits(out, n / 10);
    }
    let last: u8 = (n % 10) as u8;
    let ghost before = out@;
    out.push(48 + last);
    assert(out@ == before + seq![(48 + last) as u8]);
    if n >= 10 {
        assert(old(out)@ + digits((n / 10) as nat).push((48 + last) as u8) == out@);
    }
}

/// A question at the start of some bytes: how long it is, and its answer.
pub struct Query {
    pub len: int,
    pub answer: Seq<u8>,
}

/// `ESC [ <row> ; <column> R`: where the cursor is, counted from one.
pub open spec fn cursor_report(cursor: (u16, u16)) -> Seq<u8> {
    seq![27u8, 91] + digits((cursor.0 + 1) as nat) + seq![59u8] + digits((cursor.1 + 1) as nat)
        + seq![82u8]
}

/// The questions after the cursor (`ESC [6n`), the status (`ESC [5n`), the keyboard
/// protocol (`ESC [?u`, not supported), and the two identities (`ESC [>c`, `ESC [c`).
pub open spec fn csi_query(cursor: (u16, u16), bytes: Seq<u8>) -> Option<Query> {
    if begins(bytes, seq![27u8, 91, 54, 110]) {
        Some(Query { len: 4, answer: cursor_report(cursor) })
    } else if begins(bytes, seq![27u8, 91, 53, 110]) {
        // ESC [0n
        Some(Query { len: 4, answer: seq![27u8, 91, 48, 110] })
    } else if begins(bytes, seq![27u8, 91, 63, 117]) {
        // ESC [?0u
        Some(Query { len: 4, answer: seq![27u8, 91, 63, 48, 117] })
    } else if begins(bytes, seq![27u8, 91, 62, 99]) {
        // ESC [>0;276;0c
        Some(
            Query {
                len: 4,
                answer: seq![27u8, 91, 62, 48, 59, 50, 55, 54, 59, 48, 99],
            },
        )
    } else if begins(bytes, seq![27u8, 91, 99]) {
        // ESC [?62;1;2;6;9;15;22c
        Some(
            Query {
                len: 3,
                answer: seq![
                    27u8, 91, 63, 54, 50, 59, 49, 59, 50, 59, 54, 59, 57, 59, 49, 53, 59, 50, 50,
                    99,
                ],
            },
        )
    } else {
        None
    }
}

/// Answers a question with a fixed answer at the start of `bytes`, or one after the
/// cursor, and returns its length.
fn csi_reply(cursor: (u16, u16), bytes: &[u8], out: &mut Vec<u8>) -> (len: Option<usize>)
    ensures
        match csi_query(cursor, bytes@) {
            Some(query) => len is Some && len->0 == query.len && final(out)@ == old(out)@
                + query.answer,
            None => len is None && final(out)@ == old(out)@,
        },
{
    let ghost before = out@;
    let cursor_query = [27u8, 91, 54, 110];
    let status_query = [27u8, 91, 53, 110];
    let keyboard_query = [27u8, 91, 63, 117];
    let second_identity = [27u8, 91, 62, 99];
    let first_identity = [27u8, 91, 99];
    assert(cursor_query@ == seq![27u8, 91, 54, 110]);
    assert(status_query@ == seq![27u8, 91, 53, 110]);
    assert(keyboard_query@ == seq![27u8, 91, 63, 117]);
    assert(second_identity@ == seq![27u8, 91, 62, 99]);
    assert(first_identity@ == seq![27u8, 91, 99]);
    if begins_with(bytes, &cursor_query) {
        let head = [27u8, 91];
        append_bytes(out, &head);
        push_digits(out, cursor.0 as u32 + 1);
        out.push(59);
        push_digits(out, cursor.1 as u32 + 1);
        out.push(82);
        assert(out@ == before + cursor_report(cursor));
        return Some(4);
    }
    if begins_with(bytes, &status_query) {
        let answer = [27u8, 91, 48, 110];
        append_bytes(out, &answer);
        assert(answer@ == seq![27u8, 91, 48, 110]);
        return Some(4);
    }
    if begins_with(bytes, &keyboard_query) {
        let answer = [27u8, 91, 63, 48, 117];
        append_bytes(out, &answer);
        assert(answer@ == seq![27u8, 91, 63, 48, 117]);
        return Some(4);
    }
    if begins_with(bytes, &second_identity) {
        let answer = [27u8, 91, 62, 48, 59, 50, 55, 54, 59, 48, 99];
        append_bytes(out, &answer);
        assert(answer@ == seq![27u8, 91, 62, 48, 59, 50, 55, 54, 59, 48, 99]);
        return Some(4);
    }
    if begins_with(bytes, &first_identity) {
        let answer = [
            27u8, 91, 63, 54, 50, 59, 49, 59, 50, 59, 54, 59, 57, 59, 49, 53, 59, 50, 50, 99,
        ];
        append_bytes(out, &answer);
        assert(answer@ == seq![
            27u8, 91, 63, 54, 50, 59, 49, 59, 50, 59, 54, 59, 57, 59, 49, 53, 59, 50, 50, 99,
        ]);
        return Some(3);
    }
    None
}

/// How many decimal digits `bytes` begins with.
pub open spec fn digit_run(bytes: Seq<u8>) -> nat
    decreases bytes.len(),
{
    if bytes.len() > 0 && 48 <= bytes[0] <= 57 {
        1 + digit_run(bytes.skip(1))
    } else {
        0
    }
}

/// How long the start of a question after a mode is: `ESC [?` or `ESC [`.
pub open spec fn mode_prefix(bytes: Seq<u8>) -> int {
    if begins(bytes, seq![27u8, 91, 63]) {
        3
    } else if begins(bytes, seq![27u8, 91]) {
        2
    } else {
        0
    }
}

/// A question after a mode (`ESC [ ? <mode> $ p`, the `?` left out for some modes) is
/// answered that the mode is known and not set: `ESC [ ? <mode> ; 2 $ y`.
pub open spec fn mode_query(bytes: Seq<u8>) -> Option<Query> {
    let prefix = mode_prefix(bytes);
    let rest = bytes.skip(prefix);
    let n = digit_run(rest) as int;
    if prefix > 0 && n > 0 && n + 1 < rest.len() && rest[n] == 36 && rest[n + 1] == 112 {
        Some(
            Query {
                len: prefix + n + 2,
                answer: bytes.take(prefix) + rest.take(n) + seq![59u8, 50, 36, 121],
            },
        )
    } else {
        None
    }
}

/// Answers a question after a mode at the start of `bytes`, and returns its length.
pub fn decrqm_reply(bytes: &[u8], out: &mut Vec<u8>) -> (len: Option<usize>)
    ensures
        match mode_query(bytes@) {
            Some(query) => len is Some && len->0 == query.len && final(out)@ == old(out)@
                + query.answer,
            None => len is None && final(out)@ == old(out)@,
        },
{
    let private = [27u8, 91, 63];
    let plain = [27u8, 91];
    assert(private@ == seq![27u8, 91, 63]);
    assert(plain@ == seq![27u8, 91]);
    let prefix: usize = if begins_with(bytes, &private) {
        3
    } else if begins_with(bytes, &plain) {
        2
    } else {
        return None;
    };
    let ghost rest = bytes@.skip(prefix as int);
    let mut at: usize = prefix;
    assert(rest.skip(0) == rest);
    while at < bytes.len() && 48 <= bytes[at] && bytes[at] <= 57
        invariant
            prefix <= at <= bytes@.len(),
            rest == bytes@.skip(prefix as int),
            digit_run(rest) == (at - prefix) + digit_run(rest.skip(at - prefix)),
        decreases bytes@.len() - at,
    {
        assert(rest.skip(at - prefix)[0] == bytes@[at as int]);
        assert(rest.skip(at - prefix).skip(1) == rest.skip(at - prefix + 1));
        at += 1;
    }
    assert(at < bytes@.len() ==> rest.skip(at - prefix)[0] == bytes@[at as int]);
    assert(digit_run(rest) == at - prefix);
    if at == prefix || bytes.len() - at < 2 || bytes[at] != 36 || bytes[at + 1] != 112 {
        return None;
    }
    let ghost before = out@;
    append_bytes(out, slice_subrange(bytes, 0, at));
    let tail = [59u8, 50, 36, 121];
    append_bytes(out, &tail);
    assert(tail@ == seq![59u8, 50, 36, 121]);
    assert(out@ == before + mode_query(bytes@)->0.answer) by {
        assert(bytes@.subrange(0, at as int) == bytes@.take(prefix as int) + rest.take(
            at - prefix,
        ));
    }
    Some(at + 2)
}

/// How long the end of a question after a color is: `ESC \` or the bell.
pub open spec fn color_end(rest: Seq<u8>) -> int {
    if begins(rest, seq![27u8, 92]) {
        2
    } else if begins(rest, seq![7u8]) {
        1
    } else {
        0
    }
}

/// `ESC ]10;rgb:ffff/ffff/ffff BEL`.
pub open spec fn foreground() -> Seq<u8> {
    seq![
        27u8, 93, 49, 48, 59, 114, 103, 98, 58, 102, 102, 102, 102, 47, 102, 102, 102, 102, 47,
        102, 102, 102, 102, 7,
    ]
}

/// `ESC ]11;rgb:0000/0000/0000 BEL`.
pub open spec fn background() -> Seq<u8> {
    seq![
        27u8, 93, 49, 49, 59, 114, 103, 98, 58, 48, 48, 48, 48, 47, 48, 48, 48, 48, 47, 48, 48,
        48, 48, 7,
    ]
}

/// The questions after the foreground (`ESC ]10;?`, white) and the background
/// (`ESC ]11;?`, black).
pub open spec fn color_query(bytes: Seq<u8>) -> Option<Query> {
    let end = color_end(bytes.skip(6));
    if begins(bytes, seq![27u8, 93, 49, 48, 59, 63]) {
        if end > 0 {
            Some(Query { len: 6 + end, answer: foreground() })
        } else {
            None
        }
    } else if begins(bytes, seq![27u8, 93, 49, 49, 59, 63]) {
        if end > 0 {
            Some(Query { len: 6 + end, answer: background() })
        } else {
            None
        }
    } else {
        None
    }
}

/// Answers a question after a color at the start of `bytes`, and returns its length.
pub fn osc_reply(bytes: &[u8], out: &mut Vec<u8>) -> (len: Option<usize>)
    ensures
        match color_query(bytes@) {
            Some(query) => len is Some && len->0 == query.len && final(out)@ == old(out)@
                + query.answer,
            None => len is None && final(out)@ == old(out)@,
        },
{
    let fore_query = [27u8, 93, 49, 48, 59, 63];
    let back_query = [27u8, 93, 49, 49, 59, 63];
    assert(fore_query@ == seq![27u8, 93, 49, 48, 59, 63]);
    assert(back_query@ == seq![27u8, 93, 49, 49, 59, 63]);
    let fore = begins_with(bytes, &fore_query);
    if !fore && !begins_with(bytes, &back_query) {
        return None;
    }
    let rest = slice_subrange(bytes, 6, bytes.len());
    assert(rest@ == bytes@.skip(6));
    let terminator = [27u8, 92];
    let bell = [7u8];
    assert(terminator@ == seq![27u8, 92]);
    assert(bell@ == seq![7u8]);
    let end: usize = if begins_with(rest, &terminator) {
        2
    } else if begins_with(rest, &bell) {
        1
    } else {
        return None;
    };
    if fore {
        let color = [
            27u8, 93, 49, 48, 59, 114, 103, 98, 58, 102, 102, 102, 102, 47, 102, 102, 102, 102, 47,
            102, 102, 102, 102, 7,
        ];
        assert(color@ == foreground());
        append_bytes(out, &color);
    } else {
        let color = [
            27u8, 93, 49, 49, 59, 114, 103, 98, 58, 48, 48, 48, 48, 47, 48, 48, 48, 48, 47, 48, 48,
            48, 48, 7,
        ];
        assert(color@ == background());
        append_bytes(out, &color);
    }
    Some(6 + end)
}

/// The question that `bytes` begins with.
pub open spec fn query_in(cursor: (u16, u16), bytes: Seq<u8>) -> Option<Query> {
    if bytes.len() < 2 || bytes[0] != ESCAPE {
        None
    } else if bytes[1] == 91 {
        match csi_query(cursor, bytes) {
            Some(query) => Some(query),
            None => mode_query(bytes),
        }
    } else if bytes[1] == 93 {
        color_query(bytes)
    } else {
        None
    }
}

/// The answers to all the questions in `bytes`, in order.
pub open spec fn answers(cursor: (u16, u16), bytes: Seq<u8>) -> Seq<u8>
    decreases bytes.len(),
{
    if bytes.len() < 2 {
        Seq::empty()
    } else {
        match query_in(cursor, bytes) {
            Some(query) => if 0 < query.len <= bytes.len() {
                query.answer + answers(cursor, bytes.skip(query.len))
            } else {
                Seq::empty()
            },
            None => answers(cursor, bytes.skip(1)),
        }
    }
}

proof fn lemma_query_fits(cursor: (u16, u16), bytes: Seq<u8>)
    ensures
        query_in(cursor, bytes) matches Some(query) ==> 0 < query.len <= bytes.len(),
{
}

/// Answers what `bytes` asks of a terminal with its cursor at `cursor`.
pub fn replies_at(cursor: (u16, u16), bytes: &[u8]) -> (out: Vec<u8>)
    ensures
        out@ == answers(cursor, bytes@),
{
    let mut out: Vec<u8> = Vec::new();
    let mut i: usize = 0;
    assert(bytes@.skip(0) == bytes@);
    assert(out@ + answers(cursor, bytes@) == answers(cursor, bytes@));
    while bytes.len() - i > 1
        invariant
            i <= bytes@.len(),
            out@ + answers(cursor, bytes@.skip(i as int)) == answers(cursor, bytes@),
        decreases bytes@.len() - i,
    {
        let rest = slice_subrange(bytes, i, bytes.len());
        let ghost left = bytes@.skip(i as int);
        assert(rest@ == left);
        proof {
            lemma_query_fits(cursor, left);
        }
        let ghost before = out@;
        let mut taken: Option<usize> = None;
        if rest[0] == ESCAPE {
            if rest[1] == 91 {
                taken = csi_reply(cursor, rest, &mut out);
                if taken.is_none() {
                    taken = decrqm_reply(rest, &mut out);
                }
            } else if rest[1] == 93 {
                taken = osc_reply(rest, &mut out);
            }
        }
        match taken {
            Some(len) => {
                let ghost query = query_in(cursor, left)->0;
                assert(left.skip(len as int) == bytes@.skip(i + len));
                assert(before + (query.answer + answers(cursor, left.skip(len as int))) == (before
                    + query.answer) + answers(cursor, left.skip(len as int)));
                i += len;
            },
            None => {
                assert(query_in(cursor, left) is None);
                assert(left.skip(1) == bytes@.skip(i + 1));
                i += 1;
            },
        }
    }
    assert(out@ + Seq::<u8>::empty() == out@);
    out
}

/// Answers what `bytes` asks of a terminal with this screen.
pub fn terminal_replies(screen: &vt100::Screen, bytes: &[u8]) -> (out: Vec<u8>)
    ensures
        out@ == answers(detect::screen_cursor(*screen), bytes@),
{
    replies_at(cursor_of(screen), bytes)
}

/// Output without control sequences asks for nothing.
pub proof fn law_plain_output_is_not_answered(cursor: (u16, u16), bytes: Seq<u8>)
    requires
        forall|i: int| 0 <= i < bytes.len() ==> #[trigger] bytes[i] != ESCAPE,
    ensures
        answers(cursor, bytes) == Seq::<u8>::empty(),
    decreases bytes.len(),
{
    if bytes.len() >= 2 {
        assert(bytes[0] != ESCAPE);
        assert forall|i: int| 0 <= i < bytes.skip(1).len() implies #[trigger] bytes.skip(1)[i]
            != ESCAPE by {
            assert(bytes.skip(1)[i] == bytes[i + 1]);
        }
        law_plain_output_is_not_answered(cursor, bytes.skip(1));
    }
}

/// A question is answered before what follows it.
pub proof fn law_questions_are_answered_in_order(cursor: (u16, u16), bytes: Seq<u8>)
    requires
        query_in(cursor, bytes) is Some,
    ensures
        answers(cursor, bytes) == query_in(cursor, bytes)->0.answer + answers(
            cursor,
            bytes.skip(query_in(cursor, bytes)->0.len),
        ),
{
    lemma_query_fits(cursor, bytes);
}

} // verus!
