//! What a terminal answers to each question, whatever stands behind it.
use crate::agents::terminal;
use crate::text;
use vstd::prelude::*;

verus! {

/// The decimal digits of a number, as bytes.
pub open spec fn number(n: nat) -> Seq<u8> {
    text::decimal(n).map_values(|c: char| c as u8)
}

proof fn lemma_number(n: nat)
    ensures
        terminal::digits(n) == number(n),
    decreases n,
{
    if n >= 10 {
        lemma_number(n / 10);
        assert(number(n) =~= number(n / 10).push((48 + n % 10) as u8));
    } else {
        assert(number(n) =~= seq![(48 + n) as u8]);
    }
}

proof fn lemma_begins(bytes: Seq<u8>, pattern: Seq<u8>, i: int)
    requires
        terminal::begins(bytes, pattern),
        0 <= i < pattern.len(),
    ensures
        bytes[i] == pattern[i],
{
    assert(bytes.take(pattern.len() as int)[i] == bytes[i]);
}

proof fn lemma_answered(cursor: (u16, u16), question: Seq<u8>, rest: Seq<u8>, answer: Seq<u8>)
    requires
        question.len() >= 2,
        terminal::query_in(cursor, question + rest) == Some(
            terminal::Query { len: question.len() as int, answer },
        ),
    ensures
        terminal::answers(cursor, question + rest) == answer + terminal::answers(cursor, rest),
{
    assert((question + rest).skip(question.len() as int) =~= rest);
}

/// The question after the cursor is answered with its row and its column, counted from one.
pub proof fn law_cursor_is_reported(cursor: (u16, u16), rest: Seq<u8>)
    ensures
        terminal::answers(cursor, seq![27u8, 91, 54, 110] + rest) == seq![27u8, 91] + number(
            (cursor.0 + 1) as nat,
        ) + seq![59u8] + number((cursor.1 + 1) as nat) + seq![82u8] + terminal::answers(cursor, rest),
{
    let q = seq![27u8, 91, 54, 110];
    lemma_number((cursor.0 + 1) as nat);
    lemma_number((cursor.1 + 1) as nat);
    assert((q + rest).take(4) =~= q);
    lemma_answered(cursor, q, rest, terminal::cursor_report(cursor));
}

/// The question after the status is answered that all is well; that after the keyboard
/// protocol that none is on; those after the identity with a version and with the
/// abilities.
pub proof fn law_fixed_questions_are_answered(cursor: (u16, u16), rest: Seq<u8>)
    ensures
        terminal::answers(cursor, seq![27u8, 91, 53, 110] + rest) == seq![27u8, 91, 48, 110]
            + terminal::answers(cursor, rest),
        terminal::answers(cursor, seq![27u8, 91, 63, 117] + rest) == seq![27u8, 91, 63, 48, 117]
            + terminal::answers(cursor, rest),
        terminal::answers(cursor, seq![27u8, 91, 62, 99] + rest) == seq![
            27u8, 91, 62, 48, 59, 50, 55, 54, 59, 48, 99,
        ] + terminal::answers(cursor, rest),
        terminal::answers(cursor, seq![27u8, 91, 99] + rest) == seq![
            27u8, 91, 63, 54, 50, 59, 49, 59, 50, 59, 54, 59, 57, 59, 49, 53, 59, 50, 50, 99,
        ] + terminal::answers(cursor, rest),
{
    let n = seq![27u8, 91, 54, 110];
    let a = seq![27u8, 91, 53, 110];
    let b = seq![27u8, 91, 63, 117];
    let c = seq![27u8, 91, 62, 99];
    let d = seq![27u8, 91, 99];
    assert((a + rest).take(4) =~= a);
    assert((b + rest).take(4) =~= b);
    assert((c + rest).take(4) =~= c);
    assert((d + rest).take(3) =~= d);
    assert(!terminal::begins(a + rest, n)) by {
        if terminal::begins(a + rest, n) {
            lemma_begins(a + rest, n, 2);
        }
    }
    assert(!terminal::begins(b + rest, n) && !terminal::begins(b + rest, a)) by {
        if terminal::begins(b + rest, n) {
            lemma_begins(b + rest, n, 2);
        }
        if terminal::begins(b + rest, a) {
            lemma_begins(b + rest, a, 2);
        }
    }
    assert(!terminal::begins(c + rest, n) && !terminal::begins(c + rest, a) && !terminal::begins(
        c + rest,
        b,
    )) by {
        if terminal::begins(c + rest, n) {
            lemma_begins(c + rest, n, 2);
        }
        if terminal::begins(c + rest, a) {
            lemma_begins(c + rest, a, 2);
        }
        if terminal::begins(c + rest, b) {
            lemma_begins(c + rest, b, 2);
        }
    }
    assert(!terminal::begins(d + rest, n) && !terminal::begins(d + rest, a) && !terminal::begins(
        d + rest,
        b,
    ) && !terminal::begins(d + rest, c)) by {
        if terminal::begins(d + rest, n) {
            lemma_begins(d + rest, n, 2);
        }
        if terminal::begins(d + rest, a) {
            lemma_begins(d + rest, a, 2);
        }
        if terminal::begins(d + rest, b) {
            lemma_begins(d + rest, b, 2);
        }
        if terminal::begins(d + rest, c) {
            lemma_begins(d + rest, c, 2);
        }
    }
    lemma_answered(cursor, a, rest, seq![27u8, 91, 48, 110]);
    lemma_answered(cursor, b, rest, seq![27u8, 91, 63, 48, 117]);
    lemma_answered(cursor, c, rest, seq![27u8, 91, 62, 48, 59, 50, 55, 54, 59, 48, 99]);
    lemma_answered(
        cursor,
        d,
        rest,
        seq![27u8, 91, 63, 54, 50, 59, 49, 59, 50, 59, 54, 59, 57, 59, 49, 53, 59, 50, 50, 99],
    );
}

proof fn lemma_run(mode: Seq<u8>, rest: Seq<u8>)
    requires
        forall|i: int| 0 <= i < mode.len() ==> 48 <= #[trigger] mode[i] <= 57,
        rest.len() > 0 && !(48 <= rest[0] <= 57),
    ensures
        terminal::digit_run(mode + rest) == mode.len(),
    decreases mode.len(),
{
    if mode.len() > 0 {
        assert((mode + rest)[0] == mode[0]);
        assert((mode + rest).skip(1) =~= mode.skip(1) + rest);
        assert forall|i: int| 0 <= i < mode.skip(1).len() implies 48 <= #[trigger] mode.skip(1)[i]
            <= 57 by {
            assert(mode.skip(1)[i] == mode[i + 1]);
        }
        lemma_run(mode.skip(1), rest);
    } else {
        assert(mode + rest =~= rest);
    }
}

/// The question after a mode, private or not, is answered that it is known and not set,
/// with the number that was asked for.
pub proof fn law_mode_is_reset(cursor: (u16, u16), private: bool, mode: Seq<u8>, rest: Seq<u8>)
    requires
        mode.len() > 0,
        forall|i: int| 0 <= i < mode.len() ==> 48 <= #[trigger] mode[i] <= 57,
    ensures
        ({
            let lead = if private {
                seq![27u8, 91, 63]
            } else {
                seq![27u8, 91]
            };
            terminal::answers(cursor, lead + mode + seq![36u8, 112] + rest) == lead + mode + seq![
                59u8,
                50,
                36,
                121,
            ] + terminal::answers(cursor, rest)
        }),
{
    let lead = if private {
        seq![27u8, 91, 63]
    } else {
        seq![27u8, 91]
    };
    let question = lead + mode + seq![36u8, 112];
    let bytes = question + rest;
    let n = seq![27u8, 91, 54, 110];
    let a = seq![27u8, 91, 53, 110];
    let b = seq![27u8, 91, 63, 117];
    let c = seq![27u8, 91, 62, 99];
    let d = seq![27u8, 91, 99];
    assert(bytes[lead.len() as int] == mode[0]);
    assert(bytes[0] == 27 && bytes[1] == 91);
    assert(mode.len() == 1 ==> bytes[lead.len() as int + 1] == 36);
    assert(mode.len() > 1 ==> bytes[lead.len() as int + 1] == mode[1]);
    if terminal::begins(bytes, n) {
        lemma_begins(bytes, n, 2);
        lemma_begins(bytes, n, 3);
    }
    if terminal::begins(bytes, a) {
        lemma_begins(bytes, a, 2);
        lemma_begins(bytes, a, 3);
    }
    if terminal::begins(bytes, b) {
        lemma_begins(bytes, b, 2);
        lemma_begins(bytes, b, 3);
    }
    if terminal::begins(bytes, c) {
        lemma_begins(bytes, c, 2);
    }
    if terminal::begins(bytes, d) {
        lemma_begins(bytes, d, 2);
    }
    if private {
        assert(bytes.take(3) =~= seq![27u8, 91, 63]);
    } else {
        assert(bytes.take(2) =~= seq![27u8, 91]);
        if terminal::begins(bytes, seq![27u8, 91, 63]) {
            lemma_begins(bytes, seq![27u8, 91, 63], 2);
        }
    }
    let prefix = lead.len() as int;
    assert(terminal::mode_prefix(bytes) == prefix);
    let tail = seq![36u8, 112] + rest;
    assert(bytes.skip(prefix) =~= mode + tail);
    lemma_run(mode, tail);
    assert((mode + tail)[mode.len() as int] == 36 && (mode + tail)[mode.len() as int + 1] == 112);
    assert((mode + tail).take(mode.len() as int) =~= mode);
    assert(bytes.take(prefix) =~= lead);
    lemma_answered(cursor, question, rest, lead + mode + seq![59u8, 50, 36, 121]);
}

/// The questions after the foreground and the background, ended by the bell or by a string
/// terminator, are answered with white and with black.
pub proof fn law_colors_are_reported(cursor: (u16, u16), rest: Seq<u8>)
    ensures
        ({
            let white = seq![
                27u8, 93, 49, 48, 59, 114, 103, 98, 58, 102, 102, 102, 102, 47, 102, 102, 102, 102,
                47, 102, 102, 102, 102, 7,
            ];
            let black = seq![
                27u8, 93, 49, 49, 59, 114, 103, 98, 58, 48, 48, 48, 48, 47, 48, 48, 48, 48, 47, 48,
                48, 48, 48, 7,
            ];
            let front = seq![27u8, 93, 49, 48, 59, 63];
            let back = seq![27u8, 93, 49, 49, 59, 63];
            let later = terminal::answers(cursor, rest);
            &&& terminal::answers(cursor, front + seq![7u8] + rest) == white + later
            &&& terminal::answers(cursor, back + seq![7u8] + rest) == black + later
            &&& terminal::answers(cursor, front + seq![27u8, 92] + rest) == white + later
            &&& terminal::answers(cursor, back + seq![27u8, 92] + rest) == black + later
        }),
{
    let front = seq![27u8, 93, 49, 48, 59, 63];
    let back = seq![27u8, 93, 49, 49, 59, 63];
    lemma_color(cursor, true, seq![7u8], rest);
    lemma_color(cursor, false, seq![7u8], rest);
    lemma_color(cursor, true, seq![27u8, 92], rest);
    lemma_color(cursor, false, seq![27u8, 92], rest);
}

proof fn lemma_color(cursor: (u16, u16), fore: bool, end: Seq<u8>, rest: Seq<u8>)
    requires
        end == seq![7u8] || end == seq![27u8, 92],
    ensures
        ({
            let lead = if fore {
                seq![27u8, 93, 49, 48, 59, 63]
            } else {
                seq![27u8, 93, 49, 49, 59, 63]
            };
            terminal::answers(cursor, lead + end + rest) == (if fore {
                terminal::foreground()
            } else {
                terminal::background()
            }) + terminal::answers(cursor, rest)
        }),
{
    let front = seq![27u8, 93, 49, 48, 59, 63];
    let lead = if fore {
        front
    } else {
        seq![27u8, 93, 49, 49, 59, 63]
    };
    let bytes = lead + end + rest;
    assert(bytes.take(6) =~= lead);
    assert(bytes[0] == 27 && bytes[1] == 93);
    if !fore && terminal::begins(bytes, front) {
        lemma_begins(bytes, front, 3);
    }
    let tail = bytes.skip(6);
    assert(tail =~= end + rest);
    assert(tail[0] == end[0]);
    assert(tail.take(end.len() as int) =~= end);
    if end.len() == 1 && terminal::begins(tail, seq![27u8, 92]) {
        lemma_begins(tail, seq![27u8, 92], 0);
    }
    lemma_answered(
        cursor,
        lead + end,
        rest,
        if fore {
            terminal::foreground()
        } else {
            terminal::background()
        },
    );
}

/// A byte that starts no control sequence is passed over.
pub proof fn law_plain_byte_is_passed_over(cursor: (u16, u16), byte: u8, rest: Seq<u8>)
    requires
        byte != 27,
    ensures
        terminal::answers(cursor, seq![byte] + rest) == terminal::answers(cursor, rest),
{
    let bytes = seq![byte] + rest;
    assert(bytes.skip(1) =~= rest);
    assert(bytes[0] == byte);
}

} // verus!
