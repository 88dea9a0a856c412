//! What a screen must show for its agent to be waiting, and what it then waits for.
use crate::agents::detect;
use crate::model::{AwaitingInputKind, ReasonView};
use crate::text;
use vstd::prelude::*;

verus! {

/// Whether a line numbers an entry of a menu: bullets, then digits, then `)`, `.` or `:`.
pub open spec fn numbered(line: Seq<char>) -> bool {
    exists|a: int, b: int| #[trigger] numbered_at(line, a, b)
}

/// Whether the digits of a menu entry stand from `a` up to `b`.
pub open spec fn numbered_at(line: Seq<char>, a: int, b: int) -> bool {
    &&& 0 <= a < b < line.len()
    &&& forall|i: int|
        0 <= i < a ==> (#[trigger] line[i] == '>' || line[i] == '❯' || line[i] == '▶' || line[i]
            == ' ' || line[i] == '*' || line[i] == '-' || line[i] == '|')
    &&& forall|i: int| a <= i < b ==> '0' <= #[trigger] line[i] && line[i] <= '9'
    &&& line[b] == ')' || line[b] == '.' || line[b] == ':'
}

/// Whether at least two of `lines` number entries of a menu.
pub open spec fn menu(lines: Seq<Seq<char>>) -> bool {
    exists|i: int, j: int|
        0 <= i < j < lines.len() && numbered(#[trigger] lines[i]) && numbered(#[trigger] lines[j])
}

/// The lines of a text that show anything, without white space around them.
pub open spec fn shown_lines(shown: Seq<char>) -> Seq<Seq<char>> {
    text::text_lines(shown).map_values(|line: Seq<char>| text::trimmed(line)).filter(
        |line: Seq<char>| line.len() > 0,
    )
}

/// The last `n` lines of a text that show anything.
pub open spec fn bottom(shown: Seq<char>, n: int) -> Seq<Seq<char>> {
    let lines = shown_lines(shown);
    lines.skip(if lines.len() > n { lines.len() - n } else { 0 })
}

/// Whether `lines`, read as one text in any case, hold `words`.
pub open spec fn say(lines: Seq<Seq<char>>, words: Seq<char>) -> bool {
    text::occurs(text::lowered(text::linked(lines, "\n"@)), words)
}

/// Whether a line offers an answer to a request for permission.
pub open spec fn answer(line: Seq<char>) -> bool {
    ||| text::occurs(text::lowered(line), "allow once"@)
    ||| text::occurs(text::lowered(line), "allow always"@)
    ||| text::occurs(text::lowered(line), "reject"@)
}

/// Whether a line holds words that confirm a dialog wherever they stand.
pub open spec fn confirms(line: Seq<char>) -> bool {
    ||| text::occurs(text::lowered(line), "[y/n]"@)
    ||| text::occurs(text::lowered(line), "(y/n)"@)
    ||| text::occurs(text::lowered(line), "[Y/n]"@)
    ||| text::occurs(text::lowered(line), "[yes/no]"@)
    ||| text::occurs(text::lowered(line), "(yes/no)"@)
    ||| text::occurs(text::lowered(line), "yes/no"@)
    ||| text::occurs(text::lowered(line), "press enter"@)
    ||| text::occurs(text::lowered(line), "press any key"@)
    ||| text::occurs(text::lowered(line), "press a key"@)
    ||| text::occurs(text::lowered(line), "esc to cancel"@)
}

/// Whether a line holds a word that makes a question a prompt.
pub open spec fn urges(line: Seq<char>) -> bool {
    ||| text::occurs(text::lowered(line), "permission"@)
    ||| text::occurs(text::lowered(line), "allow"@)
    ||| text::occurs(text::lowered(line), "deny"@)
    ||| text::occurs(text::lowered(line), "reject"@)
    ||| text::occurs(text::lowered(line), "approve"@)
    ||| text::occurs(text::lowered(line), "passphrase"@)
    ||| text::occurs(text::lowered(line), "pinentry"@)
    ||| text::occurs(text::lowered(line), "password"@)
    ||| text::occurs(text::lowered(line), "enter pass"@)
    ||| text::occurs(text::lowered(line), "enter your"@)
    ||| text::occurs(text::lowered(line), "do you want"@)
    ||| text::occurs(text::lowered(line), "are you sure"@)
    ||| text::occurs(text::lowered(line), "proceed"@)
    ||| text::occurs(text::lowered(line), "continue"@)
    ||| text::occurs(text::lowered(line), "select an option"@)
    ||| text::occurs(text::lowered(line), "choose an option"@)
    ||| text::occurs(text::lowered(line), "confirm"@)
}

/// Whether a line reads as a question: it holds a question mark or ends in a colon.
pub open spec fn asks(line: Seq<char>) -> bool {
    ||| exists|i: int| 0 <= i < text::lowered(line).len() && #[trigger] text::lowered(line)[i] == '?'
    ||| (line.len() > 0 && line[line.len() - 1] == ':')
}

/// What a prompt with these lines asks for.
pub open spec fn sort_of(lines: Seq<Seq<char>>) -> AwaitingInputKind {
    if say(lines, "passphrase"@) || say(lines, "pinentry"@) || say(lines, "password"@) || say(
        lines,
        "enter pass"@,
    ) {
        AwaitingInputKind::Pinentry
    } else if say(lines, "permission"@) || say(lines, "allow"@) || say(lines, "deny"@) || say(
        lines,
        "approve"@,
    ) {
        AwaitingInputKind::Permission
    } else if say(lines, "do you want"@) || say(lines, "are you sure"@) || say(lines, "continue?"@)
        || say(lines, "proceed?"@) || say(lines, "yes/no"@) || say(lines, "[y/n]"@) || say(
        lines,
        "(y/n)"@,
    ) {
        AwaitingInputKind::Confirmation
    } else if menu(lines) || ((say(lines, "select"@) || say(lines, "choose"@)) && exists|i: int|
        0 <= i < lines.len() && numbered(#[trigger] lines[i])) {
        AwaitingInputKind::Choice
    } else {
        AwaitingInputKind::Other
    }
}

/// The reason that a prompt with these lines gives: what it asks for, and its last line as
/// far as 200 characters go.
pub open spec fn waits_on(lines: Seq<Seq<char>>) -> ReasonView {
    ReasonView {
        kind: sort_of(lines),
        message: if lines.len() == 0 {
            Seq::empty()
        } else {
            lines[lines.len() - 1].take(
                if lines[lines.len() - 1].len() > 200 {
                    200
                } else {
                    lines[lines.len() - 1].len() as int
                },
            )
        },
        request_id: None,
        options: Seq::empty(),
        allow_always: false,
    }
}

proof fn lemma_unbulleted(line: Seq<char>) -> (a: int)
    ensures
        0 <= a <= line.len(),
        detect::unbulleted(line) == line.skip(a),
        forall|i: int| 0 <= i < a ==> detect::bullet(#[trigger] line[i]),
        a < line.len() ==> !detect::bullet(line[a]),
    decreases line.len(),
{
    if line.len() > 0 && detect::bullet(line[0]) {
        let rest = line.skip(1);
        let b = lemma_unbulleted(rest);
        assert(rest.skip(b) == line.skip(b + 1));
        assert forall|i: int| 0 <= i < b + 1 implies detect::bullet(#[trigger] line[i]) by {
            if i > 0 {
                assert(rest[i - 1] == line[i]);
            }
        }
        b + 1
    } else {
        assert(line.skip(0) == line);
        0
    }
}

proof fn lemma_digit_run(s: Seq<char>)
    ensures
        detect::digit_run(s) <= s.len(),
        forall|i: int| 0 <= i < detect::digit_run(s) ==> detect::is_digit(#[trigger] s[i]),
        detect::digit_run(s) < s.len() ==> !detect::is_digit(s[detect::digit_run(s) as int]),
    decreases s.len(),
{
    if s.len() > 0 && detect::is_digit(s[0]) {
        let rest = s.skip(1);
        lemma_digit_run(rest);
        assert forall|i: int| 0 <= i < detect::digit_run(s) implies detect::is_digit(
            #[trigger] s[i],
        ) by {
            if i > 0 {
                assert(rest[i - 1] == s[i]);
            }
        }
    }
}

/// A line is an entry of a menu exactly where bullets, at least one digit and then `)`, `.`
/// or `:` stand at its start.
pub proof fn law_entry_is_numbered(line: Seq<char>)
    ensures
        detect::menu_entry(line) <==> numbered(line),
{
    let a = lemma_unbulleted(line);
    let entry = detect::unbulleted(line);
    lemma_digit_run(entry);
    let d = detect::digit_run(entry) as int;
    assert forall|i: int| 0 <= i < entry.len() implies #[trigger] entry[i] == line[a + i] by {}
    if detect::menu_entry(line) {
        assert forall|i: int| a <= i < a + d implies '0' <= #[trigger] line[i] && line[i]
            <= '9' by {
            assert(detect::is_digit(entry[i - a]));
        }
        assert(line[a + d] == entry[d]);
        assert(numbered_at(line, a, a + d));
    }
    if numbered(line) {
        let (p, q) = choose|p: int, q: int| #[trigger] numbered_at(line, p, q);
        assert('0' <= line[p] && line[p] <= '9');
        assert(p == a) by {
            if p < a {
                assert(detect::bullet(line[p]));
            }
            if a < p {
                assert(detect::bullet(line[a]));
            }
        }
        assert(q == a + d) by {
            if q < a + d {
                assert(detect::is_digit(entry[q - a]));
                assert(entry[q - a] == line[q]);
            }
            if a + d < q {
                assert(!detect::is_digit(entry[d]));
                assert(entry[d] == line[a + d]);
            }
        }
        assert(entry[d] == line[q]);
    }
}

/// At least two lines are entries exactly where two different ones are numbered, however
/// many more there are; at least one is where any is.
pub proof fn law_menu_has_two_entries(lines: Seq<Seq<char>>)
    ensures
        detect::entries(lines) >= 2 <==> menu(lines),
        detect::entries(lines) >= 1 <==> exists|i: int|
            0 <= i < lines.len() && numbered(#[trigger] lines[i]),
    decreases lines.len(),
{
    if lines.len() > 0 {
        let rest = lines.drop_last();
        let last = lines.len() - 1;
        law_menu_has_two_entries(rest);
        law_entry_is_numbered(lines.last());
        if detect::entries(rest) >= 1 {
            let i = choose|i: int| 0 <= i < rest.len() && numbered(#[trigger] rest[i]);
            assert(lines[i] == rest[i]);
            if numbered(lines[last]) {
                assert(0 <= i < last < lines.len() && numbered(lines[i]) && numbered(lines[last]));
            }
        }
        if menu(rest) {
            let (i, j) = choose|i: int, j: int|
                0 <= i < j < rest.len() && numbered(#[trigger] rest[i]) && numbered(
                    #[trigger] rest[j],
                );
            assert(lines[i] == rest[i] && lines[j] == rest[j]);
        }
        if menu(lines) {
            let (i, j) = choose|i: int, j: int|
                0 <= i < j < lines.len() && numbered(#[trigger] lines[i]) && numbered(
                    #[trigger] lines[j],
                );
            assert(rest[i] == lines[i]);
            if j < last {
                assert(rest[j] == lines[j]);
            }
        }
        if exists|i: int| 0 <= i < lines.len() && numbered(#[trigger] lines[i]) {
            let i = choose|i: int| 0 <= i < lines.len() && numbered(#[trigger] lines[i]);
            if i < last {
                assert(rest[i] == lines[i]);
            }
        }
        if numbered(lines.last()) {
            assert(numbered(lines[last]));
        }
    }
}

proof fn lemma_visible(lines: Seq<Seq<char>>)
    ensures
        detect::visible(lines) == lines.map_values(|line: Seq<char>| text::trimmed(line)).filter(
            |line: Seq<char>| line.len() > 0,
        ),
    decreases lines.len(),
{
    reveal(Seq::filter);
    let trim = |line: Seq<char>| text::trimmed(line);
    let all = lines.map_values(trim);
    if lines.len() > 0 {
        lemma_visible(lines.drop_last());
        assert(all.drop_last() == lines.drop_last().map_values(trim));
        assert(all.last() == text::trimmed(lines.last()));
    }
}

/// The lines that are looked at are the last ones that show anything.
pub proof fn law_newest_lines_are_looked_at(shown: Seq<char>, n: nat)
    ensures
        detect::tail(shown, n) == bottom(shown, n as int),
        bottom(shown, n as int).len() <= n,
{
    lemma_visible(text::text_lines(shown));
    let lines = shown_lines(shown);
    assert(lines.skip(0) == lines);
}

/// A prompt is told with what its words ask for and with its last line.
pub proof fn law_prompt_is_classified(lines: Seq<Seq<char>>)
    ensures
        detect::classified(lines) == waits_on(lines),
{
    law_menu_has_two_entries(lines);
    let lower = text::lowered(text::linked(lines, "\n"@));
    let p = detect::pinentry_words();
    let q = detect::permission_words();
    let r = detect::confirmation_words();
    let c = detect::choice_words();
    assert(p[0] == "passphrase"@ && p[1] == "pinentry"@ && p[2] == "password"@ && p[3]
        == "enter pass"@);
    assert(q[0] == "permission"@ && q[1] == "allow"@ && q[2] == "deny"@ && q[3] == "approve"@);
    assert(r[0] == "do you want"@ && r[1] == "are you sure"@ && r[2] == "continue?"@ && r[3]
        == "proceed?"@ && r[4] == "yes/no"@ && r[5] == "[y/n]"@ && r[6] == "(y/n)"@);
    assert(c[0] == "select"@ && c[1] == "choose"@);
    if lines.len() > 0 {
        let last = lines.last();
        assert(last.take(last.len() as int) == last);
    }
}

/// The screen of a `ClaudeAgent` is a dialog exactly where its last eight lines ask whether
/// to proceed, or where they say how to cancel and at least two of them are numbered.
pub proof fn law_numbered_menu_with_a_way_out_is_a_dialog(shown: Seq<char>)
    ensures
        ({
            let lines = bottom(shown, 8);
            detect::claude_waits(shown) == if say(lines, "do you want to proceed"@) || (say(
                lines,
                "esc to cancel"@,
            ) && menu(lines)) {
                Some(waits_on(lines))
            } else {
                None
            }
        }),
{
    let lines = bottom(shown, 8);
    law_newest_lines_are_looked_at(shown, 8);
    law_menu_has_two_entries(lines);
    law_prompt_is_classified(lines);
}

/// More entries never undo a dialog, and it takes two of them where nothing asks whether
/// to proceed.
pub proof fn law_more_entries_keep_the_dialog(lower: Seq<char>, few: nat, many: nat)
    requires
        few <= many,
    ensures
        detect::claude_dialog(lower, few) ==> detect::claude_dialog(lower, many),
        detect::opencode_dialog(lower, few) ==> detect::opencode_dialog(lower, many),
        text::occurs(lower, "esc to cancel"@) ==> detect::claude_dialog(lower, 2 + few),
        text::occurs(lower, "do you want to proceed"@) ==> detect::claude_dialog(lower, few),
        !text::occurs(lower, "esc to cancel"@) && !text::occurs(lower, "do you want to proceed"@)
            ==> !detect::claude_dialog(lower, few),
        !text::occurs(lower, "do you want to proceed"@) ==> !detect::claude_dialog(lower, 1),
{
}

proof fn lemma_offered(lines: Seq<Seq<char>>)
    ensures
        detect::offered(lines) >= 1 <==> exists|i: int| 0 <= i < lines.len() && answer(#[trigger] lines[i]),
        detect::offered(lines) >= 2 <==> exists|i: int, j: int|
            0 <= i < j < lines.len() && answer(#[trigger] lines[i]) && answer(#[trigger] lines[j]),
    decreases lines.len(),
{
    if lines.len() > 0 {
        let rest = lines.drop_last();
        let last = lines.len() - 1;
        lemma_offered(rest);
        let w = seq!["allow once"@, "allow always"@, "reject"@];
        assert(w[0] == "allow once"@ && w[1] == "allow always"@ && w[2] == "reject"@);
        assert(detect::offers(text::lowered(lines.last())) == answer(lines.last()));
        if detect::offered(rest) >= 1 {
            let i = choose|i: int| 0 <= i < rest.len() && answer(#[trigger] rest[i]);
            assert(lines[i] == rest[i]);
            if answer(lines[last]) {
                assert(0 <= i < last < lines.len() && answer(lines[i]) && answer(lines[last]));
            }
        }
        if detect::offered(rest) >= 2 {
            let (i, j) = choose|i: int, j: int|
                0 <= i < j < rest.len() && answer(#[trigger] rest[i]) && answer(#[trigger] rest[j]);
            assert(lines[i] == rest[i] && lines[j] == rest[j]);
        }
        if exists|i: int, j: int|
            0 <= i < j < lines.len() && answer(#[trigger] lines[i]) && answer(#[trigger] lines[j]) {
            let (i, j) = choose|i: int, j: int|
                0 <= i < j < lines.len() && answer(#[trigger] lines[i]) && answer(
                    #[trigger] lines[j],
                );
            assert(rest[i] == lines[i]);
            if j < last {
                assert(rest[j] == lines[j]);
            }
        }
        if exists|i: int| 0 <= i < lines.len() && answer(#[trigger] lines[i]) {
            let i = choose|i: int| 0 <= i < lines.len() && answer(#[trigger] lines[i]);
            if i < last {
                assert(rest[i] == lines[i]);
            }
        }
        if answer(lines.last()) {
            assert(answer(lines[last]));
        }
    }
}

/// The screen of opencode is a dialog exactly where its last six lines speak of a
/// permission and at least two of them offer an answer.
pub proof fn law_two_answers_make_a_dialog(shown: Seq<char>)
    ensures
        ({
            let lines = bottom(shown, 6);
            detect::opencode_waits(shown) == if (say(lines, "permission"@) || say(lines, "allow"@)
                || say(lines, "reject"@)) && exists|i: int, j: int|
                0 <= i < j < lines.len() && answer(#[trigger] lines[i]) && answer(
                    #[trigger] lines[j],
                ) {
                Some(waits_on(lines))
            } else {
                None
            }
        }),
{
    let lines = bottom(shown, 6);
    law_newest_lines_are_looked_at(shown, 6);
    lemma_offered(lines);
    law_prompt_is_classified(lines);
    let w = seq!["permission"@, "allow"@, "reject"@];
    assert(w[0] == "permission"@ && w[1] == "allow"@ && w[2] == "reject"@);
}

/// A line is evidence of a dialog exactly where it confirms one, or where it is a question
/// that urges an answer.
pub proof fn law_evidence_confirms_or_asks(line: Seq<char>)
    ensures
        detect::evidence(line, text::lowered(line)) <==> confirms(line) || (asks(line) && urges(
            line,
        )),
{
    let lower = text::lowered(line);
    let c = detect::confirm_markers();
    let v = detect::prompt_verbs();
    assert(c[0] == "[y/n]"@ && c[1] == "(y/n)"@ && c[2] == "[Y/n]"@ && c[3] == "[yes/no]"@ && c[4]
        == "(yes/no)"@ && c[5] == "yes/no"@ && c[6] == "press enter"@ && c[7] == "press any key"@
        && c[8] == "press a key"@ && c[9] == "esc to cancel"@);
    assert(v[0] == "permission"@ && v[1] == "allow"@ && v[2] == "deny"@ && v[3] == "reject"@ && v[4]
        == "approve"@ && v[5] == "passphrase"@ && v[6] == "pinentry"@ && v[7] == "password"@ && v[8]
        == "enter pass"@ && v[9] == "enter your"@ && v[10] == "do you want"@ && v[11]
        == "are you sure"@ && v[12] == "proceed"@ && v[13] == "continue"@ && v[14]
        == "select an option"@ && v[15] == "choose an option"@ && v[16] == "confirm"@);
    assert(text::occurs_any(lower, c) <==> confirms(line));
    assert(text::occurs_any(lower, v) <==> urges(line));
    if lower.contains('?') {
        let i = lower.index_of('?');
        assert(lower[i] == '?');
    }
}

/// A quiet screen is a prompt exactly where its last five lines hold a menu of at least two
/// entries, or a line that confirms a dialog or is a question that urges an answer.
pub proof fn law_quiet_screen_is_a_prompt(shown: Seq<char>)
    ensures
        ({
            let lines = bottom(shown, 5);
            detect::prompted(detect::tail(shown, 5)) == if menu(lines) || exists|i: int|
                0 <= i < lines.len() && (confirms(#[trigger] lines[i]) || (asks(lines[i]) && urges(
                    lines[i],
                ))) {
                Some(waits_on(lines))
            } else {
                None
            }
        }),
{
    let lines = bottom(shown, 5);
    law_newest_lines_are_looked_at(shown, 5);
    law_menu_has_two_entries(lines);
    law_prompt_is_classified(lines);
    assert forall|i: int| 0 <= i < lines.len() implies detect::evidence(
        #[trigger] lines[i],
        text::lowered(lines[i]),
    ) == (confirms(lines[i]) || (asks(lines[i]) && urges(lines[i]))) by {
        law_evidence_confirms_or_asks(lines[i]);
    }
}

} // verus!
