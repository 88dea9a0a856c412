//! Spotting an agent that is blocked on its user, from what its screen shows.
//!
//! The matchers for single agents are narrow on purpose. The generic one is a
//! conservative fallback for a screen that has been quiet for a while.
use crate::model;
use crate::model::{AwaitingInputKind, AwaitingInputReason, ReasonView};
use crate::text;
use crate::text::{
    chars_of, contains, contains_any, lines, link, push_text, string_from, to_lower,
    trim,
};
use vstd::prelude::*;

verus! {

/// The screen of a terminal.
#[verifier::external_type_specification]
#[verifier::external_body]
pub struct ExScreen(vt100::Screen);

/// The text that a screen holds.
pub uninterp spec fn screen_text(screen: vt100::Screen) -> Seq<char>;

/// The row and the column of a screen's cursor, from zero.
pub uninterp spec fn screen_cursor(screen: vt100::Screen) -> (u16, u16);

/// Calls `vt100::Screen::contents`, which returns the text that the screen holds.
#[verifier::external_body]
pub(crate) fn contents_of(screen: &vt100::Screen) -> (contents: String)
    ensures
        contents@ == screen_text(*screen),
{
    screen.contents()
}

/// Calls `vt100::Screen::cursor_position`, which returns the row and the column of
/// the cursor.
#[verifier::external_body]
pub(crate) fn cursor_of(screen: &vt100::Screen) -> (cursor: (u16, u16))
    ensures
        cursor == screen_cursor(*screen),
{
    screen.cursor_position()
}

/// `lines` without white space around them and without those that are blank.
pub open spec fn visible(lines: Seq<Seq<char>>) -> Seq<Seq<char>>
    decreases lines.len(),
{
    if lines.len() == 0 {
        Seq::empty()
    } else {
        let line = text::trimmed(lines.last());
        if line.len() == 0 {
            visible(lines.drop_last())
        } else {
            visible(lines.drop_last()).push(line)
        }
    }
}

/// The last `n` of `lines`.
pub open spec fn newest(lines: Seq<Seq<char>>, n: nat) -> Seq<Seq<char>> {
    if lines.len() > n {
        lines.skip(lines.len() - n)
    } else {
        lines
    }
}

/// The last `n` lines of a text that show anything.
pub open spec fn tail(shown: Seq<char>, n: nat) -> Seq<Seq<char>> {
    newest(visible(text::text_lines(shown)), n)
}

/// The last `n` lines that show anything, newest last.
pub fn prompt_lines(shown: &str, n: usize) -> (tail_lines: Vec<String>)
    ensures
        text::views(tail_lines@) == tail(shown@, n as nat),
{
    let all = lines(shown);
    let ghost whole = text::views(all@);
    let mut kept: Vec<String> = Vec::new();
    let mut i: usize = 0;
    assert(whole.take(0).len() == 0);
    assert(text::views(kept@) == Seq::<Seq<char>>::empty());
    while i < all.len()
        invariant
            i <= all@.len(),
            whole == text::views(all@),
            text::views(kept@) == visible(whole.take(i as int)),
        decreases all@.len() - i,
    {
        assert(whole.take(i + 1).drop_last() == whole.take(i as int));
        assert(whole.take(i + 1).last() == all@[i as int]@);
        let line = trim(all[i].as_str());
        if !line.is_empty() {
            push_text(&mut kept, line.to_owned());
        }
        i += 1;
    }
    assert(whole.take(i as int) == whole);
    if kept.len() > n {
        let at: usize = kept.len() - n;
        let ghost before = kept@;
        let newer = kept.split_off(at);
        assert(text::views(newer@) == text::views(before).skip(at as int));
        newer
    } else {
        kept
    }
}

/// A character that may stand before a menu entry.
pub open spec fn bullet(c: char) -> bool {
    c == '>' || c == '❯' || c == '▶' || c == ' ' || c == '*' || c == '-' || c == '|'
}

/// `line` without what stands before a menu entry.
pub open spec fn unbulleted(line: Seq<char>) -> Seq<char>
    decreases line.len(),
{
    if line.len() > 0 && bullet(line[0]) {
        unbulleted(line.skip(1))
    } else {
        line
    }
}

pub open spec fn is_digit(c: char) -> bool {
    '0' <= c && c <= '9'
}

/// How many digits stand at the start of `s`.
pub open spec fn digit_run(s: Seq<char>) -> nat
    decreases s.len(),
{
    if s.len() > 0 && is_digit(s[0]) {
        1 + digit_run(s.skip(1))
    } else {
        0
    }
}

/// Whether a line is an entry of a numbered menu: `1)`, `2.`, `> 3:`.
pub open spec fn menu_entry(line: Seq<char>) -> bool {
    let entry = unbulleted(line);
    let digits = digit_run(entry) as int;
    0 < digits < entry.len() && (entry[digits] == ')' || entry[digits] == '.' || entry[digits]
        == ':')
}

/// Whether a line is an entry of a numbered menu.
pub fn numbered_option(line: &str) -> (entry: bool)
    ensures
        entry == menu_entry(line@),
{
    let v = chars_of(line);
    let mut at: usize = 0;
    assert(v@.skip(0) == v@);
    while at < v.len() && (v[at] == '>' || v[at] == '❯' || v[at] == '▶' || v[at] == ' '
        || v[at] == '*' || v[at] == '-' || v[at] == '|')
        invariant
            at <= v@.len(),
            unbulleted(v@.skip(at as int)) == unbulleted(v@),
        decreases v@.len() - at,
    {
        assert(v@.skip(at as int).skip(1) == v@.skip(at + 1));
        at += 1;
    }
    let ghost entry = unbulleted(v@);
    assert(entry == v@.skip(at as int));
    let start: usize = at;
    assert(entry.skip(0) == entry);
    while at < v.len() && '0' <= v[at] && v[at] <= '9'
        invariant
            start <= at <= v@.len(),
            entry == v@.skip(start as int),
            digit_run(entry) == (at - start) + digit_run(entry.skip(at - start)),
        decreases v@.len() - at,
    {
        assert(entry.skip(at - start)[0] == v@[at as int]);
        assert(entry.skip(at - start).skip(1) == entry.skip(at - start + 1));
        at += 1;
    }
    assert(at < v@.len() ==> entry.skip(at - start)[0] == v@[at as int]);
    assert(at < v@.len() ==> entry[at - start] == v@[at as int]);
    at > start && at < v.len() && (v[at] == ')' || v[at] == '.' || v[at] == ':')
}

/// How many of `lines` are entries of a numbered menu.
pub open spec fn entries(lines: Seq<Seq<char>>) -> nat
    decreases lines.len(),
{
    if lines.len() == 0 {
        0
    } else if menu_entry(lines.last()) {
        entries(lines.drop_last()) + 1
    } else {
        entries(lines.drop_last())
    }
}

proof fn lemma_entries(lines: Seq<Seq<char>>)
    ensures
        entries(lines) > 0 <==> exists|i: int| 0 <= i < lines.len() && menu_entry(#[trigger] lines[i]),
        entries(lines) <= lines.len(),
    decreases lines.len(),
{
    if lines.len() > 0 {
        let rest = lines.drop_last();
        lemma_entries(rest);
        if entries(rest) > 0 {
            let i = choose|i: int| 0 <= i < rest.len() && menu_entry(#[trigger] rest[i]);
            assert(lines[i] == rest[i]);
        }
        if menu_entry(lines.last()) {
            assert(lines[lines.len() - 1] == lines.last());
        }
        if exists|i: int| 0 <= i < lines.len() && menu_entry(#[trigger] lines[i]) {
            let i = choose|i: int| 0 <= i < lines.len() && menu_entry(#[trigger] lines[i]);
            if i < rest.len() {
                assert(rest[i] == lines[i]);
            }
        }
    }
}

/// How many of `lines` are entries of a numbered menu.
pub fn count_entries(lines: &Vec<String>) -> (n: usize)
    ensures
        n == entries(text::views(lines@)),
{
    let ghost all = text::views(lines@);
    let mut n: usize = 0;
    let mut i: usize = 0;
    assert(all.take(0).len() == 0);
    while i < lines.len()
        invariant
            i <= lines@.len(),
            n <= i,
            all == text::views(lines@),
            n == entries(all.take(i as int)),
        decreases lines@.len() - i,
    {
        assert(all.take(i + 1).drop_last() == all.take(i as int));
        assert(all.take(i + 1).last() == lines@[i as int]@);
        if numbered_option(lines[i].as_str()) {
            n += 1;
        }
        i += 1;
    }
    assert(all.take(i as int) == all);
    n
}

/// Words that confirm a dialog wherever they stand in a line.
pub open spec fn confirm_markers() -> Seq<Seq<char>> {
    seq![
        "[y/n]"@,
        "(y/n)"@,
        "[Y/n]"@,
        "[yes/no]"@,
        "(yes/no)"@,
        "yes/no"@,
        "press enter"@,
        "press any key"@,
        "press a key"@,
        "esc to cancel"@,
    ]
}

/// Words that make a question, or a line that ends in a colon, a prompt. On their
/// own they prove nothing.
pub open spec fn prompt_verbs() -> Seq<Seq<char>> {
    seq![
        "permission"@,
        "allow"@,
        "deny"@,
        "reject"@,
        "approve"@,
        "passphrase"@,
        "pinentry"@,
        "password"@,
        "enter pass"@,
        "enter your"@,
        "do you want"@,
        "are you sure"@,
        "proceed"@,
        "continue"@,
        "select an option"@,
        "choose an option"@,
        "confirm"@,
    ]
}

/// Whether a line, with `lower` for it in lower case, is evidence of a dialog.
pub open spec fn evidence(line: Seq<char>, lower: Seq<char>) -> bool {
    text::occurs_any(lower, confirm_markers()) || ((lower.contains('?') || (line.len() > 0
        && line.last() == ':')) && text::occurs_any(lower, prompt_verbs()))
}

fn holds_question_mark(s: &str) -> (found: bool)
    ensures
        found == s@.contains('?'),
{
    let v = chars_of(s);
    let mut i: usize = 0;
    while i < v.len()
        invariant
            i <= v@.len(),
            v@ == s@,
            forall|k: int| 0 <= k < i ==> v@[k] != '?',
        decreases v@.len() - i,
    {
        if v[i] == '?' {
            assert(v@[i as int] == '?');
            return true;
        }
        i += 1;
    }
    false
}

fn ends_in_colon(s: &str) -> (found: bool)
    ensures
        found == (s@.len() > 0 && s@.last() == ':'),
{
    let n: usize = s.unicode_len();
    n > 0 && s.get_char(n - 1) == ':'
}

/// Whether a line, with `lower` for it in lower case, is evidence of a dialog.
pub fn prompt_evidence(line: &str, lower: &str) -> (found: bool)
    ensures
        found == evidence(line@, lower@),
{
    let markers = [
        "[y/n]",
        "(y/n)",
        "[Y/n]",
        "[yes/no]",
        "(yes/no)",
        "yes/no",
        "press enter",
        "press any key",
        "press a key",
        "esc to cancel",
    ];
    assert(markers@.map_values(|p: &str| p@) == confirm_markers());
    if contains_any(lower, &markers) {
        return true;
    }
    let verbs = [
        "permission",
        "allow",
        "deny",
        "reject",
        "approve",
        "passphrase",
        "pinentry",
        "password",
        "enter pass",
        "enter your",
        "do you want",
        "are you sure",
        "proceed",
        "continue",
        "select an option",
        "choose an option",
        "confirm",
    ];
    assert(verbs@.map_values(|p: &str| p@) == prompt_verbs());
    (holds_question_mark(lower) || ends_in_colon(line)) && contains_any(lower, &verbs)
}

/// Whether `lines` show a prompt: a menu of two or more entries, or a line that is
/// evidence of a dialog.
pub open spec fn marked(lines: Seq<Seq<char>>) -> bool {
    entries(lines) >= 2 || exists|i: int|
        0 <= i < lines.len() && evidence(#[trigger] lines[i], text::lowered(lines[i]))
}

/// Whether `lines` show a prompt.
pub fn has_prompt_marker(lines: &Vec<String>) -> (found: bool)
    ensures
        found == marked(text::views(lines@)),
{
    if count_entries(lines) >= 2 {
        return true;
    }
    let ghost all = text::views(lines@);
    let mut i: usize = 0;
    while i < lines.len()
        invariant
            i <= lines@.len(),
            all == text::views(lines@),
            forall|k: int| 0 <= k < i ==> !evidence(#[trigger] all[k], text::lowered(all[k])),
        decreases lines@.len() - i,
    {
        assert(all[i as int] == lines@[i as int]@);
        let lower = to_lower(lines[i].as_str());
        if prompt_evidence(lines[i].as_str(), lower.as_str()) {
            return true;
        }
        i += 1;
    }
    false
}

pub open spec fn pinentry_words() -> Seq<Seq<char>> {
    seq!["passphrase"@, "pinentry"@, "password"@, "enter pass"@]
}

pub open spec fn permission_words() -> Seq<Seq<char>> {
    seq!["permission"@, "allow"@, "deny"@, "approve"@]
}

pub open spec fn confirmation_words() -> Seq<Seq<char>> {
    seq!["do you want"@, "are you sure"@, "continue?"@, "proceed?"@, "yes/no"@, "[y/n]"@, "(y/n)"@]
}

pub open spec fn choice_words() -> Seq<Seq<char>> {
    seq!["select"@, "choose"@]
}

/// What a prompt asks for, from its lines and from all of them in lower case.
pub open spec fn kind_of(lower: Seq<char>, lines: Seq<Seq<char>>) -> AwaitingInputKind {
    if text::occurs_any(lower, pinentry_words()) {
        AwaitingInputKind::Pinentry
    } else if text::occurs_any(lower, permission_words()) {
        AwaitingInputKind::Permission
    } else if text::occurs_any(lower, confirmation_words()) {
        AwaitingInputKind::Confirmation
    } else if (text::occurs_any(lower, choice_words()) && entries(lines) >= 1) || entries(lines)
        >= 2 {
        AwaitingInputKind::Choice
    } else {
        AwaitingInputKind::Other
    }
}

/// What a prompt asks for, from its lines and from all of them in lower case.
pub fn kind_in(lower: &str, lines: &Vec<String>) -> (kind: AwaitingInputKind)
    ensures
        kind == kind_of(lower@, text::views(lines@)),
{
    let pinentry = ["passphrase", "pinentry", "password", "enter pass"];
    assert(pinentry@.map_values(|p: &str| p@) == pinentry_words());
    if contains_any(lower, &pinentry) {
        return AwaitingInputKind::Pinentry;
    }
    let permission = ["permission", "allow", "deny", "approve"];
    assert(permission@.map_values(|p: &str| p@) == permission_words());
    if contains_any(lower, &permission) {
        return AwaitingInputKind::Permission;
    }
    let confirmation = ["do you want", "are you sure", "continue?", "proceed?", "yes/no", "[y/n]", "(y/n)"];
    assert(confirmation@.map_values(|p: &str| p@) == confirmation_words());
    if contains_any(lower, &confirmation) {
        return AwaitingInputKind::Confirmation;
    }
    let numbered: usize = count_entries(lines);
    let choice = ["select", "choose"];
    assert(choice@.map_values(|p: &str| p@) == choice_words());
    if (contains_any(lower, &choice) && numbered >= 1) || numbered >= 2 {
        return AwaitingInputKind::Choice;
    }
    AwaitingInputKind::Other
}

/// The last of `lines`, at most 200 characters of it.
pub open spec fn asked(lines: Seq<Seq<char>>) -> Seq<char> {
    if lines.len() == 0 {
        Seq::empty()
    } else if lines.last().len() > 200 {
        lines.last().take(200)
    } else {
        lines.last()
    }
}

/// Why a session with this screen waits.
pub open spec fn reason_for(kind: AwaitingInputKind, lines: Seq<Seq<char>>) -> ReasonView {
    ReasonView {
        kind,
        message: asked(lines),
        request_id: None,
        options: Seq::empty(),
        allow_always: false,
    }
}

/// Why a session with this screen waits.
pub fn reason(kind: AwaitingInputKind, lines: &Vec<String>) -> (why: AwaitingInputReason)
    ensures
        why@ == reason_for(kind, text::views(lines@)),
{
    let mut message = String::new();
    if lines.len() > 0 {
        let last = &lines[lines.len() - 1];
        assert(text::views(lines@).last() == last@);
        let v = chars_of(last.as_str());
        let to: usize = if v.len() > 200 {
            200
        } else {
            v.len()
        };
        message = string_from(&v, 0, to);
        assert(v@.subrange(0, v@.len() as int) == v@);
        assert(to == 200 ==> v@.subrange(0, 200) == v@.take(200));
    }
    let why = AwaitingInputReason {
        kind,
        message,
        request_id: None,
        options: Vec::new(),
        allow_always: false,
    };
    assert(why@.options == Seq::<Seq<char>>::empty());
    why
}

/// All of `lines` in lower case, as one text.
pub open spec fn low(lines: Seq<Seq<char>>) -> Seq<char> {
    text::lowered(text::linked(lines, "\n"@))
}

/// What a tail that shows a prompt waits for.
pub open spec fn classified(lines: Seq<Seq<char>>) -> ReasonView {
    reason_for(kind_of(low(lines), lines), lines)
}

/// What a tail that shows a prompt waits for.
pub fn classify(lines: &Vec<String>) -> (why: AwaitingInputReason)
    ensures
        why@ == classified(text::views(lines@)),
{
    let lower = to_lower(link(lines, "\n").as_str());
    reason(kind_in(lower.as_str(), lines), lines)
}

/// What a tail of visible lines waits for, where it shows a prompt.
pub open spec fn prompted(lines: Seq<Seq<char>>) -> Option<ReasonView> {
    if lines.len() > 0 && marked(lines) {
        Some(classified(lines))
    } else {
        None
    }
}

/// What a tail of visible lines waits for; nothing where it shows no prompt.
pub fn match_prompt(lines: &Vec<String>) -> (why: Option<AwaitingInputReason>)
    ensures
        model::opt_reason(why) == prompted(text::views(lines@)),
{
    if lines.len() == 0 || !has_prompt_marker(lines) {
        return None;
    }
    Some(classify(lines))
}

/// What any screen that has been quiet waits for.
pub fn generic_awaiting_input(shown: &str) -> (why: Option<AwaitingInputReason>)
    ensures
        model::opt_reason(why) == prompted(tail(shown@, 5)),
{
    match_prompt(&prompt_lines(shown, 5))
}

/// Whether a line in lower case is an answer of opencode's permission dialog.
pub open spec fn offers(lower: Seq<char>) -> bool {
    text::occurs_any(lower, seq!["allow once"@, "allow always"@, "reject"@])
}

/// How many of `lines` are answers of opencode's permission dialog.
pub open spec fn offered(lines: Seq<Seq<char>>) -> nat
    decreases lines.len(),
{
    if lines.len() == 0 {
        0
    } else if offers(text::lowered(lines.last())) {
        offered(lines.drop_last()) + 1
    } else {
        offered(lines.drop_last())
    }
}

/// Whether opencode shows its permission dialog: the words of one, and at least two
/// of its answers.
pub open spec fn opencode_dialog(lower: Seq<char>, answers: nat) -> bool {
    text::occurs_any(lower, seq!["permission"@, "allow"@, "reject"@]) && answers >= 2
}

/// Whether a line in lower case is an answer of opencode's permission dialog.
pub fn is_offer(lower: &str) -> (yes: bool)
    ensures
        yes == offers(lower@),
{
    let answers = ["allow once", "allow always", "reject"];
    assert(answers@.map_values(|p: &str| p@) == seq![
        "allow once"@,
        "allow always"@,
        "reject"@,
    ]);
    contains_any(lower, &answers)
}

/// Whether opencode shows its permission dialog, from its screen in lower case and
/// the number of answers on it.
pub fn is_opencode_dialog(lower: &str, answers: usize) -> (yes: bool)
    ensures
        yes == opencode_dialog(lower@, answers as nat),
{
    let words = ["permission", "allow", "reject"];
    assert(words@.map_values(|p: &str| p@) == seq!["permission"@, "allow"@, "reject"@]);
    contains_any(lower, &words) && answers >= 2
}

/// What opencode waits for with this on its screen.
pub open spec fn opencode_waits(shown: Seq<char>) -> Option<ReasonView> {
    let lines = tail(shown, 6);
    if opencode_dialog(low(lines), offered(lines)) {
        Some(classified(lines))
    } else {
        None
    }
}

/// What opencode waits for: it only matches the wording of its own dialog.
pub fn opencode_awaiting_input(shown: &str) -> (why: Option<AwaitingInputReason>)
    ensures
        model::opt_reason(why) == opencode_waits(shown@),
{
    let lines = prompt_lines(shown, 6);
    let ghost all = text::views(lines@);
    let lower = to_lower(link(&lines, "\n").as_str());
    let mut answers: usize = 0;
    let mut i: usize = 0;
    assert(all.take(0).len() == 0);
    while i < lines.len()
        invariant
            i <= lines@.len(),
            answers <= i,
            all == text::views(lines@),
            answers == offered(all.take(i as int)),
        decreases lines@.len() - i,
    {
        assert(all.take(i + 1).drop_last() == all.take(i as int));
        assert(all.take(i + 1).last() == lines@[i as int]@);
        if is_offer(to_lower(lines[i].as_str()).as_str()) {
            answers += 1;
        }
        i += 1;
    }
    assert(all.take(i as int) == all);
    if is_opencode_dialog(lower.as_str(), answers) {
        Some(classify(&lines))
    } else {
        None
    }
}

/// Whether a `ClaudeAgent` shows a dialog, from
/// its screen in lower case and the number of menu entries on it.
pub open spec fn claude_dialog(lower: Seq<char>, numbered: nat) -> bool {
    text::occurs(lower, "do you want to proceed"@) || (text::occurs(lower, "esc to cancel"@)
        && numbered >= 2)
}

/// Whether a `ClaudeAgent` shows a dialog, from
/// its screen in lower case and the number of menu entries on it.
pub fn is_claude_dialog(lower: &str, numbered: usize) -> (yes: bool)
    ensures
        yes == claude_dialog(lower@, numbered as nat),
{
    contains(lower, "do you want to proceed") || (contains(lower, "esc to cancel") && numbered >= 2)
}

/// What a `ClaudeAgent` waits for with this on
/// its screen.
pub open spec fn claude_waits(shown: Seq<char>) -> Option<ReasonView> {
    let lines = tail(shown, 8);
    if claude_dialog(low(lines), entries(lines)) {
        Some(classified(lines))
    } else {
        None
    }
}

/// What a `ClaudeAgent` waits for: a
/// confirmation or a choice.
pub fn claude_awaiting_input(shown: &str) -> (why: Option<AwaitingInputReason>)
    ensures
        model::opt_reason(why) == claude_waits(shown@),
{
    let lines = prompt_lines(shown, 8);
    let lower = to_lower(link(&lines, "\n").as_str());
    if is_claude_dialog(lower.as_str(), count_entries(&lines)) {
        Some(classify(&lines))
    } else {
        None
    }
}

/// A blank screen waits for nothing.
pub proof fn law_blank_screen_waits_for_nothing(shown: Seq<char>)
    requires
        visible(text::text_lines(shown)).len() == 0,
    ensures
        prompted(tail(shown, 5)) is None,
{
}

/// A single numbered line is no menu: without evidence of a dialog it is no
/// prompt.
pub proof fn law_one_entry_is_no_menu(line: Seq<char>)
    requires
        !evidence(line, text::lowered(line)),
    ensures
        prompted(seq![line]) is None,
{
    lemma_entries(seq![line]);
}

/// What is asked never takes more than 200 characters.
pub proof fn law_message_is_short(lines: Seq<Seq<char>>)
    ensures
        classified(lines).message.len() <= 200,
{
}

} // verus!
