use favetto::agents::detect::{
    classify, claude_awaiting_input, count_entries, generic_awaiting_input, has_prompt_marker,
    is_claude_dialog, is_offer, is_opencode_dialog, kind_in, match_prompt, numbered_option,
    opencode_awaiting_input, prompt_evidence, prompt_lines, reason,
};
use favetto::model::AwaitingInputKind;

fn lines(text: &str) -> Vec<String> {
    prompt_lines(text, 5)
}

#[test]
fn generic_matches_permission_confirm_choice_pinentry() {
    let cases = [
        ("Permission required: allow this tool?", AwaitingInputKind::Permission),
        ("Do you want to proceed?", AwaitingInputKind::Confirmation),
        ("Are you sure you want to continue? [y/N]", AwaitingInputKind::Confirmation),
        (
            "Select an option:\n  1) Keep changes\n  2) Discard changes",
            AwaitingInputKind::Choice,
        ),
        ("Enter passphrase for key '/home/u/.ssh/id_ed25519':", AwaitingInputKind::Pinentry),
        ("PINENTRY: enter your password:", AwaitingInputKind::Pinentry),
    ];
    for (text, kind) in cases {
        let matched = generic_awaiting_input(text);
        assert_eq!(matched.as_ref().map(|r| r.kind), Some(kind), "text: {text:?}");
    }
}

#[test]
fn generic_ignores_idle_composer_and_plain_output() {
    for text in [
        "Ask anything…",
        "Compiling foo v0.1.0",
        "the permission check is documented in the guide",
        "Select the repository from the list below", // no numbered options
        "Steps:",
        "Error:",
        "func main() {",
        "1. First step", // a single numbered item is not a menu
        "❯",
        "❯ Ask anything…",
        "Here's what I'll do:",
        "Compiling favetto v0.1.0",
        "Done.",
        "",
    ] {
        assert!(generic_awaiting_input(text).is_none(), "false positive for {text:?}");
    }
}

#[test]
fn match_prompt_requires_a_marker() {
    // A keyword alone (no confirmation token or `?`/`:` line) is not a prompt.
    assert!(match_prompt(&lines("permission denied")).is_none());
    // A bare question without a prompt verb is no longer a marker either.
    assert!(match_prompt(&lines("waiting for you?")).is_none());
    // A confirmation token classifies as `Other` when nothing else fits.
    assert_eq!(
        match_prompt(&lines("press enter")).map(|r| r.kind),
        Some(AwaitingInputKind::Other)
    );
}

#[test]
fn prompt_lines_keeps_the_newest_non_empty_tail() {
    assert_eq!(
        prompt_lines("a\n\nb\nc\nd\ne\nf", 3),
        vec!["d".to_string(), "e".to_string(), "f".to_string()]
    );
}

#[test]
fn agent_specific_matchers_require_their_dialog() {
    assert_eq!(
        opencode_awaiting_input("Permission required\n❯ Allow once\n  Allow always\n  Reject")
            .map(|r| r.kind),
        Some(AwaitingInputKind::Permission)
    );
    assert!(opencode_awaiting_input("let me explain the permission model").is_none());
    assert!(opencode_awaiting_input("I will allow it and reject the rest").is_none());

    assert_eq!(
        claude_awaiting_input("Do you want to proceed?\n ❯ 1. Yes\n   2. No").map(|r| r.kind),
        Some(AwaitingInputKind::Confirmation)
    );
    assert!(claude_awaiting_input("I will proceed with the change").is_none());
    assert!(claude_awaiting_input("esc to cancel").is_none());
}

#[test]
fn numbered_options_are_menu_entries() {
    assert!(numbered_option("1. Yes"));
    assert!(numbered_option("  12) No"));
    assert!(!numbered_option("1 Yes"));
    assert!(!numbered_option("Yes"));
    assert!(!numbered_option(""));
    assert_eq!(count_entries(&lines("1. a\n2) b\nplain")), 2);
}

#[test]
fn letters_of_any_case_are_evidence() {
    let line = "DO YOU WANT to go on?";
    assert!(prompt_evidence(line, &line.to_lowercase()));
    assert!(has_prompt_marker(&lines(line)));
    assert_eq!(
        generic_awaiting_input("DO YOU WANT TO PROCEED?").map(|r| r.kind),
        Some(AwaitingInputKind::Confirmation)
    );
}

#[test]
fn a_reason_shows_the_newest_line() {
    let shown = lines("Do you want to proceed?\n1. Yes\n2. No");
    let why = classify(&shown);
    assert_eq!(why.kind, kind_in(&"Do you want to proceed?\n1. Yes\n2. No".to_lowercase(), &shown));
    assert_eq!(why, reason(why.kind, &shown));
    assert_eq!(why.message, "2. No", "the newest line");
    assert!(why.request_id.is_none());
    let long = vec!["x".repeat(300)];
    assert_eq!(reason(AwaitingInputKind::Other, &long).message, "x".repeat(200));
}

#[test]
fn dialogs_are_told_by_their_offers() {
    assert!(is_offer("allow once"));
    assert!(!is_offer("go away"));
    assert!(is_opencode_dialog("permission required", 2));
    assert!(!is_opencode_dialog("permission required", 1));
    assert!(is_claude_dialog("do you want to proceed?", 2));
    assert!(!is_claude_dialog("something else", 0));
}
