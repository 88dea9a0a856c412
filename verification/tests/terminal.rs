use favetto::agents::terminal::{decrqm_reply, osc_reply, replies_at, terminal_replies};

fn answered(bytes: &[u8]) -> Vec<u8> {
    replies_at((4, 9), bytes)
}

#[test]
fn the_cursor_is_reported_from_the_screen() {
    let mut parser = vt100::Parser::new(24, 80, 0);
    parser.process(b"ab\r\ncde");
    assert_eq!(terminal_replies(parser.screen(), b"\x1b[6n"), b"\x1b[2;4R");
    assert_eq!(answered(b"\x1b[6n"), b"\x1b[5;10R");
}

#[test]
fn plain_output_is_not_answered() {
    assert!(answered(b"plain text").is_empty());
    assert!(answered(b"\x1b[31mred\x1b[0m").is_empty());
    assert!(answered(b"").is_empty());
    assert!(answered(b"\x1b").is_empty());
}

#[test]
fn every_question_has_its_answer() {
    assert_eq!(answered(b"\x1b[5n"), b"\x1b[0n");
    assert_eq!(answered(b"\x1b[?u"), b"\x1b[?0u");
    assert_eq!(answered(b"\x1b[>c"), b"\x1b[>0;276;0c");
    assert_eq!(answered(b"\x1b[c"), b"\x1b[?62;1;2;6;9;15;22c");
    assert_eq!(answered(b"\x1b[?2026$p"), b"\x1b[?2026;2$y");
    assert_eq!(answered(b"\x1b]10;?\x07"), b"\x1b]10;rgb:ffff/ffff/ffff\x07");
    assert_eq!(answered(b"\x1b]11;?\x1b\\"), b"\x1b]11;rgb:0000/0000/0000\x07");
}

#[test]
fn questions_are_answered_in_order() {
    assert_eq!(answered(b"a\x1b[5nb\x1b[?uc"), b"\x1b[0n\x1b[?0u");
}

#[test]
fn a_reply_tells_how_long_the_question_was() {
    let mut out = Vec::new();
    assert_eq!(decrqm_reply(b"\x1b[4$p...", &mut out), Some(5));
    assert_eq!(out, b"\x1b[4;2$y");
    assert_eq!(decrqm_reply(b"\x1b[4", &mut out), None);
    let mut out = Vec::new();
    assert_eq!(osc_reply(b"\x1b]11;?\x07rest", &mut out), Some(7));
    assert_eq!(osc_reply(b"\x1b]12;?\x07", &mut out), None);
}
