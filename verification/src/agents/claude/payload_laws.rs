//! What each hook payload of a session tells.
use crate::agents::claude::hooks;
use crate::agents::claude::hooks::{HookState, HookStep};
use crate::agents::product;
use crate::agents::terms;
use crate::json as tree;
use crate::json::JsonView;
use crate::model::{AwaitingInputKind, EventView, IdleOutcome, InputRequestView};
use crate::text;
use vstd::prelude::*;

verus! {

/// Whether a payload is of this event.
pub open spec fn hook(payload: JsonView, name: Seq<char>) -> bool {
    terms::words(payload.get("hook_event_name"@)) == name
}

/// What the session that a payload names makes of a mapper: the first is told, with its
/// title.
pub open spec fn met(s: HookState, payload: JsonView) -> HookStep {
    let id = terms::words(payload.get("session_id"@));
    if !s.announced && id.len() > 0 {
        HookStep {
            state: HookState { announced: true, ..s },
            told: seq![
                EventView::Session {
                    session_id: Some(id),
                    title: match payload.get("session_title"@) {
                        Some(JsonView::Str(title)) => Some(title),
                        _ => None,
                    },
                    model: None,
                },
            ],
        }
    } else {
        HookStep { state: s, told: Seq::empty() }
    }
}

/// That the request which waits, if one does, is settled.
pub open spec fn settling(s: HookState) -> Seq<EventView> {
    match s.pending {
        Some(id) => seq![EventView::InputResolved { id }],
        None => Seq::empty(),
    }
}

/// That the session is at rest, unless that was told already.
pub open spec fn resting(s: HookState, outcome: IdleOutcome) -> Seq<EventView> {
    if s.finished {
        Seq::empty()
    } else {
        seq![EventView::Idle { outcome }]
    }
}

/// The name that a tool or subagent started under, else what a payload calls it.
pub open spec fn known_name(s: HookState, id: Seq<char>, called: Seq<char>) -> Seq<char> {
    if s.names.contains_key(id) && s.names[id].len() > 0 {
        s.names[id]
    } else {
        called
    }
}

proof fn lemma_met(s: HookState, payload: JsonView)
    ensures
        s.announce(payload) == met(s, payload),
{
}

/// A submitted prompt starts a turn.
pub proof fn law_prompt_starts_a_turn(s: HookState, payload: JsonView)
    requires
        hook(payload, "UserPromptSubmit"@),
    ensures
        ({
            let m = met(s, payload);
            let k = m.state;
            let t = s.on_payload(payload);
            &&& t.state == k
            &&& t.told =~= m.told + seq![EventView::TurnStarted]
        }),
{
    lemma_met(s, payload);
    let k = met(s, payload).state;
    let event = payload.text("hook_event_name"@);
    assert(event == terms::words(payload.get("hook_event_name"@)));
    assert(k.on_event(payload) == (HookStep { state: k, told: seq![EventView::TurnStarted] })) by {
        reveal_strlit("UserPromptSubmit");
        reveal_strlit("PreToolUse");
        reveal_strlit("PostToolUse");
        reveal_strlit("PostToolUseFailure");
        reveal_strlit("PermissionRequest");
        reveal_strlit("Notification");
        reveal_strlit("Stop");
        reveal_strlit("StopFailure");
        reveal_strlit("SubagentStart");
        reveal_strlit("SubagentStop");
        reveal_strlit("SessionEnd");
    }
}

/// A tool that starts settles the permission request that waits and is told under its
/// id, its name and its input; its name is remembered.
pub proof fn law_tool_start_settles_and_is_told(s: HookState, payload: JsonView)
    requires
        hook(payload, "PreToolUse"@),
    ensures
        ({
            let m = met(s, payload);
            let k = m.state;
            let t = s.on_payload(payload);
            &&& t.state == (HookState {
                pending: None,
                names: k.names.insert(
                    terms::words(payload.get("tool_use_id"@)),
                    terms::words(payload.get("tool_name"@)),
                ),
                ..k
            })
            &&& t.told =~= m.told + settling(k) + seq![
                EventView::ToolStarted {
                    id: terms::words(payload.get("tool_use_id"@)),
                    name: terms::words(payload.get("tool_name"@)),
                    input: match payload.get("tool_input"@) {
                        Some(input) => input,
                        None => JsonView::Null,
                    },
                },
            ]
        }),
{
    lemma_met(s, payload);
    let k = met(s, payload).state;
    let event = payload.text("hook_event_name"@);
    assert(event == terms::words(payload.get("hook_event_name"@)));
    assert(k.on_event(payload) == ({
        let first = k.settled();
        let then = first.state.started(
            payload.text("tool_use_id"@),
            payload.text("tool_name"@),
            tree::or_null(payload.get("tool_input"@)),
        );
        HookStep { state: then.state, told: first.told + then.told }
    })) by {
        reveal_strlit("UserPromptSubmit");
        reveal_strlit("PreToolUse");
        reveal_strlit("PostToolUse");
        reveal_strlit("PostToolUseFailure");
        reveal_strlit("PermissionRequest");
        reveal_strlit("Notification");
        reveal_strlit("Stop");
        reveal_strlit("StopFailure");
        reveal_strlit("SubagentStart");
        reveal_strlit("SubagentStop");
        reveal_strlit("SessionEnd");
        assert("PreToolUse"@[0] != "SessionEnd"@[0]);
    }
}

/// A tool that ends is told under the name it started with, well exactly where it did
/// not fail, with its response.
pub proof fn law_tool_end_tells_how_it_went(s: HookState, payload: JsonView)
    requires
        hook(payload, "PostToolUse"@) || hook(payload, "PostToolUseFailure"@),
    ensures
        ({
            let m = met(s, payload);
            let k = m.state;
            let t = s.on_payload(payload);
            &&& t.state == k
            &&& t.told =~= m.told + seq![
                EventView::ToolFinished {
                    id: terms::words(payload.get("tool_use_id"@)),
                    name: known_name(
                        k,
                        terms::words(payload.get("tool_use_id"@)),
                        terms::words(payload.get("tool_name"@)),
                    ),
                    ok: hook(payload, "PostToolUse"@),
                    output: payload.get("tool_response"@),
                },
            ]
        }),
{
    lemma_met(s, payload);
    let k = met(s, payload).state;
    let event = payload.text("hook_event_name"@);
    assert(event == terms::words(payload.get("hook_event_name"@)));
    assert(k.on_event(payload) == (HookStep { state: k, told: seq![k.tool_end(payload, hook(payload, "PostToolUse"@))] })) by {
        reveal_strlit("UserPromptSubmit");
        reveal_strlit("PreToolUse");
        reveal_strlit("PostToolUse");
        reveal_strlit("PostToolUseFailure");
        reveal_strlit("PermissionRequest");
        reveal_strlit("Notification");
        reveal_strlit("Stop");
        reveal_strlit("StopFailure");
        reveal_strlit("SubagentStart");
        reveal_strlit("SubagentStop");
        reveal_strlit("SessionEnd");
        assert("PostToolUse"@[0] != "StopFailure"@[0]);
    }
}

/// A permission request is told under a new id, which then waits, with the tool that it
/// is for and the answers that it suggests.
pub proof fn law_permission_is_requested(s: HookState, payload: JsonView)
    requires
        hook(payload, "PermissionRequest"@),
    ensures
        ({
            let m = met(s, payload);
            let k = m.state;
            let t = s.on_payload(payload);
            &&& t.state == (HookState {
                pending: Some(product::command() + "-perm-"@ + text::decimal((k.seq + 1) as nat)),
                seq: (k.seq + 1) as u64,
                ..k
            })
            &&& t.told =~= m.told + seq![
                EventView::InputRequested {
                    request: InputRequestView {
                        id: product::command() + "-perm-"@ + text::decimal((k.seq + 1) as nat),
                        kind: AwaitingInputKind::Permission,
                        message: product::title() + " requests permission to run "@ + match payload.get(
                            "tool_name"@,
                        ) {
                            Some(JsonView::Str(tool)) => tool,
                            _ => "a tool"@,
                        },
                        options: hooks::suggested(payload),
                        allow_always: true,
                    },
                },
            ]
        }),
{
    lemma_met(s, payload);
    let k = met(s, payload).state;
    let event = payload.text("hook_event_name"@);
    assert(event == terms::words(payload.get("hook_event_name"@)));
    assert(k.on_event(payload) == k.asking(hooks::permission_text(payload), hooks::suggested(payload))) by {
        reveal_strlit("UserPromptSubmit");
        reveal_strlit("PreToolUse");
        reveal_strlit("PostToolUse");
        reveal_strlit("PostToolUseFailure");
        reveal_strlit("PermissionRequest");
        reveal_strlit("Notification");
        reveal_strlit("Stop");
        reveal_strlit("StopFailure");
        reveal_strlit("SubagentStart");
        reveal_strlit("SubagentStop");
        reveal_strlit("SessionEnd");
    }
}

/// The text of a suggestion: itself, else its label, else its behaviour.
pub open spec fn suggestion(v: JsonView) -> Option<Seq<char>> {
    match (v, v.get("label"@), v.get("behavior"@)) {
        (JsonView::Str(s), _, _) => Some(s),
        (_, Some(JsonView::Str(s)), _) => Some(s),
        (_, _, Some(JsonView::Str(s))) => Some(s),
        _ => None,
    }
}

proof fn lemma_suggested(suggestions: Seq<JsonView>, from: int)
    requires
        0 <= from <= suggestions.len(),
    ensures
        ({
            let texts = hooks::suggested_from(suggestions, from);
            &&& texts.len() <= suggestions.len() - from
            &&& (forall|i: int|
                from <= i < suggestions.len() ==> suggestion(#[trigger] suggestions[i]) is Some) ==> {
                &&& texts.len() == suggestions.len() - from
                &&& forall|i: int|
                    0 <= i < texts.len() ==> Some(#[trigger] texts[i]) == suggestion(
                        suggestions[from + i],
                    )
            }
        }),
        from < suggestions.len() && suggestion(suggestions[from]) is None ==> hooks::suggested_from(
            suggestions,
            from,
        ) == hooks::suggested_from(suggestions, from + 1),
    decreases suggestions.len() - from,
{
    if from < suggestions.len() {
        lemma_suggested(suggestions, from + 1);
        assert(hooks::suggestion_text(suggestions[from]) == suggestion(suggestions[from]));
        let later = hooks::suggested_from(suggestions, from + 1);
        let texts = hooks::suggested_from(suggestions, from);
        if forall|i: int| from <= i < suggestions.len() ==> suggestion(#[trigger] suggestions[i]) is Some {
            assert(suggestion(suggestions[from]) is Some);
            assert forall|i: int| 0 <= i < texts.len() implies Some(#[trigger] texts[i]) == suggestion(
                suggestions[from + i],
            ) by {
                if i > 0 {
                    assert(texts[i] == later[i - 1]);
                    assert(Some(later[i - 1]) == suggestion(suggestions[from + 1 + (i - 1)]));
                }
            }
        }
    }
}

/// Where every suggestion has a text, the options are those texts in their order;
/// without suggestions there are none.
pub proof fn law_suggestions_are_the_options(payload: JsonView)
    ensures
        match payload.get("permission_suggestions"@) {
            Some(JsonView::Array(all)) => (forall|i: int|
                0 <= i < all.len() ==> suggestion(#[trigger] all[i]) is Some) ==> {
                &&& hooks::suggested(payload).len() == all.len()
                &&& forall|i: int|
                    0 <= i < all.len() ==> Some(#[trigger] hooks::suggested(payload)[i]) == suggestion(
                        all[i],
                    )
            },
            _ => hooks::suggested(payload).len() == 0,
        },
{
    if let Some(JsonView::Array(all)) = payload.get("permission_suggestions"@) {
        lemma_suggested(all, 0);
        if forall|i: int| 0 <= i < all.len() ==> suggestion(#[trigger] all[i]) is Some {
            let texts = hooks::suggested(payload);
            assert forall|i: int| 0 <= i < all.len() implies Some(#[trigger] texts[i]) == suggestion(
                all[i],
            ) by {
                assert(Some(texts[i]) == suggestion(all[0 + i]));
            }
        }
    }
}

/// A notice of a permission prompt is told as a request, unless one waits already.
pub proof fn law_permission_notice_asks_unless_it_waits(s: HookState, payload: JsonView)
    requires
        hook(payload, "Notification"@),
        terms::words(payload.get("notification_type"@)) == "permission_prompt"@,
    ensures
        ({
            let m = met(s, payload);
            let k = m.state;
            let t = s.on_payload(payload);
            let message = terms::either(terms::words(payload.get("message"@)), "Permission requested"@);
            &&& k.pending is Some ==> t.state == k && t.told =~= m.told
            &&& k.pending is None ==> {
                &&& t.state == (HookState {
                    pending: Some(product::command() + "-perm-"@ + text::decimal((k.seq + 1) as nat)),
                    seq: (k.seq + 1) as u64,
                    ..k
                })
                &&& t.told =~= m.told + seq![
                    EventView::InputRequested {
                        request: InputRequestView {
                            id: product::command() + "-perm-"@ + text::decimal((k.seq + 1) as nat),
                            kind: AwaitingInputKind::Permission,
                            message: message,
                            options: Seq::empty(),
                            allow_always: true,
                        },
                    },
                ]
            }
        }),
{
    reveal_strlit("permission_prompt");
    reveal_strlit("agent_needs_input");
    assert("permission_prompt"@[0] != "agent_needs_input"@[0]);
    lemma_met(s, payload);
    let k = met(s, payload).state;
    let event = payload.text("hook_event_name"@);
    assert(event == terms::words(payload.get("hook_event_name"@)));
    assert(k.on_event(payload) == k.on_notification(payload)) by {
        reveal_strlit("UserPromptSubmit");
        reveal_strlit("PreToolUse");
        reveal_strlit("PostToolUse");
        reveal_strlit("PostToolUseFailure");
        reveal_strlit("PermissionRequest");
        reveal_strlit("Notification");
        reveal_strlit("Stop");
        reveal_strlit("StopFailure");
        reveal_strlit("SubagentStart");
        reveal_strlit("SubagentStop");
        reveal_strlit("SessionEnd");
        assert("Notification"@[0] != "SubagentStop"@[0]);
    }
    assert(payload.text("notification_type"@) == terms::words(payload.get("notification_type"@)));
}

/// A notice that the agent needs input is told as a request for it under a new id.
pub proof fn law_input_notice_asks(s: HookState, payload: JsonView)
    requires
        hook(payload, "Notification"@),
        terms::words(payload.get("notification_type"@)) == "agent_needs_input"@,
    ensures
        ({
            let m = met(s, payload);
            let k = m.state;
            let t = s.on_payload(payload);
            &&& t.state == (HookState { seq: (k.seq + 1) as u64, ..k })
            &&& t.told =~= m.told + seq![
                EventView::InputRequested {
                    request: InputRequestView {
                        id: product::command() + "-input-"@ + text::decimal((k.seq + 1) as nat),
                        kind: AwaitingInputKind::Other,
                        message: terms::either(
                            terms::words(payload.get("message"@)),
                            "Agent needs input"@,
                        ),
                        options: Seq::empty(),
                        allow_always: false,
                    },
                },
            ]
        }),
{
    reveal_strlit("permission_prompt");
    reveal_strlit("agent_needs_input");
    assert("permission_prompt"@[0] != "agent_needs_input"@[0]);
    lemma_met(s, payload);
    let k = met(s, payload).state;
    let event = payload.text("hook_event_name"@);
    assert(event == terms::words(payload.get("hook_event_name"@)));
    assert(k.on_event(payload) == k.on_notification(payload)) by {
        reveal_strlit("UserPromptSubmit");
        reveal_strlit("PreToolUse");
        reveal_strlit("PostToolUse");
        reveal_strlit("PostToolUseFailure");
        reveal_strlit("PermissionRequest");
        reveal_strlit("Notification");
        reveal_strlit("Stop");
        reveal_strlit("StopFailure");
        reveal_strlit("SubagentStart");
        reveal_strlit("SubagentStop");
        reveal_strlit("SessionEnd");
        assert("Notification"@[0] != "SubagentStop"@[0]);
    }
    assert(payload.text("notification_type"@) == terms::words(payload.get("notification_type"@)));
}

/// Any other notice tells nothing.
pub proof fn law_other_notices_are_nothing(s: HookState, payload: JsonView)
    requires
        hook(payload, "Notification"@),
        terms::words(payload.get("notification_type"@)) != "agent_needs_input"@,
        terms::words(payload.get("notification_type"@)) != "permission_prompt"@,
    ensures
        s.on_payload(payload).state == met(s, payload).state,
        s.on_payload(payload).told =~= met(s, payload).told,
{
    lemma_met(s, payload);
    let k = met(s, payload).state;
    let event = payload.text("hook_event_name"@);
    assert(event == terms::words(payload.get("hook_event_name"@)));
    assert(k.on_event(payload) == k.on_notification(payload)) by {
        reveal_strlit("UserPromptSubmit");
        reveal_strlit("PreToolUse");
        reveal_strlit("PostToolUse");
        reveal_strlit("PostToolUseFailure");
        reveal_strlit("PermissionRequest");
        reveal_strlit("Notification");
        reveal_strlit("Stop");
        reveal_strlit("StopFailure");
        reveal_strlit("SubagentStart");
        reveal_strlit("SubagentStop");
        reveal_strlit("SessionEnd");
        assert("Notification"@[0] != "SubagentStop"@[0]);
    }
}

/// A session that stops settles the request that waits and is at rest with success,
/// told once.
pub proof fn law_stop_is_success(s: HookState, payload: JsonView)
    requires
        hook(payload, "Stop"@),
    ensures
        ({
            let m = met(s, payload);
            let k = m.state;
            let t = s.on_payload(payload);
            &&& t.state == (HookState { pending: None, finished: true, ..k })
            &&& t.told =~= m.told + settling(k) + resting(k, IdleOutcome::Succeeded)
        }),
{
    lemma_met(s, payload);
    let k = met(s, payload).state;
    let event = payload.text("hook_event_name"@);
    assert(event == terms::words(payload.get("hook_event_name"@)));
    assert(k.on_event(payload) == ({
        let first = k.settled();
        let then = first.state.at_rest(IdleOutcome::Succeeded);
        HookStep { state: then.state, told: first.told + then.told }
    })) by {
        reveal_strlit("UserPromptSubmit");
        reveal_strlit("PreToolUse");
        reveal_strlit("PostToolUse");
        reveal_strlit("PostToolUseFailure");
        reveal_strlit("PermissionRequest");
        reveal_strlit("Notification");
        reveal_strlit("Stop");
        reveal_strlit("StopFailure");
        reveal_strlit("SubagentStart");
        reveal_strlit("SubagentStop");
        reveal_strlit("SessionEnd");
    }
}

/// A session that stops with a failure is at rest with that failure, told once.
pub proof fn law_failed_stop_is_failure(s: HookState, payload: JsonView)
    requires
        hook(payload, "StopFailure"@),
    ensures
        ({
            let m = met(s, payload);
            let k = m.state;
            let t = s.on_payload(payload);
            &&& t.state == (HookState { finished: true, ..k })
            &&& t.told =~= m.told + resting(k, IdleOutcome::Failed)
        }),
{
    lemma_met(s, payload);
    let k = met(s, payload).state;
    let event = payload.text("hook_event_name"@);
    assert(event == terms::words(payload.get("hook_event_name"@)));
    assert(k.on_event(payload) == k.at_rest(IdleOutcome::Failed)) by {
        reveal_strlit("UserPromptSubmit");
        reveal_strlit("PreToolUse");
        reveal_strlit("PostToolUse");
        reveal_strlit("PostToolUseFailure");
        reveal_strlit("PermissionRequest");
        reveal_strlit("Notification");
        reveal_strlit("Stop");
        reveal_strlit("StopFailure");
        reveal_strlit("SubagentStart");
        reveal_strlit("SubagentStop");
        reveal_strlit("SessionEnd");
        assert("StopFailure"@[0] != "PostToolUse"@[0]);
    }
}

/// A session that ends without a stop is interrupted, told once.
pub proof fn law_session_end_is_interruption(s: HookState, payload: JsonView)
    requires
        hook(payload, "SessionEnd"@),
    ensures
        ({
            let m = met(s, payload);
            let k = m.state;
            let t = s.on_payload(payload);
            &&& t.state == (HookState { finished: true, ..k })
            &&& t.told =~= m.told + resting(k, IdleOutcome::Interrupted)
        }),
{
    lemma_met(s, payload);
    let k = met(s, payload).state;
    let event = payload.text("hook_event_name"@);
    assert(event == terms::words(payload.get("hook_event_name"@)));
    assert(k.on_event(payload) == k.at_rest(IdleOutcome::Interrupted)) by {
        reveal_strlit("UserPromptSubmit");
        reveal_strlit("PreToolUse");
        reveal_strlit("PostToolUse");
        reveal_strlit("PostToolUseFailure");
        reveal_strlit("PermissionRequest");
        reveal_strlit("Notification");
        reveal_strlit("Stop");
        reveal_strlit("StopFailure");
        reveal_strlit("SubagentStart");
        reveal_strlit("SubagentStop");
        reveal_strlit("SessionEnd");
        assert("SessionEnd"@[0] != "PreToolUse"@[0]);
    }
}

/// A subagent is told as a tool, under its id and its type.
pub proof fn law_subagent_is_told_as_a_tool(s: HookState, payload: JsonView)
    requires
        hook(payload, "SubagentStart"@),
    ensures
        ({
            let m = met(s, payload);
            let k = m.state;
            let t = s.on_payload(payload);
            &&& t.state == (HookState {
                names: k.names.insert(
                    terms::words(payload.get("agent_id"@)),
                    terms::words(payload.get("agent_type"@)),
                ),
                ..k
            })
            &&& t.told =~= m.told + seq![
                EventView::ToolStarted {
                    id: terms::words(payload.get("agent_id"@)),
                    name: terms::words(payload.get("agent_type"@)),
                    input: JsonView::Null,
                },
            ]
        }),
{
    lemma_met(s, payload);
    let k = met(s, payload).state;
    let event = payload.text("hook_event_name"@);
    assert(event == terms::words(payload.get("hook_event_name"@)));
    assert(k.on_event(payload) == k.started(payload.text("agent_id"@), payload.text("agent_type"@), JsonView::Null)) by {
        reveal_strlit("UserPromptSubmit");
        reveal_strlit("PreToolUse");
        reveal_strlit("PostToolUse");
        reveal_strlit("PostToolUseFailure");
        reveal_strlit("PermissionRequest");
        reveal_strlit("Notification");
        reveal_strlit("Stop");
        reveal_strlit("StopFailure");
        reveal_strlit("SubagentStart");
        reveal_strlit("SubagentStop");
        reveal_strlit("SessionEnd");
    }
}

/// A subagent that stops is told as a tool that ended well, under the name it started
/// with.
pub proof fn law_subagent_ends_well(s: HookState, payload: JsonView)
    requires
        hook(payload, "SubagentStop"@),
    ensures
        ({
            let m = met(s, payload);
            let k = m.state;
            let t = s.on_payload(payload);
            &&& t.state == k
            &&& t.told =~= m.told + seq![
                EventView::ToolFinished {
                    id: terms::words(payload.get("agent_id"@)),
                    name: known_name(
                        k,
                        terms::words(payload.get("agent_id"@)),
                        terms::words(payload.get("agent_type"@)),
                    ),
                    ok: true,
                    output: None,
                },
            ]
        }),
{
    lemma_met(s, payload);
    let k = met(s, payload).state;
    let event = payload.text("hook_event_name"@);
    assert(event == terms::words(payload.get("hook_event_name"@)));
    assert(k.on_event(payload) == (HookStep {
        state: k,
        told: seq![
            EventView::ToolFinished {
                id: payload.text("agent_id"@),
                name: k.name_of(payload.text("agent_id"@), payload.text("agent_type"@)),
                ok: true,
                output: None,
            },
        ],
    })) by {
        reveal_strlit("UserPromptSubmit");
        reveal_strlit("PreToolUse");
        reveal_strlit("PostToolUse");
        reveal_strlit("PostToolUseFailure");
        reveal_strlit("PermissionRequest");
        reveal_strlit("Notification");
        reveal_strlit("Stop");
        reveal_strlit("StopFailure");
        reveal_strlit("SubagentStart");
        reveal_strlit("SubagentStop");
        reveal_strlit("SessionEnd");
        assert("SubagentStop"@[0] != "Notification"@[0]);
    }
}

/// Any other payload may name the session, and else changes nothing.
pub proof fn law_other_hooks_only_name_the_session(s: HookState, payload: JsonView)
    requires
        !hook(payload, "UserPromptSubmit"@),
        !hook(payload, "PreToolUse"@),
        !hook(payload, "PostToolUse"@),
        !hook(payload, "PostToolUseFailure"@),
        !hook(payload, "PermissionRequest"@),
        !hook(payload, "Notification"@),
        !hook(payload, "Stop"@),
        !hook(payload, "StopFailure"@),
        !hook(payload, "SubagentStart"@),
        !hook(payload, "SubagentStop"@),
        !hook(payload, "SessionEnd"@),
    ensures
        s.on_payload(payload).state == met(s, payload).state,
        s.on_payload(payload).told =~= met(s, payload).told,
{
    lemma_met(s, payload);
    assert(payload.text("hook_event_name"@) == terms::words(payload.get("hook_event_name"@)));
}

} // verus!
