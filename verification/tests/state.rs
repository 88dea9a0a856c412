use favetto::agents::state::{AgentActivity, AgentLiveState};
use favetto::json::Json;
use favetto::model::{
    AgentStateEvent, AgentUsage, AwaitingInputKind, Cost, IdleOutcome, InputRequest, MessageRole,
};

fn cost(amount: f64) -> Option<Cost> {
    Some(Cost::Reported(amount.to_bits()))
}

#[test]
fn live_state_folds_activity_and_usage() {
    let mut live = AgentLiveState::default();
    assert!(live.activity.is_none());

    live.apply(&AgentStateEvent::TurnStarted);
    assert_eq!(live.activity, Some(AgentActivity::Thinking));

    live.apply(&AgentStateEvent::TextDelta {
        role: MessageRole::Assistant,
        text: "hi".to_string(),
    });
    assert_eq!(live.activity, Some(AgentActivity::Responding));

    live.apply(&AgentStateEvent::ToolStarted {
        id: "c1".to_string(),
        name: "bash".to_string(),
        input: Json::Object(Vec::new()),
    });
    assert_eq!(
        live.activity,
        Some(AgentActivity::Tool { name: "bash".to_string(), description: None })
    );

    live.apply(&AgentStateEvent::Usage {
        usage: AgentUsage { input_tokens: 3, cost_usd: cost(0.01), ..Default::default() },
    });
    live.apply(&AgentStateEvent::Usage {
        usage: AgentUsage { output_tokens: 2, ..Default::default() },
    });
    let usage = live.usage.as_ref().unwrap();
    assert_eq!(usage.input_tokens, 3);
    assert_eq!(usage.output_tokens, 2);
    assert_eq!(usage.cost_usd, cost(0.01));

    live.apply(&AgentStateEvent::Idle { outcome: IdleOutcome::Succeeded });
    assert_eq!(live.activity, Some(AgentActivity::Idle));
}

#[test]
fn live_state_marks_waiting_on_input_request() {
    let mut live = AgentLiveState::default();
    let request = InputRequest {
        id: "perm_1".to_string(),
        kind: AwaitingInputKind::Permission,
        message: "Allow?".to_string(),
        options: vec!["Allow".to_string()],
        allow_always: true,
    };
    live.apply(&AgentStateEvent::InputRequested { request: request.clone() });
    assert_eq!(live.activity, Some(AgentActivity::Waiting { request: request.clone() }));

    live.apply(&AgentStateEvent::InputResolved { id: "perm_1".to_string() });
    assert_eq!(live.activity, Some(AgentActivity::Idle));
}

#[test]
fn news_about_the_session_leaves_the_activity() {
    let mut live = AgentLiveState::default();
    live.apply(&AgentStateEvent::TurnStarted);
    let before = live.clone();
    live.apply(&AgentStateEvent::Title { title: "New".to_string() });
    live.apply(&AgentStateEvent::Error { message: "odd".to_string() });
    live.apply(&AgentStateEvent::Session { session_id: None, title: None, model: None });
    assert_eq!(live, before);
}

#[test]
fn usage_adds_up_without_overflow() {
    let mut total = AgentUsage { input_tokens: u64::MAX, ..Default::default() };
    total.merge(&AgentUsage { input_tokens: 1, output_tokens: 4, ..Default::default() });
    assert_eq!(total.input_tokens, u64::MAX);
    assert_eq!(total.output_tokens, 4);
    assert!(AgentUsage::default().is_empty());
    assert!(!total.is_empty());
    assert!(!AgentUsage { cost_usd: cost(0.0), ..Default::default() }.is_empty());
}
