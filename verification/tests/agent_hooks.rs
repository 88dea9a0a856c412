use favetto::agent_hooks::{hook_response, HookMap, HookRouteError, HookRouter, Told};
use favetto::json::{Json, JsonView};
use favetto::model::{AgentStateEvent, IdleOutcome};

/// Reports rest for every payload that says `ok`.
struct RestWhenOk;

impl HookMap for RestWhenOk {
    fn ready(&self) -> bool {
        true
    }

    fn is_ready(&self) -> bool {
        true
    }

    fn maps(_: Self, _: JsonView, _: Self, _: Told) -> bool {
        true
    }

    fn map(&mut self, payload: &Json) -> Vec<AgentStateEvent> {
        if payload.get("ok").is_some() {
            vec![AgentStateEvent::Idle { outcome: IdleOutcome::Succeeded }]
        } else {
            Vec::new()
        }
    }
}

/// Reports nothing.
struct Silent;

impl HookMap for Silent {
    fn ready(&self) -> bool {
        true
    }

    fn is_ready(&self) -> bool {
        true
    }

    fn maps(_: Self, _: JsonView, _: Self, _: Told) -> bool {
        true
    }

    fn map(&mut self, _payload: &Json) -> Vec<AgentStateEvent> {
        Vec::new()
    }
}

/// Reports the start of a turn for every payload.
struct TurnStarts;

impl HookMap for TurnStarts {
    fn ready(&self) -> bool {
        true
    }

    fn is_ready(&self) -> bool {
        true
    }

    fn maps(_: Self, _: JsonView, _: Self, _: Told) -> bool {
        true
    }

    fn map(&mut self, _payload: &Json) -> Vec<AgentStateEvent> {
        vec![AgentStateEvent::TurnStarted]
    }
}

#[test]
fn registered_token_receives_mapped_events() {
    let mut router = HookRouter::new();
    router.register("tok".to_string(), RestWhenOk);

    assert_eq!(
        router.route("tok", br#"{"ok":true}"#).unwrap(),
        1,
        "the mapped event count is returned"
    );
    assert_eq!(
        router.take_events("tok"),
        vec![AgentStateEvent::Idle { outcome: IdleOutcome::Succeeded }]
    );

    // Once the token is removed, a second registration is needed to route.
    router.deregister("tok");
    assert_eq!(router.route("tok", br#"{"ok":true}"#), Err(HookRouteError::UnknownToken));
}

#[test]
fn unknown_token_is_rejected() {
    let mut router: HookRouter<Silent> = HookRouter::new();
    assert_eq!(router.route("missing", br#"{}"#), Err(HookRouteError::UnknownToken));
}

#[test]
fn invalid_json_is_rejected() {
    let mut router = HookRouter::new();
    router.register("tok".to_string(), Silent);
    assert!(matches!(router.route("tok", b"not json"), Err(HookRouteError::BadRequest(_))));
}

#[test]
fn handler_returns_200_without_a_decision() {
    let mut router = HookRouter::new();
    router.register("tok".to_string(), TurnStarts);
    let outcome = router.route("tok", br#"{"hook_event_name":"UserPromptSubmit"}"#);
    assert_eq!(outcome, Ok(1));
    assert_eq!(hook_response(&outcome), (200, "{}".to_string()));
    assert_eq!(router.take_events("tok"), vec![AgentStateEvent::TurnStarted]);
    assert!(router.take_events("tok").is_empty());
}

#[test]
fn refusals_have_their_own_response() {
    assert_eq!(
        hook_response(&Err(HookRouteError::UnknownToken)),
        (404, "unknown agent hook token".to_string())
    );
    assert_eq!(
        hook_response(&Err(HookRouteError::Disabled)),
        (404, "unknown agent hook token".to_string())
    );
    let bad = HookRouteError::BadRequest("odd body".to_string());
    assert_eq!(hook_response(&Err(bad)), (400, "odd body".to_string()));
}

#[test]
fn deliveries_stay_with_their_token() {
    let mut router = HookRouter::new();
    router.register("one".to_string(), TurnStarts);
    router.register("two".to_string(), TurnStarts);
    assert_eq!(router.route("one", b"{}"), Ok(1));
    assert_eq!(router.route("one", b"{}"), Ok(1));
    assert!(router.take_events("two").is_empty());
    assert_eq!(router.take_events("one").len(), 2);
}

#[test]
fn a_new_registration_replaces_the_old_one() {
    let mut router = HookRouter::new();
    router.register("tok".to_string(), TurnStarts);
    assert_eq!(router.route("tok", b"{}"), Ok(1));
    router.register("tok".to_string(), TurnStarts);
    assert!(router.take_events("tok").is_empty());
}

#[test]
fn route_errors_have_messages() {
    assert!(!HookRouteError::Disabled.message().is_empty());
    assert!(!HookRouteError::UnknownToken.message().is_empty());
    assert!(HookRouteError::BadRequest("odd body".to_string()).message().contains("odd body"));
}

#[test]
fn a_router_is_ready_for_tokens_it_knows_and_others() {
    let mut router = HookRouter::new();
    router.register("tok".to_string(), Silent);
    assert!(router.is_ready("tok"));
    assert!(router.is_ready("other"));
}
