use favetto::agents::agent::{
    text_json, AgentCapabilities, AgentContext, CommandSpec, Invocation, RunOutput,
    SubmitStrategy,
};
use favetto::agents::state::StateSourceConfig;
use favetto::agents::vibe::session_index::{
    find_recent_session, find_session, find_session_in, index_keys, index_path, metadata_path,
    parse_index, read_json_bounded, read_meta_title, read_meta_usage, session_dir, sessions_dir,
    string_field, vibe_home, SessionStore, MAX_BYTES,
};
use favetto::agents::vibe::VibeAgent;
use favetto::config::AgentConfig;
use favetto::model::{Cost, IdleOutcome, Moment};

fn ctx(prompt: Option<&str>, provider: Option<&str>, model: Option<&str>) -> AgentContext {
    AgentContext {
        prompt: prompt.map(str::to_string),
        provider: provider.map(str::to_string),
        model: model.map(str::to_string),
        ..Default::default()
    }
}

fn agent() -> VibeAgent {
    VibeAgent::from_config("vibe", &AgentConfig::default())
}

fn capabilities() -> AgentCapabilities {
    agent().template.descriptor.capabilities
}

fn state_config(headless: bool, args: Vec<&str>) -> StateSourceConfig {
    StateSourceConfig {
        headless,
        args: args.into_iter().map(str::to_string).collect(),
        ..Default::default()
    }
}

fn interactive(prompt: Option<&str>, provider: Option<&str>, model: Option<&str>) -> CommandSpec {
    agent()
        .command(
            &Invocation::Interactive { prompt, provider, model },
            &ctx(prompt, provider, model),
        )
        .unwrap()
}

fn headless_spec(provider: Option<&str>, model: Option<&str>) -> CommandSpec {
    agent()
        .command(
            &Invocation::Headless { prompt: "do it", provider, model },
            &ctx(Some("do it"), provider, model),
        )
        .unwrap()
}

fn cost(amount: f64) -> Option<Cost> {
    Some(Cost::Reported(amount.to_bits()))
}

/// 2026-09-24T10:00:00+00:00.
const SINCE: Moment = Moment { seconds: 1_790_244_000, nanos: 0 };

/// A store with this index, and these records of sessions by directory.
fn store(index: &str, records: &[(&str, &str)]) -> SessionStore {
    let read = |records: &[(&str, &str)]| {
        records
            .iter()
            .map(|(dir, record)| (dir.to_string(), Some(record.as_bytes().to_vec())))
            .collect()
    };
    SessionStore {
        index: Some(index.as_bytes().to_vec()),
        indexed: read(records),
        listed: read(records),
    }
}

#[test]
fn vibe_capabilities_match_the_example_config() {
    let caps = capabilities();
    assert!(caps.interactive);
    assert!(caps.headless);
    assert!(caps.model_selection);
    assert!(caps.prompt_prefill);
    assert!(!caps.providers);
    assert!(!caps.resume);
    assert!(!caps.reports_session_id);
    assert!(caps.reports_state);
    assert!(!caps.permission_channel);
}

#[test]
fn vibe_interactive_prompt_is_prefilled_and_submitted() {
    let spec = interactive(Some("hi"), None, None);
    assert_eq!(spec.args, vec!["hi"]);
    assert!(matches!(spec.submit, SubmitStrategy::AfterSettle { .. }));
}

#[test]
fn vibe_interactive_model_uses_provider_and_model() {
    let spec = interactive(None, Some("mistral"), Some("large"));
    assert_eq!(spec.args, vec!["--provider", "mistral", "--model", "large"]);
}

#[test]
fn headless_paths_include_streaming_output() {
    let no_model = headless_spec(None, None);
    assert_eq!(no_model.args, vec!["-p", "do it", "--output", "streaming", "--auto-approve"]);

    let with_model = headless_spec(Some("mistral"), Some("large"));
    assert_eq!(
        with_model.args,
        vec![
            "-p",
            "--provider",
            "mistral",
            "--model",
            "large",
            "do it",
            "--output",
            "streaming",
            "--auto-approve"
        ]
    );
}

#[test]
fn headless_uses_a_state_source() {
    let spec = headless_spec(None, None);
    let args = spec.args.iter().map(|s| s.as_str()).collect();
    let source = agent().state_source(&state_config(true, args));
    assert!(source.is_some());
    assert_eq!(source.unwrap().label(), "vibe-streaming");
}

#[test]
fn interactive_has_no_state_source() {
    // The interactive TUI keeps the screen heuristic.
    assert!(agent().state_source(&state_config(false, vec![])).is_none());
    // A headless launch that is not streaming (a user override) does too.
    assert!(agent()
        .state_source(&state_config(true, vec!["-p", "{prompt}", "--auto-approve"]))
        .is_none());
}

#[test]
fn parse_output_summarizes_a_streaming_run() {
    let raw = [
        r#"{"id":"assistant-1","sessionId":"ses_vibe","turnId":"turn-1","type":"message","role":"assistant","content":[{"type":"text","text":"done"}]}"#,
        "\n",
        r#"{"type":"result","is_error":false,"result":"done","total_cost_usd":0.02,"usage":{"input_tokens":7,"output_tokens":3}}"#,
        "\n",
    ]
    .join("");
    let result = agent().parse_output(&raw, Some(0));
    assert_eq!(result.session_id.as_deref(), Some("ses_vibe"));
    match &result.output {
        RunOutput::Summary(summary) => {
            assert_eq!(summary.text, "done");
            assert_eq!(summary.outcome, Some(IdleOutcome::Succeeded));
            assert_eq!(summary.usage.input_tokens, 7);
            assert_eq!(summary.usage.output_tokens, 3);
            assert_eq!(summary.usage.cost_usd, cost(0.02));
        }
        RunOutput::Text(text) => panic!("not summarized: {text}"),
    }
    assert_eq!(result.raw, raw);
}

#[test]
fn parse_output_falls_back_to_raw_text() {
    let result = agent().parse_output("plain vibe output\n", Some(0));
    assert_eq!(result.output, RunOutput::Text("plain vibe output\n".to_string()));
    assert_eq!(result.output.text_form(), Some(text_json("plain vibe output\n")));
    assert!(result.session_id.is_none());
    assert_eq!(result.raw, "plain vibe output\n");
}

#[test]
fn session_title_reads_the_index() {
    let store = store(
        r#"{
            "session_20260924_100000_abcd": {
                "session_id": "ses_titled",
                "cwd": "/home/me/proj",
                "start_time": "2026-09-24T10:00:00+00:00",
                "mtime_ns": 1,
                "title": "Fix the bug"
            }
        }"#,
        &[],
    );
    let title = agent().session_title(&Some(store), "ses_titled");
    assert_eq!(title.as_deref(), Some("Fix the bug"));
    assert!(agent().has_session_titles());
    assert!(agent().session_title(&None, "ses_titled").is_none());
}

#[test]
fn find_recent_session_picks_the_matching_cwd_and_time() {
    let store = store(
        r#"{
            "session_20260924_100000_aaaa": {
                "session_id": "ses_old",
                "cwd": "/home/me/proj",
                "start_time": "2026-09-24T09:00:00+00:00",
                "mtime_ns": 1,
                "title": "Old"
            },
            "session_20260924_100500_bbbb": {
                "session_id": "ses_new",
                "cwd": "/home/me/proj",
                "start_time": "2026-09-24T10:00:05+00:00",
                "mtime_ns": 2,
                "title": "New"
            },
            "session_20260924_100600_cccc": {
                "session_id": "ses_other_cwd",
                "cwd": "/elsewhere",
                "start_time": "2026-09-24T10:00:06+00:00",
                "mtime_ns": 3,
                "title": "Other"
            }
        }"#,
        &[],
    );
    let found = find_recent_session(&store, "/home/me/proj", SINCE).unwrap();
    assert_eq!(found.id, "ses_new");
    assert_eq!(found.title.as_deref(), Some("New"));
}

#[test]
fn start_times_are_moments_of_utc() {
    let index = r#"{"k":{"session_id":"s","start_time":"2026-09-24T12:00:00.5+02:00"}}"#;
    let entries = parse_index(&Some(index.as_bytes().to_vec()));
    assert_eq!(entries.len(), 1);
    assert_eq!(
        entries[0].start_time,
        Some(Moment { seconds: SINCE.seconds, nanos: 500_000_000 })
    );
    assert_eq!(entries[0].key, "k");
    assert_eq!(index_keys(&Some(index.as_bytes().to_vec())), vec!["k"]);

    let odd = r#"{"k":{"session_id":"s","start_time":"yesterday"}}"#;
    assert_eq!(parse_index(&Some(odd.as_bytes().to_vec()))[0].start_time, None);
}

#[test]
fn find_recent_session_without_entries_returns_none() {
    let empty = SessionStore { index: None, indexed: Vec::new(), listed: Vec::new() };
    assert!(find_recent_session(&empty, "/home/me/proj", SINCE).is_none());
}

#[test]
fn find_session_in_reads_title_from_meta_when_index_title_is_null() {
    let key = "session_20260924_100000_dddd";
    let store = store(
        r#"{
            "session_20260924_100000_dddd": {
                "session_id": "ses_title",
                "cwd": "/p",
                "start_time": "2026-09-24T10:00:00+00:00",
                "mtime_ns": 1,
                "title": null
            }
        }"#,
        &[(key, r#"{"session_id":"ses_title","title":"Fix the bug"}"#)],
    );
    let found = find_session_in(&store, "ses_title").unwrap();
    assert_eq!(found.id, "ses_title");
    assert_eq!(found.title.as_deref(), Some("Fix the bug"));
    assert_eq!(read_meta_title(&store, key).as_deref(), Some("Fix the bug"));
}

#[test]
fn find_session_in_falls_back_to_meta_scan() {
    // Index is empty; the metadata scan must still find the session.
    let store = store(
        "{}",
        &[(
            "session_20260924_100000_eeee",
            r#"{"session_id":"ses_scan","title":"Recovered"}"#,
        )],
    );
    let found = find_session_in(&store, "ses_scan").unwrap();
    assert_eq!(found.id, "ses_scan");
    assert_eq!(found.title.as_deref(), Some("Recovered"));
    assert_eq!(
        session_dir("/v", &store, "ses_scan").as_deref(),
        Some("/v/logs/session/session_20260924_100000_eeee")
    );
    assert!(find_session(&None, "ses_scan").is_none());
}

#[test]
fn read_meta_usage_maps_stats() {
    let store = store(
        r#"{"session_20260924_100000_ffff": { "session_id": "ses_usage", "cwd": "/p", "start_time": "2026-09-24T10:00:00+00:00" }}"#,
        &[(
            "session_20260924_100000_ffff",
            r#"{"session_id":"ses_usage","title":null,"stats":{"session_prompt_tokens":11,"session_completion_tokens":22,"session_cached_tokens":33,"session_cost":0.5}}"#,
        )],
    );
    let usage = read_meta_usage(&store, "ses_usage").unwrap();
    assert_eq!(usage.input_tokens, 11);
    assert_eq!(usage.output_tokens, 22);
    assert_eq!(usage.cache_read_tokens, 33);
    assert_eq!(usage.cache_write_tokens, 0);
    assert_eq!(usage.cost_usd, cost(0.5));
}

#[test]
fn read_meta_usage_is_none_without_stats() {
    let store = store(
        r#"{"session_20260924_100000_9999": { "session_id": "ses_nostats", "cwd": "/p", "start_time": "2026-09-24T10:00:00+00:00" }}"#,
        &[(
            "session_20260924_100000_9999",
            r#"{"session_id":"ses_nostats","title":null}"#,
        )],
    );
    assert!(read_meta_usage(&store, "ses_nostats").is_none());
}

#[test]
fn missing_or_malformed_index_returns_none() {
    let missing = SessionStore { index: None, indexed: Vec::new(), listed: Vec::new() };
    assert!(find_recent_session(&missing, "/home/me/proj", SINCE).is_none());
    let malformed = store("{ not json", &[]);
    assert!(find_recent_session(&malformed, "/home/me/proj", SINCE).is_none());
    assert!(find_session_in(&malformed, "ses_missing").is_none());
}

#[test]
fn only_the_begin_of_a_file_is_read() {
    let padded = format!("{}{{}}", " ".repeat(MAX_BYTES - 2));
    assert!(read_json_bounded(&Some(padded.clone().into_bytes())).is_some());
    // What lies behind the limit does not count; what crosses it is cut.
    assert!(read_json_bounded(&Some(format!("{padded}!").into_bytes())).is_some());
    assert!(read_json_bounded(&Some(format!(" {padded}").into_bytes())).is_none());
    assert!(read_json_bounded(&None).is_none());
}

#[test]
fn the_store_has_its_places() {
    assert_eq!(sessions_dir("/v"), "/v/logs/session");
    assert_eq!(index_path("/v"), "/v/logs/session/.session_index.json");
    assert_eq!(metadata_path("/v", "k"), "/v/logs/session/k/meta.json");
    let value = favetto::json::parse(r#"{"a":" x ","b":" ","c":1}"#).unwrap();
    assert_eq!(string_field(&value, "a").as_deref(), Some("x"));
    assert!(string_field(&value, "b").is_none());
    assert!(string_field(&value, "c").is_none());
}

#[test]
fn a_launch_in_a_leap_second_counts_from_the_second_behind_it() {
    let since = Moment { seconds: SINCE.seconds - 1, nanos: 1_500_000_000 };
    let began = |time: &str| {
        store(
            &format!(r#"{{"k":{{"session_id":"s","cwd":"/p","title":"T","start_time":"{time}"}}}}"#),
            &[],
        )
    };
    assert!(find_recent_session(&began("2026-09-24T09:59:50.2Z"), "/p", since).is_none());
    assert!(find_recent_session(&began("2026-09-24T09:59:50.5Z"), "/p", since).is_some());

    let plain = Moment { seconds: SINCE.seconds - 1, nanos: 500_000_000 };
    assert!(find_recent_session(&began("2026-09-24T09:59:49.4Z"), "/p", plain).is_none());
    assert!(find_recent_session(&began("2026-09-24T09:59:49.5Z"), "/p", plain).is_some());
}

#[test]
fn the_configured_home_prevails() {
    assert_eq!(vibe_home(Some("/v"), Some("/home/me")).as_deref(), Some("/v"));
    assert_eq!(vibe_home(None, Some("/home/me")).as_deref(), Some("/home/me/.vibe"));
    assert_eq!(vibe_home(None, None), None);
}
