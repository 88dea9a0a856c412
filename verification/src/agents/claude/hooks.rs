//! Hooks: what a launch is told to report, and what each payload means.
//!
//! The agent can post lifecycle events to an HTTP endpoint that a per-launch
//! `--settings` file names. Such sessions are observed only: the receiver never
//! returns a permission decision.
use crate::agent_hooks::{AgentHookLaunch, HookInjection, HookMap};
use crate::agents::product;
use crate::agents::product::{command_name, title_name};
use crate::agents::state::StateSourceConfig;
use crate::ids;
use crate::ids::new_id;
use crate::json;
use crate::json::{
    copied, copied_or_null, object_value, only_value, owned, read_str, single_value, string_value,
    value_to_string, Json, JsonView,
};
use crate::model;
use crate::model::{
    record, AgentStateEvent, AwaitingInputKind, EventView, IdleOutcome, InputRequest,
    InputRequestView,
};
use crate::paths;
use crate::paths::join;
use crate::table;
use crate::table::Table;
use crate::text;
use crate::text::{chars_of, push_text, str_eq, string_from, to_decimal};
use vstd::prelude::*;

verus! {

/// The variable that carries the hook URL, token included, of a launch.
pub const HOOK_URL_ENV: &'static str = "FAVETTO_AGENT_HOOK_URL";

/// The variable that carries the path of the settings file of a launch.
pub const HOOK_SETTINGS_ENV: &'static str = "FAVETTO_AGENT_HOOK_SETTINGS";

/// What a text is after its last `/`.
pub open spec fn last_segment(s: Seq<char>) -> Seq<char>
    decreases s.len(),
{
    if s.len() == 0 || s.last() == '/' {
        Seq::empty()
    } else {
        last_segment(s.drop_last()).push(s.last())
    }
}

/// The token in a hook URL: its last segment, where it is not empty.
pub fn token_from_url(url: &str) -> (token: Option<String>)
    ensures
        model::opt_text(token) == if last_segment(url@).len() > 0 {
            Some(last_segment(url@))
        } else {
            None
        },
{
    let v = chars_of(url);
    let mut from: usize = v.len();
    assert(v@.take(v@.len() as int) == v@);
    assert(v@.skip(v@.len() as int) == Seq::<char>::empty());
    assert(last_segment(v@.take(from as int)) + v@.skip(from as int) == last_segment(v@));
    while from > 0 && v[from - 1] != '/'
        invariant
            from <= v@.len(),
            last_segment(v@.take(from as int)) + v@.skip(from as int) == last_segment(v@),
        decreases from,
    {
        let ghost head = v@.take(from as int);
        assert(head.drop_last() == v@.take(from - 1));
        assert(last_segment(head.drop_last()).push(head.last()) + v@.skip(from as int)
            == last_segment(head.drop_last()) + v@.skip(from - 1));
        from -= 1;
    }
    assert(last_segment(v@.take(from as int)) == Seq::<char>::empty());
    assert(Seq::<char>::empty() + v@.skip(from as int) == v@.skip(from as int));
    let token = string_from(&v, from, v.len());
    assert(token@ == v@.skip(from as int));
    if token.as_str().is_empty() {
        None
    } else {
        Some(token)
    }
}

/// `s` without slashes at its end.
pub open spec fn without_slashes(s: Seq<char>) -> Seq<char>
    decreases s.len(),
{
    if s.len() > 0 && s.last() == '/' {
        without_slashes(s.drop_last())
    } else {
        s
    }
}

/// Strips slashes at the end.
fn strip_slashes(s: &str) -> (t: &str)
    ensures
        t@ == without_slashes(s@),
{
    let n: usize = s.unicode_len();
    let mut to: usize = n;
    assert(s@.take(n as int) == s@);
    while to > 0 && s.get_char(to - 1) == '/'
        invariant
            n == s@.len(),
            to <= n,
            without_slashes(s@.take(to as int)) == without_slashes(s@),
        decreases to,
    {
        assert(s@.take(to as int).drop_last() == s@.take(to - 1));
        to -= 1;
    }
    s.substring_char(0, to)
}

/// The hook URL of a launch with this token.
pub open spec fn hook_url(endpoint: Seq<char>, token: Seq<char>) -> Seq<char> {
    without_slashes(endpoint) + "/"@ + token
}

/// The settings file of a launch with this token.
pub open spec fn settings_path(dir: Seq<char>, token: Seq<char>) -> Seq<char> {
    paths::joined(dir, token + ".json"@)
}

/// What a launch with this token is given, so that it reports over hooks: the
/// path and the text of a settings file, arguments that name the file, and
/// variables by which the launch is recognized again.
pub fn injection(launch: &AgentHookLaunch, token: &str) -> (plan: (String, String, HookInjection))
    ensures
        plan.0@ == settings_path(launch.dir@, token@),
        plan.1@ == json::written(settings_doc(hook_url(launch.endpoint@, token@))),
        text::views(plan.2.args@) == seq!["--settings"@, settings_path(launch.dir@, token@)],
        plan.2.env@ == Map::<Seq<char>, Seq<char>>::empty().insert(
            HOOK_URL_ENV@,
            hook_url(launch.endpoint@, token@),
        ).insert(HOOK_SETTINGS_ENV@, settings_path(launch.dir@, token@)),
{
    let path = join(launch.dir.as_str(), token.to_owned().concat(".json").as_str());
    let url = strip_slashes(launch.endpoint.as_str()).to_owned().concat("/").concat(token);
    let body = settings_json(url.as_str());
    let mut env: Table<String> = Table::new();
    env.insert(HOOK_URL_ENV.to_owned(), url);
    env.insert(HOOK_SETTINGS_ENV.to_owned(), path.clone());
    let mut args: Vec<String> = Vec::new();
    assert(text::views(args@) == Seq::<Seq<char>>::empty());
    push_text(&mut args, "--settings".to_owned());
    push_text(&mut args, path.clone());
    assert(text::views(args@) == seq!["--settings"@, path@]);
    (path, body, HookInjection { args, env })
}

/// The injection of a launch under a new random token, with the path and the text
/// of the settings file that is to be written first.
pub fn new_injection(launch: &AgentHookLaunch) -> (plan: (String, String, HookInjection))
    ensures
        exists|token: Seq<char>|
            #[trigger] ids::id_form(token) && plan.0@ == settings_path(launch.dir@, token)
                && plan.1@ == json::written(settings_doc(hook_url(launch.endpoint@, token)))
                && text::views(plan.2.args@) == seq![
                "--settings"@,
                settings_path(launch.dir@, token),
            ] && plan.2.env@ == Map::<Seq<char>, Seq<char>>::empty().insert(
                HOOK_URL_ENV@,
                hook_url(launch.endpoint@, token),
            ).insert(HOOK_SETTINGS_ENV@, settings_path(launch.dir@, token)),
{
    let token = new_id();
    injection(launch, token.as_str())
}

proof fn lemma_last_segment(head: Seq<char>, token: Seq<char>)
    requires
        forall|i: int| 0 <= i < token.len() ==> token[i] != '/',
    ensures
        last_segment(head.push('/') + token) == token,
    decreases token.len(),
{
    let whole = head.push('/') + token;
    if token.len() == 0 {
        assert(whole.last() == '/');
    } else {
        assert(whole.drop_last() == head.push('/') + token.drop_last());
        lemma_last_segment(head, token.drop_last());
        assert(whole.last() == token.last());
        assert(token.drop_last().push(token.last()) == token);
    }
}

/// A launch is recognized by the address that it was given: the token in it is the
/// launch's own.
pub proof fn law_token_is_recovered(endpoint: Seq<char>, token: Seq<char>)
    requires
        ids::id_form(token),
    ensures
        last_segment(hook_url(endpoint, token)) == token,
        launch_token(
            Map::<Seq<char>, Seq<char>>::empty().insert(HOOK_URL_ENV@, hook_url(endpoint, token)),
        ) == Some(token),
{
    reveal_strlit("/");
    let head = without_slashes(endpoint);
    assert(head + "/"@ == head.push('/'));
    assert forall|i: int| 0 <= i < token.len() implies token[i] != '/' by {
        assert(ids::hyphen_at(i) ==> token[i] == '-');
    }
    lemma_last_segment(head, token);
}

/// A handler that posts to `url`.
pub open spec fn handlers(url: Seq<char>) -> JsonView {
    JsonView::Array(
        seq![JsonView::Object(
            seq![("type"@, JsonView::Str("http"@)), ("url"@, JsonView::Str(url))],
        )],
    )
}

/// The handlers of one hook.
pub open spec fn hook_entry(url: Seq<char>) -> JsonView {
    JsonView::Array(seq![JsonView::Object(seq![("hooks"@, handlers(url))])])
}

/// The handlers of the notification hook, which is limited to three kinds.
pub open spec fn notification_entry(url: Seq<char>) -> JsonView {
    JsonView::Array(
        seq![JsonView::Object(
            seq![
                ("hooks"@, handlers(url)),
                (
                    "matcher"@,
                    JsonView::Str("permission_prompt|idle_prompt|agent_needs_input"@),
                ),
            ],
        )],
    )
}

/// The settings document: every hook posts to `url`.
pub open spec fn settings_doc(url: Seq<char>) -> JsonView {
    JsonView::Object(
        seq![(
            "hooks"@,
            JsonView::Object(
                seq![
                    ("Notification"@, notification_entry(url)),
                    ("PermissionRequest"@, hook_entry(url)),
                    ("PostToolUse"@, hook_entry(url)),
                    ("PostToolUseFailure"@, hook_entry(url)),
                    ("PreToolUse"@, hook_entry(url)),
                    ("SessionEnd"@, hook_entry(url)),
                    ("Stop"@, hook_entry(url)),
                    ("StopFailure"@, hook_entry(url)),
                    ("SubagentStart"@, hook_entry(url)),
                    ("SubagentStop"@, hook_entry(url)),
                    ("UserPromptSubmit"@, hook_entry(url)),
                ],
            ),
        )],
    )
}

/// The hooks that a launch reports, in the order of their names.
pub open spec fn hook_names() -> Seq<Seq<char>> {
    seq![
        "Notification"@,
        "PermissionRequest"@,
        "PostToolUse"@,
        "PostToolUseFailure"@,
        "PreToolUse"@,
        "SessionEnd"@,
        "Stop"@,
        "StopFailure"@,
        "SubagentStart"@,
        "SubagentStop"@,
        "UserPromptSubmit"@,
    ]
}

proof fn lemma_hook_names_ascend()
    ensures
        text::ascending(hook_names()),
{
    reveal_strlit("Notification");
    reveal_strlit("PermissionRequest");
    reveal_strlit("PostToolUse");
    reveal_strlit("PostToolUseFailure");
    reveal_strlit("PreToolUse");
    reveal_strlit("SessionEnd");
    reveal_strlit("Stop");
    reveal_strlit("StopFailure");
    reveal_strlit("SubagentStart");
    reveal_strlit("SubagentStop");
    reveal_strlit("UserPromptSubmit");
    text::lemma_precedes_at("Notification"@, "PermissionRequest"@, 0);
    text::lemma_precedes_at("PermissionRequest"@, "PostToolUse"@, 1);
    text::lemma_precedes_at("PostToolUse"@, "PostToolUseFailure"@, 11);
    text::lemma_precedes_at("PostToolUseFailure"@, "PreToolUse"@, 1);
    text::lemma_precedes_at("PreToolUse"@, "SessionEnd"@, 0);
    text::lemma_precedes_at("SessionEnd"@, "Stop"@, 1);
    text::lemma_precedes_at("Stop"@, "StopFailure"@, 4);
    text::lemma_precedes_at("StopFailure"@, "SubagentStart"@, 1);
    text::lemma_precedes_at("SubagentStart"@, "SubagentStop"@, 10);
    text::lemma_precedes_at("SubagentStop"@, "UserPromptSubmit"@, 0);
}

fn handlers_value(url: &str) -> (value: serde_json::Value)
    ensures
        json::value_of(value) == handlers(url@),
{
    let mut fields: Vec<(String, serde_json::Value)> = Vec::new();
    fields.push(("type".to_owned(), string_value("http")));
    fields.push(("url".to_owned(), string_value(url)));
    proof {
        reveal_strlit("type");
        reveal_strlit("url");
        text::lemma_precedes_at("type"@, "url"@, 0);
    }
    let handler = object_value(fields);
    assert(json::value_of(handler)->Object_0 == seq![
        ("type"@, JsonView::Str("http"@)),
        ("url"@, JsonView::Str(url@)),
    ]);
    only_value(handler)
}

fn hook_value(url: &str) -> (value: serde_json::Value)
    ensures
        json::value_of(value) == hook_entry(url@),
{
    only_value(single_value("hooks", handlers_value(url)))
}

fn notification_value(url: &str) -> (value: serde_json::Value)
    ensures
        json::value_of(value) == notification_entry(url@),
{
    let mut fields: Vec<(String, serde_json::Value)> = Vec::new();
    fields.push(("hooks".to_owned(), handlers_value(url)));
    fields.push(
        ("matcher".to_owned(), string_value("permission_prompt|idle_prompt|agent_needs_input")),
    );
    proof {
        reveal_strlit("hooks");
        reveal_strlit("matcher");
        text::lemma_precedes_at("hooks"@, "matcher"@, 0);
    }
    let entry = object_value(fields);
    assert(json::value_of(entry)->Object_0 == notification_entry(
        url@,
    )->Array_0[0]->Object_0);
    only_value(entry)
}

/// The text of the settings document of a launch: every hook posts to `url`.
pub fn settings_json(url: &str) -> (body: String)
    ensures
        body@ == json::written(settings_doc(url@)),
{
    let mut hooks: Vec<(String, serde_json::Value)> = Vec::new();
    hooks.push(("Notification".to_owned(), notification_value(url)));
    hooks.push(("PermissionRequest".to_owned(), hook_value(url)));
    hooks.push(("PostToolUse".to_owned(), hook_value(url)));
    hooks.push(("PostToolUseFailure".to_owned(), hook_value(url)));
    hooks.push(("PreToolUse".to_owned(), hook_value(url)));
    hooks.push(("SessionEnd".to_owned(), hook_value(url)));
    hooks.push(("Stop".to_owned(), hook_value(url)));
    hooks.push(("StopFailure".to_owned(), hook_value(url)));
    hooks.push(("SubagentStart".to_owned(), hook_value(url)));
    hooks.push(("SubagentStop".to_owned(), hook_value(url)));
    hooks.push(("UserPromptSubmit".to_owned(), hook_value(url)));
    proof {
        lemma_hook_names_ascend();
        assert(hooks@.map_values(|f: (String, serde_json::Value)| f.0@) == hook_names());
        assert(hooks@.map_values(|f: (String, serde_json::Value)| (f.0@, json::value_of(f.1)))
            == settings_doc(url@)->Object_0[0].1->Object_0);
    }
    value_to_string(&single_value("hooks", object_value(hooks)))
}

/// What a session is observed by: its rows on stdout where it runs
/// unattended, and its hooks where its launch was given a token.
#[derive(Debug, PartialEq, Eq)]
pub struct ClaudeHookSource {
    /// Whether the daemon receives this session's hooks.
    pub receiving: bool,
    pub token: Option<String>,
    pub hook_url: Option<String>,
    pub settings_path: Option<String>,
    /// Whether the rows on stdout are read.
    pub stdout: bool,
}

/// The token of a launch with these variables.
pub open spec fn launch_token(env: Map<Seq<char>, Seq<char>>) -> Option<Seq<char>> {
    match table::lookup(env, HOOK_URL_ENV@) {
        Some(url) if last_segment(url).len() > 0 => Some(last_segment(url)),
        _ => None,
    }
}

impl ClaudeHookSource {
    pub fn new(cfg: &StateSourceConfig, stdout: bool) -> (source: ClaudeHookSource)
        ensures
            model::opt_text(source.token) == launch_token(cfg.env@),
            model::opt_text(source.hook_url) == table::lookup(cfg.env@, HOOK_URL_ENV@),
            model::opt_text(source.settings_path) == table::lookup(cfg.env@, HOOK_SETTINGS_ENV@),
            source.receiving == (cfg.hook_router && launch_token(cfg.env@) is Some),
            source.stdout == stdout,
    {
        let hook_url = match cfg.env.get(HOOK_URL_ENV) {
            Some(url) => Some(url.clone()),
            None => None,
        };
        let token = match &hook_url {
            Some(url) => token_from_url(url.as_str()),
            None => None,
        };
        let settings_path = match cfg.env.get(HOOK_SETTINGS_ENV) {
            Some(path) => Some(path.clone()),
            None => None,
        };
        let receiving = cfg.hook_router && token.is_some();
        ClaudeHookSource { receiving, token, hook_url, settings_path, stdout }
    }

    /// Whether the daemon receives this session's hooks.
    pub fn hooks_enabled(&self) -> (enabled: bool)
        ensures
            enabled == (self.receiving && self.token is Some),
    {
        self.receiving && self.token.is_some()
    }

    /// A stable label for diagnostics.
    pub fn label(&self) -> (label: String)
        ensures
            label@ == product::command() + if self.token is Some {
                "-hooks"@
            } else {
                "-stream-json"@
            },
    {
        command_name().concat(
            if self.token.is_some() {
                "-hooks"
            } else {
                "-stream-json"
            },
        )
    }
}

/// How a launch is observed.
///
/// An unattended run always has its rows on stdout read. A session at a terminal
/// is observed by its hooks alone; without them, by its screen.
pub fn state_source(cfg: &StateSourceConfig) -> (source: Option<ClaudeHookSource>)
    ensures
        source is Some <==> cfg.headless || (cfg.hook_router && launch_token(cfg.env@) is Some),
        source is Some ==> {
            &&& model::opt_text(source->0.token) == launch_token(cfg.env@)
            &&& model::opt_text(source->0.hook_url) == table::lookup(cfg.env@, HOOK_URL_ENV@)
            &&& model::opt_text(source->0.settings_path) == table::lookup(
                cfg.env@,
                HOOK_SETTINGS_ENV@,
            )
            &&& source->0.receiving == (cfg.hook_router && launch_token(cfg.env@) is Some)
            &&& source->0.stdout == cfg.headless
        },
{
    let source = ClaudeHookSource::new(cfg, cfg.headless);
    if cfg.headless || source.hooks_enabled() {
        Some(source)
    } else {
        None
    }
}

/// What a reply to an observed session is refused with: the dialog at the
/// terminal stays the user's to answer.
pub fn observe_only_refusal() -> (message: String)
    ensures
        message@ == product::command() + " session is observe-only; answer in the terminal"@,
{
    command_name().concat(" session is observe-only; answer in the terminal")
}

/// What a mapper remembers between two payloads.
pub struct HookState {
    /// The permission request that waits for its answer.
    pub pending: Option<Seq<char>>,
    /// The names of the tools and subagents that were started, by their ids.
    pub names: Map<Seq<char>, Seq<char>>,
    pub announced: bool,
    pub finished: bool,
    /// How many requests were numbered.
    pub seq: u64,
}

/// What a payload makes of a mapper, and what it tells.
pub struct HookStep {
    pub state: HookState,
    pub told: Seq<EventView>,
}

/// What the user is asked where a tool needs permission.
pub open spec fn permission_text(payload: JsonView) -> Seq<char> {
    product::title() + " requests permission to run "@ + match json::str_of(payload.get("tool_name"@)) {
        Some(tool) => tool,
        None => "a tool"@,
    }
}

/// The text of one suggestion.
pub open spec fn suggestion_text(suggestion: JsonView) -> Option<Seq<char>> {
    json::first_of(
        suggestion.as_str(),
        json::first_of(
            json::str_of(suggestion.get("label"@)),
            json::str_of(suggestion.get("behavior"@)),
        ),
    )
}

/// The texts of the suggestions from `from` on.
pub open spec fn suggested_from(suggestions: Seq<JsonView>, from: int) -> Seq<Seq<char>>
    decreases suggestions.len() - from,
{
    if from < 0 || from >= suggestions.len() {
        Seq::empty()
    } else {
        match suggestion_text(suggestions[from]) {
            Some(text) => seq![text] + suggested_from(suggestions, from + 1),
            None => suggested_from(suggestions, from + 1),
        }
    }
}

/// The answers that a payload suggests.
pub open spec fn suggested(payload: JsonView) -> Seq<Seq<char>> {
    match json::items_of(payload.get("permission_suggestions"@)) {
        Some(suggestions) => suggested_from(suggestions, 0),
        None => Seq::empty(),
    }
}

impl HookState {
    /// A mapper that has seen nothing.
    pub open spec fn fresh() -> HookState {
        HookState {
            pending: None,
            names: Map::empty(),
            announced: false,
            finished: false,
            seq: 0,
        }
    }

    pub open spec fn numbered(self) -> HookState {
        HookState { seq: (self.seq + 1) as u64, ..self }
    }

    /// A request for permission under a new id.
    pub open spec fn asking(self, message: Seq<char>, options: Seq<Seq<char>>) -> HookStep {
        let id = product::command() + "-perm-"@ + text::decimal((self.seq + 1) as nat);
        HookStep {
            state: HookState { pending: Some(id), ..self.numbered() },
            told: seq![
                EventView::InputRequested {
                    request: InputRequestView {
                        id,
                        kind: AwaitingInputKind::Permission,
                        message,
                        options,
                        allow_always: true,
                    },
                },
            ],
        }
    }

    /// The session is announced once, by the first payload that names it.
    pub open spec fn announce(self, payload: JsonView) -> HookStep {
        let id = payload.text("session_id"@);
        if self.announced || id.len() == 0 {
            HookStep { state: self, told: Seq::empty() }
        } else {
            HookStep {
                state: HookState { announced: true, ..self },
                told: seq![
                    EventView::Session {
                        session_id: Some(id),
                        title: json::str_of(payload.get("session_title"@)),
                        model: None,
                    },
                ],
            }
        }
    }

    /// The end of the session is told once.
    pub open spec fn at_rest(self, outcome: IdleOutcome) -> HookStep {
        if self.finished {
            HookStep { state: self, told: Seq::empty() }
        } else {
            HookStep {
                state: HookState { finished: true, ..self },
                told: seq![EventView::Idle { outcome }],
            }
        }
    }

    /// A waiting permission request is settled.
    pub open spec fn settled(self) -> HookStep {
        match self.pending {
            Some(id) => HookStep {
                state: HookState { pending: None, ..self },
                told: seq![EventView::InputResolved { id }],
            },
            None => HookStep { state: self, told: Seq::empty() },
        }
    }

    /// A tool or a subagent begins.
    pub open spec fn started(self, id: Seq<char>, name: Seq<char>, input: JsonView) -> HookStep {
        HookStep {
            state: HookState { names: self.names.insert(id, name), ..self },
            told: seq![EventView::ToolStarted { id, name, input }],
        }
    }

    /// The name under which `id` was started, or else what the payload calls it.
    pub open spec fn name_of(self, id: Seq<char>, payload_name: Seq<char>) -> Seq<char> {
        match table::lookup(self.names, id) {
            Some(name) => json::non_empty_or(name, payload_name),
            None => payload_name,
        }
    }

    pub open spec fn tool_end(self, payload: JsonView, ok: bool) -> EventView {
        EventView::ToolFinished {
            id: payload.text("tool_use_id"@),
            name: self.name_of(payload.text("tool_use_id"@), payload.text("tool_name"@)),
            ok,
            output: payload.get("tool_response"@),
        }
    }

    pub open spec fn on_notification(self, payload: JsonView) -> HookStep {
        let kind = payload.text("notification_type"@);
        let message = payload.text("message"@);
        if kind == "permission_prompt"@ {
            if self.pending is Some {
                HookStep { state: self, told: Seq::empty() }
            } else {
                self.asking(
                    json::non_empty_or(message, "Permission requested"@),
                    Seq::empty(),
                )
            }
        } else if kind == "agent_needs_input"@ {
            HookStep {
                state: self.numbered(),
                told: seq![
                    EventView::InputRequested {
                        request: InputRequestView {
                            id: product::command() + "-input-"@ + text::decimal((self.seq + 1) as nat),
                            kind: AwaitingInputKind::Other,
                            message: json::non_empty_or(message, "Agent needs input"@),
                            options: Seq::empty(),
                            allow_always: false,
                        },
                    },
                ],
            }
        } else {
            HookStep { state: self, told: Seq::empty() }
        }
    }

    /// What the event that the payload names makes of the mapper.
    pub open spec fn on_event(self, payload: JsonView) -> HookStep {
        let event = payload.text("hook_event_name"@);
        if event == "UserPromptSubmit"@ {
            HookStep { state: self, told: seq![EventView::TurnStarted] }
        } else if event == "PreToolUse"@ {
            let first = self.settled();
            let then = first.state.started(
                payload.text("tool_use_id"@),
                payload.text("tool_name"@),
                json::or_null(payload.get("tool_input"@)),
            );
            HookStep { state: then.state, told: first.told + then.told }
        } else if event == "PostToolUse"@ {
            HookStep { state: self, told: seq![self.tool_end(payload, true)] }
        } else if event == "PostToolUseFailure"@ {
            HookStep { state: self, told: seq![self.tool_end(payload, false)] }
        } else if event == "PermissionRequest"@ {
            self.asking(permission_text(payload), suggested(payload))
        } else if event == "Notification"@ {
            self.on_notification(payload)
        } else if event == "Stop"@ {
            let first = self.settled();
            let then = first.state.at_rest(IdleOutcome::Succeeded);
            HookStep { state: then.state, told: first.told + then.told }
        } else if event == "StopFailure"@ {
            self.at_rest(IdleOutcome::Failed)
        } else if event == "SubagentStart"@ {
            self.started(
                payload.text("agent_id"@),
                payload.text("agent_type"@),
                JsonView::Null,
            )
        } else if event == "SubagentStop"@ {
            let id = payload.text("agent_id"@);
            HookStep {
                state: self,
                told: seq![
                    EventView::ToolFinished {
                        id,
                        name: self.name_of(id, payload.text("agent_type"@)),
                        ok: true,
                        output: None,
                    },
                ],
            }
        } else if event == "SessionEnd"@ {
            self.at_rest(IdleOutcome::Interrupted)
        } else {
            HookStep { state: self, told: Seq::empty() }
        }
    }

    /// What a payload makes of the mapper.
    pub open spec fn on_payload(self, payload: JsonView) -> HookStep {
        let first = self.announce(payload);
        let then = first.state.on_event(payload);
        HookStep { state: then.state, told: first.told + then.told }
    }
}

/// Maps the hook payloads of one session to normalized events.
#[derive(Debug)]
pub struct HookMapper {
    pending_permission: Option<String>,
    tool_names: Table<String>,
    announced_session: bool,
    finished: bool,
    seq: u64,
}

impl View for HookMapper {
    type V = HookState;

    closed spec fn view(&self) -> HookState {
        HookState {
            pending: model::opt_text(self.pending_permission),
            names: self.tool_names@,
            announced: self.announced_session,
            finished: self.finished,
            seq: self.seq,
        }
    }
}

/// `message`, or `fallback` where it is empty.
pub fn default_message(message: String, fallback: &str) -> (text: String)
    ensures
        text@ == json::non_empty_or(message@, fallback@),
{
    if message.as_str().is_empty() {
        fallback.to_owned()
    } else {
        message
    }
}

/// What the user is asked where a tool needs permission.
pub fn permission_message(payload: &Json) -> (message: String)
    ensures
        message@ == permission_text(payload@),
{
    let tool = match read_str(payload.get("tool_name")) {
        Some(tool) => tool,
        None => "a tool",
    };
    title_name().concat(" requests permission to run ").concat(tool)
}

/// The answers that a payload suggests.
pub fn permission_options(payload: &Json) -> (options: Vec<String>)
    ensures
        text::views(options@) == suggested(payload@),
{
    let mut options: Vec<String> = Vec::new();
    assert(text::views(options@) == Seq::<Seq<char>>::empty());
    let field = payload.get("permission_suggestions");
    let suggestions = match field {
        Some(value) => value.as_array(),
        None => None,
    };
    if let Some(items) = suggestions {
        let ghost all = json::json_views(items@);
        let mut i: usize = 0;
        assert(text::views(options@) + suggested_from(all, 0) == suggested_from(all, 0));
        while i < items.len()
            invariant
                i <= items@.len(),
                all == json::json_views(items@),
                text::views(options@) + suggested_from(all, i as int) == suggested_from(all, 0),
            decreases items@.len() - i,
        {
            let suggestion = &items[i];
            assert(all[i as int] == suggestion@);
            let text = match suggestion.as_str() {
                Some(text) => Some(text),
                None => match read_str(suggestion.get("label")) {
                    Some(label) => Some(label),
                    None => read_str(suggestion.get("behavior")),
                },
            };
            let ghost before = text::views(options@);
            if let Some(text) = text {
                push_text(&mut options, text.to_owned());
                assert(before.push(text@) + suggested_from(all, i + 1) == before + (seq![text@]
                    + suggested_from(all, i + 1)));
            }
            i += 1;
        }
        assert(text::views(options@) + Seq::<Seq<char>>::empty() == text::views(options@));
    }
    options
}

impl HookMapper {
    /// A mapper that has seen nothing.
    pub fn new() -> (mapper: HookMapper)
        ensures
            mapper@ == HookState::fresh(),
    {
        HookMapper {
            pending_permission: None,
            tool_names: Table::new(),
            announced_session: false,
            finished: false,
            seq: 0,
        }
    }

    /// The number of the next request.
    pub fn next_seq(&mut self) -> (n: u64)
        requires
            old(self)@.seq < u64::MAX,
        ensures
            n == old(self)@.seq + 1,
            final(self)@ == old(self)@.numbered(),
    {
        self.seq = self.seq + 1;
        self.seq
    }

    fn ask(&mut self, message: String, options: Vec<String>, events: &mut Vec<AgentStateEvent>)
        requires
            old(self)@.seq < u64::MAX,
        ensures
            final(self)@ == old(self)@.asking(message@, text::views(options@)).state,
            model::event_views(final(events)@) == model::event_views(old(events)@)
                + old(self)@.asking(message@, text::views(options@)).told,
    {
        let n: u64 = self.next_seq();
        let id = command_name().concat("-perm-").concat(to_decimal(n).as_str());
        self.pending_permission = Some(id.clone());
        record(
            events,
            AgentStateEvent::InputRequested {
                request: InputRequest {
                    id,
                    kind: AwaitingInputKind::Permission,
                    message,
                    options,
                    allow_always: true,
                },
            },
        );
    }

    fn announce_session(&mut self, payload: &Json, events: &mut Vec<AgentStateEvent>)
        ensures
            final(self)@ == old(self)@.announce(payload@).state,
            model::event_views(final(events)@) == model::event_views(old(events)@)
                + old(self)@.announce(payload@).told,
    {
        if self.announced_session {
            return;
        }
        let session_id = payload.text("session_id");
        if session_id.is_empty() {
            return;
        }
        self.announced_session = true;
        record(
            events,
            AgentStateEvent::Session {
                session_id: Some(session_id.to_owned()),
                title: owned(read_str(payload.get("session_title"))),
                model: None,
            },
        );
    }

    fn settle(&mut self, events: &mut Vec<AgentStateEvent>)
        ensures
            final(self)@ == old(self)@.settled().state,
            model::event_views(final(events)@) == model::event_views(old(events)@)
                + old(self)@.settled().told,
    {
        if let Some(id) = self.pending_permission.take() {
            record(events, AgentStateEvent::InputResolved { id });
        }
    }

    fn start(&mut self, id: &str, name: &str, input: Json, events: &mut Vec<AgentStateEvent>)
        ensures
            final(self)@ == old(self)@.started(id@, name@, input@).state,
            model::event_views(final(events)@) == model::event_views(old(events)@)
                + old(self)@.started(id@, name@, input@).told,
    {
        self.tool_names.insert(id.to_owned(), name.to_owned());
        record(
            events,
            AgentStateEvent::ToolStarted { id: id.to_owned(), name: name.to_owned(), input },
        );
    }

    fn known_name(&self, id: &str, payload_name: &str) -> (name: String)
        ensures
            name@ == self@.name_of(id@, payload_name@),
    {
        match self.tool_names.get(id) {
            Some(name) if !name.as_str().is_empty() => name.clone(),
            _ => payload_name.to_owned(),
        }
    }

    fn tool_finished(&self, payload: &Json, ok: bool) -> (event: AgentStateEvent)
        ensures
            event@ == self@.tool_end(payload@, ok),
    {
        let id = payload.text("tool_use_id");
        AgentStateEvent::ToolFinished {
            id: id.to_owned(),
            name: self.known_name(id, payload.text("tool_name")),
            ok,
            output: copied(payload.get("tool_response")),
        }
    }

    fn idle(&mut self, outcome: IdleOutcome, events: &mut Vec<AgentStateEvent>)
        ensures
            final(self)@ == old(self)@.at_rest(outcome).state,
            model::event_views(final(events)@) == model::event_views(old(events)@)
                + old(self)@.at_rest(outcome).told,
    {
        if !self.finished {
            self.finished = true;
            record(events, AgentStateEvent::Idle { outcome });
        }
    }

    fn map_notification(&mut self, payload: &Json, events: &mut Vec<AgentStateEvent>)
        requires
            old(self)@.seq < u64::MAX,
        ensures
            final(self)@ == old(self)@.on_notification(payload@).state,
            model::event_views(final(events)@) == model::event_views(old(events)@)
                + old(self)@.on_notification(payload@).told,
    {
        let kind = payload.text("notification_type");
        let message = payload.text("message");
        if str_eq(kind, "permission_prompt") {
            if self.pending_permission.is_some() {
                return;
            }
            let options: Vec<String> = Vec::new();
            assert(text::views(options@) == Seq::<Seq<char>>::empty());
            let message = default_message(message.to_owned(), "Permission requested");
            self.ask(message, options, events);
        } else if str_eq(kind, "agent_needs_input") {
            let n: u64 = self.next_seq();
            let options: Vec<String> = Vec::new();
            assert(text::views(options@) == Seq::<Seq<char>>::empty());
            record(
                events,
                AgentStateEvent::InputRequested {
                    request: InputRequest {
                        id: command_name().concat("-input-").concat(to_decimal(n).as_str()),
                        kind: AwaitingInputKind::Other,
                        message: default_message(message.to_owned(), "Agent needs input"),
                        options,
                        allow_always: false,
                    },
                },
            );
        }
    }

    fn map_event(&mut self, payload: &Json, events: &mut Vec<AgentStateEvent>)
        requires
            old(self)@.seq < u64::MAX,
        ensures
            final(self)@ == old(self)@.on_event(payload@).state,
            model::event_views(final(events)@) == model::event_views(old(events)@)
                + old(self)@.on_event(payload@).told,
    {
        let event = payload.text("hook_event_name");
        if str_eq(event, "UserPromptSubmit") {
            record(events, AgentStateEvent::TurnStarted);
        } else if str_eq(event, "PreToolUse") {
            self.settle(events);
            self.start(
                payload.text("tool_use_id"),
                payload.text("tool_name"),
                copied_or_null(payload.get("tool_input")),
                events,
            );
        } else if str_eq(event, "PostToolUse") {
            let finished = self.tool_finished(payload, true);
            record(events, finished);
        } else if str_eq(event, "PostToolUseFailure") {
            let finished = self.tool_finished(payload, false);
            record(events, finished);
        } else if str_eq(event, "PermissionRequest") {
            self.ask(permission_message(payload), permission_options(payload), events);
        } else if str_eq(event, "Notification") {
            self.map_notification(payload, events);
        } else if str_eq(event, "Stop") {
            self.settle(events);
            self.idle(IdleOutcome::Succeeded, events);
        } else if str_eq(event, "StopFailure") {
            self.idle(IdleOutcome::Failed, events);
        } else if str_eq(event, "SubagentStart") {
            self.start(
                payload.text("agent_id"),
                payload.text("agent_type"),
                Json::Null,
                events,
            );
        } else if str_eq(event, "SubagentStop") {
            let id = payload.text("agent_id");
            let name = self.known_name(id, payload.text("agent_type"));
            record(
                events,
                AgentStateEvent::ToolFinished { id: id.to_owned(), name, ok: true, output: None },
            );
        } else if str_eq(event, "SessionEnd") {
            self.idle(IdleOutcome::Interrupted, events);
        }
    }
}

impl HookMap for HookMapper {
    open spec fn ready(&self) -> bool {
        self@.seq < u64::MAX
    }

    fn is_ready(&self) -> (ready: bool) {
        self.seq < u64::MAX
    }

    open spec fn maps(before: Self, payload: JsonView, after: Self, told: Seq<EventView>) -> bool {
        &&& after@ == before@.on_payload(payload).state
        &&& told == before@.on_payload(payload).told
    }

    /// What one payload tells.
    fn map(&mut self, payload: &Json) -> (events: Vec<AgentStateEvent>) {
        let mut events: Vec<AgentStateEvent> = Vec::new();
        assert(model::event_views(events@) == Seq::<EventView>::empty());
        self.announce_session(payload, &mut events);
        self.map_event(payload, &mut events);
        events
    }
}

} // verus!
