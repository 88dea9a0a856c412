//! What the built-in agents run, where their hooks report to, and how sessions are found.
use crate::agent_hooks::{AgentHookLaunch, HookInjection};
use crate::agents::agent;
use crate::agents::claude;
use crate::agents::claude::hooks;
use crate::agents::opencode;
use crate::agents::opencode::observer;
use crate::agents::opencode::observer::MapperState;
use crate::agents::pi;
use crate::agents::pi::json;
use crate::agents::pi::session_file;
use crate::agents::product;
use crate::agents::vibe;
use crate::agents::vibe::session_index;
use crate::json as tree;
use crate::json::JsonView;
use crate::model::{AgentUsage, Cost, Moment};
use crate::paths;
use crate::text;
use vstd::prelude::*;

verus! {

/// An unattended run of opencode is given its prompt, and with a model its rows are JSON; a
/// resumed one is given its session, and a prompt at a terminal is filled in and submitted.
pub proof fn law_opencode_templates()
    ensures
        ({
            let cfg = opencode::defaults();
            &&& cfg.command == "opencode"@
            &&& cfg.args.len() == 0
            &&& cfg.headless_args == Some(seq!["run"@, "--auto"@, "{prompt}"@])
            &&& cfg.run_args == Some(
                seq![
                    "run"@,
                    "--model"@,
                    "{provider}/{model}"@,
                    "--auto"@,
                    "--format"@,
                    "json"@,
                    "{prompt}"@,
                ],
            )
            &&& cfg.resume_args == Some(seq!["--session"@, "{session_id}"@])
            &&& cfg.interactive_model_args == Some(seq!["mini"@, "--model"@, "{provider}/{model}"@])
            &&& cfg.prompt_args == Some(seq!["--prompt"@, "{prompt}"@])
            &&& cfg.session_id_json_key == Some("sessionID"@)
            &&& cfg.submit_prompt == Some(true)
            &&& cfg.env.dom() =~= Set::empty()
            &&& cfg.cwd is None
        }),
{
}

/// An unattended run of pi speaks its protocol, with the model where one is chosen and the
/// session; a prompt at a terminal is its last argument.
pub proof fn law_pi_templates()
    ensures
        ({
            let cfg = pi::defaults();
            &&& cfg.command == "pi"@
            &&& cfg.args.len() == 0
            &&& cfg.headless_args == Some(seq!["--mode"@, "rpc"@, "--session-id"@, "{session_id}"@])
            &&& cfg.run_args == Some(
                seq![
                    "--mode"@,
                    "rpc"@,
                    "--provider"@,
                    "{provider}"@,
                    "--model"@,
                    "{model}"@,
                    "--session-id"@,
                    "{session_id}"@,
                ],
            )
            &&& cfg.resume_args == Some(seq!["--session"@, "{session_id}"@])
            &&& cfg.interactive_model_args == Some(
                seq!["--provider"@, "{provider}"@, "--model"@, "{model}"@],
            )
            &&& cfg.prompt_args == Some(seq!["{prompt}"@])
            &&& cfg.session_id_json_key is None
            &&& cfg.submit_prompt is None
            &&& cfg.env.dom() =~= Set::empty()
            &&& cfg.cwd is None
        }),
{
}

/// An unattended run of Vibe streams its rows and approves by itself; it has no session to
/// go back to.
pub proof fn law_vibe_templates()
    ensures
        ({
            let cfg = vibe::defaults();
            &&& cfg.command == "vibe"@
            &&& cfg.args.len() == 0
            &&& cfg.headless_args == Some(
                seq!["-p"@, "{prompt}"@, "--output"@, "streaming"@, "--auto-approve"@],
            )
            &&& cfg.run_args == Some(
                seq![
                    "-p"@,
                    "--provider"@,
                    "{provider}"@,
                    "--model"@,
                    "{model}"@,
                    "{prompt}"@,
                    "--output"@,
                    "streaming"@,
                    "--auto-approve"@,
                ],
            )
            &&& cfg.resume_args is None
            &&& cfg.interactive_model_args == Some(
                seq!["--provider"@, "{provider}"@, "--model"@, "{model}"@],
            )
            &&& cfg.prompt_args == Some(seq!["{prompt}"@])
            &&& cfg.session_id_json_key is None
            &&& cfg.submit_prompt == Some(true)
            &&& cfg.env.dom() =~= Set::empty()
            &&& cfg.cwd is None
        }),
{
}

/// An unattended run of a `ClaudeAgent` streams its rows, partial ones with them; its prompt
/// is the last argument.
pub proof fn law_claude_templates()
    ensures
        ({
            let cfg = claude::defaults();
            &&& cfg.command == product::command()
            &&& cfg.args.len() == 0
            &&& cfg.headless_args == Some(
                seq![
                    "-p"@,
                    "--output-format"@,
                    "stream-json"@,
                    "--verbose"@,
                    "--include-partial-messages"@,
                    "{prompt}"@,
                ],
            )
            &&& cfg.run_args == Some(
                seq![
                    "-p"@,
                    "--model"@,
                    "{model}"@,
                    "--output-format"@,
                    "stream-json"@,
                    "--verbose"@,
                    "--include-partial-messages"@,
                    "{prompt}"@,
                ],
            )
            &&& cfg.interactive_model_args == Some(seq!["--model"@, "{model}"@])
            &&& cfg.prompt_args == Some(seq!["{prompt}"@])
            &&& cfg.session_id_json_key == Some("session_id"@)
            &&& cfg.submit_prompt is None
            &&& cfg.env.dom() =~= Set::empty()
            &&& cfg.cwd is None
        }),
{
}

/// The one handler that posts to `url`.
pub open spec fn posts_to(url: Seq<char>) -> JsonView {
    JsonView::Array(
        seq![JsonView::Object(
            seq![("type"@, JsonView::Str("http"@)), ("url"@, JsonView::Str(url))],
        )],
    )
}

/// Every hook of the settings posts to the address, notices only of the three kinds that
/// matter; there are eleven of them, and every event that is mapped is one.
pub proof fn law_every_hook_posts(url: Seq<char>, i: int)
    requires
        0 <= i < 11,
    ensures
        ({
            let hooks = hooks::settings_doc(url)->Object_0[0].1->Object_0;
            let entry = hooks[i].1->Array_0[0]->Object_0;
            &&& hooks::settings_doc(url)->Object_0.len() == 1
            &&& hooks::settings_doc(url)->Object_0[0].0 == "hooks"@
            &&& hooks.len() == 11
            &&& hooks[i].1->Array_0.len() == 1
            &&& entry[0] == ("hooks"@, posts_to(url))
            &&& i == 0 ==> entry.len() == 2 && entry[1] == (
                "matcher"@,
                JsonView::Str("permission_prompt|idle_prompt|agent_needs_input"@),
            )
            &&& i > 0 ==> entry.len() == 1
            &&& hooks[0].0 == "Notification"@ && hooks[1].0 == "PermissionRequest"@
            &&& hooks[2].0 == "PostToolUse"@ && hooks[3].0 == "PostToolUseFailure"@
            &&& hooks[4].0 == "PreToolUse"@ && hooks[5].0 == "SessionEnd"@
            &&& hooks[6].0 == "Stop"@ && hooks[7].0 == "StopFailure"@
            &&& hooks[8].0 == "SubagentStart"@ && hooks[9].0 == "SubagentStop"@
            &&& hooks[10].0 == "UserPromptSubmit"@
        }),
{
}

/// A hook's address is the endpoint without slashes at its end, and behind one slash the
/// token; its settings are a file of that name.
pub proof fn law_hook_address(endpoint: Seq<char>, dir: Seq<char>, token: Seq<char>)
    requires
        endpoint.len() > 0 && endpoint[endpoint.len() - 1] != '/',
    ensures
        hooks::hook_url(endpoint, token) == endpoint + "/"@ + token,
        hooks::hook_url(endpoint.push('/'), token) == endpoint + "/"@ + token,
        hooks::settings_path(dir, token) == paths::joined(dir, token + ".json"@),
{
    reveal_with_fuel(hooks::without_slashes, 2);
    assert(endpoint.push('/').drop_last() =~= endpoint);
}

/// A launch is given its hook's address and its settings in variables of their own, and is
/// known again by the token at the end of the address.
pub proof fn law_launch_is_known_by_its_address(
    launch: &AgentHookLaunch,
    token: &str,
    plan: (String, String, HookInjection),
)
    requires
        call_ensures(hooks::injection, (launch, token), plan),
        crate::ids::id_form(token@),
    ensures
        ({
            let env = plan.2.env@;
            let url = hooks::hook_url(launch.endpoint@, token@);
            &&& env.dom() =~= set!["FAVETTO_AGENT_HOOK_URL"@, "FAVETTO_AGENT_HOOK_SETTINGS"@]
            &&& env["FAVETTO_AGENT_HOOK_URL"@] == url
            &&& env["FAVETTO_AGENT_HOOK_SETTINGS"@] == plan.0@
            &&& hooks::last_segment(url) == token@
            &&& text::views(plan.2.args@) =~= seq!["--settings"@, plan.0@]
            &&& plan.0@ == paths::joined(launch.dir@, token@ + ".json"@)
            &&& plan.1@ == tree::written(hooks::settings_doc(url))
        }),
{
    hooks::law_token_is_recovered(launch.endpoint@, token@);
    reveal_strlit("FAVETTO_AGENT_HOOK_URL");
    reveal_strlit("FAVETTO_AGENT_HOOK_SETTINGS");
    assert("FAVETTO_AGENT_HOOK_URL"@.len() != "FAVETTO_AGENT_HOOK_SETTINGS"@.len());
}

/// The id of a session is the string under the key that the agent's rows carry it by; a line
/// carries one only where it is an object.
pub proof fn law_session_id_is_read(line: Seq<char>, key: Seq<char>)
    ensures
        ({
            let content = text::trimmed(line);
            let id = match tree::parsed_text(content) {
                Some(value) => match value.get(key) {
                    Some(JsonView::Str(id)) => Some(id),
                    _ => None,
                },
                None => None,
            };
            agent::session_id_of_line(line, key) == if content.len() > 0 && content[0] == '{' {
                id
            } else {
                None
            }
        }),
{
    reveal_strlit("{");
    let content = text::trimmed(line);
    assert("{"@.len() == 1 && "{"@[0] == '{');
    if content.len() > 0 {
        assert(content.subrange(0, 1)[0] == content[0]);
        if content[0] == '{' {
            assert(content.subrange(0, 1) =~= "{"@);
        }
    }
}

/// Of several lines the first that carries an id names the session.
pub proof fn law_first_line_with_an_id(lines: Seq<Seq<char>>, key: Seq<char>, at: int)
    requires
        0 <= at <= lines.len(),
        forall|i: int| 0 <= i < at ==> agent::session_id_of_line(#[trigger] lines[i], key) is None,
        at < lines.len() ==> agent::session_id_of_line(lines[at], key) is Some,
    ensures
        agent::first_session_id(lines, key, 0) == if at < lines.len() {
            agent::session_id_of_line(lines[at], key)
        } else {
            None
        },
{
    lemma_first_id(lines, key, 0, at);
}

proof fn lemma_first_id(lines: Seq<Seq<char>>, key: Seq<char>, from: int, at: int)
    requires
        0 <= from <= at <= lines.len(),
        forall|i: int|
            from <= i < at ==> agent::session_id_of_line(#[trigger] lines[i], key) is None,
        at < lines.len() ==> agent::session_id_of_line(lines[at], key) is Some,
    ensures
        agent::first_session_id(lines, key, from) == if at < lines.len() {
            agent::session_id_of_line(lines[at], key)
        } else {
            None
        },
    decreases at - from,
{
    if from < at {
        assert(agent::session_id_of_line(lines[from], key) is None);
        lemma_first_id(lines, key, from + 1, at);
    }
}

/// The open permission requests that the server lists are told as if each had just been
/// asked, one after the other, so that none is told twice.
pub proof fn law_open_requests_are_told(
    state: MapperState,
    items: Seq<JsonView>,
    last: JsonView,
    reply: JsonView,
    fewer: JsonView,
)
    requires
        reply.get("data"@) == Some(JsonView::Array(items.push(last))),
        fewer.get("data"@) == Some(JsonView::Array(items)),
    ensures
        ({
            let before = observer::pending_in(state, fewer);
            let after = observer::pending_in(state, reply);
            match last.get("id"@) {
                Some(JsonView::Str(id)) if !before.state.outstanding.contains(id) => {
                    &&& after.told.len() == before.told.len() + 1
                    &&& after.told.take(before.told.len() as int) =~= before.told
                    &&& after.told.last() is InputRequested
                    &&& after.told.last()->InputRequested_request.id == id
                    &&& after.state.outstanding =~= before.state.outstanding.insert(id)
                },
                _ => after.told =~= before.told && after.state == before.state,
            }
        }),
{
    assert(items.push(last).drop_last() =~= items);
}

/// A reply without a list tells nothing.
pub proof fn law_no_open_requests(state: MapperState, reply: JsonView)
    requires
        !(reply.get("data"@) matches Some(JsonView::Array(_))),
    ensures
        observer::pending_in(state, reply).told.len() == 0,
        observer::pending_in(state, reply).state == state,
{
}

/// What is new in some totals is, counter by counter, what they have beyond what was told;
/// told together with that it makes up the totals again. A cost is told as what it has
/// beyond the one that was told.
pub proof fn law_new_usage_completes_the_totals(total: AgentUsage, told: AgentUsage)
    requires
        total.input_tokens >= told.input_tokens,
        total.output_tokens >= told.output_tokens,
        total.reasoning_tokens >= told.reasoning_tokens,
        total.cache_read_tokens >= told.cache_read_tokens,
        total.cache_write_tokens >= told.cache_write_tokens,
    ensures
        ({
            let new = json::delta(total, told);
            &&& new.input_tokens + told.input_tokens == total.input_tokens
            &&& new.output_tokens + told.output_tokens == total.output_tokens
            &&& new.reasoning_tokens + told.reasoning_tokens == total.reasoning_tokens
            &&& new.cache_read_tokens + told.cache_read_tokens == total.cache_read_tokens
            &&& new.cache_write_tokens + told.cache_write_tokens == total.cache_write_tokens
            &&& total.cost_usd is None ==> new.cost_usd is None
            &&& total.cost_usd is Some && told.cost_usd is None ==> new.cost_usd == Some(
                Cost::Excess(Box::new(total.cost_usd->0), None),
            )
            &&& total.cost_usd is Some && told.cost_usd is Some ==> new.cost_usd == Some(
                Cost::Excess(Box::new(total.cost_usd->0), Some(Box::new(told.cost_usd->0))),
            )
        }),
        json::counters_cover(total, told),
{
}

/// Totals of which any counter is below what was told are stale.
pub proof fn law_stale_totals(total: AgentUsage, told: AgentUsage)
    ensures
        json::counters_cover(total, told) <==> !(total.input_tokens < told.input_tokens
            || total.output_tokens < told.output_tokens || total.reasoning_tokens
            < told.reasoning_tokens || total.cache_read_tokens < told.cache_read_tokens
            || total.cache_write_tokens < told.cache_write_tokens),
{
}

/// pi's session files stand in its own home, and only without one in that of the user;
/// Vibe's among its logs.
pub proof fn law_session_files_have_their_place(dir: Seq<char>, home: Option<Seq<char>>)
    ensures
        session_file::root_in(Some(dir), home) == Some(
            paths::joined(paths::joined(dir, "agent"@), "sessions"@),
        ),
        session_file::root_in(None, Some(dir)) == Some(
            paths::joined(paths::joined(paths::joined(dir, ".pi"@), "agent"@), "sessions"@),
        ),
        session_file::root_in(None, None) is None,
        session_index::sessions_path(dir) == paths::joined(
            paths::joined(dir, "logs"@),
            "session"@,
        ),
{
}

/// Moments are ordered by their seconds and then by their nanoseconds; of any two, one is
/// not before the other, and of different ones only one.
pub proof fn law_moments_are_ordered(a: Moment, b: Moment)
    ensures
        a.at_or_after(b) || b.at_or_after(a),
        a.at_or_after(b) && b.at_or_after(a) ==> a == b,
        a.seconds > b.seconds ==> a.at_or_after(b) && !b.at_or_after(a),
        a.seconds == b.seconds && a.nanos > b.nanos ==> a.at_or_after(b) && !b.at_or_after(a),
        a.at_or_after(a),
{
}

} // verus!
