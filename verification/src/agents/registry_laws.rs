//! Which agent an entry asks for, what may be run as it, and what a finished run comes to.
use crate::agents::agent;
use crate::agents::agent::{ContextView, LaunchErrorView, OutputView};
use crate::agents::claude;
use crate::agents::opencode;
use crate::agents::product;
use crate::agents::registry;
use crate::agents::registry::{AgentKind, RegistryErrorView};
use crate::agents::screen_laws;
use crate::agents::terms;
use crate::agents::vibe;
use crate::config::ConfigView;
use crate::json as tree;
use crate::json::JsonView;
use crate::paths;
use crate::text;
use vstd::prelude::*;

verus! {

/// A type that an entry names decides what it is built as, whatever the entry is called; an
/// unknown type is built as nothing. Without a type the name decides, and any other name is
/// an agent of templates alone.
pub proof fn law_type_decides_before_the_name(name: Seq<char>, kind: Seq<char>)
    ensures
        registry::kind_for(name, Some("configurable"@)) == Some(AgentKind::Configurable),
        registry::kind_for(name, Some("opencode"@)) == Some(AgentKind::OpenCode),
        registry::kind_for(name, Some(product::command())) == Some(AgentKind::Claude),
        registry::kind_for(name, Some("pi"@)) == Some(AgentKind::Pi),
        registry::kind_for(name, Some("vibe"@)) == Some(AgentKind::Vibe),
        kind != "configurable"@ && kind != "opencode"@ && kind != product::command() && kind
            != "pi"@ && kind != "vibe"@ ==> registry::kind_for(name, Some(kind)) is None,
        registry::kind_for("opencode"@, None) == Some(AgentKind::OpenCode),
        registry::kind_for(product::command(), None) == Some(AgentKind::Claude),
        registry::kind_for("pi"@, None) == Some(AgentKind::Pi),
        registry::kind_for("vibe"@, None) == Some(AgentKind::Vibe),
        name != "opencode"@ && name != product::command() && name != "pi"@ && name != "vibe"@
            ==> registry::kind_for(name, None) == Some(AgentKind::Configurable),
{
    reveal_strlit("configurable");
    reveal_strlit("opencode");
    reveal_strlit("pi");
    reveal_strlit("vibe");
    assert("configurable"@.len() == 12 && "opencode"@.len() == 8 && product::command().len() == 6
        && "pi"@.len() == 2 && "vibe"@.len() == 4);
}

/// An agent has the name of its entry as its id, its command and its abilities from its
/// templates, and looks for its session under the key that they name; a built-in agent has
/// its own templates below those of its entry, any other those of its entry alone.
pub proof fn law_agent_is_built_from_its_entry(
    kind: AgentKind,
    name: Seq<char>,
    entry: ConfigView,
    available: bool,
)
    ensures
        ({
            let agent = registry::built(kind, name, entry, available);
            &&& agent.kind == kind
            &&& agent.descriptor.id == name
            &&& agent.descriptor.available == available
            &&& agent.descriptor.command == agent.config.command
            &&& agent.descriptor.capabilities == registry::abilities(kind, agent.config)
            &&& agent.probe == agent.config.session_id_json_key
            &&& kind is Configurable ==> agent.config == entry && agent.descriptor.name == name
            &&& !(kind is Configurable) && entry.headless_args is Some
                ==> agent.config.headless_args == entry.headless_args
            &&& !(kind is Configurable) && entry.run_args is Some ==> agent.config.run_args
                == entry.run_args
            &&& !(kind is Configurable) && entry.resume_args is Some ==> agent.config.resume_args
                == entry.resume_args
            &&& !(kind is Configurable) && entry.cwd is Some ==> agent.config.cwd == entry.cwd
            &&& !(kind is Configurable) && text::trimmed(entry.command).len() > 0
                ==> agent.config.command == entry.command
            &&& kind is OpenCode ==> agent.descriptor.name == "OpenCode"@
            &&& kind is Claude ==> agent.descriptor.name == product::title()
            &&& kind is Pi ==> agent.descriptor.name == "Pi"@
            &&& kind is Vibe ==> agent.descriptor.name == "Vibe"@
            &&& kind is OpenCode && text::trimmed(entry.command).len() == 0 ==> agent.config.command
                == "opencode"@
            &&& kind is Claude && text::trimmed(entry.command).len() == 0 ==> agent.config.command
                == product::command()
            &&& kind is Pi && text::trimmed(entry.command).len() == 0 ==> agent.config.command
                == "pi"@
            &&& kind is Vibe && text::trimmed(entry.command).len() == 0 ==> agent.config.command
                == "vibe"@
        }),
{
}

/// A command that names a place is run from there and looked for nowhere else; a bare name
/// is looked for in every directory of the search, in order; a blank one is not run.
pub proof fn law_command_is_looked_for(command: Seq<char>, dirs: Seq<Seq<char>>)
    ensures
        ({
            let name = text::trimmed(command);
            let path = paths::path_view(name);
            let found = registry::candidates(command, Some(dirs));
            let bare = path.parts.len() <= 1 && (!path.absolute || path.parts.len() == 0);
            &&& name.len() == 0 ==> found.len() == 0
            &&& name.len() > 0 && !bare ==> found =~= seq![name] && registry::candidates(
                command,
                None,
            ) =~= seq![name]
            &&& name.len() > 0 && bare ==> {
                &&& found.len() == dirs.len()
                &&& forall|i: int|
                    0 <= i < dirs.len() ==> #[trigger] found[i] == paths::joined(dirs[i], name)
                &&& registry::candidates(command, None).len() == 0
            }
        }),
{
}

/// Only opencode and a `ClaudeAgent` are seen to wait by their own wording.
pub proof fn law_own_wording_tells_who_waits(shown: Seq<char>)
    ensures
        registry::waits(AgentKind::Pi, shown) is None,
        registry::waits(AgentKind::Vibe, shown) is None,
        registry::waits(AgentKind::Configurable, shown) is None,
        registry::waits(AgentKind::Claude, shown) is Some <==> {
            let lines = screen_laws::bottom(shown, 8);
            screen_laws::say(lines, "do you want to proceed"@) || (screen_laws::say(
                lines,
                "esc to cancel"@,
            ) && screen_laws::menu(lines))
        },
        registry::waits(AgentKind::OpenCode, shown) is Some <==> {
            let lines = screen_laws::bottom(shown, 6);
            (screen_laws::say(lines, "permission"@) || screen_laws::say(lines, "allow"@)
                || screen_laws::say(lines, "reject"@)) && exists|i: int, j: int|
                0 <= i < j < lines.len() && screen_laws::answer(#[trigger] lines[i])
                    && screen_laws::answer(#[trigger] lines[j])
        },
{
    screen_laws::law_numbered_menu_with_a_way_out_is_a_dialog(shown);
    screen_laws::law_two_answers_make_a_dialog(shown);
}

/// A run keeps its output and its exit code whatever it came to. One whose rows tell
/// nothing, no outcome, no text and no tool call, is kept as text; any other as its summary,
/// with the session that this names.
pub proof fn law_run_keeps_its_output(raw: Seq<char>, exit_code: Option<i32>)
    ensures
        ({
            let r = claude::parsed_output(raw, exit_code);
            let s = claude::stream_end(raw, exit_code).summary;
            &&& r.raw == raw
            &&& r.exit_code == exit_code
            &&& r.session_id == s.session_id
            &&& r.output == if s.outcome is None && s.text.len() == 0 && s.tool_calls.len() == 0 {
                OutputView::Text(raw)
            } else {
                OutputView::Summary(s)
            }
        }),
        ({
            let r = vibe::parsed_output(raw, exit_code);
            let s = vibe::stream_end(raw, exit_code).summary;
            &&& r.raw == raw
            &&& r.exit_code == exit_code
            &&& if s.outcome is None && s.text.len() == 0 && s.tool_calls.len() == 0 {
                r.output == OutputView::Text(raw) && r.session_id is None
            } else {
                r.output == OutputView::Summary(s) && r.session_id == s.session_id
            }
        }),
{
}

/// A run of opencode keeps its output and its exit code beside its summary.
pub proof fn law_opencode_run_is_summed_up(
    probe: Option<Seq<char>>,
    raw: Seq<char>,
    exit_code: Option<i32>,
)
    ensures
        ({
            let r = opencode::parsed_output(probe, raw, exit_code);
            let s = opencode::stream_end(probe, raw, exit_code).summary;
            &&& r.raw == raw
            &&& r.exit_code == exit_code
            &&& r.session_id == s.session_id
            &&& r.output == OutputView::Summary(s)
        }),
{
}

/// Text that is kept is an object with that text under `text`, and nothing else.
pub proof fn law_kept_text_is_an_object(raw: Seq<char>)
    ensures
        agent::text_tree(raw) matches JsonView::Object(fields) && fields.len() == 1 && fields[0]
            == ("text"@, JsonView::Str(raw)),
{
}

/// A session is created with a model exactly where both it and its provider are chosen.
pub proof fn law_model_needs_its_provider(ctx: ContextView)
    ensures
        opencode::chosen_model(ctx) is Some <==> ctx.model is Some && ctx.provider is Some,
        ctx.model is Some && ctx.provider is Some ==> opencode::chosen_model(ctx) == Some(
            (ctx.model->0, ctx.provider->0),
        ),
{
}

/// A listed session counts exactly where it is of the directory and was created no earlier;
/// one that names no moment counts as older than all.
pub proof fn law_listed_session_is_recent(session: JsonView, cwd: Seq<char>, since_ms: i64)
    ensures
        ({
            let created = match terms::inside(session, "time"@, "created"@) {
                Some(value) => value.as_i64(),
                None => None,
            };
            &&& created matches Some(ms) ==> (opencode::is_recent(session, cwd, since_ms)
                <==> terms::inside(session, "location"@, "directory"@) == Some(JsonView::Str(cwd))
                && ms >= since_ms)
            &&& created is None ==> (opencode::is_recent(session, cwd, since_ms) <==> terms::inside(
                session,
                "location"@,
                "directory"@,
            ) == Some(JsonView::Str(cwd)) && since_ms == i64::MIN)
        }),
{
    let dir = terms::inside(session, "location"@, "directory"@);
    if let Some(JsonView::Str(s)) = dir {
        assert(tree::str_of(dir) == Some(s));
    }
}

/// The turn of the newest such session is done exactly where the listing names its outcome,
/// and well exactly where that is success; without such a session nothing is known.
pub proof fn law_outcome_ends_the_turn(
    raw: Seq<char>,
    cwd: Seq<char>,
    since_ms: i64,
    response: JsonView,
    sessions: Seq<JsonView>,
)
    requires
        tree::parsed_text(raw) == Some(response),
        response.get("data"@) == Some(JsonView::Array(sessions)),
    ensures
        ({
            let done = opencode::turn_done_in(raw, cwd, since_ms);
            match opencode::newest_session(sessions, cwd, since_ms) {
                Some(session) => match session.get("outcome"@) {
                    Some(JsonView::Str(outcome)) => done == Some(outcome == "succeeded"@),
                    _ => done is None,
                },
                None => done is None,
            }
        }),
{
}

proof fn lemma_session_at(sessions: Seq<JsonView>, id: Seq<char>, from: int, at: int)
    requires
        0 <= from <= at <= sessions.len(),
        forall|i: int|
            from <= i < at ==> (#[trigger] sessions[i]).get("id"@) != Some(JsonView::Str(id)),
        at < sessions.len() ==> sessions[at].get("id"@) == Some(JsonView::Str(id)),
    ensures
        opencode::session_at(sessions, id, from) == at,
    decreases at - from,
{
    if from < at {
        assert(sessions[from].get("id"@) != Some(JsonView::Str(id)));
        if let Some(JsonView::Str(s)) = sessions[from].get("id"@) {
            assert(tree::str_of(sessions[from].get("id"@)) == Some(s));
        }
        lemma_session_at(sessions, id, from + 1, at);
    }
}

/// The title of a session is that of the first of its id in the listing, as it stands there;
/// a blank one is none.
pub proof fn law_first_listed_title(raw: Seq<char>, sessions: Seq<JsonView>, id: Seq<char>, at: int)
    requires
        tree::parsed_text(raw) == Some(JsonView::Array(sessions)),
        0 <= at <= sessions.len(),
        forall|i: int|
            0 <= i < at ==> (#[trigger] sessions[i]).get("id"@) != Some(JsonView::Str(id)),
        at < sessions.len() ==> sessions[at].get("id"@) == Some(JsonView::Str(id)),
    ensures
        at == sessions.len() ==> opencode::title_in(raw, id) is None,
        at < sessions.len() ==> opencode::title_in(raw, id) == match sessions[at].get("title"@) {
            Some(JsonView::Str(title)) => if text::trimmed(title).len() > 0 {
                Some(title)
            } else {
                None
            },
            _ => None,
        },
{
    lemma_session_at(sessions, id, 0, at);
}

/// A refused launch says which agent it is and what it lacks; one with too long an argument
/// says how long that is, and the limit.
pub proof fn law_refusal_says_what_is_missing(id: Seq<char>, program: Seq<char>, bytes: usize)
    ensures
        (LaunchErrorView::NoCommand { agent: id }).words() == "agent '"@ + id
            + "' has no command configured"@,
        text::stands_at((LaunchErrorView::NoRunArgs { agent: id }).words(), "agent '"@ + id, 0),
        text::stands_at((LaunchErrorView::NoHeadlessArgs { agent: id }).words(), "agent '"@ + id, 0),
        (LaunchErrorView::NoResumeArgs { agent: id }).words() == "agent '"@ + id
            + "' has no `resume_args`, so it cannot reattach to a session"@,
        text::stands_at(
            (LaunchErrorView::ArgumentTooLong { program, bytes }).words(),
            "refusing to launch "@ + program + ": an argument is "@ + text::decimal(bytes as nat)
                + " bytes, over the "@ + text::decimal(122880),
            0,
        ),
{
    let a = "agent '"@ + id;
    let r = (LaunchErrorView::NoRunArgs { agent: id }).words();
    let h = (LaunchErrorView::NoHeadlessArgs { agent: id }).words();
    assert(r.subrange(0, a.len() as int) =~= a);
    assert(h.subrange(0, a.len() as int) =~= a);
    let l = "refusing to launch "@ + program + ": an argument is "@ + text::decimal(bytes as nat)
        + " bytes, over the "@ + text::decimal(122880);
    let t = (LaunchErrorView::ArgumentTooLong { program, bytes }).words();
    assert(t.subrange(0, l.len() as int) =~= l);
}

/// An agent that cannot be had is named, with what it asks for where that is unknown, and
/// with the command that was not found where it is not installed.
pub proof fn law_missing_agent_is_named(id: Seq<char>, other: Seq<char>)
    ensures
        text::stands_at(
            (RegistryErrorView::UnknownType { agent: id, kind: other }).words(),
            "agent '"@ + id + "': unknown type '"@ + other + "'"@,
            0,
        ),
        (RegistryErrorView::NotConfigured { agent: id }).words() == "agent '"@ + id
            + "' is not configured under [agents.*]"@,
        (RegistryErrorView::NotInstalled { agent: id, command: other }).words() == "agent '"@ + id
            + "' is not installed (command '"@ + other + "' not found on PATH)"@,
{
    reveal_strlit("'");
    reveal_strlit("' (known types: opencode, ");
    let l = "agent '"@ + id + "': unknown type '"@ + other + "'"@;
    let t = (RegistryErrorView::UnknownType { agent: id, kind: other }).words();
    assert("' (known types: opencode, "@[0] == '\'');
    assert(t.subrange(0, l.len() as int) =~= l);
}

} // verus!
