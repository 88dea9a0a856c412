//! What callers of the agents can rely on: how a launch is observed, how a stream is read,
//! and what the server is asked.
use crate::agents::agent::{CommandSpec, LaunchError};
use crate::agent_hooks::HookInjection;
use crate::agents::claude;
use crate::agents::claude::hooks::ClaudeHookSource;
use crate::agents::claude::stream_json::ClaudeStreamJsonParser;
use crate::agents::manager;
use crate::agents::opencode::json::OpenCodeJsonlParser;
use crate::agents::opencode::observer;
use crate::agents::opencode::observer::{EventStream, Mapper, OpenCodeServer};
use crate::agents::opencode::server;
use crate::agents::opencode::server::Endpoint;
use crate::agents::opencode::OpenCodeAgent;
use crate::agents::pi::json::PiJsonlParser;
use crate::agents::pi::{PiAgent, PiSource};
use crate::agents::plain_jsonl::PlainJsonlParser;
use crate::agents::state::{InputReply, StateSourceConfig};
use crate::agents::terms;
use crate::agents::vibe;
use crate::agents::vibe::stream::{VibeStreamParser, VibeStreamSource};
use crate::client;
use crate::client::{ClientError, WsAction, WsKind};
use crate::json as tree;
use crate::json::{Json, JsonView};
use crate::lines;
use crate::lines::LineReader;
use crate::model::{AgentStateEvent, EventView};
use crate::model;
use crate::text;
use vstd::prelude::*;

verus! {

/// Whether `chunk` is one complete line.
pub open spec fn one_line(chunk: Seq<u8>) -> bool {
    &&& chunk.len() > 0
    &&& chunk[chunk.len() - 1] == 10
    &&& forall|i: int| 0 <= i < chunk.len() - 1 ==> #[trigger] chunk[i] != 10
}

/// A reader takes the first complete line and then the rest; without a complete line it
/// waits.
pub proof fn law_lines_are_read_in_order<R: LineReader>(
    state: R::State,
    line: Seq<u8>,
    rest: Seq<u8>,
)
    requires
        one_line(line),
        !R::stopped(state),
    ensures
        lines::read_lines::<R>(state, line + rest) == lines::read_lines::<R>(
            R::step(state, text::chomped(lines::lossy_text(line))),
            rest,
        ),
        lines::read_lines::<R>(state, line.drop_last()) == (state, line.drop_last()),
{
    let all = line + rest;
    let at = line.len() - 1;
    assert forall|k: int| 0 <= k < at implies all[k] != 10 by {
        assert(all[k] == line[k]);
    }
    assert(all[at] == 10);
    lines::lemma_feed_at(all, at);
    assert(all.take(at + 1) =~= line);
    assert(all.skip(at + 1) =~= rest);
    let part = line.drop_last();
    assert forall|k: int| 0 <= k < at implies part[k] != 10 by {
        assert(part[k] == line[k]);
    }
    lines::lemma_feed_at(part, at);
}

proof fn lemma_nothing_left<R: LineReader>(state: R::State)
    ensures
        lines::read_lines::<R>(state, Seq::empty()) == (state, Seq::<u8>::empty()),
{
}

/// A line that comes whole is read at once by the parser of Vibe's stream.
pub proof fn law_vibe_reads_a_line(parser: &mut VibeStreamParser, chunk: &[u8])
    requires
        one_line(chunk@),
        old(parser).unread().len() == 0,
        call_ensures(VibeStreamParser::push, (parser, chunk), ()),
    ensures
        final(parser)@ == old(parser)@.on_line(text::chomped(lines::lossy_text(chunk@))),
        final(parser).unread().len() == 0,
{
    let none = Seq::<u8>::empty();
    assert(old(parser).unread() + chunk@ =~= chunk@ + none);
    law_lines_are_read_in_order::<VibeStreamParser>(old(parser)@, chunk@, none);
    lemma_nothing_left::<VibeStreamParser>(
        old(parser)@.on_line(text::chomped(lines::lossy_text(chunk@))),
    );
}

/// A line that comes whole is read at once by the parser of a `ClaudeAgent`'s stream.
pub proof fn law_claude_reads_a_line(parser: &mut ClaudeStreamJsonParser, chunk: &[u8])
    requires
        one_line(chunk@),
        old(parser).unread().len() == 0,
        call_ensures(ClaudeStreamJsonParser::push, (parser, chunk), ()),
    ensures
        final(parser)@ == old(parser)@.on_line(text::chomped(lines::lossy_text(chunk@))),
        final(parser).unread().len() == 0,
{
    let none = Seq::<u8>::empty();
    assert(old(parser).unread() + chunk@ =~= chunk@ + none);
    law_lines_are_read_in_order::<ClaudeStreamJsonParser>(old(parser)@, chunk@, none);
    lemma_nothing_left::<ClaudeStreamJsonParser>(
        old(parser)@.on_line(text::chomped(lines::lossy_text(chunk@))),
    );
}

/// A line that comes whole is read at once by the parser of opencode's rows.
pub proof fn law_opencode_reads_a_line(parser: &mut OpenCodeJsonlParser, chunk: &[u8])
    requires
        one_line(chunk@),
        old(parser).unread().len() == 0,
        call_ensures(OpenCodeJsonlParser::push, (parser, chunk), ()),
    ensures
        final(parser)@ == old(parser)@.on_line(text::chomped(lines::lossy_text(chunk@))),
        final(parser).unread().len() == 0,
{
    let none = Seq::<u8>::empty();
    assert(old(parser).unread() + chunk@ =~= chunk@ + none);
    law_lines_are_read_in_order::<OpenCodeJsonlParser>(old(parser)@, chunk@, none);
    lemma_nothing_left::<OpenCodeJsonlParser>(
        old(parser)@.on_line(text::chomped(lines::lossy_text(chunk@))),
    );
}

/// A line that comes whole is read at once by the parser of plain rows.
pub proof fn law_plain_reads_a_line(parser: &mut PlainJsonlParser, chunk: &[u8])
    requires
        one_line(chunk@),
        old(parser).unread().len() == 0,
        call_ensures(PlainJsonlParser::push, (parser, chunk), ()),
    ensures
        final(parser)@ == old(parser)@.on_line(text::chomped(lines::lossy_text(chunk@))),
        final(parser).unread().len() == 0,
{
    let none = Seq::<u8>::empty();
    assert(old(parser).unread() + chunk@ =~= chunk@ + none);
    law_lines_are_read_in_order::<PlainJsonlParser>(old(parser)@, chunk@, none);
    lemma_nothing_left::<PlainJsonlParser>(
        old(parser)@.on_line(text::chomped(lines::lossy_text(chunk@))),
    );
}

/// A line that comes whole is read at once by the parser of pi's stream, unless it waits for
/// the answer to a question.
pub proof fn law_pi_reads_a_line(parser: &mut PiJsonlParser, chunk: &[u8])
    requires
        one_line(chunk@),
        old(parser).unread().len() == 0,
        old(parser)@.question is None,
        call_ensures(PiJsonlParser::push, (parser, chunk), ()),
    ensures
        final(parser)@ == old(parser)@.on_line(text::chomped(lines::lossy_text(chunk@))),
        final(parser).unread().len() == 0,
{
    let none = Seq::<u8>::empty();
    assert(old(parser).unread() + chunk@ =~= chunk@ + none);
    law_lines_are_read_in_order::<PiJsonlParser>(old(parser)@, chunk@, none);
    lemma_nothing_left::<PiJsonlParser>(
        old(parser)@.on_line(text::chomped(lines::lossy_text(chunk@))),
    );
}

/// A session of a `ClaudeAgent` is observed by its rows where it is unattended, and by its
/// hooks where these are received and its launch has a token; any other only by its screen.
pub proof fn law_claude_is_observed(cfg: &StateSourceConfig, source: Option<ClaudeHookSource>)
    requires
        call_ensures(claude::hooks::state_source, (cfg,), source),
    ensures
        ({
            let hooked = cfg.hook_router && claude::hooks::launch_token(cfg.env@) is Some;
            &&& source is Some <==> cfg.headless || hooked
            &&& source is Some ==> source->0.stdout == cfg.headless && source->0.receiving
                == hooked
        }),
{
}

/// Vibe is observed where it is unattended and streams its rows, in the directory of its
/// launch.
pub proof fn law_vibe_is_observed(cfg: &StateSourceConfig, source: Option<VibeStreamSource>)
    requires
        call_ensures(vibe::stream::state_source, (cfg,), source),
    ensures
        ({
            let args = text::views(cfg.args@);
            &&& source is Some <==> cfg.headless && exists|i: int|
                0 <= i < args.len() - 1 && #[trigger] args[i] == "--output"@ && args[i + 1]
                    == "streaming"@
            &&& source is Some ==> (source->0.cwd is Some <==> cfg.cwd is Some)
            &&& source is Some && cfg.cwd is Some ==> source->0.cwd->0@ == cfg.cwd->0@
        }),
{
}

/// pi is observed over the protocol where it is unattended and speaks it, and by its session
/// file where it is at a terminal and its directory is known.
pub proof fn law_pi_is_observed(agent: &PiAgent, cfg: &StateSourceConfig, source: Option<PiSource>)
    requires
        call_ensures(PiAgent::state_source, (agent, cfg), source),
    ensures
        ({
            let args = text::views(cfg.args@);
            let speaks = exists|i: int|
                0 <= i < args.len() - 1 && #[trigger] args[i] == "--mode"@ && args[i + 1]
                    == "rpc"@;
            &&& cfg.headless && speaks ==> source is Some && source->0 is Rpc
            &&& cfg.headless && !speaks ==> source is None
            &&& !cfg.headless && cfg.cwd is Some ==> source is Some && source->0 is SessionFile
            &&& !cfg.headless && cfg.cwd is None ==> source is None
        }),
{
}

/// opencode is observed over its server, an unattended run only where its session is there.
pub proof fn law_opencode_is_observed(
    agent: &OpenCodeAgent,
    cfg: &StateSourceConfig,
    endpoint: &Option<Endpoint>,
    source: Option<OpenCodeServer>,
)
    requires
        call_ensures(OpenCodeAgent::state_source, (agent, cfg, endpoint), source),
    ensures
        source is Some <==> endpoint is Some && (!cfg.headless || cfg.managed_session),
        source is Some ==> source->0.endpoint@ == endpoint->0@,
{
}

/// A permission request is answered under the session and its own id, with the decision that
/// was made; any other reply is not sent.
pub proof fn law_permission_is_answered(
    session: &str,
    request: &str,
    reply: &InputReply,
    sent: Option<(String, String)>,
)
    requires
        call_ensures(observer::permission_reply, (session, request, reply), sent),
    ensures
        sent is Some <==> reply is Once || reply is Always || reply is Reject,
        sent is Some ==> {
            let word = if reply is Once {
                "once"@
            } else if reply is Always {
                "always"@
            } else {
                "reject"@
            };
            let (path, body) = sent->0;
            &&& path@ == "/api/session/"@ + server::encoded_text(session@) + "/permission/"@
                + server::encoded_text(request@) + "/reply"@
            &&& body@ == tree::written(
                JsonView::Object(seq![("decision"@, JsonView::Str(word))]),
            )
        },
{
}

/// A stream tells the events of the lines that its chunks complete, in the state that the
/// chunks before left, and remembers what is not complete.
pub proof fn law_stream_goes_on_where_it_was(
    stream: &mut EventStream,
    chunk: &[u8],
    mapper: &mut Mapper,
    read: (Vec<AgentStateEvent>, bool),
)
    requires
        call_ensures(EventStream::push, (stream, chunk, mapper), read),
    ensures
        final(stream).session@ == old(stream).session@,
        ({
            let all = old(stream).buffer@ + lines::lossy_text(chunk@);
            (forall|i: int| 0 <= i < all.len() ==> #[trigger] all[i] != '\n') ==> {
                &&& model::event_views(read.0@).len() == 0
                &&& !read.1
                &&& final(stream).buffer@ == all
                &&& final(mapper)@ == old(mapper)@
            }
        }),
{
    let all = old(stream).buffer@ + lines::lossy_text(chunk@);
    if forall|i: int| 0 <= i < all.len() ==> #[trigger] all[i] != '\n' {
        lemma_no_line(all);
    }
}

proof fn lemma_no_line(s: Seq<char>)
    requires
        forall|i: int| 0 <= i < s.len() ==> #[trigger] s[i] != '\n',
    ensures
        text::line_end(s) == s.len(),
    decreases s.len(),
{
    if s.len() > 0 {
        assert(s[0] != '\n');
        assert forall|i: int| 0 <= i < s.skip(1).len() implies #[trigger] s.skip(1)[i] != '\n' by {
            assert(s.skip(1)[i] == s[i + 1]);
        }
        lemma_no_line(s.skip(1));
    }
}

/// A look at a session's record ends the observation exactly where the record names one of
/// the three outcomes.
pub proof fn law_outcome_ends_the_observation(
    mapper: &mut Mapper,
    reply: &Json,
    read: (Vec<AgentStateEvent>, bool),
)
    requires
        call_ensures(Mapper::reconcile_session, (mapper, reply), read),
    ensures
        ({
            let outcome = terms::words(terms::inside(reply@, "data"@, "outcome"@));
            read.1 <==> outcome == "succeeded"@ || outcome == "failed"@ || outcome
                == "interrupted"@
        }),
{
    reveal_strlit("succeeded");
    reveal_strlit("failed");
    reveal_strlit("interrupted");
    let outcome = terms::inside(reply@, "data"@, "outcome"@);
    if let Some(JsonView::Str(said)) = outcome {
        assert(tree::str_of(outcome) == Some(said));
    } else {
        assert(tree::str_of(outcome) is None);
        assert(terms::words(outcome).len() == 0);
    }
}

/// An observed session is told by its id before anything else of it; without a session
/// nothing is observed.
pub proof fn law_observed_session_is_told_first(
    source: &OpenCodeServer,
    session: &Option<String>,
    seed: Option<AgentStateEvent>,
)
    requires
        call_ensures(OpenCodeServer::start, (source, session), seed),
    ensures
        seed is Some <==> session is Some,
        session is Some ==> seed->0@ == (EventView::Session {
            session_id: Some(session->0@),
            title: None,
            model: None,
        }),
{
}

/// The arguments of a launch, those of its hooks first.
pub open spec fn all_args(planned: CommandSpec, injection: Option<HookInjection>) -> Seq<Seq<char>> {
    match injection {
        Some(hooks) => text::views(hooks.args@) + text::views(planned.args@),
        None => text::views(planned.args@),
    }
}

/// Whether no argument is longer than 120 KiB.
pub open spec fn all_fit(args: Seq<Seq<char>>) -> bool {
    forall|i: int|
        0 <= i < args.len() ==> vstd::utf8::encode_utf8(#[trigger] args[i]).len() <= 122880
}

/// A launch is refused exactly where one of its arguments, those of its hooks counted, is
/// too long; else it is what was planned, with its hooks.
pub proof fn law_launch_is_measured(
    planned: CommandSpec,
    injection: Option<HookInjection>,
    plan: Result<CommandSpec, LaunchError>,
)
    requires
        call_ensures(manager::plan_launch, (planned, injection), plan),
    ensures
        plan is Ok <==> all_fit(all_args(planned, injection)),
        plan is Ok ==> plan->Ok_0@.args =~= all_args(planned, injection),
        plan is Ok ==> plan->Ok_0@.program == planned@.program,
        plan is Ok ==> plan->Ok_0@.cwd == planned@.cwd,
        plan is Ok ==> plan->Ok_0@.stdin_prompt == planned@.stdin_prompt,
        plan is Ok ==> plan->Ok_0@.stdin_eof == planned@.stdin_eof,
{
    let launch = manager::launch_of(planned@, injection);
    assert(launch.args =~= all_args(planned, injection));
    crate::agents::session_laws::law_longest_argument_decides(launch.args);
}

/// A WebSocket is asked for at its address, with the token in its header where there is one;
/// one under TLS is refused.
pub proof fn law_socket_is_asked_for(
    url: &str,
    token: Option<&str>,
    request: Result<(String, Option<String>), ClientError>,
)
    requires
        call_ensures(client::ws_request, (url, token), request),
    ensures
        request is Err <==> text::stands_at(url@, "wss://"@, 0),
        request is Err ==> request->Err_0 == ClientError::TlsNotEnabled,
        request is Ok ==> request->Ok_0.0@ == url@,
        request is Ok && token is Some ==> request->Ok_0.1 is Some && request->Ok_0.1->0@
            == "Bearer "@ + token->0@,
        request is Ok && token is None ==> request->Ok_0.1 is None,
{
}

/// Messages are decoded, a close ends the stream, and keep-alives are skipped.
pub proof fn law_socket_messages(kind: WsKind, action: WsAction)
    requires
        call_ensures(client::ws_action, (kind,), action),
    ensures
        kind == WsKind::Binary || kind == WsKind::Text ==> action == WsAction::Decode,
        kind == WsKind::Close ==> action == WsAction::End,
        kind == WsKind::Control ==> action == WsAction::Skip,
{
}

/// The server listens on the loopback alone, at the port that it is given; under a
/// supervisor its program stands behind the supervisor's own arguments.
pub proof fn law_server_listens_on_the_loopback(
    supervised: Option<&str>,
    port: u16,
    args: Vec<String>,
)
    requires
        call_ensures(server::serve_args, (supervised, port), args),
    ensures
        ({
            let all = text::views(args@);
            let at = if supervised is Some {
                3int
            } else {
                0
            };
            &&& all.len() == at + 5
            &&& all[at] == "serve"@
            &&& all[at + 1] == "--hostname"@
            &&& all[at + 2] == "127.0.0.1"@
            &&& all[at + 3] == "--port"@
            &&& all[at + 4] == text::decimal(port as nat)
            &&& supervised is Some ==> all[0] == "__agent-exec"@ && all[1] == "--"@ && all[2]
                == supervised->0@
        }),
{
}

} // verus!
