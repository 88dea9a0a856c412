//! How opencode's server is asked and waited for, and how its stream is read.
use crate::agents::opencode::observer;
use crate::agents::opencode::observer::MapperState;
use crate::agents::opencode::server;
use crate::agents::opencode::server::CreateError;
use crate::agents::state::InputReply;
use crate::agents::terms;
use crate::json::JsonView;
use crate::model::EventView;
use crate::text;
use vstd::prelude::*;

verus! {

/// The first pause is a quarter of a second; each one is twice the one before, until five
/// seconds.
pub proof fn law_pause_doubles(attempt: nat)
    ensures
        server::pause(0) == 250,
        server::pause(attempt + 1) == if 2 * server::pause(attempt) < 5000 {
            2 * server::pause(attempt)
        } else {
            5000
        },
{
    reveal_with_fuel(server::doubled, 2);
}

/// A request for a session names its directory, and the model with its provider exactly
/// where one is chosen.
pub proof fn law_session_is_asked_for(dir: Seq<char>, id: Seq<char>, provider: Seq<char>)
    ensures
        ({
            let location = ("location"@, JsonView::Object(seq![("directory"@, JsonView::Str(dir))]));
            let model = (
                "model"@,
                JsonView::Object(
                    seq![("id"@, JsonView::Str(id)), ("providerID"@, JsonView::Str(provider))],
                ),
            );
            &&& server::session_request(dir, None) == JsonView::Object(seq![location])
            &&& server::session_request(dir, Some((id, provider))) == JsonView::Object(
                seq![location, model],
            )
        }),
{
}

/// Any status from 200 up to 299 is a success, which is the session that the reply names; a
/// success without one is an error, and so is every other status, with the reply.
pub proof fn law_success_names_the_session(
    status: u16,
    reply: JsonView,
    shown: Seq<char>,
    id: Result<String, CreateError>,
)
    requires
        server::comes_to(status, reply, shown, id),
    ensures
        ({
            let named = terms::inside(reply, "data"@, "id"@);
            &&& (id is Ok) == (status / 100 == 2 && named is Some && named->0 is Str)
            &&& id is Ok ==> named == Some(JsonView::Str(id->Ok_0@))
            &&& (id is Err && status / 100 == 2) ==> id->Err_0 == CreateError::NoId
            &&& status / 100 != 2 ==> id->Err_0 is Refused && id->Err_0->status == status
                && id->Err_0->reply@ == shown
        }),
{
}

/// A byte that does not stand for itself is written as a percent sign and its two
/// hexadecimal digits.
pub proof fn law_percent_names_the_byte(b: u8)
    ensures
        server::unreserved(b) <==> (b == 45 || b == 46 || b == 95 || b == 126 || 48 <= b <= 57 || 65
            <= b <= 90 || 97 <= b <= 122),
        server::unreserved(b) ==> server::encoded_byte(b) =~= seq![b as char],
        !server::unreserved(b) ==> {
            let written = server::encoded_byte(b);
            &&& written.len() == 3
            &&& written[0] == '%'
            &&& nibble(written[1]) * 16 + nibble(written[2]) == b
        },
{
}

/// The number that an upper-case hexadecimal digit stands for.
pub open spec fn nibble(c: char) -> int {
    if '0' <= c && c <= '9' {
        c as int - 48
    } else {
        c as int - 55
    }
}

/// Only the three answers to a permission request are decisions.
pub proof fn law_decisions_are_passed_on(reply: InputReply)
    ensures
        reply is Once ==> observer::decision_of(reply) == Some("once"@),
        reply is Always ==> observer::decision_of(reply) == Some("always"@),
        reply is Reject ==> observer::decision_of(reply) == Some("reject"@),
        !(reply is Once || reply is Always || reply is Reject) ==> observer::decision_of(
            reply,
        ) is None,
{
}

proof fn lemma_line(line: Seq<char>, rest: Seq<char>)
    requires
        forall|i: int| 0 <= i < line.len() ==> #[trigger] line[i] != '\n',
    ensures
        text::line_end(line + seq!['\n'] + rest) == line.len(),
    decreases line.len(),
{
    let all = line + seq!['\n'] + rest;
    if line.len() > 0 {
        assert(all[0] == line[0]);
        assert(all.skip(1) =~= line.skip(1) + seq!['\n'] + rest);
        assert forall|i: int| 0 <= i < line.skip(1).len() implies #[trigger] line.skip(1)[i]
            != '\n' by {
            assert(line.skip(1)[i] == line[i + 1]);
        }
        lemma_line(line.skip(1), rest);
    } else {
        assert(all[0] == '\n');
    }
}

/// A stream is read line by line: a line without an event is passed over; the events of one
/// are told before those of the lines behind it; and behind an event that tells the session
/// to be at rest nothing more is read.
pub proof fn law_stream_is_read_in_order(
    state: MapperState,
    session: Seq<char>,
    line: Seq<char>,
    rest: Seq<char>,
)
    requires
        forall|i: int| 0 <= i < line.len() ==> #[trigger] line[i] != '\n',
    ensures
        ({
            let read = observer::stream_read(state, session, line + seq!['\n'] + rest);
            match observer::sse_data(line) {
                None => read == observer::stream_read(state, session, rest),
                Some(value) => {
                    let step = state.on_event(value, session);
                    let later = observer::stream_read(step.state, session, rest);
                    if exists|i: int| 0 <= i < step.told.len() && #[trigger] step.told[i] is Idle {
                        &&& read.terminal
                        &&& read.rest == rest
                        &&& read.state == step.state
                        &&& read.told == observer::until_rest(step.told)
                    } else {
                        &&& read.told == step.told + later.told
                        &&& read.terminal == later.terminal
                        &&& read.rest == later.rest
                        &&& read.state == later.state
                    }
                },
            }
        }),
{
    let all = line + seq!['\n'] + rest;
    let at = line.len() as int;
    lemma_line(line, rest);
    assert(all.take(at) =~= line);
    assert(all.skip(at + 1) =~= rest);
}

/// What is told of a line that tells the session to be at rest ends with that, and holds
/// all that came before.
pub proof fn law_rest_ends_what_is_told(events: Seq<EventView>, at: int)
    requires
        0 <= at < events.len(),
        events[at] is Idle,
        forall|i: int| 0 <= i < at ==> !(#[trigger] events[i] is Idle),
    ensures
        observer::until_rest(events) =~= events.take(at + 1),
    decreases at,
{
    if at > 0 {
        let rest = events.skip(1);
        assert(!(events[0] is Idle));
        assert forall|i: int| 0 <= i < at - 1 implies !(#[trigger] rest[i] is Idle) by {
            assert(rest[i] == events[i + 1]);
        }
        law_rest_ends_what_is_told(rest, at - 1);
        assert(seq![events[0]] + rest.take(at) =~= events.take(at + 1));
    } else {
        assert(seq![events[0]] =~= events.take(1));
    }
}

} // verus!
