//! What the daemon watches and reloads, where an answer goes, and how a conversation starts.
use crate::catalog_watch;
use crate::catalog_watch::{Debounce, Sign};
use crate::chat;
use crate::chat::{ChatTask, ModelResponse};
use crate::client;
use crate::client::{FrameKind, Route};
use crate::ids;
use crate::json as tree;
use crate::model::MessageRole;
use crate::paths;
use crate::text;
use vstd::prelude::*;

verus! {

/// The directory itself is watched before those above it, and each of those before the one
/// above it.
pub proof fn law_nearest_place_comes_first(dir: Seq<char>)
    ensures
        ({
            let all = catalog_watch::places(dir);
            let path = paths::path_view(dir);
            let lead = if path.absolute {
                "/"@
            } else {
                Seq::empty()
            };
            &&& all.len() == path.parts.len() + 1
            &&& all[0] == dir
            &&& forall|i: int|
                1 <= i < all.len() ==> #[trigger] all[i] =~= lead + text::linked(
                    path.parts.take(path.parts.len() - i),
                    "/"@,
                )
        }),
{
    let all = catalog_watch::places(dir);
    let path = paths::path_view(dir);
    assert forall|i: int| 1 <= i < all.len() implies #[trigger] all[i] =~= (if path.absolute {
        "/"@
    } else {
        Seq::empty()
    }) + text::linked(path.parts.take(path.parts.len() - i), "/"@) by {
        assert(all[i] == catalog_watch::path_text(
            path.absolute,
            path.parts.take(path.parts.len() - 1 - (i - 1)),
        ));
    }
}

/// A file concerns a task exactly where its extension is that of a task, in any case, or
/// where it has none and may be a directory.
pub proof fn law_tasks_are_known_by_their_extension(path: Seq<char>, ext: Seq<char>)
    ensures
        paths::extension_of(path) is None ==> catalog_watch::concerns_task(path),
        paths::extension_of(path) == Some(ext) ==> (catalog_watch::concerns_task(path)
            <==> ext.len() == 2 && (ext[0] == 'm' || ext[0] == 'M') && (ext[1] == 'd' || ext[1]
            == 'D')),
{
    reveal_strlit("md");
    let low = text::ascii_lowered(ext);
    if paths::extension_of(path) == Some(ext) {
        if low == "md"@ {
            assert(low.len() == 2 && low[0] == 'm' && low[1] == 'd');
            assert(low[0] == text::ascii_lower(ext[0]) && low[1] == text::ascii_lower(ext[1]));
        }
        if ext.len() == 2 && (ext[0] == 'm' || ext[0] == 'M') && (ext[1] == 'd' || ext[1] == 'D') {
            assert(low[0] == 'm' && low[1] == 'd');
            assert(low =~= "md"@);
        }
    }
}

/// The catalog is reloaded by the quiet behind a change, and by nothing else; a watcher that
/// is gone reloads nothing ever again.
pub proof fn law_quiet_behind_a_change_reloads(before: Debounce, sign: Sign, later: Sign)
    ensures
        before != Debounce::Ended ==> before.next(Sign::Changed).reloads(Sign::Quiet),
        !before.reloads(Sign::Changed) && !before.reloads(Sign::Closed),
        !before.next(Sign::Quiet).reloads(Sign::Quiet),
        before.reloads(sign) ==> before == Debounce::Settling && sign == Sign::Quiet,
        before.next(Sign::Closed) == Debounce::Ended,
        Debounce::Ended.next(sign) == Debounce::Ended,
        !Debounce::Ended.reloads(sign),
        before.next(Sign::Closed).next(sign).reloads(later) == false,
{
}

/// An answer goes to the request that waits for it and nowhere where none does; a
/// notification goes to all, and a request of the other side nowhere.
pub proof fn law_frames_go_where_they_belong(waiting: Set<u64>, id: u64)
    ensures
        waiting.contains(id) ==> client::route_of(waiting, FrameKind::Response { id }) == (
        Route::Answer { id }),
        !waiting.contains(id) ==> client::route_of(waiting, FrameKind::Response { id })
            == Route::Drop,
        client::route_of(waiting, FrameKind::Notification) == Route::Push,
        client::route_of(waiting, FrameKind::Request) == Route::Drop,
{
}

/// A conversation starts with the instructions of the system and then a word of the user:
/// for a task the prompt of its skill, where there is one, and the task by its skill and
/// id; without a task the usual prompt and a greeting.
pub proof fn law_conversation_starts(task: ChatTask)
    ensures
        ({
            let alone = chat::seed(None);
            let with = chat::seed(Some(task));
            &&& alone.len() == 2 && with.len() == 2
            &&& alone[0].role == MessageRole::System && with[0].role == MessageRole::System
            &&& alone[1].role == MessageRole::User && with[1].role == MessageRole::User
            &&& alone[1].text == "Hello!"@
            &&& alone[0].text == chat::DEFAULT_PROMPT@
            &&& task.skill_prompt is Some ==> with[0].text == task.skill_prompt->0@
            &&& task.skill_prompt is None ==> with[0].text == chat::DEFAULT_PROMPT@
            &&& with[1].text == "Task: "@ + task.skill@ + " ("@ + task.id@ + ")"@
        }),
{
}

/// A final answer is shown as it is; a call of a tool is noted with its server, its name and
/// its arguments.
pub proof fn law_answer_is_shown(response: ModelResponse)
    ensures
        response matches ModelResponse::Final { text } ==> chat::shown(response) == text@,
        response matches ModelResponse::ToolCall { server, tool, arguments } ==> chat::shown(
            response,
        ) == "[tool call "@ + server@ + "."@ + tool@ + "("@ + tree::written(
            tree::value_of(arguments),
        ) + ") \u{2014} not available in chat yet]"@,
{
}

/// A conversation looks up the task whose id it was given, and none without an id.
pub proof fn law_task_is_sought_by_its_id(id: Seq<char>)
    ensures
        chat::task_sought(Some(id)) == ids::parsed_id(id),
        chat::task_sought(None) is None,
{
}

} // verus!
