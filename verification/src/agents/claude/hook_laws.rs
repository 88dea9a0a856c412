//! What holds of every sequence of hook payloads.
use crate::agents::claude::hooks::{HookState, HookStep};
use crate::agents::claude::laws;
use crate::agents::product;
use crate::json::JsonView;
use crate::model::EventView;
use crate::text;
use vstd::prelude::*;

verus! {

/// What a new mapper becomes, and tells, over a sequence of payloads.
pub open spec fn mapped(payloads: Seq<JsonView>) -> HookStep
    decreases payloads.len(),
{
    if payloads.len() == 0 {
        HookStep { state: HookState::fresh(), told: Seq::empty() }
    } else {
        let before = mapped(payloads.drop_last());
        let step = before.state.on_payload(payloads.last());
        HookStep { state: step.state, told: before.told + step.told }
    }
}

/// How often a session was told to be at rest.
pub open spec fn rests_told(events: Seq<EventView>) -> nat
    decreases events.len(),
{
    if events.len() == 0 {
        0
    } else if events.last() is Idle {
        rests_told(events.drop_last()) + 1
    } else {
        rests_told(events.drop_last())
    }
}

proof fn lemma_counts(a: Seq<EventView>, b: Seq<EventView>)
    ensures
        rests_told(a + b) == rests_told(a) + rests_told(b),
        laws::sessions_told(a + b) == laws::sessions_told(a) + laws::sessions_told(b),
    decreases b.len(),
{
    if b.len() == 0 {
        assert(a + b == a);
    } else {
        lemma_counts(a, b.drop_last());
        assert((a + b).drop_last() == a + b.drop_last());
        assert((a + b).last() == b.last());
    }
}

proof fn lemma_one(event: EventView)
    ensures
        rests_told(seq![event]) == if event is Idle { 1nat } else { 0 },
        laws::sessions_told(seq![event]) == if event is Session { 1nat } else { 0 },
{
    assert(seq![event].drop_last() == Seq::<EventView>::empty());
    assert(rests_told(Seq::empty()) == 0);
    assert(laws::sessions_told(Seq::empty()) == 0);
}

proof fn lemma_event_counts(s: HookState, payload: JsonView)
    ensures
        rests_told(s.on_event(payload).told) == if !s.finished && s.on_event(
            payload,
        ).state.finished {
            1nat
        } else {
            0
        },
        s.finished ==> s.on_event(payload).state.finished,
        laws::sessions_told(s.on_event(payload).told) == 0,
        s.on_event(payload).state.announced == s.announced,
{
    let told = s.on_event(payload).told;
    assert(rests_told(Seq::<EventView>::empty()) == 0);
    assert(laws::sessions_told(Seq::<EventView>::empty()) == 0);
    if told.len() == 1 {
        lemma_one(told[0]);
        assert(told == seq![told[0]]);
    } else if told.len() == 2 {
        lemma_one(told[0]);
        lemma_one(told[1]);
        lemma_counts(seq![told[0]], seq![told[1]]);
        assert(told == seq![told[0]] + seq![told[1]]);
    } else {
        assert(told == Seq::<EventView>::empty());
    }
}

proof fn lemma_payload_counts(s: HookState, payload: JsonView)
    ensures
        rests_told(s.on_payload(payload).told) == if !s.finished && s.on_payload(
            payload,
        ).state.finished {
            1nat
        } else {
            0
        },
        s.finished ==> s.on_payload(payload).state.finished,
        laws::sessions_told(s.on_payload(payload).told) == if !s.announced && s.on_payload(
            payload,
        ).state.announced {
            1nat
        } else {
            0
        },
        s.announced ==> s.on_payload(payload).state.announced,
{
    let first = s.announce(payload);
    lemma_event_counts(first.state, payload);
    lemma_counts(first.told, first.state.on_event(payload).told);
    assert(rests_told(Seq::<EventView>::empty()) == 0);
    assert(laws::sessions_told(Seq::<EventView>::empty()) == 0);
    if first.told.len() == 1 {
        lemma_one(first.told[0]);
        assert(first.told == seq![first.told[0]]);
    }
}

/// A session is told to be at rest at most once, and announced at most once,
/// whatever is posted.
pub proof fn law_rest_and_session_are_told_once(payloads: Seq<JsonView>)
    ensures
        rests_told(mapped(payloads).told) <= 1,
        laws::sessions_told(mapped(payloads).told) <= 1,
        rests_told(mapped(payloads).told) == 1 <==> mapped(payloads).state.finished,
        laws::sessions_told(mapped(payloads).told) == 1 <==> mapped(payloads).state.announced,
    decreases payloads.len(),
{
    if payloads.len() > 0 {
        law_rest_and_session_are_told_once(payloads.drop_last());
        let before = mapped(payloads.drop_last());
        lemma_payload_counts(before.state, payloads.last());
        lemma_counts(before.told, before.state.on_payload(payloads.last()).told);
    }
}

/// Whether a request under this id was told.
pub open spec fn requested(events: Seq<EventView>, id: Seq<char>) -> bool {
    exists|i: int|
        0 <= i < events.len() && #[trigger] events[i] is InputRequested
            && events[i]->request.id == id
}

/// Whether every settled request was told before it was settled.
pub open spec fn settled_were_requested(events: Seq<EventView>) -> bool {
    forall|i: int|
        0 <= i < events.len() && #[trigger] events[i] is InputResolved ==> requested(
            events.take(i),
            events[i]->InputResolved_id,
        )
}

proof fn lemma_requested_before(a: Seq<EventView>, b: Seq<EventView>, id: Seq<char>)
    requires
        requested(a, id),
    ensures
        requested(a + b, id),
{
    let i = choose|i: int|
        0 <= i < a.len() && #[trigger] a[i] is InputRequested && a[i]->request.id == id;
    assert((a + b)[i] == a[i]);
}

/// A mapper settles only what it asked for: each request that is settled was
/// told before, and so was the one that waits.
pub proof fn law_settled_were_requested(payloads: Seq<JsonView>)
    ensures
        settled_were_requested(mapped(payloads).told),
        mapped(payloads).state.pending matches Some(id) ==> requested(mapped(payloads).told, id),
    decreases payloads.len(),
{
    if payloads.len() > 0 {
        let earlier = payloads.drop_last();
        law_settled_were_requested(earlier);
        let before = mapped(earlier);
        let payload = payloads.last();
        let first = before.state.announce(payload);
        let then = first.state.on_event(payload);
        let step = before.state.on_payload(payload);
        let all = before.told + step.told;
        assert(step.told == first.told + then.told);
        assert(first.state.pending == before.state.pending);
        assert forall|i: int| 0 <= i < all.len() && #[trigger] all[i] is InputResolved implies requested(
            all.take(i),
            all[i]->InputResolved_id,
        ) by {
            if i < before.told.len() {
                assert(all.take(i) == before.told.take(i));
                assert(all[i] == before.told[i]);
            } else {
                let k = i - before.told.len();
                assert(all[i] == step.told[k]);
                assert(before.state.pending == Some(all[i]->InputResolved_id));
                lemma_requested_before(before.told, step.told.take(k), all[i]->InputResolved_id);
                assert(all.take(i) == before.told + step.told.take(k));
            }
        }
        if let Some(id) = step.state.pending {
            if before.state.pending == Some(id) {
                lemma_requested_before(before.told, step.told, id);
            } else {
                let last = all.len() - 1;
                assert(then.told.len() == 1);
                assert(all[last] == then.told[0]);
                assert(all[last]->request.id == id);
            }
        }
    }
}

/// Whether `id` is that of the request with this number.
pub open spec fn request_number(id: Seq<char>, n: nat) -> bool {
    ||| id == product::command() + "-perm-"@ + text::decimal(n)
    ||| id == product::command() + "-input-"@ + text::decimal(n)
}

proof fn lemma_request_number(id: Seq<char>, m: nat, n: nat)
    requires
        request_number(id, m),
        request_number(id, n),
    ensures
        m == n,
{
    reveal_strlit("-perm-");
    reveal_strlit("-input-");
    let head = product::command().len() as int;
    if id == product::command() + "-perm-"@ + text::decimal(m) {
        assert(id[head + 1] == 'p');
        assert(id.skip(head + 6) == text::decimal(m));
    } else {
        assert(id[head + 1] == 'i');
        assert(id.skip(head + 7) == text::decimal(m));
    }
    if id == product::command() + "-perm-"@ + text::decimal(n) {
        assert(id[head + 1] == 'p');
        assert(id.skip(head + 6) == text::decimal(n));
    } else {
        assert(id[head + 1] == 'i');
        assert(id.skip(head + 7) == text::decimal(n));
    }
    text::lemma_decimal_injective(m, n);
}

/// A payload tells at most one request, under the next number; without one, the
/// numbers stay.
proof fn lemma_payload_requests(s: HookState, payload: JsonView)
    requires
        s.seq < u64::MAX,
    ensures
        s.seq <= s.on_payload(payload).state.seq <= s.seq + 1,
        forall|i: int|
            0 <= i < s.on_payload(payload).told.len() && #[trigger] s.on_payload(
                payload,
            ).told[i] is InputRequested ==> {
                &&& s.on_payload(payload).state.seq == s.seq + 1
                &&& request_number(s.on_payload(payload).told[i]->request.id, s.seq as nat + 1)
            },
        forall|i: int, j: int|
            0 <= i < j < s.on_payload(payload).told.len() ==> !(#[trigger] s.on_payload(
                payload,
            ).told[i] is InputRequested && #[trigger] s.on_payload(payload).told[j] is InputRequested),
{
    let first = s.announce(payload);
    let then = first.state.on_event(payload);
    let told = s.on_payload(payload).told;
    assert(told == first.told + then.told);
    assert forall|i: int| 0 <= i < told.len() && #[trigger] told[i] is InputRequested implies {
        &&& then.told.len() == 1 && i == first.told.len()
        &&& then.state.seq == s.seq + 1
        &&& request_number(told[i]->request.id, s.seq as nat + 1)
    } by {
        if i >= first.told.len() {
            assert(told[i] == then.told[i - first.told.len()]);
        } else {
            assert(told[i] == first.told[i]);
        }
    }
}

/// Over any sequence of payloads, no two requests of one mapper carry the same id.
pub proof fn law_requests_have_their_own_ids(payloads: Seq<JsonView>)
    requires
        payloads.len() <= u64::MAX,
    ensures
        mapped(payloads).state.seq <= payloads.len(),
        forall|i: int|
            0 <= i < mapped(payloads).told.len() && #[trigger] mapped(
                payloads,
            ).told[i] is InputRequested ==> exists|n: nat|
                n <= mapped(payloads).state.seq && #[trigger] request_number(
                    mapped(payloads).told[i]->request.id,
                    n,
                ),
        forall|i: int, j: int|
            0 <= i < j < mapped(payloads).told.len() && #[trigger] mapped(
                payloads,
            ).told[i] is InputRequested && #[trigger] mapped(payloads).told[j] is InputRequested
                ==> mapped(payloads).told[i]->request.id != mapped(payloads).told[j]->request.id,
    decreases payloads.len(),
{
    if payloads.len() > 0 {
        let earlier = payloads.drop_last();
        law_requests_have_their_own_ids(earlier);
        let before = mapped(earlier);
        let step = before.state.on_payload(payloads.last());
        let all = mapped(payloads).told;
        let count = before.told.len() as int;
        lemma_payload_requests(before.state, payloads.last());
        assert(all == before.told + step.told);
        assert forall|i: int| 0 <= i < all.len() && #[trigger] all[i] is InputRequested implies exists|
            n: nat,
        |
            n <= step.state.seq && #[trigger] request_number(all[i]->request.id, n) by {
            if i < count {
                assert(all[i] == before.told[i]);
                let n = choose|n: nat|
                    n <= before.state.seq && #[trigger] request_number(all[i]->request.id, n);
                assert(n <= step.state.seq && request_number(all[i]->request.id, n));
            } else {
                assert(all[i] == step.told[i - count]);
                assert(request_number(all[i]->request.id, before.state.seq as nat + 1));
            }
        }
        assert forall|i: int, j: int|
            0 <= i < j < all.len() && #[trigger] all[i] is InputRequested
                && #[trigger] all[j] is InputRequested implies all[i]->request.id
            != all[j]->request.id by {
            if j < count {
                assert(all[i] == before.told[i]);
                assert(all[j] == before.told[j]);
            } else {
                assert(all[j] == step.told[j - count]);
                if i < count {
                    assert(all[i] == before.told[i]);
                    let n = choose|n: nat|
                        n <= before.state.seq && #[trigger] request_number(all[i]->request.id, n);
                    if all[i]->request.id == all[j]->request.id {
                        lemma_request_number(all[j]->request.id, n, before.state.seq as nat + 1);
                    }
                } else {
                    assert(all[i] == step.told[i - count]);
                }
            }
        }
    }
}

/// A waiting permission request is settled by the next tool that starts, and by
/// the end of the turn.
pub proof fn law_permission_is_settled(s: HookState, payload: JsonView, id: Seq<char>)
    requires
        s.pending == Some(id),
        payload.text("hook_event_name"@) == "PreToolUse"@ || payload.text("hook_event_name"@)
            == "Stop"@,
    ensures
        s.on_payload(payload).told.contains(EventView::InputResolved { id }),
        s.on_payload(payload).state.pending is None,
{
    assert("Stop"@.len() == 4 && "PreToolUse"@.len() == 10 && "PostToolUse"@.len() == 11
        && "Notification"@.len() == 12 && "UserPromptSubmit"@.len() == 16
        && "PermissionRequest"@.len() == 17 && "PostToolUseFailure"@.len() == 18) by {
        reveal_strlit("Stop");
        reveal_strlit("PreToolUse");
        reveal_strlit("PostToolUse");
        reveal_strlit("Notification");
        reveal_strlit("UserPromptSubmit");
        reveal_strlit("PermissionRequest");
        reveal_strlit("PostToolUseFailure");
    }
    let first = s.announce(payload);
    let then = first.state.on_event(payload);
    let told = first.told + then.told;
    assert(first.state.settled().told == seq![EventView::InputResolved { id }]);
    assert(then.told[0] == EventView::InputResolved { id });
    assert(told[first.told.len() as int] == then.told[0]);
}

} // verus!
