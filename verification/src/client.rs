//! A client of the daemon: where it connects, and how answers find their questions.
use crate::text;
use crate::text::starts_with;
use vstd::prelude::*;

verus! {

/// How long an answer may take, in milliseconds.
pub const REQUEST_TIMEOUT: u64 = 5000;

/// Where to connect: a socket on this machine, or a WebSocket elsewhere.
#[derive(Debug, PartialEq, Eq)]
pub enum Transport {
    Unix(String),
    Ws { url: String, token: Option<String> },
}

/// Why a request came to nothing.
#[derive(Debug, Clone, Copy, PartialEq, Eq, Structural)]
pub enum ClientError {
    /// The address asks for TLS.
    TlsNotEnabled,
    ConnectionClosed,
    TimedOut,
}

impl ClientError {
    /// The error in words.
    pub fn message(&self) -> (message: &'static str)
        ensures
            message@ == match *self {
                ClientError::TlsNotEnabled => "TLS WebSocket (wss://) is not enabled in M6; use ws:// or the Unix socket"@,
                ClientError::ConnectionClosed => "connection closed before response"@,
                ClientError::TimedOut => "request timed out"@,
            },
    {
        match self {
            ClientError::TlsNotEnabled => "TLS WebSocket (wss://) is not enabled in M6; use ws:// or the Unix socket",
            ClientError::ConnectionClosed => "connection closed before response",
            ClientError::TimedOut => "request timed out",
        }
    }
}

/// What a WebSocket is asked for: its address, and the header that carries the token
/// where there is one.
pub fn ws_request(url: &str, token: Option<&str>) -> (request: Result<
    (String, Option<String>),
    ClientError,
>)
    ensures
        match request {
            Ok((address, header)) => {
                &&& !text::stands_at(url@, "wss://"@, 0)
                &&& address@ == url@
                &&& crate::model::opt_text(header) == match token {
                    Some(token) => Some("Bearer "@ + token@),
                    None => None,
                }
            },
            Err(error) => error == ClientError::TlsNotEnabled && text::stands_at(
                url@,
                "wss://"@,
                0,
            ),
        },
{
    if starts_with(url, "wss://") {
        return Err(ClientError::TlsNotEnabled);
    }
    let header = match token {
        Some(token) => Some("Bearer ".to_owned().concat(token)),
        None => None,
    };
    Ok((url.to_owned(), header))
}

/// What came over a WebSocket.
#[derive(Debug, Clone, Copy, PartialEq, Eq, Structural)]
pub enum WsKind {
    Binary,
    Text,
    Close,
    /// Keep-alives.
    Control,
}

/// What is done with it.
#[derive(Debug, Clone, Copy, PartialEq, Eq, Structural)]
pub enum WsAction {
    /// Decode its bytes.
    Decode,
    /// End the stream.
    End,
    Skip,
}

/// What is done with what came over a WebSocket.
pub fn ws_action(kind: WsKind) -> (action: WsAction)
    ensures
        action == match kind {
            WsKind::Binary => WsAction::Decode,
            WsKind::Text => WsAction::Decode,
            WsKind::Close => WsAction::End,
            WsKind::Control => WsAction::Skip,
        },
{
    match kind {
        WsKind::Binary => WsAction::Decode,
        WsKind::Text => WsAction::Decode,
        WsKind::Close => WsAction::End,
        WsKind::Control => WsAction::Skip,
    }
}

/// A frame, as far as its way is concerned.
#[derive(Debug, Clone, Copy, PartialEq, Eq, Structural)]
pub enum FrameKind {
    Response { id: u64 },
    Notification,
    Request,
}

/// Where a frame goes.
#[derive(Debug, Clone, Copy, PartialEq, Eq, Structural)]
pub enum Route {
    /// To the request with this id.
    Answer { id: u64 },
    /// To all who listen.
    Push,
    Drop,
}

/// The requests that wait for their answers.
#[derive(Debug, PartialEq, Eq)]
pub struct Pending {
    next_id: u64,
    waiting: Vec<u64>,
}

/// [`Pending`] over mathematical values.
pub struct PendingView {
    pub next_id: u64,
    pub waiting: Set<u64>,
}

impl View for Pending {
    type V = PendingView;

    closed spec fn view(&self) -> PendingView {
        PendingView { next_id: self.next_id, waiting: self.waiting@.to_set() }
    }
}

/// Where a frame goes: an answer to the request that waits for it, a notification to
/// all, and anything else nowhere.
pub open spec fn route_of(waiting: Set<u64>, frame: FrameKind) -> Route {
    match frame {
        FrameKind::Response { id } => if waiting.contains(id) {
            Route::Answer { id }
        } else {
            Route::Drop
        },
        FrameKind::Notification => Route::Push,
        FrameKind::Request => Route::Drop,
    }
}

impl Pending {
    pub fn new() -> (pending: Pending)
        ensures
            pending@.next_id == 1,
            pending@.waiting == Set::<u64>::empty(),
    {
        let pending = Pending { next_id: 1, waiting: Vec::new() };
        assert(pending@.waiting =~= Set::<u64>::empty());
        pending
    }

    /// The id of a new request, which then waits for its answer.
    pub fn begin(&mut self) -> (id: u64)
        ensures
            id == old(self)@.next_id,
            final(self)@.next_id == if id == u64::MAX {
                0
            } else {
                (id + 1) as u64
            },
            final(self)@.waiting == old(self)@.waiting.insert(id),
    {
        let id: u64 = self.next_id;
        self.next_id = if id == u64::MAX {
            0
        } else {
            id + 1
        };
        let ghost before = self.waiting@;
        self.waiting.push(id);
        let ghost after = self.waiting@;
        assert forall|x: u64| #[trigger] after.to_set().contains(x) <==> before.to_set().insert(
            id,
        ).contains(x) by {
            assert(after[before.len() as int] == id);
            if before.contains(x) {
                let i = choose|i: int| 0 <= i < before.len() && before[i] == x;
                assert(after[i] == x);
            }
            if after.contains(x) {
                let i = choose|i: int| 0 <= i < after.len() && after[i] == x;
                if i < before.len() {
                    assert(before[i] == x);
                }
            }
        }
        assert(after.to_set() =~= before.to_set().insert(id));
        id
    }

    /// Where a frame goes. A request that is answered waits no longer.
    pub fn route(&mut self, frame: FrameKind) -> (way: Route)
        ensures
            way == route_of(old(self)@.waiting, frame),
            final(self)@.next_id == old(self)@.next_id,
            final(self)@.waiting == match way {
                Route::Answer { id } => old(self)@.waiting.remove(id),
                _ => old(self)@.waiting,
            },
    {
        match frame {
            FrameKind::Response { id } => {
                if self.forget(id) {
                    Route::Answer { id }
                } else {
                    Route::Drop
                }
            },
            FrameKind::Notification => Route::Push,
            FrameKind::Request => Route::Drop,
        }
    }

    fn forget(&mut self, id: u64) -> (found: bool)
        ensures
            found == old(self)@.waiting.contains(id),
            final(self)@.next_id == old(self)@.next_id,
            final(self)@.waiting == old(self)@.waiting.remove(id),
    {
        let mut kept: Vec<u64> = Vec::new();
        let mut found = false;
        let mut i: usize = 0;
        while i < self.waiting.len()
            invariant
                i <= self.waiting@.len(),
                *self == *old(self),
                found == exists|k: int| 0 <= k < i && #[trigger] self.waiting@[k] == id,
                forall|x: u64| #[trigger]
                    kept@.contains(x) <==> x != id && exists|k: int|
                        0 <= k < i && #[trigger] self.waiting@[k] == x,
            decreases self.waiting@.len() - i,
        {
            let waiting: u64 = self.waiting[i];
            let ghost before = kept@;
            if waiting == id {
                found = true;
            } else {
                kept.push(waiting);
                assert(kept@[before.len() as int] == waiting);
            }
            assert forall|x: u64| #[trigger] kept@.contains(x) <==> x != id && exists|k: int|
                0 <= k < i + 1 && #[trigger] self.waiting@[k] == x by {
                if before.contains(x) {
                    let j = choose|j: int| 0 <= j < before.len() && before[j] == x;
                    assert(kept@[j] == x);
                    let k = choose|k: int| 0 <= k < i && #[trigger] self.waiting@[k] == x;
                    assert(0 <= k < i + 1 && self.waiting@[k] == x);
                }
                if kept@.contains(x) && !before.contains(x) {
                    assert(x == waiting && self.waiting@[i as int] == x);
                }
                if x != id && exists|k: int| 0 <= k < i + 1 && #[trigger] self.waiting@[k] == x {
                    let k = choose|k: int| 0 <= k < i + 1 && #[trigger] self.waiting@[k] == x;
                    if k < i {
                        assert(before.contains(x));
                    }
                }
            }
            i += 1;
        }
        let ghost all = self.waiting@;
        assert(found == all.contains(id));
        assert(kept@.to_set() =~= all.to_set().remove(id)) by {
            assert forall|x: u64| kept@.to_set().contains(x) <==> all.to_set().remove(id).contains(
                x,
            ) by {
                if all.contains(x) {
                    let k = choose|k: int| 0 <= k < all.len() && all[k] == x;
                    assert(0 <= k < i && all[k] == x);
                }
                assert(kept@.contains(x) == kept@.to_set().contains(x));
            }
        }
        self.waiting = kept;
        found
    }
}

/// An answer goes to its request once: a second one with the same id goes nowhere.
pub proof fn law_answer_is_delivered_once(waiting: Set<u64>, id: u64)
    ensures
        route_of(waiting.remove(id), FrameKind::Response { id }) == Route::Drop,
        forall|other: u64|
            other != id ==> #[trigger] route_of(
                waiting.remove(id),
                FrameKind::Response { id: other },
            ) == route_of(waiting, FrameKind::Response { id: other }),
{
}

/// A request that was begun gets the answer with its id.
pub proof fn law_request_gets_its_answer(waiting: Set<u64>, id: u64)
    ensures
        route_of(waiting.insert(id), FrameKind::Response { id }) == (Route::Answer { id }),
{
}

} // verus!
