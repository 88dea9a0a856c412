//! The one `opencode serve` process that the daemon runs.
//!
//! It listens on a random loopback port behind a random password, and is restarted
//! with growing pauses. Where it cannot be started, or keeps dying, there is no
//! endpoint, and every consumer falls back to the output and the screen.
use crate::ids::new_password;
use crate::json;
use crate::json::{
    object_value, read_body, read_str, single_value, string_value, value_to_string, Json,
    JsonView,
};
use crate::model;
use crate::text;
use crate::text::{push_text, to_decimal};
use vstd::prelude::*;

verus! {

/// How often the health of a new server is asked for.
pub const HEALTH_ATTEMPTS: u32 = 80;

/// The pause between two such questions, in milliseconds.
pub const HEALTH_INTERVAL: u64 = 100;

/// The pause between two looks at the child, in milliseconds.
pub const WATCH_INTERVAL: u64 = 500;

/// How many restarts in a row may fail.
pub const MAX_RESTART_FAILURES: u32 = 5;

/// The longest pause before a restart, in milliseconds.
pub const BACKOFF_CAP: u64 = 5000;

/// A running server: its address, and the password that it asks for.
///
/// The password shows in no output: it is handed to children in a variable alone.
#[derive(PartialEq, Eq)]
pub struct Endpoint {
    pub url: String,
    pub password: String,
}

/// [`Endpoint`] over mathematical text.
pub struct EndpointView {
    pub url: Seq<char>,
    pub password: Seq<char>,
}

impl View for Endpoint {
    type V = EndpointView;

    open spec fn view(&self) -> EndpointView {
        EndpointView { url: self.url@, password: self.password@ }
    }
}

impl Clone for Endpoint {
    fn clone(&self) -> (copy: Endpoint)
        ensures
            copy@ == self@,
    {
        Endpoint { url: self.url.clone(), password: self.password.clone() }
    }
}

/// An optional endpoint over mathematical text.
pub open spec fn opt_endpoint(ep: Option<Endpoint>) -> Option<EndpointView> {
    match ep {
        Some(ep) => Some(ep@),
        None => None,
    }
}

/// A copy of an optional endpoint.
pub fn copy_endpoint(ep: &Option<Endpoint>) -> (copy: Option<Endpoint>)
    ensures
        opt_endpoint(copy) == opt_endpoint(*ep),
{
    match ep {
        Some(ep) => Some(ep.clone()),
        None => None,
    }
}

/// A text in quotes, as `Debug` writes it.
pub uninterp spec fn debug_form(s: Seq<char>) -> Seq<char>;

/// Writes a text with its `Debug` format through `format!`: in quotes, with what has
/// to be escaped escaped. The result is a function of the text.
#[verifier::external_body]
fn debug_quoted(s: &str) -> (quoted: String)
    ensures
        quoted@ == debug_form(s@),
{
    format!("{:?}", s)
}

impl Endpoint {
    /// The endpoint for diagnostics, without its password.
    pub fn debug_text(&self) -> (shown: String)
        ensures
            shown@ == "Endpoint { url: "@ + debug_form(self.url@) + ", password: \"<redacted>\" }"@,
    {
        "Endpoint { url: ".to_owned().concat(debug_quoted(self.url.as_str()).as_str()).concat(
            ", password: \"<redacted>\" }",
        )
    }

    /// The address of `path` on this server.
    pub fn request_url(&self, path: &str) -> (url: String)
        ensures
            url@ == self.url@ + path@,
    {
        self.url.clone().concat(path)
    }

    /// An endpoint on this port, under a new random password.
    pub fn on_port(port: u16) -> (ep: Endpoint)
        ensures
            ep.url@ == "http://127.0.0.1:"@ + text::decimal(port as nat),
            ep.password@.len() == 64,
            crate::ids::all_hex(ep.password@),
    {
        Endpoint {
            url: "http://127.0.0.1:".to_owned().concat(to_decimal(port as u64).as_str()),
            password: new_password(),
        }
    }
}

/// The arguments that start a server on this port. With a supervisor the process runs
/// under it, so that it dies with the daemon.
pub fn serve_args(supervised: Option<&str>, port: u16) -> (args: Vec<String>)
    ensures
        text::views(args@) == (match supervised {
            Some(program) => seq!["__agent-exec"@, "--"@, program@],
            None => Seq::empty(),
        }) + seq![
            "serve"@,
            "--hostname"@,
            "127.0.0.1"@,
            "--port"@,
            text::decimal(port as nat),
        ],
{
    let mut args: Vec<String> = Vec::new();
    assert(text::views(args@) == Seq::<Seq<char>>::empty());
    if let Some(program) = supervised {
        push_text(&mut args, "__agent-exec".to_owned());
        push_text(&mut args, "--".to_owned());
        push_text(&mut args, program.to_owned());
    }
    let ghost head = text::views(args@);
    push_text(&mut args, "serve".to_owned());
    push_text(&mut args, "--hostname".to_owned());
    push_text(&mut args, "127.0.0.1".to_owned());
    push_text(&mut args, "--port".to_owned());
    push_text(&mut args, to_decimal(port as u64));
    assert(text::views(args@) == head + seq![
        "serve"@,
        "--hostname"@,
        "127.0.0.1"@,
        "--port"@,
        text::decimal(port as nat),
    ]);
    args
}

/// `base` doubled `n` times.
pub open spec fn doubled(base: nat, n: nat) -> nat
    decreases n,
{
    if n == 0 {
        base
    } else {
        2 * doubled(base, (n - 1) as nat)
    }
}

/// The pause before an attempt, in milliseconds: 250, doubled with each attempt, at
/// most [`BACKOFF_CAP`].
pub open spec fn pause(attempt: nat) -> nat {
    if doubled(250, attempt) < BACKOFF_CAP {
        doubled(250, attempt)
    } else {
        BACKOFF_CAP as nat
    }
}

proof fn lemma_doubled(n: nat)
    ensures
        n >= 5 ==> doubled(250, n) >= 8000,
        doubled(250, 0) == 250,
        doubled(250, 1) == 500,
        doubled(250, 2) == 1000,
        doubled(250, 3) == 2000,
        doubled(250, 4) == 4000,
        doubled(250, 5) == 8000,
    decreases n,
{
    reveal_with_fuel(doubled, 6);
    if n > 5 {
        lemma_doubled((n - 1) as nat);
    }
}

/// The pause before an attempt, in milliseconds.
pub fn backoff(attempt: u32) -> (ms: u64)
    ensures
        ms == pause(attempt as nat),
{
    proof {
        lemma_doubled(attempt as nat);
    }
    match attempt {
        0 => 250,
        1 => 500,
        2 => 1000,
        3 => 2000,
        4 => 4000,
        _ => BACKOFF_CAP,
    }
}

/// A pause never shrinks with more attempts, and never exceeds the cap.
pub proof fn law_backoff_grows(a: nat, b: nat)
    requires
        a <= b,
    ensures
        pause(a) <= pause(b) <= BACKOFF_CAP,
    decreases b - a,
{
    if a < b {
        law_backoff_grows(a, (b - 1) as nat);
    }
}

/// What the daemon knows of its server.
pub struct ManagedServer {
    pub running: Option<Endpoint>,
    pub program: Option<String>,
}

/// What to do where a server is wanted.
pub enum StartPlan {
    /// There is one.
    Running(Endpoint),
    /// One is to be started.
    Start,
}

impl ManagedServer {
    pub fn new() -> (server: ManagedServer)
        ensures
            server.running is None,
            server.program is None,
    {
        ManagedServer { running: None, program: None }
    }

    /// The current endpoint; nothing where there is no server.
    pub fn endpoint(&self) -> (ep: Option<Endpoint>)
        ensures
            opt_endpoint(ep) == opt_endpoint(self.running),
    {
        copy_endpoint(&self.running)
    }

    /// What to do where a server is wanted. Only one is ever started.
    pub fn ensure_started(&self) -> (plan: StartPlan)
        ensures
            match plan {
                StartPlan::Running(ep) => opt_endpoint(self.running) == Some(ep@),
                StartPlan::Start => self.running is None,
            },
    {
        match self.endpoint() {
            Some(ep) => StartPlan::Running(ep),
            None => StartPlan::Start,
        }
    }

    /// The server was started and answers.
    pub fn started(&mut self, ep: Endpoint, program: &str)
        ensures
            opt_endpoint(final(self).running) == Some(ep@),
            model::opt_text(final(self).program) == Some(program@),
    {
        self.running = Some(ep);
        self.program = Some(program.to_owned());
    }

    /// The server was restarted at another endpoint.
    pub fn restarted(&mut self, ep: Endpoint)
        ensures
            opt_endpoint(final(self).running) == Some(ep@),
            final(self).program == old(self).program,
    {
        self.running = Some(ep);
    }

    /// The pause before the next restart, in milliseconds, after this many failures
    /// in a row; nothing where no more is tried, and then there is no server.
    pub fn next_restart(&mut self, failures: u32) -> (pause_ms: Option<u64>)
        ensures
            failures < MAX_RESTART_FAILURES ==> pause_ms == Some(pause(failures as nat) as u64)
                && *final(self) == *old(self),
            failures >= MAX_RESTART_FAILURES ==> pause_ms is None && final(self).running is None
                && final(self).program == old(self).program,
    {
        if failures >= MAX_RESTART_FAILURES {
            self.running = None;
            return None;
        }
        Some(backoff(failures))
    }
}

/// The body that asks for a session in `dir`, with a model and its provider where
/// one is chosen.
pub open spec fn session_request(
    dir: Seq<char>,
    chosen: Option<(Seq<char>, Seq<char>)>,
) -> JsonView {
    let location = (
        "location"@,
        JsonView::Object(seq![("directory"@, JsonView::Str(dir))]),
    );
    JsonView::Object(
        match chosen {
            Some((id, provider)) => seq![
                location,
                (
                    "model"@,
                    JsonView::Object(
                        seq![("id"@, JsonView::Str(id)), ("providerID"@, JsonView::Str(provider))],
                    ),
                ),
            ],
            None => seq![location],
        },
    )
}

/// The body that asks for a session in `dir`.
pub fn create_session_body(dir: &str, chosen: Option<(&str, &str)>) -> (body: String)
    ensures
        body@ == json::written(
            session_request(
                dir@,
                match chosen {
                    Some((id, provider)) => Some((id@, provider@)),
                    None => None,
                },
            ),
        ),
{
    let location = single_value("directory", string_value(dir));
    match chosen {
        Some((id, provider)) => {
            let mut inner: Vec<(String, serde_json::Value)> = Vec::new();
            inner.push(("id".to_owned(), string_value(id)));
            inner.push(("providerID".to_owned(), string_value(provider)));
            proof {
                reveal_strlit("id");
                reveal_strlit("providerID");
                reveal_strlit("location");
                reveal_strlit("model");
                text::lemma_precedes_at("id"@, "providerID"@, 0);
                text::lemma_precedes_at("location"@, "model"@, 0);
            }
            let model = object_value(inner);
            assert(json::value_of(model)->Object_0 == seq![
                ("id"@, JsonView::Str(id@)),
                ("providerID"@, JsonView::Str(provider@)),
            ]);
            let mut fields: Vec<(String, serde_json::Value)> = Vec::new();
            fields.push(("location".to_owned(), location));
            fields.push(("model".to_owned(), model));
            let value = object_value(fields);
            assert(json::value_of(value)->Object_0 == session_request(
                dir@,
                Some((id@, provider@)),
            )->Object_0);
            value_to_string(&value)
        },
        None => value_to_string(&single_value("location", location)),
    }
}

/// Why no session was created.
#[derive(Debug, PartialEq, Eq)]
pub enum CreateError {
    /// The server answered with this status and this reply.
    Refused { status: u16, reply: String },
    /// The answer names no session.
    NoId,
}

impl CreateError {
    /// The error in words, where `status` is the answer's status as people read it.
    pub fn message(&self, status: &str) -> (message: String)
        ensures
            message@ == match *self {
                CreateError::Refused { reply, .. } => "opencode session create failed ("@ + status@
                    + "): "@ + reply@,
                CreateError::NoId => "opencode session create returned no data.id"@,
            },
    {
        match self {
            CreateError::Refused { reply, .. } => "opencode session create failed (".to_owned().concat(
                status,
            ).concat("): ").concat(reply.as_str()),
            CreateError::NoId => "opencode session create returned no data.id".to_owned(),
        }
    }
}

/// Whether an answer with this status and this reply, which is written `shown`, comes
/// to `id`: the session that it names where the request succeeded, else the refusal.
pub open spec fn comes_to(
    status: u16,
    reply: JsonView,
    shown: Seq<char>,
    id: Result<String, CreateError>,
) -> bool {
    if 200 <= status < 300 {
        match json::str_of(reply.get2("data"@, "id"@)) {
            Some(named) => id is Ok && id->Ok_0@ == named,
            None => id == Err::<String, CreateError>(CreateError::NoId),
        }
    } else {
        &&& id is Err && id->Err_0 is Refused
        &&& id->Err_0->status == status
        &&& id->Err_0->reply@ == shown
    }
}

/// What an answer with this status and this reply, which is written `shown`, comes to.
pub fn created_session(status: u16, reply: &Json, shown: &str) -> (id: Result<String, CreateError>)
    ensures
        comes_to(status, reply@, shown@, id),
{
    if status < 200 || status >= 300 {
        return Err(CreateError::Refused { status, reply: shown.to_owned() });
    }
    match read_str(reply.get2("data", "id")) {
        Some(id) => Ok(id.to_owned()),
        None => Err(CreateError::NoId),
    }
}

/// What an answer with this status and this body comes to. A body that is no JSON counts
/// as null.
pub fn read_created(status: u16, body: &[u8]) -> (id: Result<String, CreateError>)
    ensures
        ({
            let reply = json::tree_or_null(json::parsed_bytes(body@));
            comes_to(status, reply, json::written(reply), id)
        }),
{
    let (reply, shown) = read_body(body);
    created_session(status, &reply, shown.as_str())
}

/// The path that seeds a session's first turn, and the body that does.
pub fn prompt_request(session_id: &str, prompt: &str) -> (request: (String, String))
    ensures
        request.0@ == "/api/session/"@ + encoded_text(session_id@) + "/prompt"@,
        request.1@ == json::written(JsonView::Object(seq![("text"@, JsonView::Str(prompt@))])),
{
    (
        "/api/session/".to_owned().concat(encode_segment(session_id).as_str()).concat("/prompt"),
        value_to_string(&single_value("text", string_value(prompt))),
    )
}

/// Whether a byte stands for itself in a path.
pub open spec fn unreserved(b: u8) -> bool {
    (65 <= b <= 90) || (97 <= b <= 122) || (48 <= b <= 57) || b == 45 || b == 95 || b == 46 || b
        == 126
}

/// The upper-case hexadecimal digit of a number below sixteen.
pub open spec fn hex_digit(n: u8) -> char {
    if n < 10 {
        (48 + n) as char
    } else {
        (55 + n) as char
    }
}

/// What stands for a byte in a path.
pub open spec fn encoded_byte(b: u8) -> Seq<char> {
    if unreserved(b) {
        seq![b as char]
    } else {
        seq!['%', hex_digit(b / 16), hex_digit(b % 16)]
    }
}

/// What stands for bytes in a path.
pub open spec fn encoded(bytes: Seq<u8>) -> Seq<char>
    decreases bytes.len(),
{
    if bytes.len() == 0 {
        Seq::empty()
    } else {
        encoded(bytes.drop_last()) + encoded_byte(bytes.last())
    }
}

/// What stands for a text in a path.
pub open spec fn encoded_text(s: Seq<char>) -> Seq<char> {
    encoded(vstd::utf8::encode_utf8(s))
}

fn upper_hex(n: u8) -> (c: char)
    requires
        n < 16,
    ensures
        c == hex_digit(n),
{
    if n < 10 {
        (48 + n) as char
    } else {
        (55 + n) as char
    }
}

/// Encodes a text as one segment of a path.
pub fn encode_segment(value: &str) -> (segment: String)
    ensures
        segment@ == encoded_text(value@),
{
    let bytes = value.as_bytes();
    let mut out = String::new();
    let mut i: usize = 0;
    assert(bytes@.take(0).len() == 0);
    while i < bytes.len()
        invariant
            i <= bytes@.len(),
            out@ == encoded(bytes@.take(i as int)),
        decreases bytes@.len() - i,
    {
        let b: u8 = bytes[i];
        assert(bytes@.take(i + 1).drop_last() == bytes@.take(i as int));
        assert(bytes@.take(i + 1).last() == b);
        if (65 <= b && b <= 90) || (97 <= b && b <= 122) || (48 <= b && b <= 57) || b == 45 || b
            == 95 || b == 46 || b == 126 {
            out.push(b as char);
        } else {
            out.push('%');
            out.push(upper_hex(b / 16));
            out.push(upper_hex(b % 16));
        }
        assert(out@ == encoded(bytes@.take(i + 1)));
        i += 1;
    }
    assert(bytes@.take(i as int) == bytes@);
    out
}

/// Whether a character may stand in an encoded segment.
pub open spec fn segment_char(c: char) -> bool {
    c == '%' || ('A' <= c && c <= 'Z') || ('a' <= c && c <= 'z') || ('0' <= c && c <= '9') || c
        == '-' || c == '_' || c == '.' || c == '~'
}

/// An encoded text is one segment: nothing in it parts a path or begins a query.
pub proof fn law_encoded_is_one_segment(bytes: Seq<u8>, i: int)
    requires
        0 <= i < encoded(bytes).len(),
    ensures
        segment_char(encoded(bytes)[i]),
    decreases bytes.len(),
{
    if bytes.len() > 0 {
        let head = encoded(bytes.drop_last());
        if i < head.len() {
            law_encoded_is_one_segment(bytes.drop_last(), i);
        } else {
            let b = bytes.last();
            assert(encoded(bytes)[i] == encoded_byte(b)[i - head.len()]);
        }
    }
}

/// A text with no reserved byte stands for itself.
pub proof fn law_unreserved_stays(bytes: Seq<u8>)
    requires
        forall|i: int| 0 <= i < bytes.len() ==> unreserved(#[trigger] bytes[i]),
    ensures
        encoded(bytes) == bytes.map_values(|b: u8| b as char),
    decreases bytes.len(),
{
    if bytes.len() > 0 {
        assert(forall|i: int|
            0 <= i < bytes.drop_last().len() ==> unreserved(#[trigger] bytes.drop_last()[i])) by {
            assert(forall|i: int|
                0 <= i < bytes.drop_last().len() ==> #[trigger] bytes.drop_last()[i] == bytes[i]);
        }
        law_unreserved_stays(bytes.drop_last());
        assert(unreserved(bytes[bytes.len() - 1]));
        assert(encoded(bytes) == bytes.map_values(|b: u8| b as char));
    } else {
        assert(encoded(bytes) == bytes.map_values(|b: u8| b as char));
    }
}

proof fn lemma_first_byte(bytes: Seq<u8>)
    requires
        bytes.len() > 0,
    ensures
        encoded(bytes) == encoded_byte(bytes[0]) + encoded(bytes.skip(1)),
    decreases bytes.len(),
{
    if bytes.len() == 1 {
        assert(bytes.drop_last() == Seq::<u8>::empty());
        assert(bytes.skip(1) == Seq::<u8>::empty());
        assert(encoded(bytes) == encoded_byte(bytes[0]) + encoded(bytes.skip(1)));
    } else {
        lemma_first_byte(bytes.drop_last());
        assert(bytes.drop_last().skip(1) == bytes.skip(1).drop_last());
        assert(bytes.skip(1).last() == bytes.last());
        assert(encoded(bytes) == encoded_byte(bytes[0]) + encoded(bytes.skip(1)));
    }
}

/// Different texts have different encodings: no two sessions share a path.
pub proof fn law_encoding_tells_texts_apart(a: Seq<u8>, b: Seq<u8>)
    requires
        encoded(a) == encoded(b),
    ensures
        a == b,
    decreases a.len(),
{
    if a.len() > 0 {
        lemma_first_byte(a);
    }
    if b.len() > 0 {
        lemma_first_byte(b);
    }
    if a.len() > 0 && b.len() > 0 {
        let first_a = encoded_byte(a[0]);
        let first_b = encoded_byte(b[0]);
        assert(encoded(a)[0] == first_a[0]);
        assert(encoded(b)[0] == first_b[0]);
        assert(unreserved(a[0]) == unreserved(b[0]));
        if !unreserved(a[0]) {
            assert(encoded(a)[1] == first_a[1] && encoded(a)[2] == first_a[2]);
            assert(encoded(b)[1] == first_b[1] && encoded(b)[2] == first_b[2]);
            assert(a[0] / 16 == b[0] / 16);
            assert(a[0] % 16 == b[0] % 16);
        }
        assert(a[0] == b[0]);
        assert(encoded(a).skip(first_a.len() as int) == encoded(a.skip(1)));
        assert(encoded(b).skip(first_b.len() as int) == encoded(b.skip(1)));
        law_encoding_tells_texts_apart(a.skip(1), b.skip(1));
        assert(a == seq![a[0]] + a.skip(1));
        assert(b == seq![b[0]] + b.skip(1));
    } else {
        assert(encoded(Seq::<u8>::empty()).len() == 0);
        assert(a.len() > 0 ==> encoded(a).len() >= encoded_byte(a[0]).len());
        assert(b.len() > 0 ==> encoded(b).len() >= encoded_byte(b[0]).len());
        assert(a == b);
    }
}

} // verus!
