//! What every external agent has in common: the description of a launch, the
//! filling of argument templates, and the probing of output for a session id.
use crate::json;
use crate::json::{owned, parse, read_str, text_object, Json, JsonView};
use crate::model;
use crate::model::RunSummary;
use crate::table::Table;
use crate::text;
use crate::text::{
    contains, lines, push_text, replace, starts_with, to_decimal, trim,
};
use vstd::prelude::*;

verus! {

/// Milliseconds to wait for the screen to settle before Enter is sent.
pub const SUBMIT_DELAY: u64 = 1200;

/// How often Enter is sent at most.
pub const SUBMIT_MAX_SENDS: u32 = 8;

/// The longest argument that is passed on a command line, in bytes.
pub const MAX_ARG_BYTES: usize = 122880;

/// How often a session is asked for its title.
pub const TITLE_POLL_ATTEMPTS: u32 = 20;

/// Milliseconds between two such questions.
pub const TITLE_POLL_INTERVAL: u64 = 1000;

/// What an agent can do.
#[derive(Debug, Clone, Copy, PartialEq, Eq, Structural)]
pub struct AgentCapabilities {
    pub interactive: bool,
    pub headless: bool,
    pub resume: bool,
    pub model_selection: bool,
    pub providers: bool,
    pub structured_output: bool,
    pub reports_session_id: bool,
    pub prompt_prefill: bool,
    pub interactive_prompt: bool,
    pub reports_state: bool,
    pub permission_channel: bool,
    pub concurrent_attach: bool,
}

/// A configured agent, as clients see it.
#[derive(Debug, PartialEq, Eq)]
pub struct AgentDescriptor {
    /// The `[agents.<name>]` key.
    pub id: String,
    /// The name for people.
    pub name: String,
    pub command: String,
    /// Whether the command can be run on this host.
    pub available: bool,
    pub capabilities: AgentCapabilities,
}

/// [`AgentDescriptor`] over mathematical text.
pub struct DescriptorView {
    pub id: Seq<char>,
    pub name: Seq<char>,
    pub command: Seq<char>,
    pub available: bool,
    pub capabilities: AgentCapabilities,
}

impl View for AgentDescriptor {
    type V = DescriptorView;

    open spec fn view(&self) -> DescriptorView {
        DescriptorView {
            id: self.id@,
            name: self.name@,
            command: self.command@,
            available: self.available,
            capabilities: self.capabilities,
        }
    }
}

/// The values of one launch.
#[derive(Debug)]
pub struct AgentContext {
    pub cwd: Option<String>,
    pub provider: Option<String>,
    pub model: Option<String>,
    pub prompt: Option<String>,
    pub session_id: Option<String>,
    /// Whether the session was created on a server that this daemon runs.
    pub managed_session: bool,
    pub cols: u16,
    pub rows: u16,
    /// Overrides how commits are signed.
    pub git_signing: Option<crate::config::GitSigning>,
}

/// [`AgentContext`] over mathematical text.
pub struct ContextView {
    pub cwd: Option<Seq<char>>,
    pub provider: Option<Seq<char>>,
    pub model: Option<Seq<char>>,
    pub prompt: Option<Seq<char>>,
    pub session_id: Option<Seq<char>>,
    pub managed_session: bool,
    pub cols: u16,
    pub rows: u16,
    pub git_signing: Option<crate::config::GitSigning>,
}

impl View for AgentContext {
    type V = ContextView;

    open spec fn view(&self) -> ContextView {
        ContextView {
            cwd: model::opt_text(self.cwd),
            provider: model::opt_text(self.provider),
            model: model::opt_text(self.model),
            prompt: model::opt_text(self.prompt),
            session_id: model::opt_text(self.session_id),
            managed_session: self.managed_session,
            cols: self.cols,
            rows: self.rows,
            git_signing: self.git_signing,
        }
    }
}

impl Default for AgentContext {
    fn default() -> (ctx: AgentContext)
        ensures
            ctx@ == (ContextView {
                cwd: None,
                provider: None,
                model: None,
                prompt: None,
                session_id: None,
                managed_session: false,
                cols: 0,
                rows: 0,
                git_signing: None,
            }),
    {
        AgentContext {
            cwd: None,
            provider: None,
            model: None,
            prompt: None,
            session_id: None,
            managed_session: false,
            cols: 0,
            rows: 0,
            git_signing: None,
        }
    }
}

/// How a prompt that stands in the input field is submitted.
#[derive(Debug, Clone, Copy, PartialEq, Eq, Structural)]
pub enum SubmitStrategy {
    /// Nothing is sent.
    Never,
    /// Send Enter once the screen has been still for `delay` milliseconds.
    AfterSettle { delay: u64, max_sends: u32 },
}

/// The command that a launch runs.
#[derive(Debug)]
pub struct CommandSpec {
    pub program: String,
    pub args: Vec<String>,
    pub env: Table<String>,
    pub cwd: Option<String>,
    /// A prompt to be typed into the process.
    pub stdin_prompt: Option<String>,
    /// Whether the input is closed behind the prompt.
    pub stdin_eof: bool,
    pub submit: SubmitStrategy,
}

/// [`CommandSpec`] over mathematical text.
pub struct CommandView {
    pub program: Seq<char>,
    pub args: Seq<Seq<char>>,
    pub env: Map<Seq<char>, Seq<char>>,
    pub cwd: Option<Seq<char>>,
    pub stdin_prompt: Option<Seq<char>>,
    pub stdin_eof: bool,
    pub submit: SubmitStrategy,
}

impl View for CommandSpec {
    type V = CommandView;

    open spec fn view(&self) -> CommandView {
        CommandView {
            program: self.program@,
            args: text::views(self.args@),
            env: self.env@,
            cwd: model::opt_text(self.cwd),
            stdin_prompt: model::opt_text(self.stdin_prompt),
            stdin_eof: self.stdin_eof,
            submit: self.submit,
        }
    }
}

/// Where an agent's output carries the id of its session.
#[derive(Debug, PartialEq, Eq)]
pub enum SessionIdProbe {
    /// Under a top-level key of a JSON row.
    JsonKey(String),
}

/// [`SessionIdProbe`] by its key.
pub open spec fn probe_key(probe: SessionIdProbe) -> Seq<char> {
    match probe {
        SessionIdProbe::JsonKey(key) => key@,
    }
}

/// An optional probe by its key.
pub open spec fn opt_probe(probe: Option<SessionIdProbe>) -> Option<Seq<char>> {
    match probe {
        Some(probe) => Some(probe_key(probe)),
        None => None,
    }
}

impl Clone for SessionIdProbe {
    fn clone(&self) -> (copy: SessionIdProbe)
        ensures
            probe_key(copy) == probe_key(*self),
    {
        match self {
            SessionIdProbe::JsonKey(key) => SessionIdProbe::JsonKey(key.clone()),
        }
    }
}

/// A copy of an optional probe.
pub fn copy_probe(probe: &Option<SessionIdProbe>) -> (copy: Option<SessionIdProbe>)
    ensures
        opt_probe(copy) == opt_probe(*probe),
{
    match probe {
        Some(probe) => Some(probe.clone()),
        None => None,
    }
}

/// What a finished run put out.
#[derive(Debug, PartialEq, Eq)]
pub enum RunOutput {
    /// The structured result.
    Summary(RunSummary),
    /// The raw text, where there was no structure in it.
    Text(String),
}

/// The form in which a raw text is kept as a run's output: an object whose one field,
/// `text`, holds it.
pub open spec fn text_tree(raw: Seq<char>) -> JsonView {
    JsonView::Object(seq![("text"@, JsonView::Str(raw))])
}

/// The form in which a raw text is kept as a run's output.
pub fn text_json(raw: &str) -> (output: Json)
    ensures
        output@ == text_tree(raw@),
{
    text_object("text", raw)
}

impl RunOutput {
    /// The form of an output that was kept as text; a structured result has a form of
    /// its own.
    pub fn text_form(&self) -> (form: Option<Json>)
        ensures
            json::opt_json(form) == match *self {
                RunOutput::Text(raw) => Some(text_tree(raw@)),
                RunOutput::Summary(_) => None,
            },
    {
        match self {
            RunOutput::Text(raw) => Some(text_json(raw.as_str())),
            RunOutput::Summary(_) => None,
        }
    }
}

/// [`RunOutput`] over mathematical text.
pub enum OutputView {
    Summary(model::SummaryView),
    Text(Seq<char>),
}

/// A finished run.
#[derive(Debug, PartialEq, Eq)]
pub struct AgentRunResult {
    pub exit_code: Option<i32>,
    pub session_id: Option<String>,
    pub output: RunOutput,
    pub raw: String,
}

/// [`AgentRunResult`] over mathematical text.
pub struct ResultView {
    pub exit_code: Option<i32>,
    pub session_id: Option<Seq<char>>,
    pub output: OutputView,
    pub raw: Seq<char>,
}

impl View for AgentRunResult {
    type V = ResultView;

    open spec fn view(&self) -> ResultView {
        ResultView {
            exit_code: self.exit_code,
            session_id: model::opt_text(self.session_id),
            output: match self.output {
                RunOutput::Summary(summary) => OutputView::Summary(summary@),
                RunOutput::Text(text) => OutputView::Text(text@),
            },
            raw: self.raw@,
        }
    }
}

/// How an agent is to be launched.
#[allow(inconsistent_fields)]
#[derive(Debug)]
pub enum Invocation<'a> {
    /// In front of the user, optionally with a first prompt.
    Interactive { prompt: Option<&'a str>, provider: Option<&'a str>, model: Option<&'a str> },
    /// Unattended, for one task.
    Headless { prompt: &'a str, provider: Option<&'a str>, model: Option<&'a str> },
    /// In front of the user, on the session with this id.
    Resume(&'a str),
}

/// Why an agent cannot be launched.
#[derive(Debug, PartialEq, Eq)]
pub enum LaunchError {
    /// An argument is longer than a command line takes.
    ArgumentTooLong { program: String, bytes: usize },
    /// The agent has no command.
    NoCommand { agent: String },
    /// The agent cannot run a task with a model.
    NoRunArgs { agent: String },
    /// The agent cannot run a task unattended.
    NoHeadlessArgs { agent: String },
    /// The agent cannot reattach to a session.
    NoResumeArgs { agent: String },
}

/// [`LaunchError`] over mathematical text.
#[allow(inconsistent_fields)]
pub enum LaunchErrorView {
    ArgumentTooLong { program: Seq<char>, bytes: usize },
    NoCommand { agent: Seq<char> },
    NoRunArgs { agent: Seq<char> },
    NoHeadlessArgs { agent: Seq<char> },
    NoResumeArgs { agent: Seq<char> },
}

impl View for LaunchError {
    type V = LaunchErrorView;

    open spec fn view(&self) -> LaunchErrorView {
        match *self {
            LaunchError::ArgumentTooLong { program, bytes } => LaunchErrorView::ArgumentTooLong {
                program: program@,
                bytes,
            },
            LaunchError::NoCommand { agent } => LaunchErrorView::NoCommand { agent: agent@ },
            LaunchError::NoRunArgs { agent } => LaunchErrorView::NoRunArgs { agent: agent@ },
            LaunchError::NoHeadlessArgs { agent } => LaunchErrorView::NoHeadlessArgs {
                agent: agent@,
            },
            LaunchError::NoResumeArgs { agent } => LaunchErrorView::NoResumeArgs { agent: agent@ },
        }
    }
}

impl LaunchErrorView {
    /// The error in words.
    pub open spec fn words(self) -> Seq<char> {
        match self {
            LaunchErrorView::ArgumentTooLong { program, bytes } => "refusing to launch "@ + program
                + ": an argument is "@ + text::decimal(bytes as nat) + " bytes, over the "@
                + text::decimal(MAX_ARG_BYTES as nat)
                + " byte command-line limit; the task prompt is too large to pass on the command line (bound the data rendered into it, e.g. `{{ prev.tasks }}`)"@,
            LaunchErrorView::NoCommand { agent } => "agent '"@ + agent
                + "' has no command configured"@,
            LaunchErrorView::NoRunArgs { agent } => "agent '"@ + agent
                + "' has no `run_args`, so it cannot run a task with a model; add one, e.g. run_args = [\"run\", \"--model\", \"{provider}/{model}\", \"--format\", \"json\", \"{prompt}\"]"@,
            LaunchErrorView::NoHeadlessArgs { agent } => "agent '"@ + agent
                + "' has no `headless_args`, so it cannot run a task unattended; add one, e.g. headless_args = [\"run\", \"--auto\", \"{prompt}\"]"@,
            LaunchErrorView::NoResumeArgs { agent } => "agent '"@ + agent
                + "' has no `resume_args`, so it cannot reattach to a session"@,
        }
    }
}

impl LaunchError {
    /// The error in words.
    pub fn message(&self) -> (message: String)
        ensures
            message@ == self@.words(),
    {
        match self {
            LaunchError::ArgumentTooLong { program, bytes } => "refusing to launch ".to_owned().concat(
                program.as_str(),
            ).concat(": an argument is ").concat(to_decimal(*bytes as u64).as_str()).concat(
                " bytes, over the ",
            ).concat(to_decimal(MAX_ARG_BYTES as u64).as_str()).concat(
                " byte command-line limit; the task prompt is too large to pass on the command line (bound the data rendered into it, e.g. `{{ prev.tasks }}`)",
            ),
            LaunchError::NoCommand { agent } => "agent '".to_owned().concat(agent.as_str()).concat(
                "' has no command configured",
            ),
            LaunchError::NoRunArgs { agent } => "agent '".to_owned().concat(agent.as_str()).concat(
                "' has no `run_args`, so it cannot run a task with a model; add one, e.g. run_args = [\"run\", \"--model\", \"{provider}/{model}\", \"--format\", \"json\", \"{prompt}\"]",
            ),
            LaunchError::NoHeadlessArgs { agent } => "agent '".to_owned().concat(
                agent.as_str(),
            ).concat(
                "' has no `headless_args`, so it cannot run a task unattended; add one, e.g. headless_args = [\"run\", \"--auto\", \"{prompt}\"]",
            ),
            LaunchError::NoResumeArgs { agent } => "agent '".to_owned().concat(
                agent.as_str(),
            ).concat("' has no `resume_args`, so it cannot reattach to a session"),
        }
    }
}

/// The length of a text in bytes.
pub open spec fn byte_len(s: Seq<char>) -> nat {
    vstd::utf8::encode_utf8(s).len()
}

/// Refuses an argument that is longer than a command line takes; the first such
/// argument is named.
pub fn check_arg_sizes(program: &str, args: &Vec<String>) -> (checked: Result<(), LaunchError>)
    ensures
        match checked {
            Ok(_) => forall|i: int|
                0 <= i < args@.len() ==> byte_len(#[trigger] args@[i]@) <= MAX_ARG_BYTES,
            Err(error) => exists|i: int|
                0 <= i < args@.len() && byte_len(#[trigger] args@[i]@) > MAX_ARG_BYTES && (forall|
                    k: int,
                |
                    0 <= k < i ==> byte_len(#[trigger] args@[k]@) <= MAX_ARG_BYTES) && error@ == (
                LaunchErrorView::ArgumentTooLong {
                    program: program@,
                    bytes: byte_len(args@[i]@) as usize,
                }),
        },
{
    let mut i: usize = 0;
    while i < args.len()
        invariant
            i <= args@.len(),
            forall|k: int| 0 <= k < i ==> byte_len(#[trigger] args@[k]@) <= MAX_ARG_BYTES,
        decreases args@.len() - i,
    {
        let bytes: usize = args[i].as_str().as_bytes().len();
        assert(bytes == byte_len(args@[i as int]@));
        if bytes > MAX_ARG_BYTES {
            return Err(LaunchError::ArgumentTooLong { program: program.to_owned(), bytes });
        }
        i += 1;
    }
    Ok(())
}

/// Template variables by their texts.
pub open spec fn var_views(vars: Seq<(&str, &str)>) -> Seq<(Seq<char>, Seq<char>)> {
    vars.map_values(|v: (&str, &str)| (v.0@, v.1@))
}

/// One template argument, with the variables from `from` on filled in one after
/// the other.
pub open spec fn filled(arg: Seq<char>, vars: Seq<(Seq<char>, Seq<char>)>, from: int) -> Seq<char>
    decreases vars.len() - from,
{
    if from < 0 || from >= vars.len() {
        arg
    } else {
        filled(text::replaced(arg, vars[from].0, vars[from].1), vars, from + 1)
    }
}

/// A template with its variables filled in.
pub open spec fn rendered(
    template: Seq<Seq<char>>,
    vars: Seq<(Seq<char>, Seq<char>)>,
) -> Seq<Seq<char>> {
    template.map_values(|arg: Seq<char>| filled(arg, vars, 0))
}

/// Fills the variables in every argument of a template.
pub fn substitute(template: &Vec<String>, vars: &[(&str, &str)]) -> (args: Vec<String>)
    ensures
        text::views(args@) == rendered(text::views(template@), var_views(vars@)),
{
    let ghost names = var_views(vars@);
    let mut args: Vec<String> = Vec::new();
    let mut i: usize = 0;
    while i < template.len()
        invariant
            i <= template@.len(),
            names == var_views(vars@),
            text::views(args@) == rendered(text::views(template@), names).take(i as int),
        decreases template@.len() - i,
    {
        let mut s = template[i].clone();
        let ghost arg = template@[i as int]@;
        let mut j: usize = 0;
        while j < vars.len()
            invariant
                j <= vars@.len(),
                names == var_views(vars@),
                filled(s@, names, j as int) == filled(arg, names, 0),
            decreases vars@.len() - j,
        {
            assert(names[j as int] == (vars@[j as int].0@, vars@[j as int].1@));
            s = replace(s.as_str(), vars[j].0, vars[j].1);
            j += 1;
        }
        push_text(&mut args, s);
        assert(text::views(args@) == rendered(text::views(template@), names).take(i + 1));
        i += 1;
    }
    assert(rendered(text::views(template@), names).take(i as int) == rendered(
        text::views(template@),
        names,
    ));
    args
}

/// Whether a template passes the prompt.
pub open spec fn takes_prompt(template: Seq<Seq<char>>) -> bool {
    exists|i: int| 0 <= i < template.len() && text::occurs(#[trigger] template[i], "{prompt}"@)
}

/// Appends a filled template to `args`, and reports whether it passes the
/// prompt.
pub fn append_template(args: &mut Vec<String>, template: &Vec<String>, vars: &[(&str, &str)]) -> (saw_prompt:
    bool)
    ensures
        text::views(final(args)@) == text::views(old(args)@) + rendered(
            text::views(template@),
            var_views(vars@),
        ),
        saw_prompt == takes_prompt(text::views(template@)),
{
    let mut saw_prompt = false;
    let mut i: usize = 0;
    while i < template.len()
        invariant
            i <= template@.len(),
            saw_prompt == exists|k: int|
                0 <= k < i && text::occurs(#[trigger] text::views(template@)[k], "{prompt}"@),
        decreases template@.len() - i,
    {
        assert(text::views(template@)[i as int] == template@[i as int]@);
        if contains(template[i].as_str(), "{prompt}") {
            saw_prompt = true;
        }
        i += 1;
    }
    let mut more = substitute(template, vars);
    let ghost before = args@;
    let ghost added = more@;
    args.append(&mut more);
    assert(text::views(args@) == text::views(before) + text::views(added));
    saw_prompt
}

/// The session id that a row of output carries.
pub open spec fn session_id_in(value: JsonView, key: Seq<char>) -> Option<Seq<char>> {
    json::str_of(value.get(key))
}

/// The session id that a row of output carries.
pub fn extract_session_id(value: &Json, probe: &SessionIdProbe) -> (id: Option<String>)
    ensures
        model::opt_text(id) == session_id_in(value@, probe_key(*probe)),
{
    match probe {
        SessionIdProbe::JsonKey(key) => owned(read_str(value.get(key.as_str()))),
    }
}

/// The session id that a line of output carries: the line has to be a JSON
/// object.
pub open spec fn session_id_of_line(line: Seq<char>, key: Seq<char>) -> Option<Seq<char>> {
    let content = text::trimmed(line);
    if !text::stands_at(content, "{"@, 0) {
        None
    } else {
        match json::parsed_text(content) {
            Some(value) => session_id_in(value, key),
            None => None,
        }
    }
}

/// The session id that a line of output carries.
pub fn extract_session_id_from_line(line: &str, probe: &SessionIdProbe) -> (id: Option<String>)
    ensures
        model::opt_text(id) == session_id_of_line(line@, probe_key(*probe)),
{
    let content = trim(line);
    if !starts_with(content, "{") {
        return None;
    }
    match parse(content) {
        Some(value) => extract_session_id(&value, probe),
        None => None,
    }
}

/// The first session id that one of `lines` from position `from` on carries.
pub open spec fn first_session_id(lines: Seq<Seq<char>>, key: Seq<char>, from: int) -> Option<
    Seq<char>,
>
    decreases lines.len() - from,
{
    if from < 0 || from >= lines.len() {
        None
    } else {
        match session_id_of_line(lines[from], key) {
            Some(id) => Some(id),
            None => first_session_id(lines, key, from + 1),
        }
    }
}

/// The first session id that a line of `raw` carries.
pub fn extract_session_id_from_lines(raw: &str, probe: &SessionIdProbe) -> (id: Option<String>)
    ensures
        model::opt_text(id) == first_session_id(text::text_lines(raw@), probe_key(*probe), 0),
{
    let all = lines(raw);
    let ghost key = probe_key(*probe);
    let mut i: usize = 0;
    while i < all.len()
        invariant
            i <= all@.len(),
            key == probe_key(*probe),
            text::views(all@) == text::text_lines(raw@),
            first_session_id(text::views(all@), key, i as int) == first_session_id(
                text::views(all@),
                key,
                0,
            ),
        decreases all@.len() - i,
    {
        assert(text::views(all@)[i as int] == all@[i as int]@);
        if let Some(id) = extract_session_id_from_line(all[i].as_str(), probe) {
            return Some(id);
        }
        i += 1;
    }
    None
}

/// How often a session is asked for its title: never where the agent has none
/// or the session has no id, else at least once.
pub fn title_attempts(has_titles: bool, session_id: &str, attempts: u32) -> (times: u32)
    ensures
        times == if !has_titles || session_id@.len() == 0 {
            0
        } else if attempts < 1 {
            1
        } else {
            attempts
        },
{
    if !has_titles || session_id.is_empty() {
        0
    } else if attempts < 1 {
        1
    } else {
        attempts
    }
}

/// What follows an answer to the question for a title.
#[derive(Debug, PartialEq, Eq)]
pub enum TitleStep {
    /// This is the title.
    Found(String),
    /// Ask again after the interval.
    Wait,
    /// There is no title.
    GiveUp,
}

/// Judges the answer to the question number `attempt` (from zero) of `attempts`:
/// a title that is not blank ends the search.
pub fn title_step(answer: Option<&str>, attempt: u32, attempts: u32) -> (step: TitleStep)
    requires
        attempt < attempts,
    ensures
        match step {
            TitleStep::Found(title) => answer is Some && title@ == text::trimmed(answer->0@)
                && title@.len() > 0,
            TitleStep::Wait => (answer is Some ==> text::trimmed(answer->0@).len() == 0) && attempt
                + 1 < attempts,
            TitleStep::GiveUp => (answer is Some ==> text::trimmed(answer->0@).len() == 0)
                && attempt + 1 == attempts,
        },
{
    if let Some(title) = answer {
        let title = trim(title);
        if !title.is_empty() {
            return TitleStep::Found(title.to_owned());
        }
    }
    if attempt + 1 < attempts {
        TitleStep::Wait
    } else {
        TitleStep::GiveUp
    }
}

} // verus!
