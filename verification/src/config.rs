//! What the configuration file says of the agents.
use crate::model;
use crate::model::{copy_text, copy_texts};
use crate::table::Table;
use crate::text;
use vstd::prelude::*;

verus! {

/// How commits made by an agent are signed.
#[derive(Debug, Clone, Copy, PartialEq, Eq, Structural)]
pub enum GitSigning {
    Off,
    Ssh,
}

/// The `[git]` settings of a launch.
#[derive(Debug, PartialEq, Eq)]
pub struct GitSettings {
    pub user_name: Option<String>,
    pub signing: Option<GitSigning>,
    pub signing_key: Option<String>,
}

/// [`GitSettings`] over mathematical text.
pub struct GitView {
    pub user_name: Option<Seq<char>>,
    pub signing: Option<GitSigning>,
    pub signing_key: Option<Seq<char>>,
}

impl View for GitSettings {
    type V = GitView;

    open spec fn view(&self) -> GitView {
        GitView {
            user_name: model::opt_text(self.user_name),
            signing: self.signing,
            signing_key: model::opt_text(self.signing_key),
        }
    }
}

impl Default for GitSettings {
    fn default() -> (git: GitSettings)
        ensures
            git@ == (GitView { user_name: None, signing: None, signing_key: None }),
    {
        GitSettings { user_name: None, signing: None, signing_key: None }
    }
}

impl Clone for GitSettings {
    fn clone(&self) -> (copy: GitSettings)
        ensures
            copy@ == self@,
    {
        GitSettings {
            user_name: copy_text(&self.user_name),
            signing: self.signing,
            signing_key: copy_text(&self.signing_key),
        }
    }
}

/// One `[agents.<name>]` entry. Templates are argument lists in which
/// `{prompt}`, `{provider}`, `{model}` and `{session_id}` stand for what a launch
/// fills in.
#[derive(Debug, PartialEq, Eq)]
pub struct AgentConfig {
    /// Which implementation to use; the entry's name decides where it is absent.
    pub agent_type: Option<String>,
    pub command: String,
    /// Arguments of an interactive launch.
    pub args: Vec<String>,
    /// Template of an unattended launch without a model.
    pub headless_args: Option<Vec<String>>,
    /// Template of an unattended launch with a model.
    pub run_args: Option<Vec<String>>,
    /// Template of a launch that reattaches to a session.
    pub resume_args: Option<Vec<String>>,
    /// Template of an interactive launch with a model.
    pub interactive_model_args: Option<Vec<String>>,
    /// The key under which a row of output carries the session's id.
    pub session_id_json_key: Option<String>,
    /// Template that passes an initial prompt on the command line.
    pub prompt_args: Option<Vec<String>>,
    /// Whether a prompt passed that way still has to be submitted.
    pub submit_prompt: Option<bool>,
    pub env: Table<String>,
    pub cwd: Option<String>,
    pub git: Option<GitSettings>,
}

/// [`AgentConfig`] over mathematical text.
pub struct ConfigView {
    pub agent_type: Option<Seq<char>>,
    pub command: Seq<char>,
    pub args: Seq<Seq<char>>,
    pub headless_args: Option<Seq<Seq<char>>>,
    pub run_args: Option<Seq<Seq<char>>>,
    pub resume_args: Option<Seq<Seq<char>>>,
    pub interactive_model_args: Option<Seq<Seq<char>>>,
    pub session_id_json_key: Option<Seq<char>>,
    pub prompt_args: Option<Seq<Seq<char>>>,
    pub submit_prompt: Option<bool>,
    pub env: Map<Seq<char>, Seq<char>>,
    pub cwd: Option<Seq<char>>,
    pub git: Option<GitView>,
}

/// An optional argument list by its texts.
pub open spec fn opt_args(v: Option<Vec<String>>) -> Option<Seq<Seq<char>>> {
    match v {
        Some(v) => Some(text::views(v@)),
        None => None,
    }
}

/// A copy of an optional argument list.
pub fn copy_args(v: &Option<Vec<String>>) -> (copy: Option<Vec<String>>)
    ensures
        opt_args(copy) == opt_args(*v),
{
    match v {
        Some(v) => Some(copy_texts(v)),
        None => None,
    }
}

impl View for AgentConfig {
    type V = ConfigView;

    open spec fn view(&self) -> ConfigView {
        ConfigView {
            agent_type: model::opt_text(self.agent_type),
            command: self.command@,
            args: text::views(self.args@),
            headless_args: opt_args(self.headless_args),
            run_args: opt_args(self.run_args),
            resume_args: opt_args(self.resume_args),
            interactive_model_args: opt_args(self.interactive_model_args),
            session_id_json_key: model::opt_text(self.session_id_json_key),
            prompt_args: opt_args(self.prompt_args),
            submit_prompt: self.submit_prompt,
            env: self.env@,
            cwd: model::opt_text(self.cwd),
            git: match self.git {
                Some(git) => Some(git@),
                None => None,
            },
        }
    }
}

/// An entry that says nothing.
pub open spec fn blank_config() -> ConfigView {
    ConfigView {
        agent_type: None,
        command: Seq::empty(),
        args: Seq::empty(),
        headless_args: None,
        run_args: None,
        resume_args: None,
        interactive_model_args: None,
        session_id_json_key: None,
        prompt_args: None,
        submit_prompt: None,
        env: Map::empty(),
        cwd: None,
        git: None,
    }
}

impl Default for AgentConfig {
    fn default() -> (config: AgentConfig)
        ensures
            config@ == blank_config(),
    {
        let config = AgentConfig {
            agent_type: None,
            command: String::new(),
            args: Vec::new(),
            headless_args: None,
            run_args: None,
            resume_args: None,
            interactive_model_args: None,
            session_id_json_key: None,
            prompt_args: None,
            submit_prompt: None,
            env: Table::new(),
            cwd: None,
            git: None,
        };
        assert(config@.args == Seq::<Seq<char>>::empty());
        config
    }
}

impl Clone for AgentConfig {
    fn clone(&self) -> (copy: AgentConfig)
        ensures
            copy@ == self@,
    {
        AgentConfig {
            agent_type: copy_text(&self.agent_type),
            command: self.command.clone(),
            args: copy_texts(&self.args),
            headless_args: copy_args(&self.headless_args),
            run_args: copy_args(&self.run_args),
            resume_args: copy_args(&self.resume_args),
            interactive_model_args: copy_args(&self.interactive_model_args),
            session_id_json_key: copy_text(&self.session_id_json_key),
            prompt_args: copy_args(&self.prompt_args),
            submit_prompt: self.submit_prompt,
            env: self.env.clone(),
            cwd: copy_text(&self.cwd),
            git: match &self.git {
                Some(git) => Some(git.clone()),
                None => None,
            },
        }
    }
}

/// What the configuration says of agents in general.
#[derive(Debug, PartialEq, Eq)]
pub struct AgentSection {
    /// The entry that is used where none is named.
    pub default: Option<String>,
}

/// The configuration of the daemon, as far as agents are concerned.
#[derive(Debug, PartialEq, Eq)]
pub struct FavettoConfig {
    pub agent: AgentSection,
    pub agents: Table<AgentConfig>,
}

impl Default for FavettoConfig {
    fn default() -> (config: FavettoConfig)
        ensures
            config.agent.default is None,
            config.agents@ == Map::<Seq<char>, ConfigView>::empty(),
    {
        FavettoConfig { agent: AgentSection { default: None }, agents: Table::new() }
    }
}

} // verus!
