//! Types that the prompt agent and the response agent share.

use vstd::prelude::*;
use crate::metadata::Metadata;
use crate::text::{clone_opt_text, opt_text};

verus! {

/// The session that an agent works for: who it belongs to and which key
/// protects it.
#[derive(Debug)]
pub struct AgentContext {
    pub session_id: u128,
    pub user_id: Option<String>,
    pub metadata: Metadata,
    pub encryption_key_id: String,
}

/// The mathematical value of an [`AgentContext`].
pub struct AgentContextView {
    pub session_id: u128,
    pub user_id: Option<Seq<char>>,
    pub metadata: Map<Seq<char>, Seq<char>>,
    pub encryption_key_id: Seq<char>,
}

impl View for AgentContext {
    type V = AgentContextView;

    open spec fn view(&self) -> AgentContextView {
        AgentContextView {
            session_id: self.session_id,
            user_id: opt_text(self.user_id),
            metadata: self.metadata@,
            encryption_key_id: self.encryption_key_id@,
        }
    }
}

impl Clone for AgentContext {
    fn clone(&self) -> (r: Self)
        ensures
            r@ == self@,
    {
        AgentContext {
            session_id: self.session_id,
            user_id: clone_opt_text(&self.user_id),
            metadata: self.metadata.clone(),
            encryption_key_id: self.encryption_key_id.clone(),
        }
    }
}

impl AgentContext {
    /// The context of a session under a key, without user or annotations.
    pub fn new(session_id: u128, encryption_key_id: String) -> (context: Self)
        ensures
            context@ == (AgentContextView {
                session_id,
                user_id: None,
                metadata: Map::empty(),
                encryption_key_id: encryption_key_id@,
            }),
    {
        AgentContext { session_id, user_id: None, metadata: Metadata::new(), encryption_key_id }
    }

    /// The same context for the user `user_id`.
    pub fn with_user_id(self, user_id: String) -> (context: Self)
        ensures
            context@ == (AgentContextView { user_id: Some(user_id@), ..self@ }),
    {
        let mut context = self;
        context.user_id = Some(user_id);
        context
    }

    /// The same context with `value` annotated at `key`.
    pub fn with_metadata(self, key: String, value: String) -> (context: Self)
        ensures
            context@ == (AgentContextView {
                metadata: self@.metadata.insert(key@, value@),
                ..self@
            }),
    {
        let mut context = self;
        context.metadata.insert(key, value);
        context
    }
}

/// Where an agent stands in its life.
#[derive(Clone, Copy, Debug, PartialEq, Eq, Structural)]
pub enum AgentStatus {
    Initializing,
    Ready,
    Processing,
    Error,
    Shutdown,
}

/// How an agent is set up.
#[derive(Debug)]
pub struct AgentConfig {
    pub name: String,
    pub version: String,
    pub capabilities: Vec<String>,
    pub timeout_seconds: u64,
    pub max_retries: u32,
}

impl Default for AgentConfig {
    /// The default agent: it encrypts and decrypts, waits 30 seconds and
    /// retries three times.
    fn default() -> (config: Self)
        ensures
            config.name@ == "default_agent"@,
            config.version@ == "1.0.0"@,
            config.capabilities@.map_values(|c: String| c@) == seq![
                "encryption"@,
                "decryption"@,
            ],
            config.timeout_seconds == 30,
            config.max_retries == 3,
    {
        let mut capabilities: Vec<String> = Vec::new();
        capabilities.push("encryption".to_string());
        capabilities.push("decryption".to_string());
        let config = AgentConfig {
            name: "default_agent".to_string(),
            version: "1.0.0".to_string(),
            capabilities,
            timeout_seconds: 30,
            max_retries: 3,
        };
        proof {
            assert(config.capabilities@.map_values(|c: String| c@) =~= seq![
                "encryption"@,
                "decryption"@,
            ]);
        }
        config
    }
}

} // verus!
