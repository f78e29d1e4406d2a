//! The prompt agent: validates a prompt, encrypts it under the session's
//! key, and records the operation in the ledger.

use vstd::prelude::*;
use vstd::string::StringExecFns;
use vstd::utf8::encode_utf8;
use crate::agents::shared::{AgentContext, AgentContextView};
use crate::error::{DreasError, DreasErrorView};
use crate::metadata::Metadata;
use crate::security::audit::{AuditLogger, AuditResult};
use crate::security::kms::{ciphertext_of, copy_bytes, encrypt_with_key};
use crate::text::{clone_opt_text, decimal, decimal_text};
use crate::time::Timestamp;
use crate::unique_id::{fresh_id, hyphenated_text, id_text};

verus! {

/// The longest prompt that an agent takes, in bytes.
pub const MAX_PROMPT_LEN: usize = 10_000;

/// An agent that processes the prompts of one session.
#[derive(Debug)]
pub struct PromptAgent {
    id: u128,
    context: AgentContext,
    encryption_enabled: bool,
}

/// The mathematical value of a [`PromptAgent`].
pub struct PromptAgentView {
    pub id: u128,
    pub context: AgentContextView,
    pub encryption_enabled: bool,
}

impl View for PromptAgent {
    type V = PromptAgentView;

    closed spec fn view(&self) -> PromptAgentView {
        PromptAgentView {
            id: self.id,
            context: self.context@,
            encryption_enabled: self.encryption_enabled,
        }
    }
}

impl Clone for PromptAgent {
    fn clone(&self) -> (r: Self)
        ensures
            r@ == self@,
    {
        PromptAgent {
            id: self.id,
            context: self.context.clone(),
            encryption_enabled: self.encryption_enabled,
        }
    }
}

/// What a processed prompt carries along.
#[derive(Debug)]
pub struct PromptResult {
    pub agent_id: u128,
    pub prompt_hash: String,
    pub encrypted_prompt: Vec<u8>,
    pub timestamp: Timestamp,
    pub metadata: Metadata,
}

/// The complaint about a prompt: it is empty, or longer than the limit.
pub open spec fn prompt_fault(prompt: Seq<char>) -> Option<Seq<char>> {
    if prompt.len() == 0 {
        Some("Prompt cannot be empty"@)
    } else if encode_utf8(prompt).len() > MAX_PROMPT_LEN {
        Some("Prompt too long"@)
    } else {
        None
    }
}

/// What the agent hands on for a prompt: the bytes of its ciphertext where
/// encryption is enabled, its own bytes where it is not.
pub open spec fn transformed_prompt(encryption_enabled: bool, prompt: Seq<char>) -> Seq<u8> {
    if encryption_enabled {
        ciphertext_of(encode_utf8(prompt))
    } else {
        encode_utf8(prompt)
    }
}

/// What the caller gets for a processed prompt.
pub open spec fn processed_prompt(prompt: Seq<char>) -> Seq<char> {
    "Processed prompt: "@ + prompt
}

/// The annotations of the audit entry for a processed prompt: the agent
/// and the two lengths, never the content.
pub open spec fn prompt_annotations(agent: PromptAgentView, prompt: Seq<char>) -> Map<
    Seq<char>,
    Seq<char>,
> {
    Map::<Seq<char>, Seq<char>>::empty().insert("agent_id"@, hyphenated_text(agent.id)).insert(
        "prompt_length"@,
        decimal_text(encode_utf8(prompt).len()),
    ).insert(
        "encrypted_length"@,
        decimal_text(transformed_prompt(agent.encryption_enabled, prompt).len()),
    )
}

/// What processing `prompt` by `agent` does: a faulty prompt is rejected
/// with a validation error and leaves the ledger as it was; any other
/// prompt is accepted, and the ledger gets one `Success` entry tagged
/// `prompt_processed` before the caller gets the processed form.
pub open spec fn prompt_pipeline(
    agent: PromptAgentView,
    prompt: Seq<char>,
    before: AuditLogger,
    after: AuditLogger,
    r: Result<String, DreasError>,
) -> bool {
    match r {
        Ok(text) => {
            &&& prompt_fault(prompt) is None
            &&& text@ == processed_prompt(prompt)
            &&& after.logged(
                &before,
                agent.context.user_id,
                Some(hyphenated_text(agent.context.session_id)),
                "prompt_processed"@,
                agent.context.encryption_key_id,
                AuditResult::Success,
                prompt_annotations(agent, prompt),
            )
        },
        Err(e) => {
            &&& prompt_fault(prompt) is Some
            &&& e@ == DreasErrorView::Validation(prompt_fault(prompt)->0)
            &&& after == before
        },
    }
}

impl PromptAgent {
    /// A new agent for `context` under a fresh identity, with encryption
    /// enabled.
    pub fn new(context: AgentContext) -> (agent: Self)
        ensures
            agent@.context == context@,
            agent@.encryption_enabled,
    {
        PromptAgent { id: fresh_id(), context, encryption_enabled: true }
    }

    /// The agent's identity.
    pub fn id(&self) -> (id: u128)
        ensures
            id == self@.id,
    {
        self.id
    }

    /// Whether the agent encrypts.
    pub fn encryption_enabled(&self) -> (enabled: bool)
        ensures
            enabled == self@.encryption_enabled,
    {
        self.encryption_enabled
    }

    /// Turns encryption on or off for the calls that follow.
    pub fn set_encryption(&mut self, enabled: bool)
        ensures
            final(self)@ == (PromptAgentView { encryption_enabled: enabled, ..old(self)@ }),
    {
        self.encryption_enabled = enabled;
    }

    /// Checks a prompt: it must not be empty and not longer than the
    /// limit.
    pub fn validate_prompt(&self, prompt: &String) -> (r: Result<(), DreasError>)
        ensures
            match r {
                Ok(_) => prompt_fault(prompt@) is None,
                Err(e) => prompt_fault(prompt@) is Some && e@ == DreasErrorView::Validation(
                    prompt_fault(prompt@)->0,
                ),
            },
    {
        if prompt.as_str().is_empty() {
            return Err(DreasError::Validation("Prompt cannot be empty".to_string()));
        }
        if prompt.as_str().as_bytes().len() > MAX_PROMPT_LEN {
            return Err(DreasError::Validation("Prompt too long".to_string()));
        }
        Ok(())
    }

    /// Encrypts a valid prompt under the session's key.
    fn encrypt_prompt(&self, prompt: &String) -> (r: Result<Vec<u8>, DreasError>)
        requires
            prompt_fault(prompt@) is None,
        ensures
            r is Ok,
            r->Ok_0@ == ciphertext_of(encode_utf8(prompt@)),
    {
        match encrypt_with_key(&self.context.encryption_key_id, prompt.as_str().as_bytes()) {
            Ok(envelope) => Ok(envelope.ciphertext),
            Err(e) => Err(e),
        }
    }

    /// Writes the ledger entry for a processed prompt.
    fn audit_prompt_processing(
        &self,
        plain_prompt: &String,
        encrypted_prompt: &Vec<u8>,
        ledger: &mut AuditLogger,
    )
        requires
            encrypted_prompt@ == transformed_prompt(self@.encryption_enabled, plain_prompt@),
        ensures
            final(ledger).logged(
                old(ledger),
                self@.context.user_id,
                Some(hyphenated_text(self@.context.session_id)),
                "prompt_processed"@,
                self@.context.encryption_key_id,
                AuditResult::Success,
                prompt_annotations(self@, plain_prompt@),
            ),
    {
        let mut metadata = Metadata::new();
        metadata.insert("agent_id".to_string(), id_text(self.id));
        metadata.insert(
            "prompt_length".to_string(),
            decimal(plain_prompt.as_str().as_bytes().len()),
        );
        metadata.insert("encrypted_length".to_string(), decimal(encrypted_prompt.len()));
        let _ = ledger.log_operation(
            clone_opt_text(&self.context.user_id),
            Some(id_text(self.context.session_id)),
            "prompt_processed".to_string(),
            self.context.encryption_key_id.clone(),
            AuditResult::Success,
            Some(metadata),
        );
    }

    /// Processes a prompt: validates it, encrypts it where encryption is
    /// enabled, records the operation, and returns the processed form.
    pub fn process_prompt(&self, prompt: String, ledger: &mut AuditLogger) -> (r: Result<
        String,
        DreasError,
    >)
        ensures
            prompt_pipeline(self@, prompt@, *old(ledger), *final(ledger), r),
    {
        match self.validate_prompt(&prompt) {
            Ok(_) => {},
            Err(e) => {
                return Err(e);
            },
        }
        let encrypted_prompt = if self.encryption_enabled {
            match self.encrypt_prompt(&prompt) {
                Ok(bytes) => bytes,
                Err(e) => {
                    return Err(e);
                },
            }
        } else {
            copy_bytes(prompt.as_str().as_bytes())
        };
        self.audit_prompt_processing(&prompt, &encrypted_prompt, ledger);
        let mut processed = String::from_str("Processed prompt: ");
        processed.append(prompt.as_str());
        Ok(processed)
    }
}

} // verus!
