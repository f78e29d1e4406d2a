//! The response agent: decrypts a response under the session's key,
//! validates the plaintext, and records the operation in the ledger.

use vstd::prelude::*;
use vstd::string::StringExecFns;
use vstd::utf8::encode_utf8;
use crate::agents::shared::{AgentContext, AgentContextView};
use crate::error::{DreasError, DreasErrorView};
use crate::metadata::Metadata;
use crate::security::audit::{AuditLogger, AuditResult};
use crate::security::kms::{decrypt_text_with_key, plaintext_text_of};
use crate::text::{clone_opt_text, decimal, decimal_text};
use crate::time::Timestamp;
use crate::unique_id::{fresh_id, hyphenated_text, id_text};

verus! {

/// The longest decrypted response that an agent takes, in bytes.
pub const MAX_RESPONSE_LEN: usize = 50_000;

/// An agent that processes the responses of one session.
#[derive(Debug)]
pub struct ResponseAgent {
    id: u128,
    context: AgentContext,
    encryption_enabled: bool,
}

/// The mathematical value of a [`ResponseAgent`].
pub struct ResponseAgentView {
    pub id: u128,
    pub context: AgentContextView,
    pub encryption_enabled: bool,
}

impl View for ResponseAgent {
    type V = ResponseAgentView;

    closed spec fn view(&self) -> ResponseAgentView {
        ResponseAgentView {
            id: self.id,
            context: self.context@,
            encryption_enabled: self.encryption_enabled,
        }
    }
}

impl Clone for ResponseAgent {
    fn clone(&self) -> (r: Self)
        ensures
            r@ == self@,
    {
        ResponseAgent {
            id: self.id,
            context: self.context.clone(),
            encryption_enabled: self.encryption_enabled,
        }
    }
}

/// What a processed response carries along.
#[derive(Debug)]
pub struct ResponseResult {
    pub agent_id: u128,
    pub response_hash: String,
    pub decrypted_response: String,
    pub timestamp: Timestamp,
    pub metadata: Metadata,
}

/// The plaintext of a response: what it decrypts to where encryption is
/// enabled, the response itself where it is not. Nothing where it does
/// not decrypt.
pub open spec fn response_plaintext(encryption_enabled: bool, response: Seq<char>) -> Option<
    Seq<char>,
> {
    if encryption_enabled {
        plaintext_text_of(encode_utf8(response))
    } else {
        Some(response)
    }
}

/// The complaint about a plaintext: it is empty, or longer than the limit.
pub open spec fn response_fault(plaintext: Seq<char>) -> Option<Seq<char>> {
    if plaintext.len() == 0 {
        Some("Response cannot be empty"@)
    } else if encode_utf8(plaintext).len() > MAX_RESPONSE_LEN {
        Some("Response too long"@)
    } else {
        None
    }
}

/// What the caller gets for a processed response.
pub open spec fn processed_response(plaintext: Seq<char>) -> Seq<char> {
    "Processed response: "@ + plaintext
}

/// The annotations of the audit entry for a response: the agent and the
/// length of what came in and, once known, of its plaintext; never the
/// content.
pub open spec fn response_annotations(
    agent: ResponseAgentView,
    response: Seq<char>,
    plaintext: Option<Seq<char>>,
) -> Map<Seq<char>, Seq<char>> {
    let base = Map::<Seq<char>, Seq<char>>::empty().insert(
        "agent_id"@,
        hyphenated_text(agent.id),
    ).insert("encrypted_length"@, decimal_text(encode_utf8(response).len()));
    match plaintext {
        Some(p) => base.insert("decrypted_length"@, decimal_text(encode_utf8(p).len())),
        None => base,
    }
}

/// `after` is `before` with one more entry, tagged `response_processed`,
/// for `response` handled by `agent`.
pub open spec fn response_logged(
    agent: ResponseAgentView,
    response: Seq<char>,
    result: AuditResult,
    before: AuditLogger,
    after: AuditLogger,
) -> bool {
    after.logged(
        &before,
        agent.context.user_id,
        Some(hyphenated_text(agent.context.session_id)),
        "response_processed"@,
        agent.context.encryption_key_id,
        result,
        response_annotations(
            agent,
            response,
            response_plaintext(agent.encryption_enabled, response),
        ),
    )
}

/// What processing `response` by `agent` does. The response is accepted
/// exactly if it decrypts and its plaintext has no fault; the ledger then
/// gets one `Success` entry before the caller gets the processed form. A
/// response that does not decrypt is rejected with a decryption error, a
/// faulty plaintext with a validation error. A rejection after a
/// decryption was tried leaves one `Failure` entry; a rejection without
/// one leaves the ledger as it was.
pub open spec fn response_pipeline(
    agent: ResponseAgentView,
    response: Seq<char>,
    before: AuditLogger,
    after: AuditLogger,
    r: Result<String, DreasError>,
) -> bool {
    let plaintext = response_plaintext(agent.encryption_enabled, response);
    match r {
        Ok(text) => {
            &&& plaintext is Some
            &&& response_fault(plaintext->0) is None
            &&& text@ == processed_response(plaintext->0)
            &&& response_logged(agent, response, AuditResult::Success, before, after)
        },
        Err(e) => {
            &&& match plaintext {
                Some(p) => response_fault(p) is Some && e@ == DreasErrorView::Validation(
                    response_fault(p)->0,
                ),
                None => e@ is KmsDecryption,
            }
            &&& if agent.encryption_enabled {
                response_logged(agent, response, AuditResult::Failure, before, after)
            } else {
                after == before
            }
        },
    }
}

impl ResponseAgent {
    /// A new agent for `context` under a fresh identity, with encryption
    /// enabled.
    pub fn new(context: AgentContext) -> (agent: Self)
        ensures
            agent@.context == context@,
            agent@.encryption_enabled,
    {
        ResponseAgent { id: fresh_id(), context, encryption_enabled: true }
    }

    /// The agent's identity.
    pub fn id(&self) -> (id: u128)
        ensures
            id == self@.id,
    {
        self.id
    }

    /// Whether the agent decrypts.
    pub fn encryption_enabled(&self) -> (enabled: bool)
        ensures
            enabled == self@.encryption_enabled,
    {
        self.encryption_enabled
    }

    /// Turns encryption on or off for the calls that follow.
    pub fn set_encryption(&mut self, enabled: bool)
        ensures
            final(self)@ == (ResponseAgentView { encryption_enabled: enabled, ..old(self)@ }),
    {
        self.encryption_enabled = enabled;
    }

    /// Checks a decrypted response: it must not be empty and not longer
    /// than the limit.
    pub fn validate_response(&self, response: &String) -> (r: Result<(), DreasError>)
        ensures
            match r {
                Ok(_) => response_fault(response@) is None,
                Err(e) => response_fault(response@) is Some && e@ == DreasErrorView::Validation(
                    response_fault(response@)->0,
                ),
            },
    {
        if response.as_str().is_empty() {
            return Err(DreasError::Validation("Response cannot be empty".to_string()));
        }
        if response.as_str().as_bytes().len() > MAX_RESPONSE_LEN {
            return Err(DreasError::Validation("Response too long".to_string()));
        }
        Ok(())
    }

    /// Decrypts a response under the session's key.
    fn decrypt_response(&self, encrypted_response: &String) -> (r: Result<String, DreasError>)
        ensures
            match r {
                Ok(text) => plaintext_text_of(encode_utf8(encrypted_response@)) == Some(text@),
                Err(e) => plaintext_text_of(encode_utf8(encrypted_response@)) is None && e@
                    is KmsDecryption,
            },
    {
        decrypt_text_with_key(
            &self.context.encryption_key_id,
            encrypted_response.as_str().as_bytes(),
        )
    }

    /// Writes the ledger entry for a response that was handled with
    /// `result`.
    fn audit_response_processing(
        &self,
        encrypted_response: &String,
        decrypted_response: Option<&String>,
        result: AuditResult,
        ledger: &mut AuditLogger,
    )
        requires
            (match decrypted_response {
                Some(text) => Some(text@),
                None => None,
            }) == response_plaintext(self@.encryption_enabled, encrypted_response@),
        ensures
            response_logged(self@, encrypted_response@, result, *old(ledger), *final(ledger)),
    {
        let mut metadata = Metadata::new();
        metadata.insert("agent_id".to_string(), id_text(self.id));
        metadata.insert(
            "encrypted_length".to_string(),
            decimal(encrypted_response.as_str().as_bytes().len()),
        );
        if let Some(text) = decrypted_response {
            metadata.insert(
                "decrypted_length".to_string(),
                decimal(text.as_str().as_bytes().len()),
            );
        }
        let _ = ledger.log_operation(
            clone_opt_text(&self.context.user_id),
            Some(id_text(self.context.session_id)),
            "response_processed".to_string(),
            self.context.encryption_key_id.clone(),
            result,
            Some(metadata),
        );
    }

    /// Processes a response: decrypts it where encryption is enabled,
    /// validates the plaintext, records the operation, and returns the
    /// processed form.
    pub fn process_response(&self, response: String, ledger: &mut AuditLogger) -> (r: Result<
        String,
        DreasError,
    >)
        ensures
            response_pipeline(self@, response@, *old(ledger), *final(ledger), r),
    {
        let decrypted_response = if self.encryption_enabled {
            match self.decrypt_response(&response) {
                Ok(text) => text,
                Err(e) => {
                    self.audit_response_processing(&response, None, AuditResult::Failure, ledger);
                    return Err(e);
                },
            }
        } else {
            response.clone()
        };
        match self.validate_response(&decrypted_response) {
            Ok(_) => {},
            Err(e) => {
                if self.encryption_enabled {
                    self.audit_response_processing(
                        &response,
                        Some(&decrypted_response),
                        AuditResult::Failure,
                        ledger,
                    );
                }
                return Err(e);
            },
        }
        self.audit_response_processing(
            &response,
            Some(&decrypted_response),
            AuditResult::Success,
            ledger,
        );
        let mut processed = String::from_str("Processed response: ");
        processed.append(decrypted_response.as_str());
        Ok(processed)
    }
}

} // verus!
