use dreas::agents::shared::{AgentConfig, AgentContext, AgentStatus};
use dreas::agents::{PromptAgent, ResponseAgent};
use dreas::error::DreasError;
use dreas::security::audit::{AuditEntry, AuditQuery, AuditResult};
use dreas::security::AuditLogger;

const SESSION: u128 = 0x0123456789abcdef0123456789abcdef;
const SESSION_TEXT: &str = "01234567-89ab-cdef-0123-456789abcdef";

fn context() -> AgentContext {
    AgentContext::new(SESSION, "key-7".to_string()).with_user_id("alice".to_string())
}

fn all_entries(ledger: &AuditLogger) -> Vec<AuditEntry> {
    ledger
        .query_audit_entries(AuditQuery {
            start_date: None,
            end_date: None,
            user_id: None,
            action: None,
            resource: None,
            result: None,
            limit: None,
        })
        .unwrap()
}

fn note(entry: &AuditEntry, key: &str) -> String {
    entry.metadata.get(&key.to_string()).unwrap().clone()
}

#[test]
fn context_builders_set_their_fields() {
    let c = AgentContext::new(5, "k".to_string());
    assert_eq!(c.session_id, 5);
    assert_eq!(c.user_id, None);
    assert_eq!(c.metadata.len(), 0);
    assert_eq!(c.encryption_key_id, "k");

    let c = c
        .with_user_id("u".to_string())
        .with_metadata("a".to_string(), "1".to_string())
        .with_metadata("b".to_string(), "2".to_string())
        .with_metadata("a".to_string(), "3".to_string());
    assert_eq!(c.user_id.as_deref(), Some("u"));
    assert_eq!(c.metadata.len(), 2);
    assert_eq!(c.metadata.get(&"a".to_string()).unwrap(), "3");
    assert_eq!(c.metadata.get(&"b".to_string()).unwrap(), "2");

    let copy = c.clone();
    assert_eq!(copy.session_id, 5);
    assert_eq!(copy.user_id.as_deref(), Some("u"));
    assert_eq!(copy.metadata.get(&"a".to_string()).unwrap(), "3");
    assert_eq!(copy.encryption_key_id, "k");
}

#[test]
fn default_agent_config() {
    let config = AgentConfig::default();
    assert_eq!(config.name, "default_agent");
    assert_eq!(config.version, "1.0.0");
    assert_eq!(config.capabilities, vec!["encryption".to_string(), "decryption".to_string()]);
    assert_eq!(config.timeout_seconds, 30);
    assert_eq!(config.max_retries, 3);
    assert_ne!(AgentStatus::Ready, AgentStatus::Shutdown);
}

#[test]
fn new_agents_encrypt_and_have_fresh_version_four_identities() {
    let a = PromptAgent::new(context());
    let b = PromptAgent::new(context());
    let c = ResponseAgent::new(context());
    assert!(a.encryption_enabled());
    assert!(c.encryption_enabled());
    assert_ne!(a.id(), b.id());
    assert_ne!(a.id(), c.id());
    for id in [a.id(), b.id(), c.id()] {
        assert_eq!((id >> 76) & 0xf, 4);
        assert_eq!((id >> 62) & 0x3, 2);
    }
}

#[test]
fn empty_prompt_is_rejected_and_leaves_no_entry() {
    let agent = PromptAgent::new(context());
    assert!(agent.encryption_enabled());
    let mut ledger = AuditLogger::new(30);
    match agent.process_prompt(String::new(), &mut ledger).unwrap_err() {
        DreasError::Validation(message) => assert_eq!(message, "Prompt cannot be empty"),
        other => panic!("unexpected error: {:?}", other),
    }
    assert_eq!(ledger.get_audit_stats().total_entries, 0);
}

#[test]
fn prompt_length_limit_is_ten_thousand_bytes() {
    let agent = PromptAgent::new(context());
    let mut ledger = AuditLogger::new(30);
    assert!(agent.process_prompt("x".repeat(10_000), &mut ledger).is_ok());
    match agent.process_prompt("x".repeat(10_001), &mut ledger).unwrap_err() {
        DreasError::Validation(message) => assert_eq!(message, "Prompt too long"),
        other => panic!("unexpected error: {:?}", other),
    }
    // The limit counts bytes: 5,000 two-byte characters fit, 5,001 do not.
    assert!(agent.validate_prompt(&"é".repeat(5_000)).is_ok());
    assert!(agent.validate_prompt(&"é".repeat(5_001)).is_err());
    assert_eq!(ledger.get_audit_stats().total_entries, 1);
}

#[test]
fn processed_prompt_is_returned_and_audited_with_lengths() {
    let agent = PromptAgent::new(context());
    let mut ledger = AuditLogger::new(30);
    let out = agent.process_prompt("Hello".to_string(), &mut ledger).unwrap();
    assert_eq!(out, "Processed prompt: Hello");

    let entries = all_entries(&ledger);
    assert_eq!(entries.len(), 1);
    let e = &entries[0];
    assert_eq!(e.action, "prompt_processed");
    assert_eq!(e.resource, "key-7");
    assert_eq!(e.result, AuditResult::Success);
    assert_eq!(e.user_id.as_deref(), Some("alice"));
    assert_eq!(e.session_id.as_deref(), Some(SESSION_TEXT));
    assert!(!e.elevated);
    assert_eq!(e.metadata.len(), 3);
    assert_eq!(note(e, "agent_id"), uuid::Uuid::from_u128(agent.id()).to_string());
    assert_eq!(note(e, "prompt_length"), "5");
    // "Hello" encodes to "SGVsbG8=".
    assert_eq!(note(e, "encrypted_length"), "8");
}

#[test]
fn without_encryption_the_prompt_passes_through() {
    let mut agent = PromptAgent::new(context());
    agent.set_encryption(false);
    assert!(!agent.encryption_enabled());
    let mut ledger = AuditLogger::new(30);
    let out = agent.process_prompt("Hello".to_string(), &mut ledger).unwrap();
    assert_eq!(out, "Processed prompt: Hello");
    let entries = all_entries(&ledger);
    assert_eq!(note(&entries[0], "prompt_length"), "5");
    assert_eq!(note(&entries[0], "encrypted_length"), "5");
    // Validation does not depend on the toggle.
    assert!(agent.process_prompt(String::new(), &mut ledger).is_err());
    assert_eq!(ledger.get_audit_stats().total_entries, 1);
}

#[test]
fn response_is_decrypted_validated_and_audited() {
    let agent = ResponseAgent::new(context());
    let mut ledger = AuditLogger::new(30);
    // "SGVsbG8gdGhlcmU=" is "Hello there".
    let out = agent.process_response("SGVsbG8gdGhlcmU=".to_string(), &mut ledger).unwrap();
    assert_eq!(out, "Processed response: Hello there");

    let entries = all_entries(&ledger);
    assert_eq!(entries.len(), 1);
    let e = &entries[0];
    assert_eq!(e.action, "response_processed");
    assert_eq!(e.resource, "key-7");
    assert_eq!(e.result, AuditResult::Success);
    assert_eq!(e.user_id.as_deref(), Some("alice"));
    assert_eq!(e.session_id.as_deref(), Some(SESSION_TEXT));
    assert_eq!(e.metadata.len(), 3);
    assert_eq!(note(e, "agent_id"), uuid::Uuid::from_u128(agent.id()).to_string());
    assert_eq!(note(e, "encrypted_length"), "16");
    assert_eq!(note(e, "decrypted_length"), "11");
}

#[test]
fn response_that_does_not_decrypt_is_a_key_service_error_with_a_failure_entry() {
    let agent = ResponseAgent::new(context());
    let mut ledger = AuditLogger::new(30);
    match agent.process_response("Test response".to_string(), &mut ledger).unwrap_err() {
        DreasError::KmsDecryption(_) => {}
        other => panic!("unexpected error: {:?}", other),
    }
    let entries = all_entries(&ledger);
    assert_eq!(entries.len(), 1);
    assert_eq!(entries[0].action, "response_processed");
    assert_eq!(entries[0].result, AuditResult::Failure);
    assert_eq!(entries[0].metadata.len(), 2);
    assert_eq!(note(&entries[0], "encrypted_length"), "13");
}

#[test]
fn response_is_validated_after_decryption() {
    let agent = ResponseAgent::new(context());
    let mut ledger = AuditLogger::new(30);

    // The empty ciphertext decrypts to the empty plaintext.
    match agent.process_response(String::new(), &mut ledger).unwrap_err() {
        DreasError::Validation(message) => assert_eq!(message, "Response cannot be empty"),
        other => panic!("unexpected error: {:?}", other),
    }
    let entries = all_entries(&ledger);
    assert_eq!(entries.len(), 1);
    assert_eq!(entries[0].result, AuditResult::Failure);
    assert_eq!(note(&entries[0], "decrypted_length"), "0");

    // 50,001 bytes of plaintext are too long; their ciphertext is longer still.
    let long = base64_of(&vec![b'a'; 50_001]);
    match agent.process_response(long, &mut ledger).unwrap_err() {
        DreasError::Validation(message) => assert_eq!(message, "Response too long"),
        other => panic!("unexpected error: {:?}", other),
    }
    // 50,000 bytes pass although the ciphertext has 66,668.
    let fits = base64_of(&vec![b'a'; 50_000]);
    assert_eq!(fits.len(), 66_668);
    assert!(agent.process_response(fits, &mut ledger).is_ok());
    assert_eq!(ledger.get_audit_stats().total_entries, 3);
}

#[allow(deprecated)]
fn base64_of(bytes: &[u8]) -> String {
    base64::encode(bytes)
}

#[test]
fn without_encryption_a_rejected_response_leaves_no_entry() {
    let mut agent = ResponseAgent::new(context());
    agent.set_encryption(false);
    let mut ledger = AuditLogger::new(30);
    assert!(agent.process_response(String::new(), &mut ledger).is_err());
    assert!(agent.process_response("y".repeat(50_001), &mut ledger).is_err());
    assert_eq!(ledger.get_audit_stats().total_entries, 0);

    let out = agent.process_response("Test response".to_string(), &mut ledger).unwrap();
    assert_eq!(out, "Processed response: Test response");
    let entries = all_entries(&ledger);
    assert_eq!(entries.len(), 1);
    assert_eq!(note(&entries[0], "encrypted_length"), "13");
    assert_eq!(note(&entries[0], "decrypted_length"), "13");
}

#[test]
fn prompt_and_response_agents_round_trip_through_the_key_service() {
    let kms_key = "key-7".to_string();
    let envelope = dreas::security::kms::encrypt_with_key(&kms_key, "secret answer".as_bytes())
        .unwrap();
    let agent = ResponseAgent::new(context());
    let mut ledger = AuditLogger::new(30);
    let out = agent
        .process_response(String::from_utf8(envelope.ciphertext).unwrap(), &mut ledger)
        .unwrap();
    assert_eq!(out, "Processed response: secret answer");
}
