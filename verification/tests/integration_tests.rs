use dreas::agents::shared::AgentContext;
use dreas::agents::{AgentCoordinator, PromptAgent, ResponseAgent};
use dreas::config::AppConfig;
use dreas::security::audit::{AuditQuery, AuditResult};
use dreas::security::escrow::{EscrowSignature, RecoveryRequest};
use dreas::security::{AuditLogger, KeyEscrow, KmsClient};
use dreas::time::Timestamp;
use uuid::Uuid;

fn now() -> Timestamp {
    let t = chrono::Utc::now();
    Timestamp::new(t.timestamp(), t.timestamp_subsec_nanos())
}

fn hours_ago(hours: i64) -> Timestamp {
    let t = chrono::Utc::now() - chrono::Duration::hours(hours);
    Timestamp::new(t.timestamp(), t.timestamp_subsec_nanos())
}

#[test]
fn test_agent_coordination() {
    let mut coordinator = AgentCoordinator::new();
    let mut ledger = AuditLogger::new(30);

    let session_id = Uuid::new_v4().as_u128();
    let context = AgentContext::new(session_id, "test-key-id".to_string());

    let prompt_agent = PromptAgent::new(context.clone());
    let mut response_agent = ResponseAgent::new(context);
    response_agent.set_encryption(false);

    let prompt_agent_id = coordinator.register_prompt_agent(prompt_agent).unwrap();
    let response_agent_id = coordinator.register_response_agent(response_agent).unwrap();

    // The registrations are applied when the consumer takes them.
    coordinator.start_event_loop(&mut ledger);

    let prompt_result =
        coordinator.process_prompt(prompt_agent_id, "Test prompt".to_string(), &mut ledger);
    assert!(prompt_result.is_ok());

    let response_result =
        coordinator.process_response(response_agent_id, "Test response".to_string(), &mut ledger);
    assert!(response_result.is_ok());
}

#[test]
fn test_kms_client() {
    let kms_client = KmsClient::new(
        "test-project".to_string(),
        "us-central1".to_string(),
        "test-keyring".to_string(),
        "test-key".to_string(),
        "1".to_string(),
    );

    assert!(kms_client.validate_config().is_ok());

    let test_data = b"test data";
    let encrypted = kms_client.encrypt(test_data).unwrap();
    let decrypted = kms_client.decrypt(&encrypted.ciphertext).unwrap();

    assert_eq!(test_data, decrypted.plaintext.as_slice());
}

#[test]
fn test_key_escrow() {
    let authorized_parties =
        vec!["admin1".to_string(), "admin2".to_string(), "admin3".to_string()];
    let mut escrow = KeyEscrow::new(authorized_parties, 2).unwrap();
    let mut ledger = AuditLogger::new(30);

    let key_id = "test-key-123".to_string();
    let encrypted_key = b"encrypted key data".to_vec();

    assert!(escrow
        .escrow_key(key_id.clone(), encrypted_key.clone(), None, &mut ledger)
        .is_ok());

    let recovery_request = RecoveryRequest {
        request_id: Uuid::new_v4().as_u128(),
        requester: "admin1".to_string(),
        key_id: key_id.clone(),
        reason: "Emergency recovery".to_string(),
        signatures: vec![
            EscrowSignature {
                signer: "admin1".to_string(),
                signature: "signature1".to_string(),
                timestamp: now(),
            },
            EscrowSignature {
                signer: "admin2".to_string(),
                signature: "signature2".to_string(),
                timestamp: now(),
            },
        ],
        timestamp: now(),
    };

    let recovery_result = escrow.recover_key(recovery_request, &mut ledger);
    assert_eq!(recovery_result.unwrap(), encrypted_key);
}

#[test]
fn test_audit_logger() {
    let mut audit_logger = AuditLogger::new(30);

    let entry_id = audit_logger
        .log_operation(
            Some("user123".to_string()),
            Some("session456".to_string()),
            "data_access".to_string(),
            "sensitive_file.txt".to_string(),
            AuditResult::Success,
            None,
        )
        .unwrap();

    assert!(!Uuid::from_u128(entry_id).to_string().is_empty());

    let query = AuditQuery {
        start_date: Some(hours_ago(1)),
        end_date: Some(now()),
        user_id: Some("user123".to_string()),
        action: Some("data_access".to_string()),
        resource: None,
        result: None,
        limit: Some(10),
    };

    let entries = audit_logger.query_audit_entries(query).unwrap();
    assert!(!entries.is_empty());
}

#[test]
fn test_config_loading() {
    let default_config = AppConfig::default();
    assert!(default_config.validate().is_ok());

    let mut invalid_config = default_config.clone();
    invalid_config.gcp.project_id = String::new();
    assert!(invalid_config.validate().is_err());
}
