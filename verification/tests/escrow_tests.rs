use dreas::error::DreasError;
use dreas::security::audit::{AuditEntry, AuditQuery, AuditResult};
use dreas::security::escrow::{EscrowSignature, RecoveryRequest};
use dreas::security::{AuditLogger, KeyEscrow};
use dreas::time::Timestamp;

fn at(secs: i64) -> Timestamp {
    Timestamp::new(secs, 0)
}

fn parties() -> Vec<String> {
    vec!["A".to_string(), "B".to_string(), "C".to_string()]
}

fn request(key_id: &str, signers: &[&str]) -> RecoveryRequest {
    RecoveryRequest {
        request_id: 0xa1a2a3a4b1b2c1c2d1d2d3d4d5d6d7d8,
        requester: "operator".to_string(),
        key_id: key_id.to_string(),
        reason: "lost primary key".to_string(),
        signatures: signers
            .iter()
            .map(|s| EscrowSignature {
                signer: s.to_string(),
                signature: format!("sig-{}", s),
                timestamp: at(1_000),
            })
            .collect(),
        timestamp: at(1_000),
    }
}

fn all_entries(ledger: &AuditLogger) -> Vec<AuditEntry> {
    ledger
        .query_audit_entries(AuditQuery {
            start_date: None,
            end_date: None,
            user_id: None,
            action: None,
            resource: None,
            result: None,
            limit: None,
        })
        .unwrap()
}

fn store_with_key_1() -> (KeyEscrow, AuditLogger) {
    let mut escrow = KeyEscrow::new(parties(), 2).unwrap();
    let mut ledger = AuditLogger::new(30);
    escrow
        .escrow_key_at("key-1".to_string(), b"stored ciphertext".to_vec(), None, at(500), &mut ledger)
        .unwrap();
    (escrow, ledger)
}

#[test]
fn threshold_above_the_parties_is_a_configuration_error() {
    match KeyEscrow::new(parties(), 4).unwrap_err() {
        DreasError::Configuration(message) => assert_eq!(
            message,
            "Minimum signatures cannot exceed number of authorized parties"
        ),
        other => panic!("unexpected error: {:?}", other),
    }
    assert!(KeyEscrow::new(parties(), 3).is_ok());
    assert!(KeyEscrow::new(vec![], 0).is_ok());
}

#[test]
fn recovery_with_two_authorized_signers_returns_the_stored_ciphertext() {
    let (escrow, mut ledger) = store_with_key_1();
    let result = escrow.recover_key_at(request("key-1", &["A", "B"]), at(1_000), &mut ledger);
    assert_eq!(result.unwrap(), b"stored ciphertext".to_vec());
}

#[test]
fn recovery_with_one_signer_cites_insufficient_signatures() {
    let (escrow, mut ledger) = store_with_key_1();
    match escrow.recover_key_at(request("key-1", &["A"]), at(1_000), &mut ledger).unwrap_err() {
        DreasError::Authentication(message) => {
            assert_eq!(message, "Insufficient signatures. Required: 2, Provided: 1")
        }
        other => panic!("unexpected error: {:?}", other),
    }
}

#[test]
fn recovery_with_an_unauthorized_signer_cites_the_signer() {
    let (escrow, mut ledger) = store_with_key_1();
    match escrow.recover_key_at(request("key-1", &["A", "D"]), at(1_000), &mut ledger).unwrap_err()
    {
        DreasError::Authentication(message) => assert_eq!(message, "Unauthorized signer: D"),
        other => panic!("unexpected error: {:?}", other),
    }
}

#[test]
fn the_first_unauthorized_signer_is_the_one_named() {
    let (escrow, mut ledger) = store_with_key_1();
    match escrow
        .recover_key_at(request("key-1", &["A", "X", "B", "Y"]), at(1_000), &mut ledger)
        .unwrap_err()
    {
        DreasError::Authentication(message) => assert_eq!(message, "Unauthorized signer: X"),
        other => panic!("unexpected error: {:?}", other),
    }
}

#[test]
fn expiry_rejects_even_a_fully_signed_request() {
    let mut escrow = KeyEscrow::new(parties(), 2).unwrap();
    let mut ledger = AuditLogger::new(30);
    escrow
        .escrow_key_at("key-x".to_string(), vec![1, 2, 3], Some(at(900)), at(100), &mut ledger)
        .unwrap();

    // At the expiry itself the entry is still good.
    assert_eq!(
        escrow.recover_key_at(request("key-x", &["A", "B"]), at(900), &mut ledger).unwrap(),
        vec![1, 2, 3]
    );
    // One nanosecond later it is not.
    let just_after = Timestamp::new(900, 1);
    match escrow.recover_key_at(request("key-x", &["A", "B"]), just_after, &mut ledger).unwrap_err()
    {
        DreasError::Expired(message) => assert_eq!(message, "Escrowed key has expired"),
        other => panic!("unexpected error: {:?}", other),
    }
    // Expiry is checked before the signatures.
    match escrow.recover_key_at(request("key-x", &["A"]), at(5_000), &mut ledger).unwrap_err() {
        DreasError::Expired(_) => {}
        other => panic!("unexpected error: {:?}", other),
    }
}

#[test]
fn unknown_key_is_not_found() {
    let (escrow, mut ledger) = store_with_key_1();
    match escrow.recover_key_at(request("key-9", &["A", "B"]), at(1_000), &mut ledger).unwrap_err()
    {
        DreasError::Generic(message) => assert_eq!(message, "Key key-9 not found in escrow"),
        other => panic!("unexpected error: {:?}", other),
    }
}

#[test]
fn empty_request_fields_are_validation_errors_in_order() {
    let (escrow, mut ledger) = store_with_key_1();

    let mut r = request("", &["A", "B"]);
    r.reason = String::new();
    r.requester = String::new();
    match escrow.recover_key_at(r, at(1_000), &mut ledger).unwrap_err() {
        DreasError::Validation(message) => assert_eq!(message, "Key ID cannot be empty"),
        other => panic!("unexpected error: {:?}", other),
    }

    let mut r = request("key-1", &["A", "B"]);
    r.reason = String::new();
    r.requester = String::new();
    match escrow.recover_key_at(r, at(1_000), &mut ledger).unwrap_err() {
        DreasError::Validation(message) => assert_eq!(message, "Recovery reason cannot be empty"),
        other => panic!("unexpected error: {:?}", other),
    }

    let mut r = request("key-1", &["A", "B"]);
    r.requester = String::new();
    match escrow.recover_key_at(r, at(1_000), &mut ledger).unwrap_err() {
        DreasError::Validation(message) => assert_eq!(message, "Requester cannot be empty"),
        other => panic!("unexpected error: {:?}", other),
    }
}

#[test]
fn the_separate_checks_agree_with_the_decision() {
    let (escrow, _) = store_with_key_1();
    assert!(escrow.validate_recovery_request(&request("key-1", &[])).is_ok());
    assert!(escrow.validate_signatures(&request("key-1", &["C", "A"])).is_ok());
    assert!(escrow.validate_signatures(&request("key-1", &["C"])).is_err());
    assert!(escrow.is_authorized(&"B".to_string()));
    assert!(!escrow.is_authorized(&"b".to_string()));
    assert_eq!(
        escrow.decide_recovery(&request("key-1", &["B", "C"]), at(0)).unwrap(),
        b"stored ciphertext".to_vec()
    );
}

#[test]
fn threshold_zero_grants_an_unsigned_request() {
    let mut escrow = KeyEscrow::new(parties(), 0).unwrap();
    let mut ledger = AuditLogger::new(30);
    escrow.escrow_key_at("k".to_string(), vec![9], None, at(1), &mut ledger).unwrap();
    assert_eq!(escrow.recover_key_at(request("k", &[]), at(2), &mut ledger).unwrap(), vec![9]);
}

#[test]
fn escrow_of_the_same_id_overwrites() {
    let mut escrow = KeyEscrow::new(parties(), 1).unwrap();
    let mut ledger = AuditLogger::new(30);
    escrow.escrow_key_at("a".to_string(), vec![1], None, at(1), &mut ledger).unwrap();
    escrow.escrow_key_at("b".to_string(), vec![2], None, at(2), &mut ledger).unwrap();
    escrow.escrow_key_at("a".to_string(), vec![3], None, at(3), &mut ledger).unwrap();

    assert_eq!(escrow.list_escrowed_keys(), vec!["a".to_string(), "b".to_string()]);
    assert_eq!(escrow.recover_key_at(request("a", &["A"]), at(4), &mut ledger).unwrap(), vec![3]);

    let stats = escrow.get_escrow_stats();
    assert_eq!(stats.total_keys, 2);
    assert_eq!(stats.authorized_parties, 3);
    assert_eq!(stats.minimum_signatures, 1);
}

#[test]
fn every_attempt_leaves_exactly_one_ledger_entry() {
    let mut escrow = KeyEscrow::new(parties(), 2).unwrap();
    let mut ledger = AuditLogger::new(30);
    assert_eq!(all_entries(&ledger).len(), 0);

    escrow.escrow_key("key-1".to_string(), vec![1], None, &mut ledger).unwrap();
    let entries = all_entries(&ledger);
    assert_eq!(entries.len(), 1);
    assert_eq!(entries[0].action, "key_escrow");
    assert_eq!(entries[0].resource, "key-1");
    assert_eq!(entries[0].result, AuditResult::Success);
    assert!(entries[0].elevated);
    assert_eq!(entries[0].metadata.len(), 1);
    assert!(entries[0].metadata.contains_key(&"escrow_id".to_string()));

    let granted = escrow.recover_key(request("key-1", &["A", "B"]), &mut ledger);
    assert!(granted.is_ok());
    let rejected = escrow.recover_key(request("key-1", &["A"]), &mut ledger);
    assert!(rejected.is_err());

    let stats = ledger.get_audit_stats();
    assert_eq!(stats.total_entries, 3);

    let recoveries = ledger
        .query_audit_entries(AuditQuery {
            start_date: None,
            end_date: None,
            user_id: Some("operator".to_string()),
            action: Some("key_recovery".to_string()),
            resource: Some("key-1".to_string()),
            result: None,
            limit: None,
        })
        .unwrap();
    assert_eq!(recoveries.len(), 2);
    let successes =
        recoveries.iter().filter(|e| e.result == AuditResult::Success).count();
    let failures = recoveries.iter().filter(|e| e.result == AuditResult::Failure).count();
    assert_eq!((successes, failures), (1, 1));
    for entry in &recoveries {
        assert!(entry.elevated);
        assert_eq!(
            entry.metadata.get(&"request_id".to_string()).unwrap(),
            "a1a2a3a4-b1b2-c1c2-d1d2-d3d4d5d6d7d8"
        );
        assert_eq!(entry.metadata.get(&"reason".to_string()).unwrap(), "lost primary key");
    }
    let counts: Vec<String> = recoveries
        .iter()
        .map(|e| e.metadata.get(&"signature_count".to_string()).unwrap().clone())
        .collect();
    assert!(counts.contains(&"2".to_string()));
    assert!(counts.contains(&"1".to_string()));
}
