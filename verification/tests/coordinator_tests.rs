use dreas::agents::coordinator::{ConsumerState, CoordinatorCommand};
use dreas::agents::shared::AgentContext;
use dreas::agents::{AgentCoordinator, PromptAgent, ResponseAgent};
use dreas::error::DreasError;
use dreas::security::AuditLogger;

fn prompt_agent(key: &str) -> PromptAgent {
    PromptAgent::new(AgentContext::new(1, key.to_string()))
}

fn plain_response_agent(key: &str) -> ResponseAgent {
    let mut agent = ResponseAgent::new(AgentContext::new(1, key.to_string()));
    agent.set_encryption(false);
    agent
}

#[test]
fn unknown_identities_report_not_found() {
    let coordinator = AgentCoordinator::new();
    let mut ledger = AuditLogger::new(30);
    match coordinator.process_prompt(42, "hi".to_string(), &mut ledger).unwrap_err() {
        DreasError::AgentCoordination(message) => assert_eq!(
            message,
            "Prompt agent 00000000-0000-0000-0000-00000000002a not found"
        ),
        other => panic!("unexpected error: {:?}", other),
    }
    match coordinator
        .process_response(0xa1a2a3a4b1b2c1c2d1d2d3d4d5d6d7d8, "hi".to_string(), &mut ledger)
        .unwrap_err()
    {
        DreasError::AgentCoordination(message) => assert_eq!(
            message,
            "Response agent a1a2a3a4-b1b2-c1c2-d1d2-d3d4d5d6d7d8 not found"
        ),
        other => panic!("unexpected error: {:?}", other),
    }
    assert_eq!(ledger.get_audit_stats().total_entries, 0);
}

#[test]
fn a_registration_is_visible_once_the_consumer_took_it() {
    let mut coordinator = AgentCoordinator::new();
    let mut ledger = AuditLogger::new(30);
    let id = coordinator.register_prompt_agent(prompt_agent("k")).unwrap();
    assert_eq!(coordinator.pending_commands(), 1);

    // Submitted, not yet applied.
    assert!(coordinator.process_prompt(id, "hi".to_string(), &mut ledger).is_err());

    coordinator.start_event_loop(&mut ledger);
    assert_eq!(coordinator.pending_commands(), 0);
    assert_eq!(coordinator.state(), ConsumerState::Running);
    assert_eq!(
        coordinator.process_prompt(id, "hi".to_string(), &mut ledger).unwrap(),
        "Processed prompt: hi"
    );
    // The two registries are separate.
    assert!(coordinator.process_response(id, "hi".to_string(), &mut ledger).is_err());
}

#[test]
fn no_registration_is_lost_in_a_sequence() {
    let mut coordinator = AgentCoordinator::new();
    let mut ledger = AuditLogger::new(30);
    let mut prompt_ids = Vec::new();
    let mut response_ids = Vec::new();
    for i in 0..20 {
        prompt_ids.push(coordinator.register_prompt_agent(prompt_agent(&format!("p{}", i))).unwrap());
        response_ids.push(
            coordinator.register_response_agent(plain_response_agent(&format!("r{}", i))).unwrap(),
        );
        if i % 3 == 0 {
            coordinator.start_event_loop(&mut ledger);
        }
    }
    coordinator.start_event_loop(&mut ledger);
    for id in prompt_ids {
        assert!(coordinator.process_prompt(id, "x".to_string(), &mut ledger).is_ok());
    }
    for id in response_ids {
        assert!(coordinator.process_response(id, "x".to_string(), &mut ledger).is_ok());
    }
    assert_eq!(ledger.get_audit_stats().total_entries, 40);
}

#[test]
fn dispatch_resolves_to_the_registered_agents_pipeline() {
    let mut coordinator = AgentCoordinator::new();
    let mut ledger = AuditLogger::new(30);
    let mut plain = prompt_agent("plain-key");
    plain.set_encryption(false);
    let plain_id = coordinator.register_prompt_agent(plain).unwrap();
    let sealed_id = coordinator.register_prompt_agent(prompt_agent("sealed-key")).unwrap();
    coordinator.start_event_loop(&mut ledger);

    coordinator.process_prompt(plain_id, "abc".to_string(), &mut ledger).unwrap();
    coordinator.process_prompt(sealed_id, "abc".to_string(), &mut ledger).unwrap();
    let report = ledger
        .generate_report(dreas::time::Timestamp::new(i64::MIN, 0), dreas::time::Timestamp::new(i64::MAX, 0))
        .unwrap();
    assert_eq!(report.total_operations, 2);
    assert_eq!(report.action_breakdown.get(&"prompt_processed".to_string()), Some(&2));
}

#[test]
fn apply_command_is_the_consumers_step() {
    let mut coordinator = AgentCoordinator::new();
    let mut ledger = AuditLogger::new(30);

    let state = coordinator.apply_command(
        CoordinatorCommand::RegisterPromptAgent { id: 7, agent: prompt_agent("k") },
        &mut ledger,
    );
    assert_eq!(state, ConsumerState::Running);
    assert!(coordinator.process_prompt(7, "x".to_string(), &mut ledger).is_ok());
    assert_eq!(ledger.get_audit_stats().total_entries, 1);

    // A dispatch command writes through the ledger and keeps the consumer running.
    let state = coordinator.apply_command(
        CoordinatorCommand::ProcessPrompt { agent_id: 7, prompt: "y".to_string() },
        &mut ledger,
    );
    assert_eq!(state, ConsumerState::Running);
    assert_eq!(ledger.get_audit_stats().total_entries, 2);

    // A failing dispatch does not stop it either.
    for command in [
        CoordinatorCommand::ProcessPrompt { agent_id: 8, prompt: "y".to_string() },
        CoordinatorCommand::ProcessPrompt { agent_id: 7, prompt: String::new() },
        CoordinatorCommand::ProcessResponse { agent_id: 7, response: "z".to_string() },
    ] {
        assert_eq!(coordinator.apply_command(command, &mut ledger), ConsumerState::Running);
    }
    assert_eq!(ledger.get_audit_stats().total_entries, 2);

    // Registering again under the same identity replaces the agent.
    let mut plain = prompt_agent("other");
    plain.set_encryption(false);
    coordinator.apply_command(
        CoordinatorCommand::RegisterPromptAgent { id: 7, agent: plain },
        &mut ledger,
    );
    coordinator.process_prompt(7, "abc".to_string(), &mut ledger).unwrap();
    let newest = ledger
        .query_audit_entries(dreas::security::audit::AuditQuery {
            start_date: None,
            end_date: None,
            user_id: None,
            action: None,
            resource: Some("other".to_string()),
            result: None,
            limit: None,
        })
        .unwrap();
    assert_eq!(newest.len(), 1);

    assert_eq!(
        coordinator.apply_command(CoordinatorCommand::Shutdown, &mut ledger),
        ConsumerState::Terminated
    );
}

#[test]
fn shutdown_terminates_for_good_and_closes_the_stream() {
    let mut coordinator = AgentCoordinator::new();
    let mut ledger = AuditLogger::new(30);
    let before = coordinator.register_prompt_agent(prompt_agent("k")).unwrap();
    coordinator.start_event_loop(&mut ledger);

    assert_eq!(
        coordinator.apply_command(CoordinatorCommand::Shutdown, &mut ledger),
        ConsumerState::Terminated
    );
    assert_eq!(coordinator.state(), ConsumerState::Terminated);

    for result in [
        coordinator.register_prompt_agent(prompt_agent("k")),
        coordinator.register_response_agent(plain_response_agent("k")),
    ] {
        match result.unwrap_err() {
            DreasError::AgentCoordination(message) => {
                assert_eq!(message, "Failed to send registration command")
            }
            other => panic!("unexpected error: {:?}", other),
        }
    }
    assert_eq!(coordinator.pending_commands(), 0);

    // Terminated is absorbing: further commands change nothing.
    let state = coordinator.apply_command(
        CoordinatorCommand::RegisterPromptAgent { id: 99, agent: prompt_agent("k") },
        &mut ledger,
    );
    assert_eq!(state, ConsumerState::Terminated);
    assert!(coordinator.process_prompt(99, "x".to_string(), &mut ledger).is_err());

    // Dispatch to agents that were registered still works.
    assert!(coordinator.process_prompt(before, "x".to_string(), &mut ledger).is_ok());
}

#[test]
fn commands_behind_a_shutdown_are_dropped() {
    let mut coordinator = AgentCoordinator::new();
    let mut ledger = AuditLogger::new(30);
    let first = coordinator.register_prompt_agent(prompt_agent("k")).unwrap();
    coordinator.start_event_loop(&mut ledger);

    let second = coordinator.register_prompt_agent(prompt_agent("k")).unwrap();
    coordinator.apply_command(CoordinatorCommand::Shutdown, &mut ledger);
    coordinator.start_event_loop(&mut ledger);

    assert_eq!(coordinator.pending_commands(), 0);
    assert!(coordinator.process_prompt(first, "x".to_string(), &mut ledger).is_ok());
    assert!(coordinator.process_prompt(second, "x".to_string(), &mut ledger).is_err());
}
