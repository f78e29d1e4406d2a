//! The agent coordinator: two registries of agents, a queue of commands
//! that alone may change them, and dispatch that only reads them.
//!
//! Registration is submitted first and applied later, when the consumer
//! reaches the command. An agent is visible to dispatch once its command
//! was applied, not before.

use std::collections::HashMap;
use vstd::prelude::*;
use vstd::string::StringExecFns;
use crate::agents::prompt_agent::{prompt_pipeline, PromptAgent};
use crate::agents::response_agent::{response_pipeline, ResponseAgent};
use crate::error::{DreasError, DreasErrorView};
use crate::security::audit::AuditLogger;
use crate::unique_id::{fresh_id, hyphenated_text, id_text};

verus! {

broadcast use vstd::std_specs::hash::group_hash_axioms;

/// What the consumer can be told to do.
#[allow(inconsistent_fields)]
#[derive(Debug)]
pub enum CoordinatorCommand {
    RegisterPromptAgent { id: u128, agent: PromptAgent },
    RegisterResponseAgent { id: u128, agent: ResponseAgent },
    ProcessPrompt { agent_id: u128, prompt: String },
    ProcessResponse { agent_id: u128, response: String },
    Shutdown,
}

/// The state of the consumer: it runs until it is told to shut down, and
/// never runs again.
#[derive(Clone, Copy, Debug, PartialEq, Eq, Structural)]
pub enum ConsumerState {
    Running,
    Terminated,
}

/// The two registries, as the commands change them.
pub struct Registries {
    pub prompt_agents: Map<u128, PromptAgent>,
    pub response_agents: Map<u128, ResponseAgent>,
    pub state: ConsumerState,
}

/// The registries after the consumer has taken one command. A terminated
/// consumer takes none.
pub open spec fn after_command(before: Registries, command: CoordinatorCommand) -> Registries {
    if before.state == ConsumerState::Terminated {
        before
    } else {
        match command {
            CoordinatorCommand::RegisterPromptAgent { id, agent } => Registries {
                prompt_agents: before.prompt_agents.insert(id, agent),
                ..before
            },
            CoordinatorCommand::RegisterResponseAgent { id, agent } => Registries {
                response_agents: before.response_agents.insert(id, agent),
                ..before
            },
            CoordinatorCommand::ProcessPrompt { .. } => before,
            CoordinatorCommand::ProcessResponse { .. } => before,
            CoordinatorCommand::Shutdown => Registries {
                state: ConsumerState::Terminated,
                ..before
            },
        }
    }
}

/// The registries after the consumer has taken the commands in their
/// order.
pub open spec fn after_commands(before: Registries, commands: Seq<CoordinatorCommand>)
    -> Registries
    decreases commands.len(),
{
    if commands.len() == 0 {
        before
    } else {
        after_command(after_commands(before, commands.drop_last()), commands.last())
    }
}

/// `command` registers a prompt agent under `id`.
pub open spec fn registers_prompt_agent(command: CoordinatorCommand, id: u128) -> bool {
    command matches CoordinatorCommand::RegisterPromptAgent { id: i, .. } && i == id
}

/// `command` registers a response agent under `id`.
pub open spec fn registers_response_agent(command: CoordinatorCommand, id: u128) -> bool {
    command matches CoordinatorCommand::RegisterResponseAgent { id: i, .. } && i == id
}

/// A terminated consumer stays terminated and changes nothing.
pub proof fn lemma_terminated_is_absorbing(before: Registries, commands: Seq<CoordinatorCommand>)
    requires
        before.state == ConsumerState::Terminated,
    ensures
        after_commands(before, commands) == before,
    decreases commands.len(),
{
    if commands.len() > 0 {
        lemma_terminated_is_absorbing(before, commands.drop_last());
    }
}

/// Only a shutdown command terminates the consumer.
pub proof fn lemma_only_shutdown_terminates(before: Registries, commands: Seq<CoordinatorCommand>)
    requires
        before.state == ConsumerState::Running,
    ensures
        after_commands(before, commands).state == ConsumerState::Terminated <==> exists|i: int|
            0 <= i < commands.len() && #[trigger] commands[i] is Shutdown,
    decreases commands.len(),
{
    if commands.len() > 0 {
        let front = commands.drop_last();
        lemma_only_shutdown_terminates(before, front);
        if after_commands(before, front).state == ConsumerState::Terminated {
            let i = choose|i: int| 0 <= i < front.len() && #[trigger] front[i] is Shutdown;
            assert(commands[i] is Shutdown);
        } else if commands.last() is Shutdown {
            assert(commands[commands.len() - 1] is Shutdown);
        } else {
            if exists|i: int| 0 <= i < commands.len() && #[trigger] commands[i] is Shutdown {
                let i = choose|i: int| 0 <= i < commands.len() && #[trigger] commands[i] is Shutdown;
                assert(front[i] is Shutdown);
            }
        }
    }
}

/// No registration is lost: once the running consumer has taken the
/// commands, a prompt agent that one of them registered is in the
/// registry under its identity, unless a later command registered another
/// agent under the same identity or the consumer was shut down before it
/// came to the command.
pub proof fn lemma_prompt_registration_is_kept(
    before: Registries,
    commands: Seq<CoordinatorCommand>,
    at: int,
    id: u128,
    agent: PromptAgent,
)
    requires
        before.state == ConsumerState::Running,
        0 <= at < commands.len(),
        commands[at] == (CoordinatorCommand::RegisterPromptAgent { id, agent }),
        forall|i: int| 0 <= i < at ==> !(#[trigger] commands[i] is Shutdown),
        forall|i: int| at < i < commands.len() ==> !registers_prompt_agent(#[trigger] commands[i], id),
    ensures
        after_commands(before, commands).prompt_agents.contains_key(id),
        after_commands(before, commands).prompt_agents[id] == agent,
    decreases commands.len(),
{
    let front = commands.drop_last();
    if at == commands.len() - 1 {
        lemma_only_shutdown_terminates(before, front);
        if after_commands(before, front).state == ConsumerState::Terminated {
            let i = choose|i: int| 0 <= i < front.len() && #[trigger] front[i] is Shutdown;
            assert(commands[i] is Shutdown);
        }
    } else {
        assert(front[at] == commands[at]);
        assert forall|i: int| 0 <= i < at implies !(#[trigger] front[i] is Shutdown) by {
            assert(front[i] == commands[i]);
        }
        assert forall|i: int| at < i < front.len() implies !registers_prompt_agent(
            #[trigger] front[i],
            id,
        ) by {
            assert(front[i] == commands[i]);
        }
        lemma_prompt_registration_is_kept(before, front, at, id, agent);
        assert(!registers_prompt_agent(commands[commands.len() - 1], id));
    }
}

/// No registration is lost: the same for response agents.
pub proof fn lemma_response_registration_is_kept(
    before: Registries,
    commands: Seq<CoordinatorCommand>,
    at: int,
    id: u128,
    agent: ResponseAgent,
)
    requires
        before.state == ConsumerState::Running,
        0 <= at < commands.len(),
        commands[at] == (CoordinatorCommand::RegisterResponseAgent { id, agent }),
        forall|i: int| 0 <= i < at ==> !(#[trigger] commands[i] is Shutdown),
        forall|i: int|
            at < i < commands.len() ==> !registers_response_agent(#[trigger] commands[i], id),
    ensures
        after_commands(before, commands).response_agents.contains_key(id),
        after_commands(before, commands).response_agents[id] == agent,
    decreases commands.len(),
{
    let front = commands.drop_last();
    if at == commands.len() - 1 {
        lemma_only_shutdown_terminates(before, front);
        if after_commands(before, front).state == ConsumerState::Terminated {
            let i = choose|i: int| 0 <= i < front.len() && #[trigger] front[i] is Shutdown;
            assert(commands[i] is Shutdown);
        }
    } else {
        assert(front[at] == commands[at]);
        assert forall|i: int| 0 <= i < at implies !(#[trigger] front[i] is Shutdown) by {
            assert(front[i] == commands[i]);
        }
        assert forall|i: int| at < i < front.len() implies !registers_response_agent(
            #[trigger] front[i],
            id,
        ) by {
            assert(front[i] == commands[i]);
        }
        lemma_response_registration_is_kept(before, front, at, id, agent);
        assert(!registers_response_agent(commands[commands.len() - 1], id));
    }
}

/// The error for a prompt agent that is not registered.
pub open spec fn prompt_agent_not_found(agent_id: u128) -> DreasErrorView {
    DreasErrorView::AgentCoordination(
        "Prompt agent "@ + hyphenated_text(agent_id) + " not found"@,
    )
}

/// The error for a response agent that is not registered.
pub open spec fn response_agent_not_found(agent_id: u128) -> DreasErrorView {
    DreasErrorView::AgentCoordination(
        "Response agent "@ + hyphenated_text(agent_id) + " not found"@,
    )
}

/// The error for a registration after the command stream was closed.
pub open spec fn stream_closed() -> DreasErrorView {
    DreasErrorView::AgentCoordination("Failed to send registration command"@)
}

/// What dispatching `prompt` to `agent_id` does: where an agent is
/// registered under the identity, what that agent's pipeline does;
/// otherwise a coordination error that names the identity, and the ledger
/// stays as it was.
pub open spec fn prompt_dispatch(
    prompt_agents: Map<u128, PromptAgent>,
    agent_id: u128,
    prompt: Seq<char>,
    before: AuditLogger,
    after: AuditLogger,
    r: Result<String, DreasError>,
) -> bool {
    if prompt_agents.contains_key(agent_id) {
        prompt_pipeline(prompt_agents[agent_id]@, prompt, before, after, r)
    } else {
        r is Err && r->Err_0@ == prompt_agent_not_found(agent_id) && after == before
    }
}

/// What dispatching `response` to `agent_id` does; see
/// [`prompt_dispatch`].
pub open spec fn response_dispatch(
    response_agents: Map<u128, ResponseAgent>,
    agent_id: u128,
    response: Seq<char>,
    before: AuditLogger,
    after: AuditLogger,
    r: Result<String, DreasError>,
) -> bool {
    if response_agents.contains_key(agent_id) {
        response_pipeline(response_agents[agent_id]@, response, before, after, r)
    } else {
        r is Err && r->Err_0@ == response_agent_not_found(agent_id) && after == before
    }
}

/// What one command does to the ledger: a dispatch command does what the
/// dispatch does, whatever it returns; any other command, and any command
/// to a terminated consumer, leaves the ledger as it was.
pub open spec fn ledger_after_command(
    registries: Registries,
    command: CoordinatorCommand,
    before: AuditLogger,
    after: AuditLogger,
) -> bool {
    if registries.state == ConsumerState::Terminated {
        after == before
    } else {
        match command {
            CoordinatorCommand::ProcessPrompt { agent_id, prompt } => exists|
                r: Result<String, DreasError>,
            | #[trigger]
                prompt_dispatch(registries.prompt_agents, agent_id, prompt@, before, after, r),
            CoordinatorCommand::ProcessResponse { agent_id, response } => exists|
                r: Result<String, DreasError>,
            | #[trigger]
                response_dispatch(
                    registries.response_agents,
                    agent_id,
                    response@,
                    before,
                    after,
                    r,
                ),
            _ => after == before,
        }
    }
}

/// The coordinator: the registries, the commands that wait for the
/// consumer, and the consumer's state.
#[derive(Debug)]
pub struct AgentCoordinator {
    prompt_agents: HashMap<u128, PromptAgent>,
    response_agents: HashMap<u128, ResponseAgent>,
    command_channel: Vec<CoordinatorCommand>,
    state: ConsumerState,
}

impl AgentCoordinator {
    /// The registries and the consumer's state.
    pub closed spec fn registries(&self) -> Registries {
        Registries {
            prompt_agents: self.prompt_agents@,
            response_agents: self.response_agents@,
            state: self.state,
        }
    }

    /// The commands that were submitted and not yet taken, oldest first.
    pub closed spec fn pending(&self) -> Seq<CoordinatorCommand> {
        self.command_channel@
    }

    /// A running coordinator without agents or commands.
    pub fn new() -> (coordinator: Self)
        ensures
            coordinator.registries() == (Registries {
                prompt_agents: Map::empty(),
                response_agents: Map::empty(),
                state: ConsumerState::Running,
            }),
            coordinator.pending() == Seq::<CoordinatorCommand>::empty(),
    {
        AgentCoordinator {
            prompt_agents: HashMap::new(),
            response_agents: HashMap::new(),
            command_channel: Vec::new(),
            state: ConsumerState::Running,
        }
    }

    /// Whether the consumer still runs.
    pub fn state(&self) -> (state: ConsumerState)
        ensures
            state == self.registries().state,
    {
        self.state
    }

    /// The number of commands that wait for the consumer.
    pub fn pending_commands(&self) -> (n: usize)
        ensures
            n == self.pending().len(),
    {
        self.command_channel.len()
    }

    /// Submits the registration of a prompt agent under a fresh identity
    /// and returns the identity at once; the registries are not touched.
    /// It fails only where the command stream is closed because the
    /// consumer has terminated.
    pub fn register_prompt_agent(&mut self, agent: PromptAgent) -> (r: Result<u128, DreasError>)
        ensures
            final(self).registries() == old(self).registries(),
            match r {
                Ok(id) => {
                    &&& old(self).registries().state == ConsumerState::Running
                    &&& final(self).pending() == old(self).pending().push(
                        CoordinatorCommand::RegisterPromptAgent { id, agent },
                    )
                },
                Err(e) => {
                    &&& old(self).registries().state == ConsumerState::Terminated
                    &&& e@ == stream_closed()
                    &&& final(self).pending() == old(self).pending()
                },
            },
    {
        let id = fresh_id();
        match self.state {
            ConsumerState::Terminated => Err(
                DreasError::AgentCoordination("Failed to send registration command".to_string()),
            ),
            ConsumerState::Running => {
                self.command_channel.push(CoordinatorCommand::RegisterPromptAgent { id, agent });
                Ok(id)
            },
        }
    }

    /// Submits the registration of a response agent; see
    /// [`Self::register_prompt_agent`].
    pub fn register_response_agent(&mut self, agent: ResponseAgent) -> (r: Result<
        u128,
        DreasError,
    >)
        ensures
            final(self).registries() == old(self).registries(),
            match r {
                Ok(id) => {
                    &&& old(self).registries().state == ConsumerState::Running
                    &&& final(self).pending() == old(self).pending().push(
                        CoordinatorCommand::RegisterResponseAgent { id, agent },
                    )
                },
                Err(e) => {
                    &&& old(self).registries().state == ConsumerState::Terminated
                    &&& e@ == stream_closed()
                    &&& final(self).pending() == old(self).pending()
                },
            },
    {
        let id = fresh_id();
        match self.state {
            ConsumerState::Terminated => Err(
                DreasError::AgentCoordination("Failed to send registration command".to_string()),
            ),
            ConsumerState::Running => {
                self.command_channel.push(
                    CoordinatorCommand::RegisterResponseAgent { id, agent },
                );
                Ok(id)
            },
        }
    }

    /// Hands a prompt to the agent registered under `agent_id`. An
    /// identity that is not registered gives a coordination error and
    /// leaves the ledger as it was; otherwise the call does what that
    /// agent's pipeline does.
    pub fn process_prompt(&self, agent_id: u128, prompt: String, ledger: &mut AuditLogger) -> (r:
        Result<String, DreasError>)
        ensures
            prompt_dispatch(
                self.registries().prompt_agents,
                agent_id,
                prompt@,
                *old(ledger),
                *final(ledger),
                r,
            ),
    {
        match self.prompt_agents.get(&agent_id) {
            Some(agent) => agent.process_prompt(prompt, ledger),
            None => {
                let mut message = String::from_str("Prompt agent ");
                message.append(id_text(agent_id).as_str());
                message.append(" not found");
                Err(DreasError::AgentCoordination(message))
            },
        }
    }

    /// Hands a response to the agent registered under `agent_id`; see
    /// [`Self::process_prompt`].
    pub fn process_response(
        &self,
        agent_id: u128,
        response: String,
        ledger: &mut AuditLogger,
    ) -> (r: Result<String, DreasError>)
        ensures
            response_dispatch(
                self.registries().response_agents,
                agent_id,
                response@,
                *old(ledger),
                *final(ledger),
                r,
            ),
    {
        match self.response_agents.get(&agent_id) {
            Some(agent) => agent.process_response(response, ledger),
            None => {
                let mut message = String::from_str("Response agent ");
                message.append(id_text(agent_id).as_str());
                message.append(" not found");
                Err(DreasError::AgentCoordination(message))
            },
        }
    }

    /// The consumer's step: takes one command and says whether the
    /// consumer still runs. Registrations change the registries; a
    /// dispatch changes none of them and does not stop the consumer,
    /// whether it fails or not; only a shutdown terminates it. The ledger
    /// keeps what it held and gets at most the entry of one dispatch at
    /// its end.
    pub fn apply_command(&mut self, command: CoordinatorCommand, ledger: &mut AuditLogger) -> (state:
        ConsumerState)
        ensures
            final(self).registries() == after_command(old(self).registries(), command),
            state == final(self).registries().state,
            final(self).pending() == old(self).pending(),
            old(ledger).entries().is_prefix_of(final(ledger).entries()),
            final(ledger).entries().len() <= old(ledger).entries().len() + 1,
            final(ledger).unchanged_but_entries(old(ledger)),
            ledger_after_command(old(self).registries(), command, *old(ledger), *final(ledger)),
    {
        match self.state {
            ConsumerState::Terminated => {
                return ConsumerState::Terminated;
            },
            ConsumerState::Running => {},
        }
        match command {
            CoordinatorCommand::RegisterPromptAgent { id, agent } => {
                self.prompt_agents.insert(id, agent);
            },
            CoordinatorCommand::RegisterResponseAgent { id, agent } => {
                self.response_agents.insert(id, agent);
            },
            CoordinatorCommand::ProcessPrompt { agent_id, prompt } => {
                let ghost text = prompt@;
                let r = self.process_prompt(agent_id, prompt, ledger);
                assert(prompt_dispatch(
                    self.registries().prompt_agents,
                    agent_id,
                    text,
                    *old(ledger),
                    *ledger,
                    r,
                ));
            },
            CoordinatorCommand::ProcessResponse { agent_id, response } => {
                let ghost text = response@;
                let r = self.process_response(agent_id, response, ledger);
                assert(response_dispatch(
                    self.registries().response_agents,
                    agent_id,
                    text,
                    *old(ledger),
                    *ledger,
                    r,
                ));
            },
            CoordinatorCommand::Shutdown => {
                self.state = ConsumerState::Terminated;
            },
        }
        self.state
    }

    /// The consumer's loop over the commands that wait: it takes them in
    /// the order of their submission until one shuts it down or none is
    /// left. The commands behind a shutdown are dropped with the stream.
    pub fn start_event_loop(&mut self, ledger: &mut AuditLogger)
        ensures
            final(self).registries() == after_commands(old(self).registries(), old(self).pending()),
            final(self).pending() == Seq::<CoordinatorCommand>::empty(),
            old(ledger).entries().is_prefix_of(final(ledger).entries()),
            final(ledger).unchanged_but_entries(old(ledger)),
    {
        let mut commands: Vec<CoordinatorCommand> = Vec::new();
        std::mem::swap(&mut commands, &mut self.command_channel);
        let ghost all = commands@;
        let ghost start = self.registries();
        for command in it: commands
            invariant
                it.seq() == all,
                self.pending() == Seq::<CoordinatorCommand>::empty(),
                self.registries() == after_commands(start, all.take(it.index() as int)),
                old(ledger).entries().is_prefix_of(ledger.entries()),
                ledger.unchanged_but_entries(old(ledger)),
        {
            proof {
                assert(all.take(it.index() as int + 1).drop_last() =~= all.take(it.index() as int));
            }
            let _ = self.apply_command(command, ledger);
        }
        proof {
            assert(all.take(all.len() as int) =~= all);
        }
    }
}

} // verus!
