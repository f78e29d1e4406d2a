//! The model service: the table of language models and the connections
//! that requests to them open.
//!
//! The service is a stand-in for real model endpoints: a request is
//! answered with an echo of its prompt.

use vstd::prelude::*;
use vstd::string::StringExecFns;
use vstd::utf8::encode_utf8;
use crate::doubles::{below_zero, exceeds, value_below_zero, value_exceeds};
use crate::error::{DreasError, DreasErrorView};
use crate::metadata::Metadata;
use crate::security::kms::copy_bytes;
use crate::sequences::{lemma_filter_empty, lemma_filter_push, lists_in_order};
use crate::string_map::StringMap;
use crate::text::{clone_texts, text_views};
use crate::time::{current_time, elapsed_millis, Timestamp};
use crate::unique_id::{fresh_id, id_text, is_random_identity};

verus! {

/// How a model is reached and used. The sampling temperature is kept as
/// the 64 bits of its double-precision number.
#[derive(Debug)]
pub struct ModelConfig {
    pub name: String,
    pub provider: String,
    pub version: String,
    pub endpoint: String,
    pub api_key_encrypted: Vec<u8>,
    pub max_tokens: u32,
    pub temperature_bits: u64,
    pub capabilities: Vec<String>,
    pub enabled: bool,
}

/// The mathematical value of a [`ModelConfig`].
pub struct ModelConfigView {
    pub name: Seq<char>,
    pub provider: Seq<char>,
    pub version: Seq<char>,
    pub endpoint: Seq<char>,
    pub api_key_encrypted: Seq<u8>,
    pub max_tokens: u32,
    pub temperature_bits: u64,
    pub capabilities: Seq<Seq<char>>,
    pub enabled: bool,
}

impl View for ModelConfig {
    type V = ModelConfigView;

    open spec fn view(&self) -> ModelConfigView {
        ModelConfigView {
            name: self.name@,
            provider: self.provider@,
            version: self.version@,
            endpoint: self.endpoint@,
            api_key_encrypted: self.api_key_encrypted@,
            max_tokens: self.max_tokens,
            temperature_bits: self.temperature_bits,
            capabilities: text_views(self.capabilities@),
            enabled: self.enabled,
        }
    }
}

impl Clone for ModelConfig {
    fn clone(&self) -> (r: Self)
        ensures
            r@ == self@,
    {
        ModelConfig {
            name: self.name.clone(),
            provider: self.provider.clone(),
            version: self.version.clone(),
            endpoint: self.endpoint.clone(),
            api_key_encrypted: copy_bytes(self.api_key_encrypted.as_slice()),
            max_tokens: self.max_tokens,
            temperature_bits: self.temperature_bits,
            capabilities: clone_texts(&self.capabilities),
            enabled: self.enabled,
        }
    }
}

/// A connection that a request opened.
#[derive(Debug)]
pub struct ModelConnection {
    pub connection_id: String,
    pub model_name: String,
    pub established_at: Timestamp,
    pub last_used: Timestamp,
    pub request_count: u64,
    pub error_count: u64,
}

/// The mathematical value of a [`ModelConnection`].
pub struct ModelConnectionView {
    pub connection_id: Seq<char>,
    pub model_name: Seq<char>,
    pub established_at: Timestamp,
    pub last_used: Timestamp,
    pub request_count: u64,
    pub error_count: u64,
}

impl View for ModelConnection {
    type V = ModelConnectionView;

    open spec fn view(&self) -> ModelConnectionView {
        ModelConnectionView {
            connection_id: self.connection_id@,
            model_name: self.model_name@,
            established_at: self.established_at,
            last_used: self.last_used,
            request_count: self.request_count,
            error_count: self.error_count,
        }
    }
}

/// A request to a model.
#[derive(Debug)]
pub struct ModelRequest {
    pub request_id: u128,
    pub model_name: String,
    pub prompt: String,
    pub max_tokens: Option<u32>,
    pub temperature_bits: Option<u64>,
    pub metadata: Metadata,
}

/// The answer of a model.
#[derive(Debug)]
pub struct ModelResponse {
    pub request_id: u128,
    pub model_name: String,
    pub response: String,
    pub tokens_used: u32,
    pub processing_time_ms: u64,
    pub success: bool,
    pub error: Option<String>,
    pub metadata: Metadata,
}

/// A snapshot of the service. The totals stop at the largest number that
/// their type holds.
#[derive(Clone, Copy, Debug)]
pub struct ModelStats {
    pub service_id: u128,
    pub total_models: usize,
    pub enabled_models: usize,
    pub active_connections: usize,
    pub total_requests: u64,
    pub total_errors: u64,
}

/// The bits of the double 2.0.
pub const TWO_BITS: u64 = 0x4000_0000_0000_0000;

/// Whether the double with these bits passes the temperature check, which
/// refuses a number below 0.0 and a number above 2.0. What is no number
/// is neither and passes.
pub open spec fn temperature_accepted(bits: u64) -> bool {
    !below_zero(bits) && !exceeds(bits, TWO_BITS)
}

/// The complaint about the first setting of a model that cannot work.
pub open spec fn model_fault(config: ModelConfigView) -> Option<Seq<char>> {
    if config.name.len() == 0 {
        Some("Model name cannot be empty"@)
    } else if config.provider.len() == 0 {
        Some("Model provider cannot be empty"@)
    } else if config.endpoint.len() == 0 {
        Some("Model endpoint cannot be empty"@)
    } else if config.max_tokens == 0 {
        Some("Max tokens must be greater than 0"@)
    } else if !temperature_accepted(config.temperature_bits) {
        Some("Temperature must be between 0.0 and 2.0"@)
    } else {
        None
    }
}

/// The error for a model that the table does not hold.
pub open spec fn model_not_found(name: Seq<char>) -> DreasErrorView {
    DreasErrorView::Generic("Model "@ + name + " not found"@)
}

/// The error for a model that is switched off.
pub open spec fn model_disabled(name: Seq<char>) -> DreasErrorView {
    DreasErrorView::Generic("Model "@ + name + " is disabled"@)
}

/// Why a model cannot be used: the table does not hold it, or it is
/// switched off. Nothing where it can.
pub open spec fn model_unavailable(models: Map<Seq<char>, ModelConfigView>, name: Seq<char>)
    -> Option<DreasErrorView> {
    if !models.contains_key(name) {
        Some(model_not_found(name))
    } else if !models[name].enabled {
        Some(model_disabled(name))
    } else {
        None
    }
}

/// The echo that the stand-in answers with.
pub open spec fn echoed_response(model_name: Seq<char>, prompt: Seq<char>) -> Seq<char> {
    "Response from "@ + model_name + ": "@ + prompt
}

/// The rough count of tokens in a prompt: a quarter of the low 32 bits of
/// its length in bytes.
pub open spec fn estimated_tokens(prompt: Seq<char>) -> u32 {
    ((encode_utf8(prompt).len() % 0x1_0000_0000) / 4) as u32
}

/// The connections that are left when the model `name` leaves.
pub open spec fn connections_without(
    connections: Map<Seq<char>, ModelConnectionView>,
    name: Seq<char>,
) -> Map<Seq<char>, ModelConnectionView> {
    connections.restrict(
        Set::new(
            |id: Seq<char>| connections.contains_key(id) && connections[id].model_name != name,
        ),
    )
}

/// The names of the configs that are enabled, in their order.
pub open spec fn enabled_names(configs: Seq<ModelConfigView>) -> Seq<Seq<char>> {
    configs.filter(|c: ModelConfigView| c.enabled).map_values(|c: ModelConfigView| c.name)
}

/// The sum of the request counts, or of the error counts.
pub open spec fn total_count(connections: Seq<ModelConnectionView>, errors: bool) -> nat
    decreases connections.len(),
{
    if connections.len() == 0 {
        0
    } else {
        total_count(connections.drop_last(), errors) + if errors {
            connections.last().error_count as nat
        } else {
            connections.last().request_count as nat
        }
    }
}

/// A number as a `u64`, or the largest `u64` where it does not fit.
pub open spec fn capped(n: nat) -> u64 {
    if n > u64::MAX {
        u64::MAX
    } else {
        n as u64
    }
}

/// The model service.
#[derive(Debug)]
pub struct ModelService {
    service_id: u128,
    available_models: StringMap<ModelConfig>,
    active_connections: StringMap<ModelConnection>,
}

impl ModelService {
    /// The identity of the service.
    pub closed spec fn service_id(&self) -> u128 {
        self.service_id
    }

    /// The models by the name that they were registered under.
    pub closed spec fn models(&self) -> Map<Seq<char>, ModelConfigView> {
        self.available_models@.map_values(|c: ModelConfig| c@)
    }

    /// The names that models were registered under, in the order in which
    /// they first arrived.
    pub closed spec fn model_names(&self) -> Seq<Seq<char>> {
        self.available_models.keys()
    }

    /// The ids of the connections in the order in which they were opened.
    pub closed spec fn connection_ids(&self) -> Seq<Seq<char>> {
        self.active_connections.keys()
    }

    /// The model table lists its models in the order of their names, and
    /// the connection table its connections in the order of their ids.
    pub open spec fn listed(&self) -> bool {
        &&& lists_in_order(self.model_names(), self.model_list(), self.models())
        &&& lists_in_order(self.connection_ids(), self.connection_list(), self.connections())
    }

    proof fn lemma_listed(&self)
        requires
            self.available_models.consistent(),
            self.active_connections.consistent(),
        ensures
            self.listed(),
    {
        assert(self.models().dom() =~= self.available_models@.dom());
        assert(self.connections().dom() =~= self.active_connections@.dom());
        assert forall|i: int| 0 <= i < self.model_names().len() implies (
        #[trigger] self.model_list()[i]) == self.models()[self.model_names()[i]] by {
            assert(self.available_models@[self.available_models.keys()[i]]
                == self.available_models.values()[i]);
        }
        assert forall|i: int| 0 <= i < self.connection_ids().len() implies (
        #[trigger] self.connection_list()[i]) == self.connections()[self.connection_ids()[i]] by {
            assert(self.active_connections@[self.active_connections.keys()[i]]
                == self.active_connections.values()[i]);
        }
    }

    /// The models in the order in which their names first arrived.
    pub closed spec fn model_list(&self) -> Seq<ModelConfigView> {
        self.available_models.values().map_values(|c: ModelConfig| c@)
    }

    /// The connections by id.
    pub closed spec fn connections(&self) -> Map<Seq<char>, ModelConnectionView> {
        self.active_connections@.map_values(|c: ModelConnection| c@)
    }

    /// The connections in the order in which they were opened.
    pub closed spec fn connection_list(&self) -> Seq<ModelConnectionView> {
        self.active_connections.values().map_values(|c: ModelConnection| c@)
    }

    /// A service without models or connections, under a randomly drawn
    /// identity: its tables and their lists are empty.
    pub fn new() -> (service: Self)
        ensures
            is_random_identity(service.service_id()),
            service.models() == Map::<Seq<char>, ModelConfigView>::empty(),
            service.model_names() == Seq::<Seq<char>>::empty(),
            service.model_list() == Seq::<ModelConfigView>::empty(),
            service.connections() == Map::<Seq<char>, ModelConnectionView>::empty(),
            service.connection_ids() == Seq::<Seq<char>>::empty(),
            service.connection_list() == Seq::<ModelConnectionView>::empty(),
            service.listed(),
    {
        let service = ModelService {
            service_id: fresh_id(),
            available_models: StringMap::new(),
            active_connections: StringMap::new(),
        };
        proof {
            assert(service.models() =~= Map::<Seq<char>, ModelConfigView>::empty());
            assert(service.connections() =~= Map::<Seq<char>, ModelConnectionView>::empty());
            assert(service.model_list() =~= Seq::<ModelConfigView>::empty());
            assert(service.connection_list() =~= Seq::<ModelConnectionView>::empty());
            service.lemma_listed();
        }
        service
    }

    /// Whether the double with these bits passes the temperature check.
    pub fn temperature_in_range(bits: u64) -> (accepted: bool)
        ensures
            accepted == temperature_accepted(bits),
    {
        !value_below_zero(bits) && !value_exceeds(bits, TWO_BITS)
    }

    /// Checks the settings of a model. The error names the first one that
    /// cannot work.
    pub fn validate_model_config(&self, config: &ModelConfig) -> (r: Result<(), DreasError>)
        ensures
            match r {
                Ok(_) => model_fault(config@) is None,
                Err(e) => model_fault(config@) is Some && e@ == DreasErrorView::Configuration(
                    model_fault(config@)->0,
                ),
            },
    {
        if config.name.as_str().is_empty() {
            return Err(DreasError::Configuration("Model name cannot be empty".to_string()));
        }
        if config.provider.as_str().is_empty() {
            return Err(DreasError::Configuration("Model provider cannot be empty".to_string()));
        }
        if config.endpoint.as_str().is_empty() {
            return Err(DreasError::Configuration("Model endpoint cannot be empty".to_string()));
        }
        if config.max_tokens == 0 {
            return Err(
                DreasError::Configuration("Max tokens must be greater than 0".to_string()),
            );
        }
        if !Self::temperature_in_range(config.temperature_bits) {
            return Err(
                DreasError::Configuration("Temperature must be between 0.0 and 2.0".to_string()),
            );
        }
        Ok(())
    }

    /// Puts a valid model into the table under its name, replacing an
    /// earlier one of that name. A faulty one is refused and the table
    /// stays as it was.
    pub fn register_model(&mut self, config: ModelConfig) -> (r: Result<(), DreasError>)
        ensures
            final(self).connections() == old(self).connections(),
            final(self).service_id() == old(self).service_id(),
            match r {
                Ok(_) => {
                    &&& model_fault(config@) is None
                    &&& final(self).models() == old(self).models().insert(config@.name, config@)
                },
                Err(e) => {
                    &&& model_fault(config@) is Some
                    &&& e@ == DreasErrorView::Configuration(model_fault(config@)->0)
                    &&& final(self).models() == old(self).models()
                },
            },
    {
        let name = config.name.clone();
        match self.validate_model_config(&config) {
            Ok(_) => {},
            Err(e) => {
                return Err(e);
            },
        }
        self.available_models.insert(name, config);
        proof {
            assert(self.models() =~= old(self).models().insert(config@.name, config@));
        }
        Ok(())
    }

    /// The error for a model that cannot be used, if it cannot.
    fn availability(&self, model_name: &String) -> (r: Result<(), DreasError>)
        ensures
            match r {
                Ok(_) => model_unavailable(self.models(), model_name@) is None,
                Err(e) => model_unavailable(self.models(), model_name@) == Some(e@),
            },
    {
        proof {
            assert(self.models().dom() =~= self.available_models@.dom());
        }
        let config = match self.available_models.get(model_name) {
            Some(config) => config,
            None => {
                let mut message = String::from_str("Model ");
                message.append(model_name.as_str());
                message.append(" not found");
                return Err(DreasError::Generic(message));
            },
        };
        assert(self.models()[model_name@] == config@);
        if !config.enabled {
            let mut message = String::from_str("Model ");
            message.append(model_name.as_str());
            message.append(" is disabled");
            return Err(DreasError::Generic(message));
        }
        Ok(())
    }

    /// Opens a connection to `model_name` under a fresh id, with no
    /// request counted yet, and returns the id.
    fn establish_connection(&mut self, model_name: &String) -> (r: Result<String, DreasError>)
        ensures
            r is Ok,
            final(self).models() == old(self).models(),
            final(self).service_id() == old(self).service_id(),
            final(self).connections().dom() == old(self).connections().dom().insert(r->Ok_0@),
            final(self).connections() == old(self).connections().insert(
                r->Ok_0@,
                final(self).connections()[r->Ok_0@],
            ),
            final(self).connections()[r->Ok_0@].connection_id == r->Ok_0@,
            final(self).connections()[r->Ok_0@].model_name == model_name@,
            final(self).connections()[r->Ok_0@].request_count == 0,
            final(self).connections()[r->Ok_0@].error_count == 0,
    {
        let connection_id = id_text(fresh_id());
        let connection = ModelConnection {
            connection_id: connection_id.clone(),
            model_name: model_name.clone(),
            established_at: current_time(),
            last_used: current_time(),
            request_count: 0,
            error_count: 0,
        };
        self.active_connections.insert(connection_id.clone(), connection);
        proof {
            assert(self.connections() =~= old(self).connections().insert(
                connection_id@,
                connection@,
            ));
            assert(self.connections().dom() =~= old(self).connections().dom().insert(
                connection_id@,
            ));
        }
        Ok(connection_id)
    }

    /// Sends a request to its model. A model that the table does not hold
    /// or that is switched off refuses the request and nothing changes.
    /// Otherwise the request opens a connection of its own, on which it is
    /// the one request counted, and is answered with the echo of its
    /// prompt.
    pub fn send_request(&mut self, request: ModelRequest) -> (r: Result<ModelResponse, DreasError>)
        ensures
            final(self).models() == old(self).models(),
            final(self).service_id() == old(self).service_id(),
            match r {
                Ok(response) => {
                    &&& model_unavailable(old(self).models(), request.model_name@) is None
                    &&& response.request_id == request.request_id
                    &&& response.model_name@ == request.model_name@
                    &&& response.response@ == echoed_response(
                        request.model_name@,
                        request.prompt@,
                    )
                    &&& response.tokens_used == estimated_tokens(request.prompt@)
                    &&& response.success
                    &&& response.error is None
                    &&& response.metadata@ == Map::<Seq<char>, Seq<char>>::empty()
                    &&& exists|id: Seq<char>|
                        {
                            &&& #[trigger] final(self).connections().contains_key(id)
                            &&& final(self).connections().dom() == old(self).connections().dom().insert(id)
                            &&& final(self).connections() == old(self).connections().insert(
                                id,
                                final(self).connections()[id],
                            )
                            &&& final(self).connections()[id].connection_id == id
                            &&& final(self).connections()[id].model_name == request.model_name@
                            &&& final(self).connections()[id].request_count == 1
                            &&& final(self).connections()[id].error_count == 0
                        }
                },
                Err(e) => model_unavailable(old(self).models(), request.model_name@) == Some(e@)
                    && final(self).connections() == old(self).connections(),
            },
    {
        let start_time = current_time();
        match self.availability(&request.model_name) {
            Ok(_) => {},
            Err(e) => {
                return Err(e);
            },
        }
        let connection_id = match self.establish_connection(&request.model_name) {
            Ok(id) => id,
            Err(e) => {
                return Err(e);
            },
        };
        let ghost opened = self.connections();
        let processing_time = elapsed_millis(&start_time, &current_time());
        let mut text = String::from_str("Response from ");
        text.append(request.model_name.as_str());
        text.append(": ");
        text.append(request.prompt.as_str());
        let length: usize = request.prompt.as_str().as_bytes().len();
        let length: u64 = length as u64;
        let tokens_used: u32 = ((length % 0x1_0000_0000) / 4) as u32;
        let response = ModelResponse {
            request_id: request.request_id,
            model_name: request.model_name.clone(),
            response: text,
            tokens_used,
            processing_time_ms: processing_time,
            success: true,
            error: None,
            metadata: Metadata::new(),
        };
        proof {
            assert(self.connections().dom() =~= self.active_connections@.dom());
        }
        let used: Option<ModelConnection> = match self.active_connections.get(&connection_id) {
            Some(connection) => Some(
                ModelConnection {
                    connection_id: connection.connection_id.clone(),
                    model_name: connection.model_name.clone(),
                    established_at: connection.established_at,
                    last_used: current_time(),
                    request_count: 1,
                    error_count: connection.error_count,
                },
            ),
            None => None,
        };
        if let Some(connection) = used {
            let ghost view = connection@;
            self.active_connections.insert(connection_id.clone(), connection);
            proof {
                assert(self.connections() =~= opened.insert(connection_id@, view));
                assert(self.connections() =~= old(self).connections().insert(
                    connection_id@,
                    view,
                ));
                assert(self.connections().dom() =~= old(self).connections().dom().insert(
                    connection_id@,
                ));
                assert(self.connections().contains_key(connection_id@));
            }
        }
        Ok(response)
    }

    /// The names of the models that are switched on, in the order in which
    /// the models were first registered.
    pub fn get_available_models(&self) -> (names: Vec<String>)
        ensures
            text_views(names@) == enabled_names(self.model_list()),
            self.listed(),
    {
        let n = self.available_models.len();
        let _ = self.active_connections.len();
        proof {
            self.lemma_listed();
        }
        let ghost list = self.model_list();
        let ghost on = |c: ModelConfigView| c.enabled;
        let ghost name_of = |c: ModelConfigView| c.name;
        let mut names: Vec<String> = Vec::new();
        let mut i: usize = 0;
        proof {
            lemma_filter_empty(on);
            assert(list.take(0) =~= Seq::<ModelConfigView>::empty());
            assert(text_views(names@) =~= list.take(0).filter(on).map_values(name_of));
        }
        while i < n
            invariant
                i <= n,
                n == self.available_models.keys().len(),
                self.available_models.consistent(),
                list == self.model_list(),
                on == (|c: ModelConfigView| c.enabled),
                name_of == (|c: ModelConfigView| c.name),
                text_views(names@) == list.take(i as int).filter(on).map_values(name_of),
            decreases n - i,
        {
            let config = self.available_models.value_at(i);
            proof {
                assert(list[i as int] == config@);
                assert(list.take(i as int).push(config@) =~= list.take(i as int + 1));
                lemma_filter_push(list.take(i as int), config@, on);
            }
            if config.enabled {
                let ghost prior = text_views(names@);
                names.push(config.name.clone());
                proof {
                    assert(text_views(names@) =~= prior.push(config@.name));
                    assert(list.take(i as int).filter(on).push(config@).map_values(name_of)
                        =~= list.take(i as int).filter(on).map_values(name_of).push(
                        config@.name,
                    ));
                }
            }
            i += 1;
        }
        proof {
            assert(list.take(n as int) =~= list);
        }
        names
    }

    /// The settings of the model `model_name`, if the table holds it.
    pub fn get_model_config(&self, model_name: &str) -> (r: Result<Option<ModelConfig>, DreasError>)
        ensures
            r is Ok,
            match r->Ok_0 {
                Some(config) => self.models().contains_key(model_name@) && config@
                    == self.models()[model_name@],
                None => !self.models().contains_key(model_name@),
            },
    {
        let name = model_name.to_owned();
        proof {
            assert(self.models().dom() =~= self.available_models@.dom());
        }
        Ok(
            match self.available_models.get(&name) {
                Some(config) => Some(config.clone()),
                None => None,
            },
        )
    }

    /// Replaces the settings of a model that the table holds. An unknown
    /// name or faulty settings are refused and the table stays as it was.
    pub fn update_model_config(&mut self, model_name: &str, config: ModelConfig) -> (r: Result<
        (),
        DreasError,
    >)
        ensures
            final(self).connections() == old(self).connections(),
            final(self).service_id() == old(self).service_id(),
            match r {
                Ok(_) => {
                    &&& old(self).models().contains_key(model_name@)
                    &&& model_fault(config@) is None
                    &&& final(self).models() == old(self).models().insert(model_name@, config@)
                },
                Err(e) => {
                    &&& final(self).models() == old(self).models()
                    &&& if !old(self).models().contains_key(model_name@) {
                        e@ == model_not_found(model_name@)
                    } else {
                        model_fault(config@) is Some && e@ == DreasErrorView::Configuration(
                            model_fault(config@)->0,
                        )
                    }
                },
            },
    {
        let name = model_name.to_owned();
        proof {
            assert(self.models().dom() =~= self.available_models@.dom());
        }
        if !self.available_models.contains_key(&name) {
            let mut message = String::from_str("Model ");
            message.append(model_name);
            message.append(" not found");
            return Err(DreasError::Generic(message));
        }
        match self.validate_model_config(&config) {
            Ok(_) => {},
            Err(e) => {
                return Err(e);
            },
        }
        self.available_models.insert(name, config);
        proof {
            assert(self.models() =~= old(self).models().insert(model_name@, config@));
        }
        Ok(())
    }

    /// Takes a model out of the table, and with it the connections that
    /// were opened to its name. An unknown name is refused and nothing
    /// changes.
    pub fn remove_model(&mut self, model_name: &str) -> (r: Result<(), DreasError>)
        ensures
            final(self).service_id() == old(self).service_id(),
            match r {
                Ok(_) => {
                    &&& old(self).models().contains_key(model_name@)
                    &&& final(self).models() == old(self).models().remove(model_name@)
                    &&& final(self).connections() == connections_without(
                        old(self).connections(),
                        model_name@,
                    )
                },
                Err(e) => {
                    &&& !old(self).models().contains_key(model_name@)
                    &&& e@ == model_not_found(model_name@)
                    &&& final(self).models() == old(self).models()
                    &&& final(self).connections() == old(self).connections()
                },
            },
    {
        let name = model_name.to_owned();
        proof {
            assert(self.models().dom() =~= self.available_models@.dom());
        }
        match self.available_models.remove(&name) {
            Some(_) => {
                proof {
                    assert(self.models() =~= old(self).models().remove(model_name@));
                }
            },
            None => {
                proof {
                    assert(self.models() =~= old(self).models());
                }
                let mut message = String::from_str("Model ");
                message.append(model_name);
                message.append(" not found");
                return Err(DreasError::Generic(message));
            },
        }
        let n = self.active_connections.len();
        let mut keep: Vec<bool> = Vec::new();
        let mut i: usize = 0;
        while i < n
            invariant
                i <= n,
                n == self.active_connections.keys().len(),
                self.active_connections.consistent(),
                keep@.len() == i,
                name@ == model_name@,
                forall|j: int|
                    0 <= j < i ==> #[trigger] keep@[j] == (
                    self.active_connections.values()[j].model_name@ != model_name@),
            decreases n - i,
        {
            let other = !(self.active_connections.value_at(i).model_name == name);
            keep.push(other);
            i += 1;
        }
        let ghost before = self.active_connections;
        self.active_connections.retain_flagged(&keep);
        proof {
            let flagged = StringMap::<ModelConnection>::flagged_keys(before.keys(), keep@);
            let connections = old(self).connections();
            let wanted = Set::new(
                |id: Seq<char>|
                    connections.contains_key(id) && connections[id].model_name != model_name@,
            );
            assert forall|id: Seq<char>| before@.contains_key(id) implies (flagged.contains(id)
                <==> wanted.contains(id)) by {
                assert(before.keys().contains(id));
                let p = choose|p: int| 0 <= p < before.keys().len() && before.keys()[p] == id;
                assert(before@[before.keys()[p]] == before.values()[p]);
                if flagged.contains(id) {
                    let q = choose|q: int|
                        0 <= q < before.keys().len() && before.keys()[q] == id && keep@[q];
                    assert(p == q);
                }
            }
            assert(self.connections() =~= connections_without(
                old(self).connections(),
                model_name@,
            ));
        }
        Ok(())
    }

    /// A snapshot of the service: how many models it holds and how many of
    /// them are switched on, how many connections are open, and the counts
    /// that the connections add up to.
    pub fn get_stats(&self) -> (stats: ModelStats)
        ensures
            stats.service_id == self.service_id(),
            stats.total_models == self.models().len(),
            stats.enabled_models == self.model_list().filter(
                |c: ModelConfigView| c.enabled,
            ).len(),
            stats.active_connections == self.connections().len(),
            stats.total_requests == capped(total_count(self.connection_list(), false)),
            stats.total_errors == capped(total_count(self.connection_list(), true)),
            self.listed(),
    {
        let total_models = self.available_models.len();
        let active_connections = self.active_connections.len();
        proof {
            self.lemma_listed();
            assert(self.models().dom() =~= self.available_models@.dom());
            assert(self.connections().dom() =~= self.active_connections@.dom());
        }
        let ghost list = self.model_list();
        let ghost on = |c: ModelConfigView| c.enabled;
        let mut enabled_models: usize = 0;
        let mut i: usize = 0;
        proof {
            lemma_filter_empty(on);
            assert(list.take(0) =~= Seq::<ModelConfigView>::empty());
        }
        while i < total_models
            invariant
                i <= total_models,
                total_models == self.available_models.keys().len(),
                self.available_models.consistent(),
                list == self.model_list(),
                on == (|c: ModelConfigView| c.enabled),
                enabled_models == list.take(i as int).filter(on).len(),
                enabled_models <= i,
            decreases total_models - i,
        {
            let config = self.available_models.value_at(i);
            proof {
                assert(list[i as int] == config@);
                assert(list.take(i as int).push(config@) =~= list.take(i as int + 1));
                lemma_filter_push(list.take(i as int), config@, on);
            }
            if config.enabled {
                enabled_models += 1;
            }
            i += 1;
        }
        proof {
            assert(list.take(total_models as int) =~= list);
        }
        let ghost opened = self.connection_list();
        let mut requests: u128 = 0;
        let mut errors: u128 = 0;
        let mut j: usize = 0;
        proof {
            assert(opened.take(0) =~= Seq::<ModelConnectionView>::empty());
        }
        while j < active_connections
            invariant
                j <= active_connections,
                active_connections == self.active_connections.keys().len(),
                self.active_connections.consistent(),
                opened == self.connection_list(),
                requests == total_count(opened.take(j as int), false),
                errors == total_count(opened.take(j as int), true),
                requests <= j * 0x1_0000_0000_0000_0000,
                errors <= j * 0x1_0000_0000_0000_0000,
            decreases active_connections - j,
        {
            let connection = self.active_connections.value_at(j);
            proof {
                assert(opened[j as int] == connection@);
                assert(opened.take(j as int + 1).drop_last() =~= opened.take(j as int));
                assert(opened.take(j as int + 1).last() == connection@);
            }
            requests = requests + connection.request_count as u128;
            errors = errors + connection.error_count as u128;
            j += 1;
        }
        proof {
            assert(opened.take(active_connections as int) =~= opened);
        }
        ModelStats {
            service_id: self.service_id,
            total_models,
            enabled_models,
            active_connections,
            total_requests: if requests > u64::MAX as u128 {
                u64::MAX
            } else {
                requests as u64
            },
            total_errors: if errors > u64::MAX as u128 {
                u64::MAX
            } else {
                errors as u64
            },
        }
    }

    /// Probes the model `model_name`. The stand-in reports every model
    /// reachable that the table holds and that is switched on.
    pub fn test_model_connectivity(&self, model_name: &str) -> (r: Result<(), DreasError>)
        ensures
            match r {
                Ok(_) => model_unavailable(self.models(), model_name@) is None,
                Err(e) => model_unavailable(self.models(), model_name@) == Some(e@),
            },
    {
        let name = model_name.to_owned();
        self.availability(&name)
    }
}

} // verus!
