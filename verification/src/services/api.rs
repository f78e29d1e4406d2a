//! The request router: a table of endpoints, and what a request to one of
//! them is answered with.
//!
//! The router decides; it opens no socket. A response body is handed out
//! as a value, to be written down by whoever sends it.

use vstd::prelude::*;
use vstd::string::{StrSliceExecFns, StringExecFns};
use crate::error::{DreasError, DreasErrorView};
use crate::metadata::Metadata;
use crate::sequences::lists_in_order;
use crate::string_map::StringMap;
use crate::text::{decimal, decimal_text, starts_with};
use crate::time::{current_time, current_time_text, elapsed_millis, Timestamp};
use crate::unique_id::{fresh_id, hyphenated_text, id_text};

verus! {

/// The method of a request.
#[derive(Clone, Copy, Debug, PartialEq, Eq, Structural)]
pub enum HttpMethod {
    GET,
    POST,
    PUT,
    DELETE,
    PATCH,
    OPTIONS,
}

/// One entry of the endpoint table.
#[derive(Debug)]
pub struct ApiEndpoint {
    pub path: String,
    pub method: HttpMethod,
    pub handler: String,
    pub requires_auth: bool,
    pub rate_limit: Option<u32>,
    pub timeout_seconds: Option<u64>,
}

/// The mathematical value of an [`ApiEndpoint`].
pub struct ApiEndpointView {
    pub path: Seq<char>,
    pub method: HttpMethod,
    pub handler: Seq<char>,
    pub requires_auth: bool,
    pub rate_limit: Option<u32>,
    pub timeout_seconds: Option<u64>,
}

impl View for ApiEndpoint {
    type V = ApiEndpointView;

    open spec fn view(&self) -> ApiEndpointView {
        ApiEndpointView {
            path: self.path@,
            method: self.method,
            handler: self.handler@,
            requires_auth: self.requires_auth,
            rate_limit: self.rate_limit,
            timeout_seconds: self.timeout_seconds,
        }
    }
}

impl Clone for ApiEndpoint {
    fn clone(&self) -> (r: Self)
        ensures
            r@ == self@,
    {
        ApiEndpoint {
            path: self.path.clone(),
            method: self.method,
            handler: self.handler.clone(),
            requires_auth: self.requires_auth,
            rate_limit: self.rate_limit,
            timeout_seconds: self.timeout_seconds,
        }
    }
}

/// A request as the router sees it.
#[derive(Debug)]
pub struct ApiRequest {
    pub request_id: u128,
    pub method: HttpMethod,
    pub path: String,
    pub headers: Metadata,
    pub body: Option<String>,
    pub query_params: Metadata,
    pub timestamp: Timestamp,
}

/// What a handler answers with.
#[derive(Debug)]
pub enum ResponseBody {
    /// The health probe: the service is up.
    Health { service_id: u128, timestamp: Timestamp },
    /// The statistics of the router.
    Stats(ApiStats),
    /// Any other handler: the request was processed.
    Processed { handler: String, request_id: u128 },
}

/// The mathematical value of a [`ResponseBody`]; the time of a health
/// answer is left out, it is whatever the clock gave.
pub enum ResponseBodyView {
    Health { service_id: u128 },
    Stats { service_id: u128, port: u16, total_endpoints: nat },
    Processed { handler: Seq<char>, request_id: u128 },
}

impl View for ResponseBody {
    type V = ResponseBodyView;

    open spec fn view(&self) -> ResponseBodyView {
        match self {
            ResponseBody::Health { service_id, .. } => ResponseBodyView::Health {
                service_id: *service_id,
            },
            ResponseBody::Stats(stats) => ResponseBodyView::Stats {
                service_id: stats.service_id,
                port: stats.port,
                total_endpoints: stats.total_endpoints as nat,
            },
            ResponseBody::Processed { handler, request_id } => ResponseBodyView::Processed {
                handler: handler@,
                request_id: *request_id,
            },
        }
    }
}

/// The answer to a request.
#[derive(Debug)]
pub struct ApiResponse {
    pub request_id: u128,
    pub status_code: u16,
    pub headers: Metadata,
    pub body: Option<ResponseBody>,
    pub processing_time_ms: u64,
    pub timestamp: Timestamp,
}

/// A snapshot of the router.
#[derive(Clone, Copy, Debug)]
pub struct ApiStats {
    pub service_id: u128,
    pub port: u16,
    pub total_endpoints: usize,
    pub uptime: Timestamp,
}

/// The number that stands for a method in the keys of the table.
pub open spec fn method_code(method: HttpMethod) -> nat {
    match method {
        HttpMethod::GET => 0,
        HttpMethod::POST => 1,
        HttpMethod::PUT => 2,
        HttpMethod::DELETE => 3,
        HttpMethod::PATCH => 4,
        HttpMethod::OPTIONS => 5,
    }
}

/// The key of an endpoint in the table: the method's number, a colon, the
/// path.
pub open spec fn endpoint_key(method: HttpMethod, path: Seq<char>) -> Seq<char> {
    decimal_text(method_code(method)) + ":"@ + path
}

/// The complaint about an endpoint: the path or the handler is empty, or
/// the path does not start with a slash.
pub open spec fn endpoint_fault(endpoint: ApiEndpointView) -> Option<Seq<char>> {
    if endpoint.path.len() == 0 {
        Some("Endpoint path cannot be empty"@)
    } else if endpoint.handler.len() == 0 {
        Some("Endpoint handler cannot be empty"@)
    } else if endpoint.path[0] != '/' {
        Some("Endpoint path must start with '/'"@)
    } else {
        None
    }
}

/// The error for a request or a removal that names no endpoint.
pub open spec fn endpoint_not_found(method: HttpMethod, path: Seq<char>) -> DreasErrorView {
    DreasErrorView::Generic(
        "Endpoint not found: "@ + decimal_text(method_code(method)) + " "@ + path,
    )
}

/// Whether the headers carry a bearer token.
pub open spec fn is_authenticated(headers: Map<Seq<char>, Seq<char>>) -> bool {
    headers.contains_key("Authorization"@) && "Bearer "@.is_prefix_of(headers["Authorization"@])
}

/// Why a request is refused: it names no endpoint, or its endpoint asks
/// for a bearer token that it does not carry. Nothing where it is served.
pub open spec fn request_refusal(
    endpoints: Map<Seq<char>, ApiEndpointView>,
    method: HttpMethod,
    path: Seq<char>,
    headers: Map<Seq<char>, Seq<char>>,
) -> Option<DreasErrorView> {
    let key = endpoint_key(method, path);
    if !endpoints.contains_key(key) {
        Some(endpoint_not_found(method, path))
    } else if endpoints[key].requires_auth && !is_authenticated(headers) {
        Some(DreasErrorView::Authentication("Missing or invalid authorization header"@))
    } else {
        None
    }
}

/// The body that the handler of an endpoint answers with.
pub open spec fn handler_body(
    handler: Seq<char>,
    service_id: u128,
    port: u16,
    total_endpoints: nat,
    request_id: u128,
) -> ResponseBodyView {
    if handler == "health_check"@ {
        ResponseBodyView::Health { service_id }
    } else if handler == "get_stats"@ {
        ResponseBodyView::Stats { service_id, port, total_endpoints }
    } else {
        ResponseBodyView::Processed { handler, request_id }
    }
}

/// The router.
#[derive(Debug)]
pub struct ApiService {
    service_id: u128,
    port: u16,
    endpoints: StringMap<ApiEndpoint>,
}

impl ApiService {
    /// The identity of the router.
    pub closed spec fn service_id(&self) -> u128 {
        self.service_id
    }

    /// The port that the router is meant to serve.
    pub closed spec fn port(&self) -> u16 {
        self.port
    }

    /// The endpoint table by key.
    pub closed spec fn endpoints(&self) -> Map<Seq<char>, ApiEndpointView> {
        self.endpoints@.map_values(|e: ApiEndpoint| e@)
    }

    /// The keys of the table in the order in which they first arrived.
    pub closed spec fn endpoint_keys(&self) -> Seq<Seq<char>> {
        self.endpoints.keys()
    }

    /// The endpoints in the order in which their keys first arrived.
    pub closed spec fn endpoint_list(&self) -> Seq<ApiEndpointView> {
        self.endpoints.values().map_values(|e: ApiEndpoint| e@)
    }

    /// A router for `port` with an empty table.
    pub fn new(port: u16) -> (service: Self)
        ensures
            service.port() == port,
            service.endpoints() == Map::<Seq<char>, ApiEndpointView>::empty(),
    {
        let service = ApiService { service_id: fresh_id(), port, endpoints: StringMap::new() };
        proof {
            assert(service.endpoints() =~= Map::<Seq<char>, ApiEndpointView>::empty());
        }
        service
    }

    /// The number that stands for `method`.
    pub fn method_number(method: HttpMethod) -> (n: usize)
        ensures
            n == method_code(method),
    {
        match method {
            HttpMethod::GET => 0,
            HttpMethod::POST => 1,
            HttpMethod::PUT => 2,
            HttpMethod::DELETE => 3,
            HttpMethod::PATCH => 4,
            HttpMethod::OPTIONS => 5,
        }
    }

    /// The key of the endpoint for `method` and `path`.
    fn key_for(method: HttpMethod, path: &String) -> (key: String)
        ensures
            key@ == endpoint_key(method, path@),
    {
        let mut key = decimal(Self::method_number(method));
        key.append(":");
        key.append(path.as_str());
        key
    }

    /// The error for a request or a removal that names no endpoint.
    fn not_found(method: HttpMethod, path: &String) -> (e: DreasError)
        ensures
            e@ == endpoint_not_found(method, path@),
    {
        let mut message = String::from_str("Endpoint not found: ");
        message.append(decimal(Self::method_number(method)).as_str());
        message.append(" ");
        message.append(path.as_str());
        DreasError::Generic(message)
    }

    /// Checks an endpoint before it enters the table.
    pub fn validate_endpoint(&self, endpoint: &ApiEndpoint) -> (r: Result<(), DreasError>)
        ensures
            match r {
                Ok(_) => endpoint_fault(endpoint@) is None,
                Err(e) => endpoint_fault(endpoint@) is Some && e@ == DreasErrorView::Configuration(
                    endpoint_fault(endpoint@)->0,
                ),
            },
    {
        if endpoint.path.as_str().is_empty() {
            return Err(DreasError::Configuration("Endpoint path cannot be empty".to_string()));
        }
        if endpoint.handler.as_str().is_empty() {
            return Err(DreasError::Configuration("Endpoint handler cannot be empty".to_string()));
        }
        if endpoint.path.as_str().get_char(0) != '/' {
            return Err(
                DreasError::Configuration("Endpoint path must start with '/'".to_string()),
            );
        }
        Ok(())
    }

    /// Puts a valid endpoint into the table under its key, replacing an
    /// earlier one of that key. A faulty endpoint is refused and the table
    /// stays as it was.
    pub fn register_endpoint(&mut self, endpoint: ApiEndpoint) -> (r: Result<(), DreasError>)
        ensures
            final(self).service_id() == old(self).service_id(),
            final(self).port() == old(self).port(),
            match r {
                Ok(_) => {
                    &&& endpoint_fault(endpoint@) is None
                    &&& final(self).endpoints() == old(self).endpoints().insert(
                        endpoint_key(endpoint@.method, endpoint@.path),
                        endpoint@,
                    )
                },
                Err(e) => {
                    &&& endpoint_fault(endpoint@) is Some
                    &&& e@ == DreasErrorView::Configuration(endpoint_fault(endpoint@)->0)
                    &&& final(self).endpoints() == old(self).endpoints()
                },
            },
    {
        let key = Self::key_for(endpoint.method, &endpoint.path);
        match self.validate_endpoint(&endpoint) {
            Ok(_) => {},
            Err(e) => {
                return Err(e);
            },
        }
        self.endpoints.insert(key, endpoint);
        proof {
            assert(self.endpoints() =~= old(self).endpoints().insert(
                endpoint_key(endpoint@.method, endpoint@.path),
                endpoint@,
            ));
        }
        Ok(())
    }

    /// Checks that a request carries a bearer token.
    pub fn validate_authentication(&self, request: &ApiRequest) -> (r: Result<(), DreasError>)
        ensures
            match r {
                Ok(_) => is_authenticated(request.headers@),
                Err(e) => !is_authenticated(request.headers@) && e@
                    == DreasErrorView::Authentication("Missing or invalid authorization header"@),
            },
    {
        let name = "Authorization".to_string();
        if let Some(value) = request.headers.get(&name) {
            if starts_with(value, "Bearer ") {
                return Ok(());
            }
        }
        Err(DreasError::Authentication("Missing or invalid authorization header".to_string()))
    }

    /// Checks the rate limit of an endpoint. No request is over it.
    fn check_rate_limit(&self, request: &ApiRequest, rate_limit: u32) -> (r: Result<
        (),
        DreasError,
    >)
        ensures
            r is Ok,
    {
        Ok(())
    }

    /// The router's statistics, stamped with the current time.
    pub fn get_service_stats(&self) -> (stats: ApiStats)
        ensures
            stats.service_id == self.service_id(),
            stats.port == self.port(),
            stats.total_endpoints == self.endpoints().len(),
    {
        let total_endpoints = self.endpoints.len();
        proof {
            assert(self.endpoints().dom() =~= self.endpoints@.dom());
        }
        ApiStats {
            service_id: self.service_id,
            port: self.port,
            total_endpoints,
            uptime: current_time(),
        }
    }

    /// What the handler of `endpoint` answers to `request`.
    fn handle_request(&self, request: &ApiRequest, endpoint: &ApiEndpoint) -> (r: Result<
        ResponseBody,
        DreasError,
    >)
        ensures
            r is Ok,
            r->Ok_0@ == handler_body(
                endpoint@.handler,
                self.service_id(),
                self.port(),
                self.endpoints().len(),
                request.request_id,
            ),
    {
        let health = "health_check".to_string();
        let stats = "get_stats".to_string();
        if endpoint.handler == health {
            Ok(ResponseBody::Health { service_id: self.service_id, timestamp: current_time() })
        } else if endpoint.handler == stats {
            Ok(ResponseBody::Stats(self.get_service_stats()))
        } else {
            Ok(
                ResponseBody::Processed {
                    handler: endpoint.handler.clone(),
                    request_id: request.request_id,
                },
            )
        }
    }

    /// The headers of every response: the content type, the router's
    /// identity, and the time of the answer.
    fn get_default_headers(&self) -> (headers: Metadata)
        ensures
            headers@.dom() == set!["Content-Type"@, "X-Service-ID"@, "X-Request-Timestamp"@],
            headers@["Content-Type"@] == "application/json"@,
            headers@["X-Service-ID"@] == hyphenated_text(self.service_id()),
    {
        proof {
            reveal_strlit("Content-Type");
            reveal_strlit("X-Service-ID");
            reveal_strlit("X-Request-Timestamp");
            assert("Content-Type"@[0] != "X-Service-ID"@[0]);
            assert("Content-Type"@.len() != "X-Request-Timestamp"@.len());
            assert("X-Service-ID"@.len() != "X-Request-Timestamp"@.len());
        }
        let mut headers = Metadata::new();
        headers.insert("Content-Type".to_string(), "application/json".to_string());
        headers.insert("X-Service-ID".to_string(), id_text(self.service_id));
        headers.insert("X-Request-Timestamp".to_string(), current_time_text());
        proof {
            assert(headers@.dom() =~= set![
                "Content-Type"@,
                "X-Service-ID"@,
                "X-Request-Timestamp"@,
            ]);
        }
        headers
    }

    /// Answers a request. A request that names no endpoint, or lacks the
    /// bearer token that its endpoint asks for, is refused with the error
    /// for that; any other request gets status 200, the default headers
    /// and the body of its endpoint's handler.
    pub fn process_request(&self, request: ApiRequest) -> (r: Result<ApiResponse, DreasError>)
        ensures
            match r {
                Ok(response) => {
                    &&& request_refusal(
                        self.endpoints(),
                        request.method,
                        request.path@,
                        request.headers@,
                    ) is None
                    &&& response.request_id == request.request_id
                    &&& response.status_code == 200
                    &&& response.body is Some
                    &&& response.body->0@ == handler_body(
                        self.endpoints()[endpoint_key(request.method, request.path@)].handler,
                        self.service_id(),
                        self.port(),
                        self.endpoints().len(),
                        request.request_id,
                    )
                    &&& response.headers@.dom() == set![
                        "Content-Type"@,
                        "X-Service-ID"@,
                        "X-Request-Timestamp"@,
                    ]
                    &&& response.headers@["Content-Type"@] == "application/json"@
                    &&& response.headers@["X-Service-ID"@] == hyphenated_text(self.service_id())
                },
                Err(e) => request_refusal(
                    self.endpoints(),
                    request.method,
                    request.path@,
                    request.headers@,
                ) == Some(e@),
            },
    {
        let start_time = current_time();
        let endpoint_key = Self::key_for(request.method, &request.path);
        proof {
            assert(self.endpoints().dom() =~= self.endpoints@.dom());
        }
        let endpoint = match self.endpoints.get(&endpoint_key) {
            Some(endpoint) => endpoint,
            None => {
                return Err(Self::not_found(request.method, &request.path));
            },
        };
        assert(self.endpoints()[endpoint_key@] == endpoint@);
        if endpoint.requires_auth {
            match self.validate_authentication(&request) {
                Ok(_) => {},
                Err(e) => {
                    return Err(e);
                },
            }
        }
        if let Some(rate_limit) = endpoint.rate_limit {
            match self.check_rate_limit(&request, rate_limit) {
                Ok(_) => {},
                Err(e) => {
                    return Err(e);
                },
            }
        }
        let response_body = match self.handle_request(&request, endpoint) {
            Ok(body) => body,
            Err(e) => {
                return Err(e);
            },
        };
        let now = current_time();
        Ok(
            ApiResponse {
                request_id: request.request_id,
                status_code: 200,
                headers: self.get_default_headers(),
                body: Some(response_body),
                processing_time_ms: elapsed_millis(&start_time, &now),
                timestamp: now,
            },
        )
    }

    /// The endpoints of the table, in the order in which their keys first
    /// arrived.
    pub fn get_endpoints(&self) -> (list: Vec<ApiEndpoint>)
        ensures
            list@.map_values(|e: ApiEndpoint| e@) == self.endpoint_list(),
            list@.len() == self.endpoints().len(),
            lists_in_order(self.endpoint_keys(), self.endpoint_list(), self.endpoints()),
    {
        let n = self.endpoints.len();
        proof {
            assert(self.endpoints().dom() =~= self.endpoints@.dom());
            assert forall|i: int| 0 <= i < self.endpoint_keys().len() implies (
            #[trigger] self.endpoint_list()[i]) == self.endpoints()[self.endpoint_keys()[i]] by {
                assert(self.endpoints@[self.endpoints.keys()[i]] == self.endpoints.values()[i]);
            }
        }
        let mut list: Vec<ApiEndpoint> = Vec::new();
        let mut i: usize = 0;
        while i < n
            invariant
                i <= n,
                n == self.endpoints.keys().len(),
                self.endpoints.consistent(),
                list@.map_values(|e: ApiEndpoint| e@) == self.endpoint_list().take(i as int),
            decreases n - i,
        {
            let ghost prior = list@.map_values(|e: ApiEndpoint| e@);
            let item = self.endpoints.value_at(i).clone();
            list.push(item);
            proof {
                assert(list@.map_values(|e: ApiEndpoint| e@) =~= prior.push(item@));
                assert(self.endpoint_list().take(i as int).push(self.endpoint_list()[i as int])
                    =~= self.endpoint_list().take(i as int + 1));
            }
            i += 1;
        }
        proof {
            assert(self.endpoint_list().take(n as int) =~= self.endpoint_list());
        }
        list
    }

    /// Takes the endpoint for `method` and `path` out of the table. It
    /// fails where the table holds none.
    pub fn remove_endpoint(&mut self, method: HttpMethod, path: &str) -> (r: Result<
        (),
        DreasError,
    >)
        ensures
            final(self).service_id() == old(self).service_id(),
            final(self).port() == old(self).port(),
            match r {
                Ok(_) => {
                    &&& old(self).endpoints().contains_key(endpoint_key(method, path@))
                    &&& final(self).endpoints() == old(self).endpoints().remove(
                        endpoint_key(method, path@),
                    )
                },
                Err(e) => {
                    &&& !old(self).endpoints().contains_key(endpoint_key(method, path@))
                    &&& e@ == endpoint_not_found(method, path@)
                    &&& final(self).endpoints() == old(self).endpoints()
                },
            },
    {
        let path = path.to_owned();
        let key = Self::key_for(method, &path);
        proof {
            assert(self.endpoints().dom() =~= self.endpoints@.dom());
        }
        match self.endpoints.remove(&key) {
            Some(_) => {
                proof {
                    assert(self.endpoints() =~= old(self).endpoints().remove(key@));
                }
                Ok(())
            },
            None => {
                proof {
                    assert(self.endpoints() =~= old(self).endpoints());
                }
                Err(Self::not_found(method, &path))
            },
        }
    }
}

} // verus!
