//! The configuration model and its defaults.

use vstd::prelude::*;

verus! {

/// The whole configuration: the server section and the named requests, in the
/// order they are processed. Request names are distinct (`ConfigView::wf`).
#[derive(Debug)]
pub struct Config {
    pub server: Option<ServerConfig>,
    pub requests: Option<Vec<(String, RequestConfig)>>,
}

/// Where the server listens.
#[derive(Debug, Clone)]
pub struct ServerConfig {
    pub port: Option<u16>,
    pub host: Option<String>,
}

/// One request: its type, HTTP method, path and responses.
#[derive(Debug, Clone)]
pub struct RequestConfig {
    pub type_: Option<String>,
    pub method: Option<String>,
    pub path: Option<String>,
    pub responses: Option<Vec<ResponseConfig>>,
}

/// One response of a request.
#[derive(Debug, Clone)]
pub struct ResponseConfig {
    pub content_type: Option<String>,
    pub headers: Option<Vec<String>>,
    pub status: Option<u16>,
    pub response: Option<String>,
    pub weight: Option<u32>,
    pub delay: Option<u64>,
}

/// The mathematical model of a server section.
pub struct ServerConfigView {
    pub port: Option<u16>,
    pub host: Option<Seq<char>>,
}

/// The mathematical model of a request.
pub struct RequestConfigView {
    pub type_: Option<Seq<char>>,
    pub method: Option<Seq<char>>,
    pub path: Option<Seq<char>>,
    pub responses: Option<Seq<ResponseConfigView>>,
}

/// The mathematical model of a response.
pub struct ResponseConfigView {
    pub content_type: Option<Seq<char>>,
    pub headers: Option<Seq<Seq<char>>>,
    pub status: Option<u16>,
    pub response: Option<Seq<char>>,
    pub weight: Option<u32>,
    pub delay: Option<u64>,
}

/// The mathematical model of a whole configuration.
pub struct ConfigView {
    pub server: Option<ServerConfigView>,
    pub requests: Option<Seq<(Seq<char>, RequestConfigView)>>,
}

/// No two requests have the same name.
pub open spec fn distinct_names(requests: Seq<(Seq<char>, RequestConfigView)>) -> bool {
    forall|i: int, j: int|
        0 <= i < requests.len() && 0 <= j < requests.len() && i != j ==> #[trigger] requests[i].0
            != #[trigger] requests[j].0
}

impl ConfigView {
    /// The requests, named in a table of the configuration file, have distinct names.
    pub open spec fn wf(self) -> bool {
        self.requests matches Some(requests) ==> distinct_names(requests)
    }
}

impl View for ServerConfig {
    type V = ServerConfigView;

    open spec fn view(&self) -> ServerConfigView {
        ServerConfigView { port: self.port, host: self.host.deep_view() }
    }
}

impl DeepView for ServerConfig {
    type V = ServerConfigView;

    open spec fn deep_view(&self) -> ServerConfigView {
        self.view()
    }
}

impl View for ResponseConfig {
    type V = ResponseConfigView;

    open spec fn view(&self) -> ResponseConfigView {
        ResponseConfigView {
            content_type: self.content_type.deep_view(),
            headers: self.headers.deep_view(),
            status: self.status,
            response: self.response.deep_view(),
            weight: self.weight,
            delay: self.delay,
        }
    }
}

impl DeepView for ResponseConfig {
    type V = ResponseConfigView;

    open spec fn deep_view(&self) -> ResponseConfigView {
        self.view()
    }
}

impl View for RequestConfig {
    type V = RequestConfigView;

    open spec fn view(&self) -> RequestConfigView {
        RequestConfigView {
            type_: self.type_.deep_view(),
            method: self.method.deep_view(),
            path: self.path.deep_view(),
            responses: self.responses.deep_view(),
        }
    }
}

impl DeepView for RequestConfig {
    type V = RequestConfigView;

    open spec fn deep_view(&self) -> RequestConfigView {
        self.view()
    }
}

impl View for Config {
    type V = ConfigView;

    open spec fn view(&self) -> ConfigView {
        ConfigView { server: self.server.deep_view(), requests: self.requests.deep_view() }
    }
}

/// The port used when neither the command line nor the config names one.
pub open spec fn spec_default_port() -> u16 {
    4000
}

/// The host used when neither the command line nor the config names one.
pub open spec fn spec_default_host() -> Seq<char> {
    "localhost"@
}

/// The status of a response that names none.
pub open spec fn spec_default_status() -> u16 {
    200
}

/// The weight of a random response that names none.
pub open spec fn spec_default_weight() -> u32 {
    1
}

/// The method of a request that names none.
pub open spec fn spec_default_method() -> Seq<char> {
    "GET"@
}

/// The content type of a response that names none.
pub open spec fn spec_default_content_type() -> Seq<char> {
    "application/json"@
}

/// The single header of a response that names none.
pub open spec fn spec_default_header() -> Seq<char> {
    "Content-Type: application/json"@
}

/// The headers of a response that names none.
pub open spec fn spec_default_headers() -> Seq<Seq<char>> {
    seq![spec_default_header()]
}

/// The type of a request that names none.
pub open spec fn spec_default_type() -> Seq<char> {
    "single"@
}

/// Returns the default port.
pub fn default_port() -> (port: u16)
    ensures
        port == spec_default_port(),
{
    4000
}

/// Returns the default host.
pub fn default_host() -> (host: String)
    ensures
        host@ == spec_default_host(),
{
    "localhost".to_owned()
}

/// Returns the default status of a response.
pub fn default_status() -> (status: u16)
    ensures
        status == spec_default_status(),
{
    200
}

/// Returns the default weight of a response.
pub fn default_weight() -> (weight: u32)
    ensures
        weight == spec_default_weight(),
{
    1
}

/// Returns the default method of a request.
pub fn default_method() -> (method: String)
    ensures
        method@ == spec_default_method(),
{
    "GET".to_owned()
}

/// Returns the default content type of a response.
pub fn default_content_type() -> (content_type: String)
    ensures
        content_type@ == spec_default_content_type(),
{
    "application/json".to_owned()
}

/// Returns the default headers of a response.
pub fn default_headers() -> (headers: Vec<String>)
    ensures
        headers.deep_view() == spec_default_headers(),
{
    let mut headers = Vec::new();
    headers.push("Content-Type: application/json".to_owned());
    assert(headers.deep_view() =~= spec_default_headers());
    headers
}

/// Returns the default type of a request.
pub fn default_type() -> (type_: String)
    ensures
        type_@ == spec_default_type(),
{
    "single".to_owned()
}

impl Default for ServerConfig {
    /// The server section used when the config has none: the default port and host.
    fn default() -> (r: ServerConfig)
        ensures
            r@ == (ServerConfigView { port: Some(spec_default_port()), host: Some(spec_default_host()) }),
    {
        ServerConfig { port: Some(default_port()), host: Some(default_host()) }
    }
}

} // verus!
