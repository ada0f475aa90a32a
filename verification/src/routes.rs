//! From a request configuration to a route: the method, the path, and the
//! handler that answers it.

use vstd::prelude::*;
use crate::config::{
    default_method, default_status, default_type, default_weight, default_headers, spec_default_method,
    spec_default_headers, spec_default_status, spec_default_type, spec_default_weight, RequestConfig, RequestConfigView,
    ResponseConfig, ResponseConfigView,
};
use iron::method::Method;
use crate::error::{HaxoniteError, HaxoniteErrorView};
use crate::handlers::iterating_response::{
    kind_of, IteratingKind, IteratingResponse, IteratingResponseView,
};
use crate::handlers::random_response::{RandomResponse, RandomResponseView};
use crate::handlers::single_response::{SingleResponse, SingleResponseView};
use crate::headers::{
    keep_and_split, lemma_kept_split_filters_by_pattern, regex_is_match, spec_process_headers,
    split_pieces,
};
use crate::text::str_eq;
use vstd::string::*;

verus! {

/// The model of a result: the view of its value or of its error.
pub open spec fn result_view<T: View, E: View>(r: Result<T, E>) -> Result<T::V, E::V> {
    match r {
        Ok(t) => Ok(t@),
        Err(e) => Err(e@),
    }
}

/// The HTTP methods a route can be defined for.
#[derive(Debug, Clone, Copy, PartialEq, Eq, Structural)]
pub enum HttpMethod {
    Options,
    Get,
    Post,
    Put,
    Delete,
    Head,
    Trace,
    Connect,
    Patch,
}

/// What the HTTP method parser makes of a text: a standard method, an
/// extension method, or nothing (for the empty text).
#[derive(Debug)]
pub enum ParsedMethod {
    Known(HttpMethod),
    Extension(String),
    Invalid,
}

/// The standard method that `s` names exactly, if any.
pub open spec fn standard_method(s: Seq<char>) -> Option<HttpMethod> {
    if s == "OPTIONS"@ {
        Some(HttpMethod::Options)
    } else if s == "GET"@ {
        Some(HttpMethod::Get)
    } else if s == "POST"@ {
        Some(HttpMethod::Post)
    } else if s == "PUT"@ {
        Some(HttpMethod::Put)
    } else if s == "DELETE"@ {
        Some(HttpMethod::Delete)
    } else if s == "HEAD"@ {
        Some(HttpMethod::Head)
    } else if s == "TRACE"@ {
        Some(HttpMethod::Trace)
    } else if s == "CONNECT"@ {
        Some(HttpMethod::Connect)
    } else if s == "PATCH"@ {
        Some(HttpMethod::Patch)
    } else {
        None
    }
}

/// Parses a method with `iron::method::Method::from_str` (the method parser of
/// hyper): the empty text is refused, the nine standard names (upper case,
/// exactly) give their method, and any other text is an extension method.
#[verifier::external_body]
fn method_from_str(s: &str) -> (r: ParsedMethod)
    ensures
        s@.len() == 0 ==> r == ParsedMethod::Invalid,
        s@.len() > 0 && standard_method(s@) is Some ==> r == ParsedMethod::Known(standard_method(s@).unwrap()),
        s@.len() > 0 && standard_method(s@) is None ==> r is Extension && r->Extension_0@ == s@,
{
    match <Method as std::str::FromStr>::from_str(s) {
        Ok(Method::Options) => ParsedMethod::Known(HttpMethod::Options),
        Ok(Method::Get) => ParsedMethod::Known(HttpMethod::Get),
        Ok(Method::Post) => ParsedMethod::Known(HttpMethod::Post),
        Ok(Method::Put) => ParsedMethod::Known(HttpMethod::Put),
        Ok(Method::Delete) => ParsedMethod::Known(HttpMethod::Delete),
        Ok(Method::Head) => ParsedMethod::Known(HttpMethod::Head),
        Ok(Method::Trace) => ParsedMethod::Known(HttpMethod::Trace),
        Ok(Method::Connect) => ParsedMethod::Known(HttpMethod::Connect),
        Ok(Method::Patch) => ParsedMethod::Known(HttpMethod::Patch),
        Ok(Method::Extension(e)) => ParsedMethod::Extension(e),
        Err(_) => ParsedMethod::Invalid,
    }
}

/// A character in ASCII upper case: `a` to `z` become `A` to `Z`, all others stay.
pub open spec fn upper_char(c: char) -> char {
    if 97 <= (c as u32) && (c as u32) <= 122 {
        ((c as u32) - 32) as char
    } else {
        c
    }
}

/// A text in ASCII upper case.
pub open spec fn ascii_upper(s: Seq<char>) -> Seq<char> {
    s.map_values(|c: char| upper_char(c))
}

/// `String::push`: appends the character to the end of the string.
#[verifier::external_body]
fn push_char(s: &mut String, c: char)
    ensures
        final(s)@ == old(s)@.push(c),
{
    s.push(c)
}

/// A character in ASCII upper case.
fn upper_char_exec(c: char) -> (r: char)
    ensures
        r == upper_char(c),
{
    let v = c as u32;
    if 97 <= v && v <= 122 {
        ((v - 32) as u8) as char
    } else {
        c
    }
}

/// A copy of `s` where each ASCII letter `a` to `z` is mapped to `A` to `Z`
/// and every other character is unchanged.
fn to_ascii_uppercase(s: &str) -> (r: String)
    ensures
        r@ == ascii_upper(s@),
{
    let n = s.unicode_len();
    let mut r = String::new();
    let mut i: usize = 0;
    while i < n
        invariant
            n == s@.len(),
            i <= n,
            r@ == ascii_upper(s@.take(i as int)),
        decreases n - i,
    {
        let c = s.get_char(i);
        push_char(&mut r, upper_char_exec(c));
        assert(ascii_upper(s@.take(i + 1)) =~= ascii_upper(s@.take(i as int)).push(upper_char(c)));
        i = i + 1;
    }
    assert(s@.take(n as int) =~= s@);
    r
}

/// The method a route is defined for: the configured text, in upper case, must
/// name a standard method; the empty text and extension methods are refused.
pub open spec fn route_method(method: Seq<char>) -> Option<HttpMethod> {
    let upper = ascii_upper(method);
    if upper.len() == 0 {
        None
    } else {
        standard_method(upper)
    }
}

/// Whether the file of the response at position `i` exists, as `exists` tells it.
pub open spec fn exists_at(exists: Seq<bool>, i: int) -> bool {
    0 <= i < exists.len() && exists[i]
}

/// The headers a response is configured with: its headers if it names any;
/// else, if it names a content type, the one `Content-Type` header with it;
/// else none, and the default headers apply.
pub open spec fn configured_headers(config: ResponseConfigView) -> Option<Seq<Seq<char>>> {
    match config.headers {
        Some(h) => Some(h),
        None => match config.content_type {
            Some(content_type) => Some(seq!["Content-Type: "@ + content_type]),
            None => None,
        },
    }
}

/// Whether a status is a valid HTTP status.
pub open spec fn valid_status(status: u16) -> bool {
    100 <= status <= 599
}

/// The response handler built from a response configuration of the request
/// `name`, where `exists` tells whether the response file exists: an invalid
/// status is refused first, then a missing response file name, then a
/// response file that does not exist. The status defaults to 200, and the
/// headers are the configured ones (see [`configured_headers`]) as
/// `process_headers` keeps and splits them.
pub open spec fn spec_single_response(
    name: Seq<char>,
    config: ResponseConfigView,
    exists: bool,
) -> Result<SingleResponseView, HaxoniteErrorView> {
    if config.status is Some && !valid_status(config.status.unwrap()) {
        Err(HaxoniteErrorView::InvalidHTTPStatus(name, config.status.unwrap()))
    } else if config.response is None {
        Err(HaxoniteErrorView::NoResponseDefined(name))
    } else if !exists {
        Err(HaxoniteErrorView::ResponseDoesNotExist(name))
    } else {
        Ok(
            SingleResponseView {
                response_path: config.response.unwrap(),
                headers: spec_process_headers(configured_headers(config)),
                status: match config.status {
                    Some(s) => s,
                    None => spec_default_status(),
                },
                delay: config.delay,
            },
        )
    }
}

/// The response handlers built from the responses `configs`, in order; the
/// error of the first one that fails, if one does.
pub open spec fn spec_single_responses(
    name: Seq<char>,
    configs: Seq<ResponseConfigView>,
    exists: Seq<bool>,
) -> Result<Seq<SingleResponseView>, HaxoniteErrorView>
    decreases configs.len(),
{
    if configs.len() == 0 {
        Ok(seq![])
    } else {
        match spec_single_responses(name, configs.drop_last(), exists) {
            Err(e) => Err(e),
            Ok(handlers) => match spec_single_response(
                name,
                configs.last(),
                exists_at(exists, configs.len() - 1),
            ) {
                Err(e) => Err(e),
                Ok(h) => Ok(handlers.push(h)),
            },
        }
    }
}

/// The weight of each response, 1 where none is configured.
pub open spec fn spec_weights(configs: Seq<ResponseConfigView>) -> Seq<u32> {
    configs.map_values(
        |c: ResponseConfigView|
            match c.weight {
                Some(w) => w,
                None => spec_default_weight(),
            },
    )
}

/// The handler of a route.
#[derive(Debug)]
pub enum RouteHandler {
    Single(SingleResponse),
    Random(RandomResponse),
    Iterating(IteratingResponse),
    /// Static files served from the named directory.
    Static(String),
}

/// The mathematical model of a route handler.
pub enum RouteHandlerView {
    Single(SingleResponseView),
    Random(RandomResponseView),
    Iterating(IteratingResponseView),
    Static(Seq<char>),
}

impl View for RouteHandler {
    type V = RouteHandlerView;

    open spec fn view(&self) -> RouteHandlerView {
        match self {
            RouteHandler::Single(h) => RouteHandlerView::Single(h@),
            RouteHandler::Random(h) => RouteHandlerView::Random(h@),
            RouteHandler::Iterating(h) => RouteHandlerView::Iterating(h@),
            RouteHandler::Static(dir) => RouteHandlerView::Static(dir@),
        }
    }
}

/// A route: the request it comes from, its method, its path, its type and its handler.
#[derive(Debug)]
pub struct Route {
    pub name: String,
    pub method: HttpMethod,
    pub path: String,
    pub type_: String,
    pub handler: RouteHandler,
}

/// The mathematical model of a route.
pub struct RouteView {
    pub name: Seq<char>,
    pub method: HttpMethod,
    pub path: Seq<char>,
    pub type_: Seq<char>,
    pub handler: RouteHandlerView,
}

impl View for Route {
    type V = RouteView;

    open spec fn view(&self) -> RouteView {
        RouteView {
            name: self.name@,
            method: self.method,
            path: self.path@,
            type_: self.type_@,
            handler: self.handler@,
        }
    }
}

impl DeepView for Route {
    type V = RouteView;

    open spec fn deep_view(&self) -> RouteView {
        self.view()
    }
}

/// The handler that a request of type `type_` with the responses `configs` is
/// served by:
/// - `"single"`: the first response;
/// - `"random"`: all responses with their weights;
/// - `"roundrobin"` and `"chain"`: all responses, served in turn from the first;
/// - for each of these, a request without any response is refused;
/// - `"static"`: the directory that the first response names;
/// - any other type is refused.
pub open spec fn spec_handler(
    name: Seq<char>,
    type_: Seq<char>,
    configs: Seq<ResponseConfigView>,
    exists: Seq<bool>,
) -> Result<RouteHandlerView, HaxoniteErrorView> {
    if type_ == "single"@ {
        if configs.len() == 0 {
            Err(HaxoniteErrorView::NoResponseDefined(name))
        } else {
            match spec_single_response(name, configs[0], exists_at(exists, 0)) {
                Err(e) => Err(e),
                Ok(h) => Ok(RouteHandlerView::Single(h)),
            }
        }
    } else if type_ == "random"@ {
        if configs.len() == 0 {
            Err(HaxoniteErrorView::NoResponseDefined(name))
        } else {
            match spec_single_responses(name, configs, exists) {
                Err(e) => Err(e),
                Ok(hs) => Ok(
                    RouteHandlerView::Random(
                        RandomResponseView { handlers: hs, weights: spec_weights(configs) },
                    ),
                ),
            }
        }
    } else if type_ == "roundrobin"@ || type_ == "chain"@ {
        if configs.len() == 0 {
            Err(HaxoniteErrorView::NoResponseDefined(name))
        } else {
            match spec_single_responses(name, configs, exists) {
                Err(e) => Err(e),
                Ok(hs) => Ok(
                    RouteHandlerView::Iterating(
                        IteratingResponseView {
                            handlers: hs,
                            current: if hs.len() == 0 {
                                None
                            } else {
                                Some(0)
                            },
                            kind: kind_of(type_),
                        },
                    ),
                ),
            }
        }
    } else if type_ == "static"@ {
        if configs.len() == 0 || configs[0].response is None {
            Err(HaxoniteErrorView::NoResponseDefined(name))
        } else {
            Ok(RouteHandlerView::Static(configs[0].response.unwrap()))
        }
    } else {
        Err(HaxoniteErrorView::InvalidType(name))
    }
}

/// The route defined by the request `name` with configuration `config`, where
/// `exists` tells for each response whether its file exists. The method
/// defaults to `"GET"` and the type to `"single"`; a request without a path or
/// without responses is refused, then the handler is built, and last the
/// method is checked.
#[verifier::opaque]
pub open spec fn spec_define_route(
    name: Seq<char>,
    config: RequestConfigView,
    exists: Seq<bool>,
) -> Result<RouteView, HaxoniteErrorView> {
    let method = match config.method {
        Some(m) => m,
        None => spec_default_method(),
    };
    let type_ = match config.type_ {
        Some(t) => t,
        None => spec_default_type(),
    };
    if config.path is None {
        Err(HaxoniteErrorView::NoPathDefined(name))
    } else if config.responses is None {
        Err(HaxoniteErrorView::NoResponseDefined(name))
    } else {
        match spec_handler(name, type_, config.responses.unwrap(), exists) {
            Err(e) => Err(e),
            Ok(handler) => match route_method(method) {
                None => Err(HaxoniteErrorView::InvalidHTTPMethod(name)),
                Some(m) => Ok(
                    RouteView {
                        name: name,
                        method: m,
                        path: config.path.unwrap(),
                        type_: type_,
                        handler: handler,
                    },
                ),
            },
        }
    }
}

/// Builds the handler of one response of the request `request_name`;
/// `response_exists` tells whether the response file exists.
pub fn get_single_response_handler(
    request_name: &String,
    response_config: &ResponseConfig,
    response_exists: bool,
) -> (r: Result<SingleResponse, HaxoniteError>)
    ensures
        result_view(r) == spec_single_response(request_name@, response_config@, response_exists),
{
    let headers = match &response_config.headers {
        Some(h) => keep_and_split(h),
        None => match &response_config.content_type {
            Some(content_type) => {
                let mut header = "Content-Type: ".to_owned();
                header.append(content_type.as_str());
                let mut headers = Vec::new();
                headers.push(header);
                assert(headers.deep_view() =~= configured_headers(response_config@).unwrap());
                keep_and_split(&headers)
            },
            None => keep_and_split(&default_headers()),
        },
    };
    let status = match response_config.status {
        Some(status) => {
            if status >= 100 && status <= 599 {
                status
            } else {
                return Err(HaxoniteError::InvalidHTTPStatus(request_name.clone(), status));
            }
        },
        None => default_status(),
    };
    let response = match &response_config.response {
        Some(response) => response.clone(),
        None => return Err(HaxoniteError::NoResponseDefined(request_name.clone())),
    };
    if !response_exists {
        return Err(HaxoniteError::ResponseDoesNotExist(request_name.clone()));
    }
    Ok(SingleResponse::new(status, headers, response, response_config.delay))
}

/// Whether the file of the response at position `i` exists.
fn exists_at_index(exists: &Vec<bool>, i: usize) -> (r: bool)
    ensures
        r == exists_at(exists@, i as int),
{
    i < exists.len() && exists[i]
}

/// Builds the handler of a random request: all responses with their weights.
fn random_handler(
    request_name: &String,
    configs: &Vec<ResponseConfig>,
    exists: &Vec<bool>,
) -> (r: Result<RandomResponse, HaxoniteError>)
    ensures
        match r {
            Ok(h) => spec_single_responses(request_name@, configs.deep_view(), exists@) == Ok::<
                Seq<SingleResponseView>,
                HaxoniteErrorView,
            >(h@.handlers) && h@.weights == spec_weights(configs.deep_view()) && h@.wf(),
            Err(e) => spec_single_responses(request_name@, configs.deep_view(), exists@) == Err::<
                Seq<SingleResponseView>,
                HaxoniteErrorView,
            >(e@),
        },
{
    let ghost cs = configs.deep_view();
    let mut handler = RandomResponse::new();
    let mut i: usize = 0;
    while i < configs.len()
        invariant
            cs == configs.deep_view(),
            i <= configs.len(),
            handler@.wf(),
            spec_single_responses(request_name@, cs.take(i as int), exists@) == Ok::<
                Seq<SingleResponseView>,
                HaxoniteErrorView,
            >(handler@.handlers),
            handler@.weights == spec_weights(cs.take(i as int)),
        decreases configs.len() - i,
    {
        assert(cs.take(i + 1).drop_last() =~= cs.take(i as int));
        let weight = match configs[i].weight {
            Some(w) => w,
            None => default_weight(),
        };
        let single = get_single_response_handler(
            request_name,
            &configs[i],
            exists_at_index(exists, i),
        );
        match single {
            Ok(h) => {
                handler.add_handler(weight, h);
                assert(spec_weights(cs.take(i + 1)) =~= spec_weights(cs.take(i as int)).push(
                    weight,
                ));
            },
            Err(e) => {
                assert(cs.take(i + 1).last() == configs[i as int]@);
                proof {
                    lemma_first_error_stays(request_name@, cs, exists@, (i + 1) as nat);
                }
                return Err(e);
            },
        }
        i = i + 1;
    }
    assert(cs.take(configs.len() as int) =~= cs);
    Ok(handler)
}

/// Builds the handler of a round-robin or chained request: all responses, in turn.
fn iterating_handler(
    request_name: &String,
    kind: &str,
    configs: &Vec<ResponseConfig>,
    exists: &Vec<bool>,
) -> (r: Result<IteratingResponse, HaxoniteError>)
    ensures
        match r {
            Ok(h) => spec_single_responses(request_name@, configs.deep_view(), exists@) == Ok::<
                Seq<SingleResponseView>,
                HaxoniteErrorView,
            >(h@.handlers) && h@.kind == kind_of(kind@) && h@.current == (if h@.handlers.len()
                == 0 {
                None
            } else {
                Some(0nat)
            }) && h@.wf(),
            Err(e) => spec_single_responses(request_name@, configs.deep_view(), exists@) == Err::<
                Seq<SingleResponseView>,
                HaxoniteErrorView,
            >(e@),
        },
{
    let ghost cs = configs.deep_view();
    let mut handler = IteratingResponse::new(kind);
    let mut i: usize = 0;
    while i < configs.len()
        invariant
            cs == configs.deep_view(),
            i <= configs.len(),
            handler@.wf(),
            handler@.kind == kind_of(kind@),
            handler@.current == (if handler@.handlers.len() == 0 {
                None
            } else {
                Some(0nat)
            }),
            spec_single_responses(request_name@, cs.take(i as int), exists@) == Ok::<
                Seq<SingleResponseView>,
                HaxoniteErrorView,
            >(handler@.handlers),
        decreases configs.len() - i,
    {
        assert(cs.take(i + 1).drop_last() =~= cs.take(i as int));
        let single = get_single_response_handler(
            request_name,
            &configs[i],
            exists_at_index(exists, i),
        );
        match single {
            Ok(h) => {
                handler.add_handler(h);
            },
            Err(e) => {
                assert(cs.take(i + 1).last() == configs[i as int]@);
                proof {
                    lemma_first_error_stays(request_name@, cs, exists@, (i + 1) as nat);
                }
                return Err(e);
            },
        }
        i = i + 1;
    }
    assert(cs.take(configs.len() as int) =~= cs);
    Ok(handler)
}

/// Once building the first `k` responses fails, building all of them fails the same way.
proof fn lemma_first_error_stays(
    name: Seq<char>,
    configs: Seq<ResponseConfigView>,
    exists: Seq<bool>,
    k: nat,
)
    requires
        k <= configs.len(),
        spec_single_responses(name, configs.take(k as int), exists) is Err,
    ensures
        spec_single_responses(name, configs, exists) == spec_single_responses(
            name,
            configs.take(k as int),
            exists,
        ),
    decreases configs.len() - k,
{
    if k < configs.len() {
        let next = configs.take((k + 1) as int);
        assert(next.drop_last() =~= configs.take(k as int));
        lemma_first_error_stays(name, configs, exists, k + 1);
    } else {
        assert(configs.take(k as int) =~= configs);
    }
}

/// Defines the route of the request `request_name`. `response_exists` tells,
/// for each configured response in order, whether its response file exists.
pub fn define_route(
    request_name: &String,
    request_config: &RequestConfig,
    response_exists: &Vec<bool>,
) -> (r: Result<Route, HaxoniteError>)
    ensures
        result_view(r) == spec_define_route(request_name@, request_config@, response_exists@),
{
    proof {
        reveal(spec_define_route);
    }
    let method = match &request_config.method {
        Some(m) => m.clone(),
        None => default_method(),
    };
    let path = match &request_config.path {
        Some(path) => path.clone(),
        None => return Err(HaxoniteError::NoPathDefined(request_name.clone())),
    };
    let type_ = match &request_config.type_ {
        Some(t) => t.clone(),
        None => default_type(),
    };
    let response_configs = match &request_config.responses {
        Some(response_configs) => response_configs,
        None => return Err(HaxoniteError::NoResponseDefined(request_name.clone())),
    };
    let ghost cs = response_configs.deep_view();
    let handler = if str_eq(type_.as_str(), "single") {
        if response_configs.len() == 0 {
            return Err(HaxoniteError::NoResponseDefined(request_name.clone()));
        }
        match get_single_response_handler(
            request_name,
            &response_configs[0],
            exists_at_index(response_exists, 0),
        ) {
            Ok(h) => RouteHandler::Single(h),
            Err(e) => return Err(e),
        }
    } else if str_eq(type_.as_str(), "random") {
        if response_configs.len() == 0 {
            return Err(HaxoniteError::NoResponseDefined(request_name.clone()));
        }
        match random_handler(request_name, response_configs, response_exists) {
            Ok(h) => RouteHandler::Random(h),
            Err(e) => return Err(e),
        }
    } else if str_eq(type_.as_str(), "roundrobin") || str_eq(type_.as_str(), "chain") {
        if response_configs.len() == 0 {
            return Err(HaxoniteError::NoResponseDefined(request_name.clone()));
        }
        match iterating_handler(request_name, type_.as_str(), response_configs, response_exists) {
            Ok(h) => RouteHandler::Iterating(h),
            Err(e) => return Err(e),
        }
    } else if str_eq(type_.as_str(), "static") {
        if response_configs.len() == 0 {
            return Err(HaxoniteError::NoResponseDefined(request_name.clone()));
        }
        match &response_configs[0].response {
            Some(response) => RouteHandler::Static(response.clone()),
            None => return Err(HaxoniteError::NoResponseDefined(request_name.clone())),
        }
    } else {
        return Err(HaxoniteError::InvalidType(request_name.clone()));
    };
    let upper = to_ascii_uppercase(method.as_str());
    match method_from_str(upper.as_str()) {
        ParsedMethod::Known(m) => Ok(
            Route { name: request_name.clone(), method: m, path: path, type_: type_, handler: handler },
        ),
        _ => Err(HaxoniteError::InvalidHTTPMethod(request_name.clone())),
    }
}

impl Route {
    /// Whether the route is mounted as static files rather than routed to a handler.
    pub fn is_static(&self) -> (r: bool)
        ensures
            r == (self@.handler is Static),
    {
        match self.handler {
            RouteHandler::Static(_) => true,
            _ => false,
        }
    }
}

/// The responses that a route handler answers with (none for static files).
pub open spec fn handler_responses(h: RouteHandlerView) -> Seq<SingleResponseView> {
    match h {
        RouteHandlerView::Single(r) => seq![r],
        RouteHandlerView::Random(r) => r.handlers,
        RouteHandlerView::Iterating(r) => r.handlers,
        RouteHandlerView::Static(_) => seq![],
    }
}

/// Built responses have valid statuses, one per configured response.
proof fn lemma_single_responses_valid(
    name: Seq<char>,
    configs: Seq<ResponseConfigView>,
    exists: Seq<bool>,
)
    ensures
        spec_single_responses(name, configs, exists) matches Ok(hs) ==> {
            &&& hs.len() == configs.len()
            &&& forall|i: int| 0 <= i < hs.len() ==> valid_status(#[trigger] hs[i].status)
        },
    decreases configs.len(),
{
    if configs.len() > 0 {
        lemma_single_responses_valid(name, configs.drop_last(), exists);
    }
}

/// Every route that a request defines answers only with responses whose HTTP
/// status is valid (from 100 to 599), and its handler is well formed: a random
/// handler has one weight per response, an iterating handler points at its
/// first response, and every handler but static files has at least one response.
pub proof fn lemma_defined_routes_are_sound(
    name: Seq<char>,
    config: RequestConfigView,
    exists: Seq<bool>,
)
    ensures
        spec_define_route(name, config, exists) matches Ok(route) ==> {
            &&& forall|i: int|
                0 <= i < handler_responses(route.handler).len() ==> valid_status(
                    #[trigger] handler_responses(route.handler)[i].status,
                )
            &&& route.handler matches RouteHandlerView::Random(r) ==> r.wf()
            &&& route.handler matches RouteHandlerView::Iterating(r) ==> r.wf() && r.current
                == Some(0nat)
            &&& !(route.handler is Static) ==> handler_responses(route.handler).len() > 0
        },
{
    reveal(spec_define_route);
    if config.responses is Some {
        lemma_single_responses_valid(name, config.responses.unwrap(), exists);
    }
}

/// A response is built from its configuration alone: it is refused for a
/// status outside 100 to 599, then for a missing response file name, then for
/// a response file that does not exist, and built in every other case. The
/// built response serves the configured file with the configured delay and
/// status (200 when none is configured). Its headers are exactly those of
/// the configured headers that contain a match of `([\w-]+):\s+([\w/]+)`, in
/// order, each split on `": "`; with no headers configured, the one header
/// `Content-Type: ` followed by the configured content type stands in their
/// place, and with neither, `Content-Type: application/json`.
pub proof fn lemma_single_response_follows_config(
    name: Seq<char>,
    config: ResponseConfigView,
    exists: bool,
)
    ensures
        (spec_single_response(name, config, exists) is Ok) == ((config.status is None || (100
            <= config.status.unwrap() && config.status.unwrap() <= 599)) && config.response is Some
            && exists),
        config.status matches Some(s) ==> (!(100 <= s && s <= 599) ==> (spec_single_response(
            name,
            config,
            exists,
        ) matches Err(e) && e == HaxoniteErrorView::InvalidHTTPStatus(name, s))),
        (config.status is None || (100 <= config.status.unwrap() && config.status.unwrap() <= 599))
            && config.response is None ==> (spec_single_response(name, config, exists) matches Err(e)
            && e == HaxoniteErrorView::NoResponseDefined(name)),
        (config.status is None || (100 <= config.status.unwrap() && config.status.unwrap() <= 599))
            && config.response is Some && !exists ==> (spec_single_response(name, config, exists)
            matches Err(e) && e == HaxoniteErrorView::ResponseDoesNotExist(name)),
        spec_single_response(name, config, exists) matches Ok(v) ==> {
            &&& v.response_path == config.response.unwrap()
            &&& v.delay == config.delay
            &&& config.status matches Some(s) ==> v.status == s
            &&& config.status is None ==> v.status == 200
            &&& config.headers matches Some(hs) ==> v.headers == hs.filter(
                |h: Seq<char>| regex_is_match("([\\w-]+):\\s+([\\w/]+)"@, h),
            ).map_values(|h: Seq<char>| split_pieces(h))
            &&& config.headers is None ==> (config.content_type matches Some(ct) ==> v.headers
                == seq!["Content-Type: "@ + ct].filter(
                |h: Seq<char>| regex_is_match("([\\w-]+):\\s+([\\w/]+)"@, h),
            ).map_values(|h: Seq<char>| split_pieces(h)))
            &&& config.headers is None ==> (config.content_type is None ==> v.headers
                == seq!["Content-Type: application/json"@].filter(
                |h: Seq<char>| regex_is_match("([\\w-]+):\\s+([\\w/]+)"@, h),
            ).map_values(|h: Seq<char>| split_pieces(h)))
        },
{
    match configured_headers(config) {
        Some(hs) => lemma_kept_split_filters_by_pattern(hs),
        None => {
            lemma_kept_split_filters_by_pattern(spec_default_headers());
        },
    }
}

/// A request of type `"single"` (the type of a request that names none) is
/// served by its first configured response, whatever responses follow it:
/// the route is defined exactly when the request has a path and at least one
/// response, its method is a standard HTTP method, and the first response
/// can be built; the handler then serves the first response's file, with
/// its status (200 when none is configured) and its delay, and the route
/// defined is the one the request would define with its first response alone.
pub proof fn lemma_single_route_serves_first_response(
    name: Seq<char>,
    config: RequestConfigView,
    exists: Seq<bool>,
)
    requires
        config.type_ is None || config.type_ == Some("single"@),
    ensures
        spec_define_route(name, config, exists) matches Ok(route) ==> {
            &&& config.path == Some(route.path)
            &&& route.name == name
            &&& route.type_ == "single"@
            &&& config.responses is Some
            &&& config.responses.unwrap().len() > 0
            &&& exists.len() > 0 && exists[0]
            &&& route.handler is Single
            &&& route.handler->Single_0.response_path == config.responses.unwrap()[0].response.unwrap()
            &&& route.handler->Single_0.delay == config.responses.unwrap()[0].delay
            &&& config.responses.unwrap()[0].status matches Some(s) ==> route.handler->Single_0.status == s
            &&& config.responses.unwrap()[0].status is None ==> route.handler->Single_0.status == 200
            &&& config.responses.unwrap()[0].headers matches Some(hs) ==> route.handler->Single_0.headers
                == hs.filter(
                |h: Seq<char>| regex_is_match("([\\w-]+):\\s+([\\w/]+)"@, h),
            ).map_values(|h: Seq<char>| split_pieces(h))
        },
        config.responses matches Some(cs) ==> (cs.len() > 0 ==> spec_define_route(
            name,
            config,
            exists,
        ) == spec_define_route(
            name,
            (RequestConfigView { responses: Some(seq![cs[0]]), ..config }),
            exists,
        )),
        config.responses matches Some(cs) ==> (config.path is Some && cs.len() > 0 && (
        cs[0].status is None || (100 <= cs[0].status.unwrap() && cs[0].status.unwrap() <= 599))
            && cs[0].response is Some && exists.len() > 0 && exists[0] && (config.method is None
            || config.method == Some("GET"@)) ==> spec_define_route(name, config, exists) is Ok),
        config.responses matches Some(cs) ==> (config.path is Some && cs.len() == 0 ==> (
        spec_define_route(name, config, exists) matches Err(e) && e
            == HaxoniteErrorView::NoResponseDefined(name))),
{
    reveal(spec_define_route);
    if let Some(cs) = config.responses {
        if cs.len() > 0 {
            lemma_single_response_follows_config(name, cs[0], exists_at(exists, 0));
            let one = RequestConfigView { responses: Some(seq![cs[0]]), ..config };
            assert(seq![cs[0]][0] == cs[0]);
            if config.method is None || config.method == Some("GET"@) {
                assert(ascii_upper("GET"@) =~= "GET"@) by {
                    reveal_strlit("GET");
                }
                assert(route_method("GET"@) == Some(HttpMethod::Get)) by {
                    reveal_strlit("GET");
                    reveal_strlit("OPTIONS");
                    assert("GET"@.len() != "OPTIONS"@.len());
                }
            }
        }
    }
}

/// Each response of a request is built on its own, from its own
/// configuration and the file answer at its own position (`exists[i]`, false
/// where `exists` is shorter): the responses are built exactly when each of
/// them can be, one handler per response and in order; otherwise the error
/// is that of the first response that is refused.
pub proof fn lemma_each_response_is_built_on_its_own(
    name: Seq<char>,
    configs: Seq<ResponseConfigView>,
    exists: Seq<bool>,
)
    ensures
        (spec_single_responses(name, configs, exists) is Ok) == (forall|i: int|
            0 <= i < configs.len() ==> spec_single_response(
                name,
                #[trigger] configs[i],
                i < exists.len() && exists[i],
            ) is Ok),
        spec_single_responses(name, configs, exists) matches Ok(hs) ==> {
            &&& hs.len() == configs.len()
            &&& forall|i: int|
                0 <= i < configs.len() ==> (spec_single_response(
                    name,
                    configs[i],
                    i < exists.len() && exists[i],
                ) matches Ok(h) && h == #[trigger] hs[i])
        },
        spec_single_responses(name, configs, exists) matches Err(e) ==> exists|k: int|
            0 <= k < configs.len() && (forall|i: int|
                0 <= i < k ==> spec_single_response(
                    name,
                    #[trigger] configs[i],
                    i < exists.len() && exists[i],
                ) is Ok) && (spec_single_response(
                name,
                #[trigger] configs[k],
                k < exists.len() && exists[k],
            ) matches Err(f) && f == e),
    decreases configs.len(),
{
    if configs.len() > 0 {
        let init = configs.drop_last();
        let n = configs.len() - 1;
        lemma_each_response_is_built_on_its_own(name, init, exists);
        assert forall|i: int| 0 <= i < n implies #[trigger] init[i] == configs[i] by {}
        assert(configs.last() == configs[n]);
        assert(exists_at(exists, n) == (n < exists.len() && exists[n]));
        let last = spec_single_response(name, configs[n], n < exists.len() && exists[n]);
        match spec_single_responses(name, init, exists) {
            Ok(hs) => {
                assert forall|i: int| 0 <= i < n implies spec_single_response(
                    name,
                    #[trigger] configs[i],
                    i < exists.len() && exists[i],
                ) is Ok by {
                    assert(init[i] == configs[i]);
                }
                match last {
                    Ok(h) => {
                        assert(spec_single_responses(name, configs, exists) == Ok::<
                            Seq<SingleResponseView>,
                            HaxoniteErrorView,
                        >(hs.push(h)));
                        assert forall|i: int| 0 <= i < n implies hs.push(h)[i] == hs[i] by {}
                    },
                    Err(e) => {
                        assert(spec_single_responses(name, configs, exists) == Err::<
                            Seq<SingleResponseView>,
                            HaxoniteErrorView,
                        >(e));
                    },
                }
            },
            Err(e) => {
                assert(spec_single_responses(name, configs, exists) == Err::<
                    Seq<SingleResponseView>,
                    HaxoniteErrorView,
                >(e));
                let k = choose|k: int|
                    0 <= k < init.len() && (forall|i: int|
                        0 <= i < k ==> spec_single_response(
                            name,
                            #[trigger] init[i],
                            i < exists.len() && exists[i],
                        ) is Ok) && (spec_single_response(
                        name,
                        #[trigger] init[k],
                        k < exists.len() && exists[k],
                    ) matches Err(f) && f == e);
                assert(configs[k] == init[k]);
                assert forall|i: int| 0 <= i < k implies spec_single_response(
                    name,
                    #[trigger] configs[i],
                    i < exists.len() && exists[i],
                ) is Ok by {
                    assert(init[i] == configs[i]);
                }
            },
        }
    }
}

/// Whether the handler `h` serves the response configured by `c`: its file,
/// its delay, and its status (200 when none is configured).
pub open spec fn serves_configured(h: SingleResponseView, c: ResponseConfigView) -> bool {
    &&& h.response_path == c.response.unwrap()
    &&& h.delay == c.delay
    &&& h.status == (if c.status is Some {
        c.status.unwrap()
    } else {
        200u16
    })
}

/// A request of type `"random"`, `"roundrobin"` or `"chain"` is served by all
/// its configured responses, one handler per response and in order, each
/// serving its own configured file (which exists), delay and status. A random
/// handler chooses each response with its configured weight (1 when none is
/// configured); a round-robin or chained handler starts with the first
/// response and goes on as its type says. The route is defined when the
/// request has a path and at least one response, each response has a valid
/// status or none, a file name and an existing file, and the method is `GET`
/// or not configured.
pub proof fn lemma_multi_response_routes(name: Seq<char>, config: RequestConfigView, exists: Seq<bool>)
    requires
        config.type_ == Some("random"@) || config.type_ == Some("roundrobin"@) || config.type_
            == Some("chain"@),
    ensures
        spec_define_route(name, config, exists) matches Ok(route) ==> {
            &&& config.responses is Some
            &&& config.responses.unwrap().len() > 0
            &&& forall|i: int|
                0 <= i < config.responses.unwrap().len() ==> i < exists.len() && #[trigger] exists[i]
        },
        config.type_ == Some("random"@) ==> (spec_define_route(name, config, exists) matches Ok(
            route,
        ) ==> {
            &&& route.handler is Random
            &&& route.handler->Random_0.handlers.len() == config.responses.unwrap().len()
            &&& route.handler->Random_0.weights.len() == config.responses.unwrap().len()
            &&& forall|i: int|
                0 <= i < config.responses.unwrap().len() ==> serves_configured(
                    #[trigger] route.handler->Random_0.handlers[i],
                    config.responses.unwrap()[i],
                )
            &&& forall|i: int|
                0 <= i < config.responses.unwrap().len() ==> #[trigger] route.handler->Random_0.weights[i]
                    == (if config.responses.unwrap()[i].weight is Some {
                    config.responses.unwrap()[i].weight.unwrap()
                } else {
                    1u32
                })
        }),
        config.type_ == Some("roundrobin"@) || config.type_ == Some("chain"@) ==> (
        spec_define_route(name, config, exists) matches Ok(route) ==> {
            &&& route.handler is Iterating
            &&& route.handler->Iterating_0.kind == (if config.type_ == Some("chain"@) {
                IteratingKind::Chain
            } else {
                IteratingKind::RoundRobin
            })
            &&& route.handler->Iterating_0.current == Some(0nat)
            &&& route.handler->Iterating_0.handlers.len() == config.responses.unwrap().len()
            &&& forall|i: int|
                0 <= i < config.responses.unwrap().len() ==> serves_configured(
                    #[trigger] route.handler->Iterating_0.handlers[i],
                    config.responses.unwrap()[i],
                )
        }),
        config.responses matches Some(cs) ==> (config.path is Some && cs.len() > 0 && (forall|
            i: int,
        |
            0 <= i < cs.len() ==> (#[trigger] cs[i].status is None || (100 <= cs[i].status.unwrap()
                && cs[i].status.unwrap() <= 599)) && cs[i].response is Some && i < exists.len()
                && exists[i]) && (config.method is None || config.method == Some("GET"@))
            ==> spec_define_route(name, config, exists) is Ok),
{
    reveal(spec_define_route);
    if let Some(cs) = config.responses {
        lemma_each_response_is_built_on_its_own(name, cs, exists);
        assert forall|i: int| 0 <= i < cs.len() implies {
            &&& (spec_single_response(name, #[trigger] cs[i], i < exists.len() && exists[i]) is Ok)
                == ((cs[i].status is None || (100 <= cs[i].status.unwrap() && cs[i].status.unwrap()
                <= 599)) && cs[i].response is Some && i < exists.len() && exists[i])
            &&& spec_single_response(name, cs[i], i < exists.len() && exists[i]) matches Ok(h)
                ==> serves_configured(h, cs[i])
        } by {
            lemma_single_response_follows_config(name, cs[i], i < exists.len() && exists[i]);
        }
        if spec_single_responses(name, cs, exists) is Ok {
            assert forall|i: int| 0 <= i < cs.len() implies i < exists.len() && #[trigger] exists[i] by {
                assert(spec_single_response(name, cs[i], i < exists.len() && exists[i]) is Ok);
            }
        }
        if config.method is None || config.method == Some("GET"@) {
            assert(ascii_upper("GET"@) =~= "GET"@) by {
                reveal_strlit("GET");
            }
            assert(route_method("GET"@) == Some(HttpMethod::Get)) by {
                reveal_strlit("GET");
                reveal_strlit("OPTIONS");
                assert("GET"@.len() != "OPTIONS"@.len());
            }
        }
        if config.type_ == Some("random"@) || config.type_ == Some("roundrobin"@) || config.type_
            == Some("chain"@) {
            reveal_strlit("random");
            reveal_strlit("roundrobin");
            reveal_strlit("chain");
            reveal_strlit("single");
            assert("random"@[0] != "single"@[0]);
            assert("roundrobin"@[0] != "single"@[0]);
            assert("chain"@[0] != "single"@[0]);
            assert("chain"@[0] != "random"@[0]);
            assert("chain"@[0] != "roundrobin"@[0]);
            assert("roundrobin"@[1] != "random"@[1]);
        }
    }
}

/// The refusals of a request come in order: without a path it is refused
/// with `NoPathDefined`, then without responses with `NoResponseDefined`, then
/// for a type other than `single`, `random`, `roundrobin`, `chain` and
/// `static` with `InvalidType`. A defined route carries the request's name,
/// its path and its type (`single` when none is configured), and a request
/// that names no method is served for `GET`.
pub proof fn lemma_route_refusals_in_order(name: Seq<char>, config: RequestConfigView, exists: Seq<bool>)
    ensures
        config.path is None ==> (spec_define_route(name, config, exists) matches Err(e) && e
            == HaxoniteErrorView::NoPathDefined(name)),
        config.path is Some && config.responses is None ==> (spec_define_route(name, config, exists)
            matches Err(e) && e == HaxoniteErrorView::NoResponseDefined(name)),
        config.path is Some && config.responses is Some ==> (config.type_ matches Some(t) ==> (t
            != "single"@ && t != "random"@ && t != "roundrobin"@ && t != "chain"@ && t != "static"@
            ==> (spec_define_route(name, config, exists) matches Err(e) && e
            == HaxoniteErrorView::InvalidType(name)))),
        spec_define_route(name, config, exists) matches Ok(route) ==> {
            &&& route.name == name
            &&& config.path == Some(route.path)
            &&& config.type_ matches Some(t) ==> route.type_ == t
            &&& config.type_ is None ==> route.type_ == "single"@
            &&& config.method is None ==> route.method == HttpMethod::Get
        },
{
    reveal(spec_define_route);
    assert(ascii_upper("GET"@) =~= "GET"@) by {
        reveal_strlit("GET");
    }
    assert(route_method("GET"@) == Some(HttpMethod::Get)) by {
        reveal_strlit("GET");
        reveal_strlit("OPTIONS");
        assert("GET"@.len() != "OPTIONS"@.len());
    }
}

/// A request of type `"static"` serves the directory that its first response
/// names, whatever its other responses and whether their files exist: it is
/// defined when it has a path and a first response that names a directory,
/// and its method is `GET` or not configured; without responses, or with a
/// first response that names nothing, it is refused with `NoResponseDefined`.
pub proof fn lemma_static_route_serves_first_directory(
    name: Seq<char>,
    config: RequestConfigView,
    exists: Seq<bool>,
)
    requires
        config.type_ == Some("static"@),
    ensures
        spec_define_route(name, config, exists) matches Ok(route) ==> {
            &&& config.responses is Some
            &&& config.responses.unwrap().len() > 0
            &&& config.responses.unwrap()[0].response is Some
            &&& route.handler == RouteHandlerView::Static(
                config.responses.unwrap()[0].response.unwrap(),
            )
        },
        config.responses matches Some(cs) ==> (config.path is Some && (cs.len() == 0
            || cs[0].response is None) ==> (spec_define_route(name, config, exists) matches Err(e)
            && e == HaxoniteErrorView::NoResponseDefined(name))),
        config.responses matches Some(cs) ==> (config.path is Some && cs.len() > 0
            && cs[0].response is Some && (config.method is None || config.method == Some("GET"@))
            ==> spec_define_route(name, config, exists) is Ok),
{
    reveal(spec_define_route);
    reveal_strlit("static");
    reveal_strlit("single");
    reveal_strlit("random");
    reveal_strlit("roundrobin");
    reveal_strlit("chain");
    assert("static"@[1] != "single"@[1]);
    assert("static"@[0] != "random"@[0]);
    assert("static"@[0] != "roundrobin"@[0]);
    assert("static"@[0] != "chain"@[0]);
    assert(ascii_upper("GET"@) =~= "GET"@) by {
        reveal_strlit("GET");
    }
    assert(route_method("GET"@) == Some(HttpMethod::Get)) by {
        reveal_strlit("GET");
        reveal_strlit("OPTIONS");
        assert("GET"@.len() != "OPTIONS"@.len());
    }
}

/// Method names are matched ignoring ASCII case: two requests whose methods
/// differ only in that some lower-case letters `a` to `z` of the one are the
/// upper-case letters of the other define the same route.
pub proof fn lemma_method_ignores_case(
    name: Seq<char>,
    config: RequestConfigView,
    exists: Seq<bool>,
    lower: Seq<char>,
    upper: Seq<char>,
)
    requires
        lower.len() == upper.len(),
        forall|j: int|
            0 <= j < lower.len() ==> #[trigger] upper[j] == lower[j] || ('a' <= lower[j] && lower[j]
                <= 'z' && upper[j] as u32 + 32 == lower[j] as u32),
    ensures
        spec_define_route(name, (RequestConfigView { method: Some(lower), ..config }), exists)
            == spec_define_route(name, (RequestConfigView { method: Some(upper), ..config }), exists),
{
    reveal(spec_define_route);
    assert(ascii_upper(lower) =~= ascii_upper(upper)) by {
        assert forall|j: int| 0 <= j < lower.len() implies ascii_upper(lower)[j] == ascii_upper(
            upper,
        )[j] by {
            assert(upper[j] == lower[j] || ('a' <= lower[j] && lower[j] <= 'z' && upper[j] as u32
                + 32 == lower[j] as u32));
        }
    }
}

} // verus!
