//! The decisions of the server: where it listens, which routes it serves, and
//! when a change on disk makes it reload its configuration.

use vstd::prelude::*;
use crate::config::{
    default_host, default_port, spec_default_host, spec_default_port, Config, ConfigView,
    RequestConfig, RequestConfigView, ServerConfig, ServerConfigView, distinct_names,
};
use crate::error::{HaxoniteError, HaxoniteErrorView};
use crate::routes::{define_route, result_view, spec_define_route, Route, RouteView};

verus! {

/// The response-file answers of the request at position `i`, none if absent.
pub open spec fn exists_for(exists: Seq<Seq<bool>>, i: int) -> Seq<bool> {
    if 0 <= i < exists.len() {
        exists[i]
    } else {
        seq![]
    }
}

/// The routes of the requests, in order; the error of the first request that
/// is refused, if one is.
pub open spec fn spec_process_requests(
    requests: Seq<(Seq<char>, RequestConfigView)>,
    exists: Seq<Seq<bool>>,
) -> Result<Seq<RouteView>, HaxoniteErrorView>
    decreases requests.len(),
{
    if requests.len() == 0 {
        Ok(seq![])
    } else {
        match spec_process_requests(requests.drop_last(), exists) {
            Err(e) => Err(e),
            Ok(routes) => match spec_define_route(
                requests.last().0,
                requests.last().1,
                exists_for(exists, requests.len() - 1),
            ) {
                Err(e) => Err(e),
                Ok(r) => Ok(routes.push(r)),
            },
        }
    }
}

/// The routes of a configuration: a configuration without requests is refused.
pub open spec fn spec_config_routes(config: ConfigView, exists: Seq<Seq<bool>>) -> Result<
    Seq<RouteView>,
    HaxoniteErrorView,
> {
    match config.requests {
        None => Err(HaxoniteErrorView::NoRequestDefined),
        Some(requests) => spec_process_requests(requests, exists),
    }
}

/// A configuration without requests is refused with `NoRequestDefined`;
/// one with requests is served with the routes of its requests, in order,
/// each defined by its own request with the file answers of its own
/// responses, or refused with the error of the first request that is refused.
pub proof fn lemma_config_routes_come_from_requests(config: ConfigView, exists: Seq<Seq<bool>>)
    ensures
        config.requests is None ==> (spec_config_routes(config, exists) matches Err(e) && e
            == HaxoniteErrorView::NoRequestDefined),
        config.requests matches Some(requests) ==> spec_config_routes(config, exists)
            == spec_process_requests(requests, exists),
        config.requests matches Some(requests) ==> (spec_config_routes(config, exists) matches Ok(
            routes,
        ) ==> {
            &&& routes.len() == requests.len()
            &&& forall|i: int|
                0 <= i < requests.len() ==> (spec_define_route(
                    requests[i].0,
                    requests[i].1,
                    if i < exists.len() {
                        exists[i]
                    } else {
                        seq![]
                    },
                ) matches Ok(r) && r == #[trigger] routes[i])
        }),
{
    if let Some(requests) = config.requests {
        lemma_each_route_is_defined_by_its_request(requests, exists);
    }
}

/// The model of the result of processing several requests.
pub open spec fn routes_result_view(r: Result<Vec<Route>, HaxoniteError>) -> Result<
    Seq<RouteView>,
    HaxoniteErrorView,
> {
    match r {
        Ok(routes) => Ok(routes.deep_view()),
        Err(e) => Err(e@),
    }
}

/// No two routes have the same name.
pub open spec fn distinct_route_names(routes: Seq<RouteView>) -> bool {
    forall|i: int, j: int|
        0 <= i < routes.len() && 0 <= j < routes.len() && i != j ==> #[trigger] routes[i].name
            != #[trigger] routes[j].name
}

/// The routes of the requests come one per request, in order, each named
/// after its request; so routes of requests with distinct names have
/// distinct names.
pub proof fn lemma_routes_follow_requests(
    requests: Seq<(Seq<char>, RequestConfigView)>,
    exists: Seq<Seq<bool>>,
)
    ensures
        spec_process_requests(requests, exists) matches Ok(routes) ==> {
            &&& routes.len() == requests.len()
            &&& forall|i: int| 0 <= i < routes.len() ==> #[trigger] routes[i].name == requests[i].0
            &&& distinct_names(requests) ==> distinct_route_names(routes)
        },
    decreases requests.len(),
{
    reveal(spec_define_route);
    if requests.len() > 0 {
        lemma_routes_follow_requests(requests.drop_last(), exists);
    }
    if let Ok(routes) = spec_process_requests(requests, exists) {
        if distinct_names(requests) {
            assert forall|i: int, j: int|
                0 <= i < routes.len() && 0 <= j < routes.len() && i != j implies #[trigger] routes[i].name
                != #[trigger] routes[j].name by {
                assert(routes[i].name == requests[i].0);
                assert(routes[j].name == requests[j].0);
            }
        }
    }
}

/// Each request defines its route on its own, with the file answers of its
/// own responses (`exists[i]` for the request at position `i`, none where
/// `exists` is shorter): the requests are served exactly when every one of
/// them defines a route, and the routes are then those routes, one per
/// request and in order; otherwise the error is that of the first request
/// that is refused, all requests before it defining their routes.
pub proof fn lemma_each_route_is_defined_by_its_request(
    requests: Seq<(Seq<char>, RequestConfigView)>,
    exists: Seq<Seq<bool>>,
)
    ensures
        (spec_process_requests(requests, exists) is Ok) == (forall|i: int|
            0 <= i < requests.len() ==> spec_define_route(
                #[trigger] requests[i].0,
                requests[i].1,
                if i < exists.len() {
                    exists[i]
                } else {
                    seq![]
                },
            ) is Ok),
        spec_process_requests(requests, exists) matches Ok(routes) ==> {
            &&& routes.len() == requests.len()
            &&& forall|i: int|
                0 <= i < requests.len() ==> (spec_define_route(
                    requests[i].0,
                    requests[i].1,
                    if i < exists.len() {
                        exists[i]
                    } else {
                        seq![]
                    },
                ) matches Ok(r) && r == #[trigger] routes[i])
        },
        spec_process_requests(requests, exists) matches Err(e) ==> exists|k: int|
            0 <= k < requests.len() && (forall|i: int|
                0 <= i < k ==> spec_define_route(
                    #[trigger] requests[i].0,
                    requests[i].1,
                    if i < exists.len() {
                        exists[i]
                    } else {
                        seq![]
                    },
                ) is Ok) && (spec_define_route(
                #[trigger] requests[k].0,
                requests[k].1,
                if k < exists.len() {
                    exists[k]
                } else {
                    seq![]
                },
            ) matches Err(f) && f == e),
    decreases requests.len(),
{
    if requests.len() > 0 {
        let init = requests.drop_last();
        let n = requests.len() - 1;
        lemma_each_route_is_defined_by_its_request(init, exists);
        assert forall|i: int| 0 <= i < n implies #[trigger] init[i] == requests[i] by {}
        assert(requests.last() == requests[n]);
        assert(exists_for(exists, n) == (if n < exists.len() {
            exists[n]
        } else {
            seq![]
        }));
        let last = spec_define_route(
            requests[n].0,
            requests[n].1,
            if n < exists.len() {
                exists[n]
            } else {
                seq![]
            },
        );
        // the requests before the last one define the same routes in both sequences
        assert forall|i: int| 0 <= i < n implies spec_define_route(
            #[trigger] requests[i].0,
            requests[i].1,
            if i < exists.len() {
                exists[i]
            } else {
                seq![]
            },
        ) == spec_define_route(
            init[i].0,
            init[i].1,
            if i < exists.len() {
                exists[i]
            } else {
                seq![]
            },
        ) by {
            assert(init[i] == requests[i]);
        }
        match spec_process_requests(init, exists) {
            Ok(routes) => {
                assert forall|i: int| 0 <= i < n implies spec_define_route(
                    #[trigger] requests[i].0,
                    requests[i].1,
                    if i < exists.len() {
                        exists[i]
                    } else {
                        seq![]
                    },
                ) is Ok by {
                    assert(init[i].0 == requests[i].0);
                }
                match last {
                    Ok(r) => {
                        assert(spec_process_requests(requests, exists) == Ok::<
                            Seq<RouteView>,
                            HaxoniteErrorView,
                        >(routes.push(r)));
                        assert forall|i: int| 0 <= i < n implies routes.push(r)[i] == routes[i] by {}
                    },
                    Err(e) => {
                        assert(spec_process_requests(requests, exists) == Err::<
                            Seq<RouteView>,
                            HaxoniteErrorView,
                        >(e));
                    },
                }
            },
            Err(e) => {
                assert(spec_process_requests(requests, exists) == Err::<
                    Seq<RouteView>,
                    HaxoniteErrorView,
                >(e));
                let k = choose|k: int|
                    0 <= k < init.len() && (forall|i: int|
                        0 <= i < k ==> spec_define_route(
                            #[trigger] init[i].0,
                            init[i].1,
                            if i < exists.len() {
                                exists[i]
                            } else {
                                seq![]
                            },
                        ) is Ok) && (spec_define_route(
                        #[trigger] init[k].0,
                        init[k].1,
                        if k < exists.len() {
                            exists[k]
                        } else {
                            seq![]
                        },
                    ) matches Err(f) && f == e);
                assert(requests[k].0 == init[k].0);
                assert forall|i: int| 0 <= i < k implies spec_define_route(
                    #[trigger] requests[i].0,
                    requests[i].1,
                    if i < exists.len() {
                        exists[i]
                    } else {
                        seq![]
                    },
                ) is Ok by {
                    assert(init[i].0 == requests[i].0);
                }
            },
        }
    }
}

/// Once the first `k` requests fail, all of them fail the same way.
proof fn lemma_first_refusal_stays(
    requests: Seq<(Seq<char>, RequestConfigView)>,
    exists: Seq<Seq<bool>>,
    k: nat,
)
    requires
        k <= requests.len(),
        spec_process_requests(requests.take(k as int), exists) is Err,
    ensures
        spec_process_requests(requests, exists) == spec_process_requests(
            requests.take(k as int),
            exists,
        ),
    decreases requests.len() - k,
{
    if k < requests.len() {
        let next = requests.take((k + 1) as int);
        assert(next.drop_last() =~= requests.take(k as int));
        lemma_first_refusal_stays(requests, exists, k + 1);
    } else {
        assert(requests.take(k as int) =~= requests);
    }
}

/// Defines the route of every request, in order, stopping at the first one
/// that is refused. `response_exists[i]` tells, for each response of the
/// request at position `i`, whether its response file exists.
pub fn process_config_requests(
    requests: &Vec<(String, RequestConfig)>,
    response_exists: &Vec<Vec<bool>>,
) -> (r: Result<Vec<Route>, HaxoniteError>)
    requires
        distinct_names(requests.deep_view()),
    ensures
        routes_result_view(r) == spec_process_requests(
            requests.deep_view(),
            response_exists.deep_view(),
        ),
        r matches Ok(routes) ==> distinct_route_names(routes.deep_view()),
{
    let ghost reqs = requests.deep_view();
    let ghost ex = response_exists.deep_view();
    let no_answers: Vec<bool> = Vec::new();
    let mut routes: Vec<Route> = Vec::new();
    let mut i: usize = 0;
    assert(reqs.take(0) =~= Seq::<(Seq<char>, RequestConfigView)>::empty());
    assert(routes.deep_view() =~= Seq::<RouteView>::empty());
    while i < requests.len()
        invariant
            reqs == requests.deep_view(),
            ex == response_exists.deep_view(),
            no_answers@ == Seq::<bool>::empty(),
            i <= requests.len(),
            spec_process_requests(reqs.take(i as int), ex) == Ok::<
                Seq<RouteView>,
                HaxoniteErrorView,
            >(routes.deep_view()),
        decreases requests.len() - i,
    {
        assert(reqs.take(i + 1).drop_last() =~= reqs.take(i as int));
        assert(reqs.take(i + 1).last() == reqs[i as int]);
        let answers = if i < response_exists.len() {
            &response_exists[i]
        } else {
            &no_answers
        };
        assert(answers@ == exists_for(ex, i as int));
        let (name, config) = &requests[i];
        match define_route(name, config, answers) {
            Ok(route) => {
                let ghost before = routes.deep_view();
                routes.push(route);
                assert(routes.deep_view() =~= before.push(route@));
            },
            Err(e) => {
                proof {
                    lemma_first_refusal_stays(reqs, ex, (i + 1) as nat);
                }
                return Err(e);
            },
        }
        i = i + 1;
    }
    assert(reqs.take(requests.len() as int) =~= reqs);
    proof {
        lemma_routes_follow_requests(reqs, ex);
    }
    Ok(routes)
}

/// The routes a configuration is served with; a configuration without
/// requests is refused with `NoRequestDefined`.
pub fn config_routes(config: &Config, response_exists: &Vec<Vec<bool>>) -> (r: Result<
    Vec<Route>,
    HaxoniteError,
>)
    requires
        config@.wf(),
    ensures
        routes_result_view(r) == spec_config_routes(config@, response_exists.deep_view()),
        r matches Ok(routes) ==> distinct_route_names(routes.deep_view()),
{
    match &config.requests {
        Some(requests) => process_config_requests(requests, response_exists),
        None => Err(HaxoniteError::NoRequestDefined),
    }
}

/// The host the server listens on: the one given on the command line, else
/// the one of the server section, else the default host.
pub open spec fn spec_host(server: Option<ServerConfigView>, cli_host: Option<Seq<char>>) -> Seq<char> {
    match cli_host {
        Some(h) => h,
        None => match server {
            Some(s) => match s.host {
                Some(h) => h,
                None => spec_default_host(),
            },
            None => spec_default_host(),
        },
    }
}

/// The port the server listens on: the one given on the command line, else
/// the one of the server section, else the default port.
pub open spec fn spec_port(server: Option<ServerConfigView>, cli_port: Option<u16>) -> u16 {
    match cli_port {
        Some(p) => p,
        None => match server {
            Some(s) => match s.port {
                Some(p) => p,
                None => spec_default_port(),
            },
            None => spec_default_port(),
        },
    }
}

/// The host and port the server listens on.
pub fn server_address(server: &Option<ServerConfig>, cli_host: Option<String>, cli_port: Option<u16>) -> (r: (
    String,
    u16,
))
    ensures
        r.0@ == spec_host(server.deep_view(), cli_host.deep_view()),
        r.1 == spec_port(server.deep_view(), cli_port),
{
    let host = match cli_host {
        Some(h) => h,
        None => match server {
            Some(s) => match &s.host {
                Some(h) => h.clone(),
                None => default_host(),
            },
            None => default_host(),
        },
    };
    let port = match cli_port {
        Some(p) => p,
        None => match server {
            Some(s) => match s.port {
                Some(p) => p,
                None => default_port(),
            },
            None => default_port(),
        },
    };
    (host, port)
}

/// A host or a port given on the command line is the one listened on,
/// whatever the configuration holds or lacks; where none is given, the one of
/// the server section is used, and where that names none either, the server
/// listens on `localhost`, port 4000.
pub proof fn lemma_command_line_wins(
    server: Option<ServerConfigView>,
    cli_host: Option<Seq<char>>,
    cli_port: Option<u16>,
)
    ensures
        cli_host matches Some(h) ==> spec_host(server, cli_host) == h,
        cli_port matches Some(p) ==> spec_port(server, cli_port) == p,
        cli_host is None ==> (server matches Some(s) ==> (s.host matches Some(h) ==> spec_host(
            server,
            cli_host,
        ) == h)),
        cli_port is None ==> (server matches Some(s) ==> (s.port matches Some(p) ==> spec_port(
            server,
            cli_port,
        ) == p)),
        cli_host is None && (server is None || server.unwrap().host is None) ==> spec_host(
            server,
            cli_host,
        ) == "localhost"@,
        cli_port is None && (server is None || server.unwrap().port is None) ==> spec_port(
            server,
            cli_port,
        ) == 4000,
{
}

/// A change that the watcher of the configuration directory reports.
#[derive(Debug)]
pub enum WatchEvent {
    /// A file was created or written; its path, component by component.
    Changed(Vec<String>),
    /// Any other change.
    Other,
}

/// Whether the path `path` ends with the path `suffix`, component by component.
pub open spec fn path_ends_with(path: Seq<Seq<char>>, suffix: Seq<Seq<char>>) -> bool {
    suffix.len() <= path.len() && path.subrange(path.len() - suffix.len(), path.len() as int)
        == suffix
}

/// Whether a change makes the server reload: a file was created or written
/// and its path ends with the path of the configuration file.
pub open spec fn spec_should_reload(event_path: Option<Seq<Seq<char>>>, config_file: Seq<Seq<char>>) -> bool {
    match event_path {
        Some(p) => path_ends_with(p, config_file),
        None => false,
    }
}

impl WatchEvent {
    /// The path of a creation or a write, none for other changes.
    pub open spec fn changed_path(&self) -> Option<Seq<Seq<char>>> {
        match self {
            WatchEvent::Changed(p) => Some(p.deep_view()),
            WatchEvent::Other => None,
        }
    }
}

/// Whether the watched change makes the server reload its configuration;
/// `config_file` is the path of the configuration file, component by component.
pub fn should_reload(event: &WatchEvent, config_file: &Vec<String>) -> (r: bool)
    ensures
        r == spec_should_reload(event.changed_path(), config_file.deep_view()),
{
    match event {
        WatchEvent::Other => false,
        WatchEvent::Changed(path) => {
            let ghost p = path.deep_view();
            let ghost c = config_file.deep_view();
            assert(event.changed_path() == Some(p));
            if config_file.len() > path.len() {
                return false;
            }
            let offset = path.len() - config_file.len();
            let mut i: usize = 0;
            while i < config_file.len()
                invariant
                    p == path.deep_view(),
                    c == config_file.deep_view(),
                    event.changed_path() == Some(p),
                    offset == path.len() - config_file.len(),
                    i <= config_file.len(),
                    forall|j: int| 0 <= j < i ==> p[offset + j] == c[j],
                decreases config_file.len() - i,
            {
                if path[offset + i] != config_file[i] {
                    assert(p.subrange(offset as int, p.len() as int)[i as int] != c[i as int]);
                    return false;
                }
                i = i + 1;
            }
            assert(p.subrange(offset as int, p.len() as int) =~= c);
            true
        },
    }
}

/// The server reloads exactly on a creation or a write of a file whose path
/// ends with the configuration file's path, component by component: each of
/// the last components of the changed path equals the component of the
/// configuration file's path at the same distance from the end.
pub proof fn lemma_reload_exactly_on_config_file(
    event_path: Option<Seq<Seq<char>>>,
    config_file: Seq<Seq<char>>,
)
    ensures
        event_path is None ==> !spec_should_reload(event_path, config_file),
        event_path matches Some(p) ==> (spec_should_reload(event_path, config_file) == (
        config_file.len() <= p.len() && forall|j: int|
            0 <= j < config_file.len() ==> #[trigger] p[p.len() - config_file.len() + j]
                == config_file[j])),
{
    if let Some(p) = event_path {
        if config_file.len() <= p.len() {
            let tail = p.subrange(p.len() - config_file.len(), p.len() as int);
            if forall|j: int|
                0 <= j < config_file.len() ==> #[trigger] p[p.len() - config_file.len() + j]
                    == config_file[j] {
                assert forall|j: int| 0 <= j < config_file.len() implies tail[j] == config_file[j] by {
                    assert(p[p.len() - config_file.len() + j] == config_file[j]);
                }
                assert(tail =~= config_file);
            } else {
                let j = choose|j: int|
                    0 <= j < config_file.len() && #[trigger] p[p.len() - config_file.len() + j]
                        != config_file[j];
                assert(tail[j] != config_file[j]);
            }
        }
    }
}

} // verus!
