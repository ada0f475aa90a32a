use haxonite::handlers::{IteratingKind, IteratingResponse, RandomResponse, SingleResponse};

fn response(status: u16, path: &str) -> SingleResponse {
    SingleResponse::new(status, vec![], path.to_string(), None)
}

fn served(it: &mut IteratingResponse, times: usize) -> Vec<u16> {
    (0..times).map(|_| {
        let i = it.next_handler_index();
        it.handler(i).status()
    }).collect()
}

#[test]
fn single_response_keeps_what_it_was_built_with() {
    let headers = vec![vec!["Content-Type".to_string(), "text/plain".to_string()]];
    let r = SingleResponse::new(404, headers.clone(), "responses/a.json".to_string(), Some(3));
    assert_eq!(r.status(), 404);
    assert_eq!(r.response_path(), "responses/a.json");
    assert_eq!(r.headers(), &headers);
    assert_eq!(r.delay(), Some(3));
}

#[test]
fn kinds_are_named_by_the_request_type() {
    assert_eq!(IteratingResponse::new("roundrobin").kind(), IteratingKind::RoundRobin);
    assert_eq!(IteratingResponse::new("chain").kind(), IteratingKind::Chain);
    assert_eq!(IteratingResponse::new("single").kind(), IteratingKind::Restart);
    assert_eq!(IteratingResponse::new("").kind(), IteratingKind::Restart);
}

#[test]
fn round_robin_returns_to_the_first_response() {
    let mut it = IteratingResponse::new("roundrobin");
    it.add_handler(response(200, "a"));
    it.add_handler(response(201, "b"));
    it.add_handler(response(202, "c"));
    assert_eq!(it.len(), 3);
    assert_eq!(served(&mut it, 7), vec![200, 201, 202, 200, 201, 202, 200]);
}

#[test]
fn chain_keeps_returning_the_last_response() {
    let mut it = IteratingResponse::new("chain");
    it.add_handler(response(200, "a"));
    it.add_handler(response(500, "b"));
    assert_eq!(served(&mut it, 5), vec![200, 500, 500, 500, 500]);
}

#[test]
fn a_single_response_iteration_always_serves_it() {
    let mut rr = IteratingResponse::new("roundrobin");
    rr.add_handler(response(204, "a"));
    assert_eq!(served(&mut rr, 3), vec![204, 204, 204]);
    let mut ch = IteratingResponse::new("chain");
    ch.add_handler(response(204, "a"));
    assert_eq!(served(&mut ch, 3), vec![204, 204, 204]);
}

#[test]
fn other_kinds_always_restart_from_the_first_response() {
    let mut it = IteratingResponse::new("something");
    it.add_handler(response(200, "a"));
    it.add_handler(response(201, "b"));
    assert_eq!(served(&mut it, 3), vec![200, 200, 200]);
}

#[test]
fn adding_a_handler_later_keeps_the_position() {
    let mut it = IteratingResponse::new("roundrobin");
    it.add_handler(response(200, "a"));
    it.add_handler(response(201, "b"));
    assert_eq!(served(&mut it, 1), vec![200]);
    it.add_handler(response(202, "c"));
    assert_eq!(served(&mut it, 3), vec![201, 202, 200]);
}

#[test]
fn random_response_keeps_weights_in_order() {
    let mut r = RandomResponse::new();
    assert_eq!(r.len(), 0);
    r.add_handler(95, response(200, "a"));
    r.add_handler(5, response(500, "b"));
    assert_eq!(r.len(), 2);
    assert_eq!(r.weights(), &vec![95, 5]);
    assert_eq!(r.handler(1).status(), 500);
}

#[test]
fn random_response_serves_the_drawn_one_or_the_first() {
    let mut r = RandomResponse::new();
    r.add_handler(1, response(200, "a"));
    r.add_handler(1, response(500, "b"));
    assert_eq!(r.pick(Some(1)).status(), 500);
    assert_eq!(r.pick(Some(0)).status(), 200);
    assert_eq!(r.pick(None).status(), 200);
}
