//! A handler that walks through its responses, one per request.

use vstd::prelude::*;
use crate::handlers::single_response::{SingleResponse, SingleResponseView};
use crate::text::str_eq;

verus! {

/// How the position moves after a response has been served.
#[derive(Debug, Clone, Copy, PartialEq, Eq, Structural)]
pub enum IteratingKind {
    /// To the next response, and from the last back to the first.
    RoundRobin,
    /// To the next response, and it stays on the last one.
    Chain,
    /// Back to the first response.
    Restart,
}

/// The kind named by a request type.
pub open spec fn kind_of(kind: Seq<char>) -> IteratingKind {
    if kind == "roundrobin"@ {
        IteratingKind::RoundRobin
    } else if kind == "chain"@ {
        IteratingKind::Chain
    } else {
        IteratingKind::Restart
    }
}

/// The position after the response at `current` was served, among `len` responses.
pub open spec fn next_position(kind: IteratingKind, current: nat, len: nat) -> nat {
    match kind {
        IteratingKind::RoundRobin => (current + 1) % len,
        IteratingKind::Chain => if current + 1 < len - 1 {
            current + 1
        } else {
            (len - 1) as nat
        },
        IteratingKind::Restart => 0,
    }
}

/// The position after `k` responses were served, starting from the first, among `len` responses.
pub open spec fn position_after(kind: IteratingKind, len: nat, k: nat) -> nat
    decreases k,
{
    if k == 0 {
        0
    } else {
        next_position(kind, position_after(kind, len, (k - 1) as nat), len)
    }
}

/// A sequence of responses served in turn.
#[derive(Debug)]
pub struct IteratingResponse {
    response_handlers: Vec<SingleResponse>,
    current: Option<usize>,
    kind: IteratingKind,
}

/// The mathematical model of an iterating response: its responses, the position
/// of the one to serve next (none while there is no response) and its kind.
pub struct IteratingResponseView {
    pub handlers: Seq<SingleResponseView>,
    pub current: Option<nat>,
    pub kind: IteratingKind,
}

impl IteratingResponseView {
    /// There is a position exactly when there are responses, and it names one of them.
    pub open spec fn wf(self) -> bool {
        &&& (self.current is None <==> self.handlers.len() == 0)
        &&& (self.current matches Some(c) ==> c < self.handlers.len())
    }
}

impl View for IteratingResponse {
    type V = IteratingResponseView;

    closed spec fn view(&self) -> IteratingResponseView {
        IteratingResponseView {
            handlers: self.response_handlers@.map_values(|h: SingleResponse| h@),
            current: match self.current {
                Some(c) => Some(c as nat),
                None => None,
            },
            kind: self.kind,
        }
    }
}

impl IteratingResponse {
    /// There is a position exactly when there are responses, and it names one of them.
    #[verifier::type_invariant]
    spec fn well_formed(self) -> bool {
        &&& (self.current is None <==> self.response_handlers.len() == 0)
        &&& (self.current matches Some(c) ==> c < self.response_handlers.len())
    }

    /// An iterating response with no responses yet, of the kind that `kind` names:
    /// `"roundrobin"`, `"chain"`, or any other text for one that restarts.
    pub fn new(kind: &str) -> (r: IteratingResponse)
        ensures
            r@.handlers == Seq::<SingleResponseView>::empty(),
            r@.current is None,
            r@.kind == kind_of(kind@),
            r@.wf(),
    {
        let k = if str_eq(kind, "roundrobin") {
            IteratingKind::RoundRobin
        } else if str_eq(kind, "chain") {
            IteratingKind::Chain
        } else {
            IteratingKind::Restart
        };
        let r = IteratingResponse { response_handlers: Vec::new(), current: None, kind: k };
        assert(r@.handlers =~= Seq::<SingleResponseView>::empty());
        r
    }

    /// Appends a response; the first one added becomes the one served next.
    pub fn add_handler(&mut self, handler: SingleResponse)
        ensures
            final(self)@.wf(),
            final(self)@.handlers == old(self)@.handlers.push(handler@),
            final(self)@.kind == old(self)@.kind,
            final(self)@.current == (match old(self)@.current {
                Some(c) => Some(c),
                None => Some(0nat),
            }),
    {
        let ghost h = handler@;
        let mut taken = IteratingResponse { response_handlers: Vec::new(), current: None, kind: self.kind };
        std::mem::swap(self, &mut taken);
        proof {
            use_type_invariant(&taken);
        }
        let kind = taken.kind;
        let current = match taken.current {
            Some(c) => Some(c),
            None => Some(0),
        };
        let mut handlers = taken.response_handlers;
        handlers.push(handler);
        *self = IteratingResponse { response_handlers: handlers, current: current, kind: kind };
        assert(self@.handlers =~= old(self)@.handlers.push(h));
    }

    /// The number of responses.
    pub fn len(&self) -> (r: usize)
        ensures
            r == self@.handlers.len(),
            self@.wf(),
    {
        proof {
            use_type_invariant(self);
        }
        self.response_handlers.len()
    }

    /// The kind of the iteration.
    pub fn kind(&self) -> (r: IteratingKind)
        ensures
            r == self@.kind,
    {
        self.kind
    }

    /// The response at position `i`.
    pub fn handler(&self, i: usize) -> (r: &SingleResponse)
        requires
            i < self@.handlers.len(),
        ensures
            r@ == self@.handlers[i as int],
    {
        &self.response_handlers[i]
    }

    /// Serves a request: returns the position of the response to answer with
    /// and moves on to the position that the kind names next.
    pub fn next_handler_index(&mut self) -> (i: usize)
        requires
            old(self)@.handlers.len() > 0,
        ensures
            old(self)@.current == Some(i as nat),
            final(self)@.wf(),
            final(self)@.handlers == old(self)@.handlers,
            final(self)@.kind == old(self)@.kind,
            final(self)@.current == Some(
                next_position(old(self)@.kind, i as nat, old(self)@.handlers.len()),
            ),
    {
        proof {
            use_type_invariant(&*self);
        }
        let len = self.response_handlers.len();
        let current = match self.current {
            Some(c) => c,
            None => 0,
        };
        let next = match self.kind {
            IteratingKind::RoundRobin => (current + 1) % len,
            IteratingKind::Chain => if current + 1 < len - 1 {
                current + 1
            } else {
                len - 1
            },
            IteratingKind::Restart => 0,
        };
        self.current = Some(next);
        assert(self@.handlers =~= old(self)@.handlers);
        current
    }
}

/// Round robin: the `k`-th request (counting from zero) is answered with
/// response `k mod n`, so after the last response the first comes again.
pub proof fn lemma_round_robin_cycles(len: nat, k: nat)
    requires
        len > 0,
    ensures
        position_after(IteratingKind::RoundRobin, len, k) == k % len,
    decreases k,
{
    if k > 0 {
        let p = (k - 1) as nat;
        lemma_round_robin_cycles(len, p);
        vstd::arithmetic::div_mod::lemma_add_mod_noop(p as int, 1, len as int);
        if len > 1 {
            vstd::arithmetic::div_mod::lemma_small_mod(1nat, len);
        } else {
            vstd::arithmetic::div_mod::lemma_mod_bound((p % len + 1) as int, 1);
            vstd::arithmetic::div_mod::lemma_mod_bound(k as int, 1);
        }
    } else {
        vstd::arithmetic::div_mod::lemma_small_mod(0nat, len);
    }
}

/// Chain: the `k`-th request (counting from zero) is answered with response
/// `min(k, n - 1)`, so once the last response is reached it keeps being served.
pub proof fn lemma_chain_stays_on_last(len: nat, k: nat)
    requires
        len > 0,
    ensures
        position_after(IteratingKind::Chain, len, k) == (if k < len - 1 {
            k
        } else {
            (len - 1) as nat
        }),
    decreases k,
{
    if k > 0 {
        lemma_chain_stays_on_last(len, (k - 1) as nat);
    }
}

/// Restart: every request is answered with the first response.
pub proof fn lemma_restart_serves_first(len: nat, k: nat)
    ensures
        position_after(IteratingKind::Restart, len, k) == 0,
    decreases k,
{
    if k > 0 {
        lemma_restart_serves_first(len, (k - 1) as nat);
    }
}

/// Served in turn: take the positions that consecutive calls of
/// `next_handler_index` return, on a response built with `new` and `n`
/// calls of `add_handler` before the first request. The first call returns 0
/// (the position after the first `add_handler`), and each call returns the
/// position the previous one moved to (its contract). Then the `k`-th call
/// (counting from zero) returns `k mod n` for round robin, `min(k, n - 1)`
/// for a chain, and 0 for any other kind.
pub proof fn lemma_served_in_turn(kind: IteratingKind, n: nat, served: Seq<nat>)
    requires
        n > 0,
        served.len() > 0 ==> served[0] == 0,
        forall|j: int| 0 <= j < served.len() - 1 ==> #[trigger] served[j + 1] == next_position(kind, served[j], n),
    ensures
        forall|k: int| 0 <= k < served.len() ==> #[trigger] served[k] == position_after(kind, n, k as nat),
        forall|k: int|
            0 <= k < served.len() ==> #[trigger] served[k] == match kind {
                IteratingKind::RoundRobin => (k as nat) % n,
                IteratingKind::Chain => if k < n - 1 {
                    k as nat
                } else {
                    (n - 1) as nat
                },
                IteratingKind::Restart => 0,
            },
    decreases served.len(),
{
    if served.len() > 0 {
        let init = served.drop_last();
        assert forall|j: int| 0 <= j < init.len() - 1 implies #[trigger] init[j + 1] == next_position(kind, init[j], n) by {
            assert(served[j + 1] == next_position(kind, served[j], n));
        }
        lemma_served_in_turn(kind, n, init);
        let last = served.len() - 1;
        if last > 0 {
            assert(init[last - 1] == position_after(kind, n, (last - 1) as nat));
            let j = last - 1;
            assert(served[j + 1] == next_position(kind, served[j], n));
        }
        assert forall|k: int| 0 <= k < served.len() implies #[trigger] served[k] == position_after(kind, n, k as nat) by {
            if k < last {
                assert(served[k] == init[k]);
            }
        }
        assert forall|k: int| 0 <= k < served.len() implies #[trigger] served[k] == match kind {
            IteratingKind::RoundRobin => (k as nat) % n,
            IteratingKind::Chain => if k < n - 1 {
                k as nat
            } else {
                (n - 1) as nat
            },
            IteratingKind::Restart => 0,
        } by {
            assert(served[k] == position_after(kind, n, k as nat));
            lemma_round_robin_cycles(n, k as nat);
            lemma_chain_stays_on_last(n, k as nat);
            lemma_restart_serves_first(n, k as nat);
        }
    }
}

} // verus!
