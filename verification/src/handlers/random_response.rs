//! A handler that answers with one of its responses, chosen at random by weight.

use vstd::prelude::*;
use crate::handlers::single_response::{SingleResponse, SingleResponseView};

verus! {

/// Responses, each with the weight it is chosen with.
#[derive(Debug)]
pub struct RandomResponse {
    response_handlers: Vec<SingleResponse>,
    weights: Vec<u32>,
}

/// The mathematical model of a random response: the responses and their weights.
pub struct RandomResponseView {
    pub handlers: Seq<SingleResponseView>,
    pub weights: Seq<u32>,
}

impl RandomResponseView {
    /// Each response has exactly one weight.
    pub open spec fn wf(self) -> bool {
        self.handlers.len() == self.weights.len()
    }
}

impl View for RandomResponse {
    type V = RandomResponseView;

    closed spec fn view(&self) -> RandomResponseView {
        RandomResponseView {
            handlers: self.response_handlers@.map_values(|h: SingleResponse| h@),
            weights: self.weights@,
        }
    }
}

impl RandomResponse {
    /// Each response has exactly one weight.
    #[verifier::type_invariant]
    spec fn well_formed(self) -> bool {
        self.response_handlers.len() == self.weights.len()
    }

    /// A random response with no responses yet.
    pub fn new() -> (r: RandomResponse)
        ensures
            r@.handlers == Seq::<SingleResponseView>::empty(),
            r@.weights == Seq::<u32>::empty(),
            r@.wf(),
    {
        let r = RandomResponse { response_handlers: Vec::new(), weights: Vec::new() };
        assert(r@.handlers =~= Seq::<SingleResponseView>::empty());
        r
    }

    /// Appends a response with its weight.
    pub fn add_handler(&mut self, weight: u32, handler: SingleResponse)
        ensures
            final(self)@.wf(),
            final(self)@.handlers == old(self)@.handlers.push(handler@),
            final(self)@.weights == old(self)@.weights.push(weight),
    {
        let ghost h = handler@;
        let mut taken = RandomResponse { response_handlers: Vec::new(), weights: Vec::new() };
        std::mem::swap(self, &mut taken);
        proof {
            use_type_invariant(&taken);
        }
        let mut handlers = taken.response_handlers;
        let mut weights = taken.weights;
        handlers.push(handler);
        weights.push(weight);
        *self = RandomResponse { response_handlers: handlers, weights: weights };
        assert(self@.handlers =~= old(self)@.handlers.push(h));
    }

    /// The number of responses.
    pub fn len(&self) -> (r: usize)
        ensures
            r == self@.handlers.len(),
            self@.wf(),
    {
        proof {
            use_type_invariant(self);
        }
        self.response_handlers.len()
    }

    /// The weights, in the order of the responses.
    pub fn weights(&self) -> (r: &Vec<u32>)
        ensures
            r@ == self@.weights,
    {
        &self.weights
    }

    /// The response at position `i`.
    pub fn handler(&self, i: usize) -> (r: &SingleResponse)
        requires
            i < self@.handlers.len(),
        ensures
            r@ == self@.handlers[i as int],
    {
        &self.response_handlers[i]
    }

    /// The response to answer with, given the position that the weighted draw
    /// picked: that one, or the first response when the draw picked none.
    pub fn pick(&self, chosen: Option<usize>) -> (r: &SingleResponse)
        requires
            self@.handlers.len() > 0,
            chosen matches Some(i) ==> i < self@.handlers.len(),
        ensures
            r@ == self@.handlers[match chosen {
                Some(i) => i as int,
                None => 0,
            }],
    {
        match chosen {
            Some(i) => &self.response_handlers[i],
            None => &self.response_handlers[0],
        }
    }
}

} // verus!
