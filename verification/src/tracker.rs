//! The nonce tracker: a read-only look at the validators' last event nonces.

use crate::aggregator::AttestationAggregator;
use crate::halt::all_equal;
use crate::model::AggregatorView;
use crate::monitor::nonces_agree;
use vstd::prelude::*;

verus! {

/// Reads the validators' last event nonces from an aggregator. It cannot
/// change them: they move only when the aggregator takes a claim or is reset.
pub struct NonceTracker<'a> {
    aggregator: &'a AttestationAggregator,
}

impl<'a> View for NonceTracker<'a> {
    type V = AggregatorView;

    closed spec fn view(&self) -> AggregatorView {
        self.aggregator@
    }
}

impl<'a> NonceTracker<'a> {
    /// A tracker that reads from `aggregator`.
    pub fn new(aggregator: &'a AttestationAggregator) -> (r: NonceTracker<'a>)
        ensures
            r@ == aggregator@,
    {
        NonceTracker { aggregator }
    }

    /// The last event nonce of the validator with this address, or `None`
    /// where there is no such validator.
    pub fn last_event_nonce(&self, address: &String) -> (r: Option<u64>)
        ensures
            match r {
                Some(n) => 0 <= self@.validator_index(address@) < self@.validators.len() && n
                    == self@.validators[self@.validator_index(address@)].last_nonce,
                None => self@.validator_index(address@) == -1,
            },
    {
        self.aggregator.last_event_nonce_for_validator(address)
    }

    /// The last event nonce of every validator, in the validators' order.
    pub fn nonces(&self) -> (r: Vec<u64>)
        ensures
            r@ == self@.nonces(),
    {
        self.aggregator.nonces()
    }

    /// Whether all validators stand at the same nonce.
    pub fn converged(&self) -> (r: bool)
        ensures
            r == all_equal(self@.nonces()),
    {
        let nonces = self.aggregator.nonces();
        nonces_agree(&nonces)
    }
}

} // verus!
