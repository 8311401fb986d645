//! The governance reset: the one way to move the validators' nonces anywhere
//! but forward.

use crate::aggregator::AttestationAggregator;
use crate::halt::{BridgeHaltDetector, DetectorView};
use crate::model::AggregatorView;
use vstd::prelude::*;

verus! {

/// A directive to realign the bridge at `target_nonce`. `reset` is the flag
/// that asks for the realignment; `approved` says whether governance passed
/// the directive.
#[derive(Clone, Copy, Debug, PartialEq, Eq, Structural)]
pub struct GovernanceResetDirective {
    pub target_nonce: u64,
    pub reset: bool,
    pub approved: bool,
}

/// Why a directive was refused.
#[derive(Clone, Copy, Debug, PartialEq, Eq, Structural)]
pub enum ResetError {
    /// Governance did not pass the directive.
    Unauthorized,
}

impl GovernanceResetDirective {
    /// Whether the directive changes anything: it was passed and asks for a
    /// reset.
    pub open spec fn takes_effect(self) -> bool {
        self.approved && self.reset
    }

    /// What applying the directive returns.
    pub open spec fn outcome(self) -> Result<(), ResetError> {
        if self.approved {
            Ok(())
        } else {
            Err(ResetError::Unauthorized)
        }
    }

    /// The aggregator after the directive was applied to `s`.
    pub open spec fn on_aggregator(self, s: AggregatorView) -> AggregatorView {
        if self.takes_effect() {
            s.reset(self.target_nonce)
        } else {
            s
        }
    }

    /// The detector after the directive was applied to `d`.
    pub open spec fn on_detector(self, d: DetectorView) -> DetectorView {
        if self.takes_effect() {
            d.clear()
        } else {
            d
        }
    }
}

/// Applies a directive. One that governance did not pass is refused and
/// changes nothing. One that was passed and asks for a reset sets every
/// validator's last nonce to the target, drops the attestations at or above
/// the target that are not finalized, and clears the detector.
pub fn apply_reset(
    directive: &GovernanceResetDirective,
    aggregator: &mut AttestationAggregator,
    detector: &mut BridgeHaltDetector,
) -> (r: Result<(), ResetError>)
    requires
        old(aggregator).wf(),
    ensures
        final(aggregator).wf(),
        r == directive.outcome(),
        final(aggregator)@ == directive.on_aggregator(old(aggregator)@),
        final(detector)@ == directive.on_detector(old(detector)@),
{
    if !directive.approved {
        return Err(ResetError::Unauthorized);
    }
    if directive.reset {
        aggregator.reset_to(directive.target_nonce);
        detector.clear();
    }
    Ok(())
}

} // verus!
