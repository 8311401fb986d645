//! What a monitor concludes from the validators' last nonces: whether they
//! agree, whether a minority ran ahead, whether a reset has landed.

use crate::halt::all_equal;
use vstd::prelude::*;

verus! {

/// Whether all nonces are the same.
pub fn nonces_agree(nonces: &Vec<u64>) -> (r: bool)
    ensures
        r == all_equal(nonces@),
{
    let mut i: usize = 0;
    while i < nonces.len()
        invariant
            i <= nonces.len(),
            forall|k: int| 0 <= k < i ==> #[trigger] nonces@[k] == nonces@[0],
        decreases nonces.len() - i,
    {
        if nonces[i] != nonces[0] {
            return false;
        }
        i = i + 1;
    }
    true
}

/// Whether every nonce is `target`.
pub open spec fn all_at(nonces: Seq<u64>, target: u64) -> bool {
    forall|i: int| 0 <= i < nonces.len() ==> #[trigger] nonces[i] == target
}

/// Whether every validator stands at `target`: what a monitor looks for after
/// a reset to `target`.
pub fn nonces_realigned(nonces: &Vec<u64>, target: u64) -> (r: bool)
    ensures
        r == all_at(nonces@, target),
{
    let mut i: usize = 0;
    while i < nonces.len()
        invariant
            i <= nonces.len(),
            forall|k: int| 0 <= k < i ==> #[trigger] nonces@[k] == target,
        decreases nonces.len() - i,
    {
        if nonces[i] != target {
            return false;
        }
        i = i + 1;
    }
    true
}

/// Whether `after` differs from `before` anywhere, in length or in a nonce.
pub fn nonces_changed(before: &Vec<u64>, after: &Vec<u64>) -> (r: bool)
    ensures
        r == (before@ != after@),
{
    if before.len() != after.len() {
        return true;
    }
    let mut i: usize = 0;
    while i < before.len()
        invariant
            i <= before.len(),
            before.len() == after.len(),
            forall|k: int| 0 <= k < i ==> before@[k] == after@[k],
        decreases before.len() - i,
    {
        if before[i] != after[i] {
            return true;
        }
        i = i + 1;
    }
    assert(before@ =~= after@);
    false
}

/// What the nonces say after all validators but the first were made to claim
/// one event more than was there.
#[derive(Clone, Copy, Debug, PartialEq, Eq, Structural)]
pub enum Divergence {
    /// The first validator stands at the initial nonce, all others one ahead.
    AsExpected,
    /// Some validator other than the first is not one ahead.
    ClaimsNotApplied,
    /// The others are one ahead, and the first has moved too.
    HonestValidatorMoved,
}

/// The verdict that [`judge_divergence`] gives.
pub open spec fn divergence(initial: u64, nonces: Seq<u64>) -> Divergence {
    if exists|i: int| 1 <= i < nonces.len() && #[trigger] nonces[i] != initial + 1 {
        Divergence::ClaimsNotApplied
    } else if nonces.len() > 0 && nonces[0] != initial {
        Divergence::HonestValidatorMoved
    } else {
        Divergence::AsExpected
    }
}

/// Judges the nonces seen after the claims of all validators but the first,
/// against the nonce `initial` at which all stood before.
pub fn judge_divergence(initial: u64, nonces: &Vec<u64>) -> (r: Divergence)
    ensures
        r == divergence(initial, nonces@),
{
    let mut i: usize = 1;
    while i < nonces.len()
        invariant
            1 <= i,
            forall|k: int| 1 <= k < i && k < nonces@.len() ==> #[trigger] nonces@[k] == initial + 1,
        decreases nonces.len() - i,
    {
        if initial == u64::MAX || nonces[i] != initial + 1 {
            assert(nonces@[i as int] != initial + 1);
            return Divergence::ClaimsNotApplied;
        }
        i = i + 1;
    }
    if nonces.len() > 0 && nonces[0] != initial {
        Divergence::HonestValidatorMoved
    } else {
        Divergence::AsExpected
    }
}

} // verus!
