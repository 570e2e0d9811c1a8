//! A capsule at a glance.

use crate::attestation::schema::{ProofCapsule, ProofScorecard, RedactionReport};
use vstd::prelude::*;

verus! {

/// How many redactions a report lists.
pub open spec fn redactions(r: RedactionReport) -> nat {
    r.hashed_fields@.len() + r.hmac_fields@.len() + r.truncated_fields@.len()
        + r.removed_fields@.len()
}

/// Whether `s` sums up the capsule `c`.
pub open spec fn is_scorecard(s: ProofScorecard, c: ProofCapsule) -> bool {
    &&& s.capsule_id@ == c.capsule_id@
    &&& s.version@ == c.version@
    &&& s.has_signature == c.signature is Some
    &&& s.has_failure == c.failure is Some
    &&& s.has_rollback == (c.rollback is Some && c.rollback->0.occurred)
    &&& s.redaction_count == redactions(c.redaction)
    &&& s.limitations_count == c.limitations@.len()
    &&& s.scorecard_pass == c.signature is Some
}

impl ProofScorecard {
    /// Sums up a capsule.
    pub fn from_capsule(c: &ProofCapsule) -> (r: Self)
        requires
            redactions(c.redaction) <= usize::MAX,
        ensures
            is_scorecard(r, *c),
    {
        let has_signature = c.signature.is_some();
        ProofScorecard {
            capsule_id: c.capsule_id.clone(),
            version: c.version.clone(),
            has_signature,
            has_failure: c.failure.is_some(),
            has_rollback: match &c.rollback {
                Some(r) => r.occurred,
                None => false,
            },
            redaction_count: c.redaction.hashed_fields.len() + c.redaction.hmac_fields.len()
                + c.redaction.truncated_fields.len() + c.redaction.removed_fields.len(),
            limitations_count: c.limitations.len(),
            scorecard_pass: has_signature,
        }
    }
}

/// A capsule passes exactly if it is signed.
pub proof fn lemma_pass_means_signed(s: ProofScorecard, c: ProofCapsule)
    requires
        is_scorecard(s, c),
    ensures
        s.scorecard_pass == s.has_signature,
        s.scorecard_pass <==> c.signature is Some,
{
}

/// A scorecard tells its capsule: by its identifier, whether it is signed, failed
/// or was restored, and how much was redacted or left out.
pub proof fn lemma_scorecards_tell_the_capsule(s: ProofScorecard, c: ProofCapsule)
    requires
        is_scorecard(s, c),
    ensures
        s.capsule_id@ == c.capsule_id@ && s.version@ == c.version@,
        s.has_signature <==> c.signature is Some,
        s.has_failure <==> c.failure is Some,
        s.has_rollback <==> c.rollback is Some && c.rollback->0.occurred,
        s.redaction_count == 0 <==> c.redaction.hashed_fields@.len() == 0
            && c.redaction.hmac_fields@.len() == 0 && c.redaction.truncated_fields@.len() == 0
            && c.redaction.removed_fields@.len() == 0,
        s.redaction_count == c.redaction.hmac_fields@.len() + c.redaction.removed_fields@.len()
            + c.redaction.hashed_fields@.len() + c.redaction.truncated_fields@.len(),
        s.limitations_count == c.limitations@.len(),
{
}

} // verus!
