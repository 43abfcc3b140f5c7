//! The usability classifier: how practically a component can be invoked,
//! judged from which of its optional fields are present.

use vstd::prelude::*;
use crate::types::ComObject;

verus! {

/// The four usability tiers.
#[derive(PartialEq, Eq, Structural, Clone, Copy, Debug)]
pub enum Usability {
    High,
    Medium,
    Low,
    VeryLow,
}

/// The tier of a record: both fields give high, the friendly name alone
/// medium, the description alone low, neither very low.
pub open spec fn tier_of(has_prog_id: bool, has_description: bool) -> Usability {
    if has_prog_id && has_description {
        Usability::High
    } else if has_prog_id {
        Usability::Medium
    } else if has_description {
        Usability::Low
    } else {
        Usability::VeryLow
    }
}

impl Usability {
    /// The text shown for a tier.
    pub open spec fn label_spec(self) -> &'static str {
        match self {
            Usability::High => "✓ High (has ProgID and description)",
            Usability::Medium => "~ Medium (has ProgID)",
            Usability::Low => "~ Low (no ProgID, has description)",
            Usability::VeryLow => "✗ Very Low (no ProgID or description)",
        }
    }

    /// The text shown for this tier.
    pub fn label(&self) -> (r: &'static str)
        ensures
            r == self.label_spec(),
    {
        match self {
            Usability::High => "✓ High (has ProgID and description)",
            Usability::Medium => "~ Medium (has ProgID)",
            Usability::Low => "~ Low (no ProgID, has description)",
            Usability::VeryLow => "✗ Very Low (no ProgID or description)",
        }
    }
}

/// The tier for a pair of presence flags.
pub fn usability_tier(has_prog_id: bool, has_description: bool) -> (r: Usability)
    ensures
        r == tier_of(has_prog_id, has_description),
{
    match (has_prog_id, has_description) {
        (true, true) => Usability::High,
        (true, false) => Usability::Medium,
        (false, true) => Usability::Low,
        (false, false) => Usability::VeryLow,
    }
}

/// The usability text of a record, from the presence of its friendly name
/// and of its description.
pub fn check_usability(obj: &ComObject) -> (r: &'static str)
    ensures
        r == tier_of(obj.prog_id is Some, obj.description is Some).label_spec(),
{
    usability_tier(obj.prog_id.is_some(), obj.description.is_some()).label()
}

/// The classifier is total and tells the four combinations apart: each pair
/// of presence flags has exactly one tier, no two pairs share a tier, and no
/// two tiers share a text.
pub proof fn lemma_usability_total(a: bool, b: bool, c: bool, d: bool)
    ensures
        tier_of(a, b) == Usability::High || tier_of(a, b) == Usability::Medium || tier_of(a, b)
            == Usability::Low || tier_of(a, b) == Usability::VeryLow,
        tier_of(a, b) == tier_of(c, d) ==> a == c && b == d,
        tier_of(a, b).label_spec() == tier_of(c, d).label_spec() ==> tier_of(a, b) == tier_of(
            c,
            d,
        ),
{
    reveal_strlit("✓ High (has ProgID and description)");
    reveal_strlit("~ Medium (has ProgID)");
    reveal_strlit("~ Low (no ProgID, has description)");
    reveal_strlit("✗ Very Low (no ProgID or description)");
    let t = tier_of(a, b);
    let u = tier_of(c, d);
    if t.label_spec() == u.label_spec() {
        assert(t.label_spec()@.len() == u.label_spec()@.len());
    }
}

} // verus!
