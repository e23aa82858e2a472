//! Generation classification: deciding whether a pod belongs to the set being
//! replaced or the set being rolled out, from its container image and the
//! deployed tag.

use vstd::prelude::*;
use crate::text;

verus! {

/// Which side of the rollout a pod is on: `Old` for pods being replaced,
/// `New` for pods running the freshly deployed image.
#[derive(Clone, Copy, PartialEq, Eq, Structural, Debug)]
pub enum Generation {
    Old,
    New,
}

/// The classification rule: a pod is of the new generation exactly when its
/// container image reference contains the deployed tag as a substring.
///
/// Substring containment, not tag equality, is the deliberate rule; a known
/// fragility is that a tag which is a prefix of another tag (`v1` against an
/// image tagged `v10`) also matches.
pub open spec fn classify_spec(image: Seq<char>, tag: Seq<char>) -> Generation {
    if text::contains_seq(image, tag) {
        Generation::New
    } else {
        Generation::Old
    }
}

/// Classifies one container image against the deployed tag.
pub fn classify(image: &str, tag: &str) -> (r: Generation)
    ensures
        r == classify_spec(image@, tag@),
{
    if text::contains_str(image, tag) {
        Generation::New
    } else {
        Generation::Old
    }
}

/// Classification is pure: it depends on nothing but the image string and the
/// tag, so equal inputs always classify the same way.
pub proof fn lemma_classify_deterministic(
    image1: Seq<char>,
    tag1: Seq<char>,
    image2: Seq<char>,
    tag2: Seq<char>,
)
    requires
        image1 == image2,
        tag1 == tag2,
    ensures
        classify_spec(image1, tag1) == classify_spec(image2, tag2),
{
}

} // verus!
