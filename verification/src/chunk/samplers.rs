//! Density fields that need nothing but integers.
use crate::chunk::data::{Node, NodeSampler, SamplePoint};
use vstd::prelude::*;

verus! {

/// The half-space below `y = 0`: barely solid below, empty from `0` up.
pub struct FlatSampler;

impl NodeSampler for FlatSampler {
    open spec fn weight_at(&self, point: SamplePoint) -> u16 {
        if point.y < 0 {
            1
        } else {
            0
        }
    }

    fn sample(&self, point: SamplePoint) -> (node: Node) {
        if point.y < 0 {
            Node { weight: 1 }
        } else {
            Node { weight: 0 }
        }
    }
}

} // verus!
