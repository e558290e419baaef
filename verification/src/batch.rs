//! The batch query builder: one outbound request carrying every resolved
//! range expression, in the exact order the correlation table holds them.
//! The response correlator relies on that positional alignment, because
//! the protocol's batch-read response does not echo back which request
//! produced which block.

use vstd::prelude::*;

use crate::resolve::ResolvedPair;

verus! {

/// One batched read request: the range expressions in request order, with
/// the protocol options fixed to formatted (display-rendered) cell values
/// laid out row-major.
pub struct BatchRequest {
    pub ranges: Vec<String>,
    pub value_render_option: String,
    pub major_dimension: String,
}

/// Builds the single batched read request for a correlation table,
/// preserving its order exactly.
pub fn build(pairs: &Vec<ResolvedPair>) -> (r: BatchRequest)
    ensures
        r.ranges@.len() == pairs@.len(),
        forall|i: int| 0 <= i < pairs@.len() ==> (#[trigger] r.ranges@[i])@
            == pairs@[i].expression@,
        r.value_render_option@ == "FORMATTED_VALUE"@,
        r.major_dimension@ == "ROWS"@,
{
    let mut ranges: Vec<String> = Vec::new();
    let mut i: usize = 0;
    while i < pairs.len()
        invariant
            i <= pairs@.len(),
            ranges@.len() == i,
            forall|k: int| 0 <= k < i ==> (#[trigger] ranges@[k])@ == pairs@[k].expression@,
        decreases pairs@.len() - i,
    {
        ranges.push(pairs[i].expression.clone());
        i += 1;
    }
    BatchRequest {
        ranges,
        value_render_option: "FORMATTED_VALUE".to_owned(),
        major_dimension: "ROWS".to_owned(),
    }
}

} // verus!
