//! The response correlator: re-associates each untagged response block
//! with its originating name, purely by position in the correlation table.

use vstd::prelude::*;

use crate::error::PipelineError;
use crate::resolve::ResolvedPair;

verus! {

/// The rectangular array of formatted cell strings one requested range
/// came back with. A block with zero rows is a legitimate, empty result,
/// not a failure.
pub struct ValueBlock {
    pub rows: Vec<Vec<String>>,
}

/// One response block re-associated with its semantic name.
pub struct NamedBlock {
    pub name: String,
    pub block: ValueBlock,
}

/// Re-associates response blocks with names by request order:
/// `response[i]` belongs to `pairs[i].name`.
///
/// Fails with `CorrelationMismatch` when the response carries no block
/// list at all, or when its length differs from the correlation table's;
/// an individual empty block is valid and flows through unchanged.
pub fn correlate(pairs: &Vec<ResolvedPair>, response: Option<Vec<ValueBlock>>) -> (r: Result<
    Vec<NamedBlock>,
    PipelineError,
>)
    ensures
        r is Ok <==> response is Some && response->0@.len() == pairs@.len(),
        r is Err ==> r->Err_0 == PipelineError::CorrelationMismatch,
        r is Ok ==> r->Ok_0@.len() == pairs@.len(),
        r is Ok ==> forall|i: int| 0 <= i < pairs@.len() ==> (#[trigger] r->Ok_0@[i]).name
            == pairs@[i].name && r->Ok_0@[i].block == response->0@[i],
{
    let mut blocks = match response {
        Some(blocks) => blocks,
        None => {
            return Err(PipelineError::CorrelationMismatch);
        },
    };
    if blocks.len() != pairs.len() {
        return Err(PipelineError::CorrelationMismatch);
    }
    let ghost orig = blocks@;
    let mut out: Vec<NamedBlock> = Vec::new();
    let mut i: usize = 0;
    proof {
        assert(blocks@ =~= orig.skip(0));
    }
    while i < pairs.len()
        invariant
            i <= pairs@.len(),
            orig.len() == pairs@.len(),
            blocks@ == orig.skip(i as int),
            out@.len() == i,
            forall|k: int| 0 <= k < i ==> (#[trigger] out@[k]).name == pairs@[k].name
                && out@[k].block == orig[k],
        decreases pairs@.len() - i,
    {
        let block = blocks.remove(0);
        proof {
            assert(orig.skip(i as int)[0] == orig[i as int]);
            assert(orig.skip(i as int).remove(0) =~= orig.skip(i as int + 1));
        }
        out.push(NamedBlock { name: pairs[i].name.clone(), block });
        i += 1;
    }
    Ok(out)
}

} // verus!
