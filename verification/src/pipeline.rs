//! The two decision steps of one qualifying-report invocation. The caller
//! alternates them with its transport work: fetch metadata, `plan_query`,
//! execute the batched read, `accept_response`, hand the message to the
//! channel. Every failure aborts the invocation with no message.

use vstd::prelude::*;

use crate::batch::{build, BatchRequest};
use crate::correlate::{correlate, NamedBlock, ValueBlock};
use crate::error::PipelineError;
use crate::grid::{ranges_well_formed, NamedRange};
use crate::report::{
    count_field, count_value, cutoff_views, division_field, format_ok, render, ReportMessage,
};
use crate::resolve::{
    any_corrupt, name_views, pair_views, resolve, resolved_rows, skipped_rows, Resolution,
    ResolvedPair,
};

verus! {

/// The correlated values that a response of matching shape yields: block
/// `i` re-associated with the name of correlation-table row `i`.
pub open spec fn correlated_of(pairs: Seq<ResolvedPair>, blocks: Seq<ValueBlock>) -> Seq<
    NamedBlock,
> {
    Seq::new(pairs.len(), |i: int| NamedBlock { name: pairs[i].name, block: blocks[i] })
}

/// Turns fetched metadata into the correlation table and the single
/// batched read request.
///
/// Absent metadata is a transport failure; a wanted range with a
/// partially absent rectangle aborts the pass with `IncompleteMetadata`.
/// On success the request carries exactly the resolved expressions, in
/// table order, asking for formatted values row-major.
pub fn plan_query(metadata: Option<Vec<NamedRange>>, wanted: &Vec<String>, sheet_label: &str) -> (r:
    Result<(Resolution, BatchRequest), PipelineError>)
    requires
        sheet_label@.len() >= 1,
        metadata is Some ==> ranges_well_formed(metadata->0@),
    ensures
        metadata is None ==> r is Err && r->Err_0 == PipelineError::TransportFailure,
        metadata is Some ==> {
            &&& (r is Ok <==> !any_corrupt(metadata->0@, wanted@))
            &&& (r is Err ==> r->Err_0 == PipelineError::IncompleteMetadata)
            &&& (r is Ok ==> {
                &&& pair_views(r->Ok_0.0.pairs@) == resolved_rows(
                    metadata->0@,
                    wanted@,
                    sheet_label@,
                )
                &&& name_views(r->Ok_0.0.skipped@) == skipped_rows(metadata->0@, wanted@)
                &&& r->Ok_0.1.ranges@.len() == r->Ok_0.0.pairs@.len()
                &&& forall|i: int| 0 <= i < r->Ok_0.0.pairs@.len() ==> (
                #[trigger] r->Ok_0.1.ranges@[i])@ == r->Ok_0.0.pairs@[i].expression@
                &&& r->Ok_0.1.value_render_option@ == "FORMATTED_VALUE"@
                &&& r->Ok_0.1.major_dimension@ == "ROWS"@
            })
        },
{
    let all = match metadata {
        Some(all) => all,
        None => {
            return Err(PipelineError::TransportFailure);
        },
    };
    let resolution = match resolve(&all, wanted, sheet_label) {
        Ok(resolution) => resolution,
        Err(e) => {
            return Err(e);
        },
    };
    let request = build(&resolution.pairs);
    Ok((resolution, request))
}

/// Turns the batched response into the structured report message.
///
/// The response must align block-for-block with the correlation table
/// (`CorrelationMismatch` otherwise); the correlated values must carry the
/// two expected named blocks with a parseable count cell (`FormatFailure`
/// otherwise). On success the message holds the count line first, then
/// one division line per cutoff column, in column order.
pub fn accept_response(
    resolution: &Resolution,
    response: Option<Vec<ValueBlock>>,
    count_name: &str,
    cutoffs_name: &str,
    title: &str,
    footer: &str,
) -> (r: Result<ReportMessage, PipelineError>)
    ensures
        !(response is Some && response->0@.len() == resolution.pairs@.len()) ==> r is Err
            && r->Err_0 == PipelineError::CorrelationMismatch,
        response is Some && response->0@.len() == resolution.pairs@.len() ==> {
            let correlated = correlated_of(resolution.pairs@, response->0@);
            &&& (r is Ok <==> format_ok(correlated, count_name@, cutoffs_name@))
            &&& (r is Err ==> r->Err_0 == PipelineError::FormatFailure)
            &&& (r is Ok ==> {
                let msg = r->Ok_0;
                &&& msg.title@ == title@
                &&& msg.footer@ == footer@
                &&& msg.fields@.len() == 1 + cutoff_views(correlated, cutoffs_name@).len()
                &&& msg.fields@[0]@ == count_field(count_value(correlated, count_name@))
                &&& forall|j: int|
                    0 <= j < cutoff_views(correlated, cutoffs_name@).len()
                        ==> msg.fields@[j + 1]@ == division_field(
                        j as nat,
                        #[trigger] cutoff_views(correlated, cutoffs_name@)[j],
                    )
            })
        },
{
    let ghost resp = response;
    let correlated = match correlate(&resolution.pairs, response) {
        Ok(correlated) => correlated,
        Err(e) => {
            return Err(e);
        },
    };
    proof {
        assert(correlated@ =~= correlated_of(resolution.pairs@, resp->0@));
    }
    let report = match crate::report::format(&correlated, count_name, cutoffs_name) {
        Ok(report) => report,
        Err(e) => {
            return Err(e);
        },
    };
    Ok(render(&report, title, footer))
}

} // verus!
