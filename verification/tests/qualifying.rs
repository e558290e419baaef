use qualifying::batch::build;
use qualifying::correlate::{correlate, NamedBlock, ValueBlock};
use qualifying::digits::{parse_decimal_i32, u64_to_string};
use qualifying::error::PipelineError;
use qualifying::grid::{GridRectangle, NamedRange};
use qualifying::pipeline::{accept_response, plan_query};
use qualifying::report::{render, QualifyingReport};
use qualifying::resolve::resolve;
use qualifying::translate::translate;

const CUTOFFS_NAME: &str = "qualifying_average_predicted_cutoffs";
const COUNT_NAME: &str = "qualifying_predicted_number_of_qualifiers";

fn rect(start_row: i64, start_column: i64, end_row: i64, end_column: i64) -> GridRectangle {
    GridRectangle::new(start_row, start_column, end_row, end_column)
}

fn named(name: &str, rectangle: Option<GridRectangle>) -> NamedRange {
    NamedRange {
        name: Some(name.to_string()),
        rectangle,
    }
}

fn block(rows: Vec<Vec<&str>>) -> ValueBlock {
    ValueBlock {
        rows: rows
            .into_iter()
            .map(|row| row.into_iter().map(|cell| cell.to_string()).collect())
            .collect(),
    }
}

#[test]
fn translate_converts_to_one_based_inclusive() {
    let r = rect(0, 0, 5, 2);
    let expr = translate("qualifying", &r);
    assert_eq!(expr, Some("qualifying!R1C1:R5C2".to_string()));
}

#[test]
fn translate_is_deterministic_and_injective_on_samples() {
    let a = rect(0, 0, 5, 2);
    let b = rect(0, 1, 5, 2);
    let c = rect(10, 0, 12, 7);
    let ea1 = translate("qualifying", &a).unwrap();
    let ea2 = translate("qualifying", &a).unwrap();
    let eb = translate("qualifying", &b).unwrap();
    let ec = translate("qualifying", &c).unwrap();
    assert_eq!(ea1, ea2);
    assert_ne!(ea1, eb);
    assert_ne!(ea1, ec);
    assert_ne!(eb, ec);
}

#[test]
fn translate_rejects_incomplete_rectangle() {
    let mut r = rect(0, 0, 5, 2);
    r.end_column = None;
    assert_eq!(translate("qualifying", &r), None);
    let mut r = rect(3, 1, 9, 4);
    r.start_row = None;
    assert_eq!(translate("qualifying", &r), None);
}

#[test]
fn resolve_keeps_request_order_not_storage_order() {
    let all = vec![
        named(CUTOFFS_NAME, Some(rect(0, 0, 5, 4))),
        named(COUNT_NAME, Some(rect(6, 0, 7, 1))),
    ];
    let wanted = vec![COUNT_NAME.to_string(), CUTOFFS_NAME.to_string()];
    let resolution = resolve(&all, &wanted, "qualifying").unwrap();
    assert_eq!(resolution.pairs.len(), 2);
    assert_eq!(resolution.pairs[0].name, COUNT_NAME);
    assert_eq!(resolution.pairs[0].expression, "qualifying!R7C1:R7C1");
    assert_eq!(resolution.pairs[1].name, CUTOFFS_NAME);
    assert_eq!(resolution.pairs[1].expression, "qualifying!R1C1:R5C4");
    assert!(resolution.skipped.is_empty());
}

#[test]
fn resolve_skips_absent_name_and_missing_rectangle() {
    let all = vec![
        named(CUTOFFS_NAME, Some(rect(0, 0, 5, 4))),
        named("unrelated_range", None),
    ];
    let wanted = vec![
        CUTOFFS_NAME.to_string(),
        "no_such_range".to_string(),
        "unrelated_range".to_string(),
    ];
    let resolution = resolve(&all, &wanted, "qualifying").unwrap();
    assert_eq!(resolution.pairs.len(), 1);
    assert_eq!(resolution.pairs[0].name, CUTOFFS_NAME);
    assert_eq!(
        resolution.skipped,
        vec!["no_such_range".to_string(), "unrelated_range".to_string()]
    );
}

#[test]
fn resolve_aborts_whole_pass_on_partial_rectangle() {
    let mut broken = rect(6, 0, 7, 1);
    broken.end_column = None;
    let all = vec![
        named(CUTOFFS_NAME, Some(rect(0, 0, 5, 4))),
        named(COUNT_NAME, Some(broken)),
    ];
    let wanted = vec![CUTOFFS_NAME.to_string(), COUNT_NAME.to_string()];
    let r = resolve(&all, &wanted, "qualifying");
    assert!(matches!(r, Err(PipelineError::IncompleteMetadata)));
}

#[test]
fn build_preserves_expression_order_and_options() {
    let all = vec![
        named(CUTOFFS_NAME, Some(rect(0, 0, 5, 4))),
        named(COUNT_NAME, Some(rect(6, 0, 7, 1))),
    ];
    let wanted = vec![COUNT_NAME.to_string(), CUTOFFS_NAME.to_string()];
    let resolution = resolve(&all, &wanted, "qualifying").unwrap();
    let request = build(&resolution.pairs);
    assert_eq!(
        request.ranges,
        vec![
            "qualifying!R7C1:R7C1".to_string(),
            "qualifying!R1C1:R5C4".to_string(),
        ]
    );
    assert_eq!(request.value_render_option, "FORMATTED_VALUE");
    assert_eq!(request.major_dimension, "ROWS");
}

#[test]
fn correlate_rejects_short_response() {
    let all = vec![
        named(CUTOFFS_NAME, Some(rect(0, 0, 5, 4))),
        named(COUNT_NAME, Some(rect(6, 0, 7, 1))),
    ];
    let wanted = vec![CUTOFFS_NAME.to_string(), COUNT_NAME.to_string()];
    let resolution = resolve(&all, &wanted, "qualifying").unwrap();
    let response = Some(vec![block(vec![vec!["81"]])]);
    let r = correlate(&resolution.pairs, response);
    assert!(matches!(r, Err(PipelineError::CorrelationMismatch)));
}

#[test]
fn correlate_rejects_absent_block_list() {
    let all = vec![named(COUNT_NAME, Some(rect(6, 0, 7, 1)))];
    let wanted = vec![COUNT_NAME.to_string()];
    let resolution = resolve(&all, &wanted, "qualifying").unwrap();
    let r = correlate(&resolution.pairs, None);
    assert!(matches!(r, Err(PipelineError::CorrelationMismatch)));
}

#[test]
fn correlate_accepts_empty_block_as_valid() {
    let all = vec![
        named(CUTOFFS_NAME, Some(rect(0, 0, 5, 4))),
        named(COUNT_NAME, Some(rect(6, 0, 7, 1))),
    ];
    let wanted = vec![CUTOFFS_NAME.to_string(), COUNT_NAME.to_string()];
    let resolution = resolve(&all, &wanted, "qualifying").unwrap();
    let response = Some(vec![block(vec![]), block(vec![vec!["81"]])]);
    let correlated = correlate(&resolution.pairs, response).unwrap();
    assert_eq!(correlated.len(), 2);
    assert_eq!(correlated[0].name, CUTOFFS_NAME);
    assert!(correlated[0].block.rows.is_empty());
    assert_eq!(correlated[1].name, COUNT_NAME);
    assert_eq!(correlated[1].block.rows, vec![vec!["81".to_string()]]);
}

#[test]
fn format_parses_count_and_keeps_column_order() {
    let blocks = vec![
        NamedBlock {
            name: COUNT_NAME.to_string(),
            block: block(vec![vec!["81"]]),
        },
        NamedBlock {
            name: CUTOFFS_NAME.to_string(),
            block: block(vec![vec!["1:58.789", "2:00.139", "2:00.986", "2:02.701"]]),
        },
    ];
    let report = qualifying::report::format(&blocks, COUNT_NAME, CUTOFFS_NAME).unwrap();
    assert_eq!(report.qualifier_count, 81);
    assert_eq!(
        report.division_cutoffs,
        vec![
            "1:58.789".to_string(),
            "2:00.139".to_string(),
            "2:00.986".to_string(),
            "2:02.701".to_string(),
        ]
    );
    let message = render(&report, "Predicted Qualifying Cutoffs", "Sizes are estimates.");
    assert_eq!(message.title, "Predicted Qualifying Cutoffs");
    assert_eq!(message.footer, "Sizes are estimates.");
    assert_eq!(
        message.fields,
        vec![
            "Predicted qualifiers: 81".to_string(),
            "Division 1: 1:58.789".to_string(),
            "Division 2: 2:00.139".to_string(),
            "Division 3: 2:00.986".to_string(),
            "Division 4: 2:02.701".to_string(),
        ]
    );
}

#[test]
fn format_rejects_non_numeric_count_cell() {
    let blocks = vec![
        NamedBlock {
            name: COUNT_NAME.to_string(),
            block: block(vec![vec!["N/A"]]),
        },
        NamedBlock {
            name: CUTOFFS_NAME.to_string(),
            block: block(vec![vec!["1:58.789"]]),
        },
    ];
    let r = qualifying::report::format(&blocks, COUNT_NAME, CUTOFFS_NAME);
    assert!(matches!(r, Err(PipelineError::FormatFailure)));
}

#[test]
fn format_rejects_absent_named_block() {
    let blocks = vec![NamedBlock {
        name: COUNT_NAME.to_string(),
        block: block(vec![vec!["81"]]),
    }];
    let r = qualifying::report::format(&blocks, COUNT_NAME, CUTOFFS_NAME);
    assert!(matches!(r, Err(PipelineError::FormatFailure)));
}

#[test]
fn render_labels_divisions_from_one() {
    let report = QualifyingReport {
        qualifier_count: 7,
        division_cutoffs: vec!["1:10.000".to_string(), "1:12.500".to_string()],
    };
    let message = render(&report, "title", "footer");
    assert_eq!(
        message.fields,
        vec![
            "Predicted qualifiers: 7".to_string(),
            "Division 1: 1:10.000".to_string(),
            "Division 2: 1:12.500".to_string(),
        ]
    );
}

#[test]
fn pipeline_aborts_when_one_range_lacks_a_bound() {
    let mut broken = rect(6, 0, 7, 1);
    broken.end_column = None;
    let metadata = Some(vec![
        named(CUTOFFS_NAME, Some(rect(0, 0, 5, 4))),
        named(COUNT_NAME, Some(broken)),
    ]);
    let wanted = vec![CUTOFFS_NAME.to_string(), COUNT_NAME.to_string()];
    let r = plan_query(metadata, &wanted, "qualifying");
    assert!(matches!(r, Err(PipelineError::IncompleteMetadata)));
}

#[test]
fn pipeline_aborts_when_metadata_is_absent() {
    let wanted = vec![CUTOFFS_NAME.to_string()];
    let r = plan_query(None, &wanted, "qualifying");
    assert!(matches!(r, Err(PipelineError::TransportFailure)));
}

#[test]
fn pipeline_produces_report_end_to_end() {
    let metadata = Some(vec![
        named(CUTOFFS_NAME, Some(rect(0, 0, 5, 4))),
        named(COUNT_NAME, Some(rect(6, 0, 7, 1))),
    ]);
    let wanted = vec![CUTOFFS_NAME.to_string(), COUNT_NAME.to_string()];
    let (resolution, request) = plan_query(metadata, &wanted, "qualifying").unwrap();
    assert_eq!(
        request.ranges,
        vec![
            "qualifying!R1C1:R5C4".to_string(),
            "qualifying!R7C1:R7C1".to_string(),
        ]
    );
    let response = Some(vec![
        block(vec![vec!["1:58.789", "2:00.139", "2:00.986", "2:02.701"]]),
        block(vec![vec!["81"]]),
    ]);
    let message = accept_response(
        &resolution,
        response,
        COUNT_NAME,
        CUTOFFS_NAME,
        "Predicted Qualifying Cutoffs",
        "Sizes are estimates.",
    )
    .unwrap();
    assert_eq!(message.fields[0], "Predicted qualifiers: 81");
    assert_eq!(message.fields.len(), 5);
    assert_eq!(message.fields[4], "Division 4: 2:02.701");
}

#[test]
fn pipeline_reports_mismatch_for_short_response() {
    let metadata = Some(vec![
        named(CUTOFFS_NAME, Some(rect(0, 0, 5, 4))),
        named(COUNT_NAME, Some(rect(6, 0, 7, 1))),
    ]);
    let wanted = vec![CUTOFFS_NAME.to_string(), COUNT_NAME.to_string()];
    let (resolution, _request) = plan_query(metadata, &wanted, "qualifying").unwrap();
    let response = Some(vec![block(vec![vec!["81"]])]);
    let r = accept_response(
        &resolution,
        response,
        COUNT_NAME,
        CUTOFFS_NAME,
        "title",
        "footer",
    );
    assert!(matches!(r, Err(PipelineError::CorrelationMismatch)));
}

#[test]
fn decimal_text_round_trips() {
    assert_eq!(u64_to_string(0), "0");
    assert_eq!(u64_to_string(81), "81");
    assert_eq!(u64_to_string(120734), "120734");
    assert_eq!(parse_decimal_i32("81"), Some(81));
    assert_eq!(parse_decimal_i32("0081"), Some(81));
    assert_eq!(parse_decimal_i32("2147483647"), Some(i32::MAX));
    assert_eq!(parse_decimal_i32("2147483648"), None);
    assert_eq!(parse_decimal_i32("00000000000000000081"), Some(81));
    assert_eq!(parse_decimal_i32(""), None);
    assert_eq!(parse_decimal_i32("8 1"), None);
    assert_eq!(parse_decimal_i32("-5"), None);
}

#[test]
fn error_labels_name_each_kind() {
    assert_eq!(PipelineError::TransportFailure.label(), "transport failure");
    assert_eq!(
        PipelineError::IncompleteMetadata.label(),
        "incomplete metadata"
    );
    assert_eq!(
        PipelineError::CorrelationMismatch.label(),
        "correlation mismatch"
    );
    assert_eq!(PipelineError::FormatFailure.label(), "format failure");
}
