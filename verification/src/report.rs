//! The report formatter: pulls the two expected named blocks out of the
//! correlated values, parses the qualifier count, and renders the
//! structured report the messaging collaborator will display.
//!
//! The mapping from column index `j` to the label "Division j+1" is a
//! convention of the spreadsheet layout, stated here once: column order is
//! division order.

use vstd::prelude::*;

use crate::correlate::NamedBlock;
use crate::digits::{all_digits, dec_rep, digits_val, parse_decimal_i32};
use crate::error::PipelineError;
use crate::resolve::name_views;

verus! {

/// The semantic payload of one qualifying report: the predicted qualifier
/// count and one cutoff string per division, in column order.
pub struct QualifyingReport {
    pub qualifier_count: i32,
    pub division_cutoffs: Vec<String>,
}

/// The structured report handed to the messaging collaborator: a title, an
/// ordered list of labeled field lines, and a footer caveat.
pub struct ReportMessage {
    pub title: String,
    pub fields: Vec<String>,
    pub footer: String,
}

/// First correlated block carrying the wanted name, if any.
pub open spec fn find_block(blocks: Seq<NamedBlock>, w: Seq<char>) -> Option<NamedBlock>
    decreases blocks.len(),
{
    if blocks.len() == 0 {
        None
    } else if blocks[0].name@ == w {
        Some(blocks[0])
    } else {
        find_block(blocks.drop_first(), w)
    }
}

/// The text of the single qualifier-count cell, when the named block is
/// present and has at least one cell.
pub open spec fn count_text(blocks: Seq<NamedBlock>, count_name: Seq<char>) -> Option<Seq<char>> {
    let b = find_block(blocks, count_name);
    if b is Some && b->0.block.rows@.len() >= 1 && b->0.block.rows@[0]@.len() >= 1 {
        Some(b->0.block.rows@[0]@[0]@)
    } else {
        None
    }
}

/// Decimal text that denotes a count representable in the report.
pub open spec fn is_count_text(t: Seq<char>) -> bool {
    t.len() >= 1 && all_digits(t) && digits_val(t) <= i32::MAX
}

/// The per-division cutoff strings: the first row of the named cutoffs
/// block, in column order; an empty block yields no cutoffs.
pub open spec fn cutoff_views(blocks: Seq<NamedBlock>, cutoffs_name: Seq<char>) -> Seq<Seq<char>> {
    let b = find_block(blocks, cutoffs_name)->0;
    if b.block.rows@.len() == 0 {
        Seq::empty()
    } else {
        name_views(b.block.rows@[0]@)
    }
}

/// The qualifier count the count cell denotes.
pub open spec fn count_value(blocks: Seq<NamedBlock>, count_name: Seq<char>) -> nat {
    digits_val(count_text(blocks, count_name)->0)
}

/// Everything `format` needs: both named blocks present, and the
/// qualifier-count cell present and parseable.
pub open spec fn format_ok(
    blocks: Seq<NamedBlock>,
    count_name: Seq<char>,
    cutoffs_name: Seq<char>,
) -> bool {
    &&& find_block(blocks, cutoffs_name) is Some
    &&& count_text(blocks, count_name) is Some
    &&& is_count_text(count_text(blocks, count_name)->0)
}

/// Character-by-character string equality.
fn str_eq(a: &str, b: &str) -> (r: bool)
    ensures
        r == (a@ == b@),
{
    let la = a.unicode_len();
    let lb = b.unicode_len();
    if la != lb {
        return false;
    }
    let mut i: usize = 0;
    while i < la
        invariant
            i <= la,
            la == a@.len(),
            la == b@.len(),
            forall|k: int| 0 <= k < i ==> a@[k] == b@[k],
        decreases la - i,
    {
        if a.get_char(i) != b.get_char(i) {
            return false;
        }
        i += 1;
    }
    proof {
        assert(a@ =~= b@);
    }
    true
}

/// Reference to the first correlated block carrying the wanted name.
fn find_named_block<'a>(blocks: &'a Vec<NamedBlock>, w: &str) -> (r: Option<&'a NamedBlock>)
    ensures
        r is Some <==> find_block(blocks@, w@) is Some,
        r is Some ==> *r->0 == find_block(blocks@, w@)->0,
{
    let mut j: usize = 0;
    proof {
        assert(blocks@.skip(0) =~= blocks@);
    }
    while j < blocks.len()
        invariant
            j <= blocks@.len(),
            find_block(blocks@, w@) == find_block(blocks@.skip(j as int), w@),
        decreases blocks@.len() - j,
    {
        proof {
            assert(blocks@.skip(j as int)[0] == blocks@[j as int]);
            assert(blocks@.skip(j as int).drop_first() =~= blocks@.skip(j as int + 1));
        }
        if str_eq(blocks[j].name.as_str(), w) {
            return Some(&blocks[j]);
        }
        j += 1;
    }
    proof {
        assert(blocks@.skip(blocks@.len() as int) =~= Seq::<NamedBlock>::empty());
    }
    None
}

/// Produces the semantic report payload from the correlated values.
///
/// Expects exactly two named blocks: one single numeric cell under
/// `count_name` and one row of per-division cutoff strings under
/// `cutoffs_name`. Fails with `FormatFailure` when either block is absent
/// or the count cell is missing or not decimal text.
pub fn format(blocks: &Vec<NamedBlock>, count_name: &str, cutoffs_name: &str) -> (r: Result<
    QualifyingReport,
    PipelineError,
>)
    ensures
        r is Ok <==> format_ok(blocks@, count_name@, cutoffs_name@),
        r is Err ==> r->Err_0 == PipelineError::FormatFailure,
        r is Ok ==> r->Ok_0.qualifier_count == digits_val(count_text(blocks@, count_name@)->0),
        r is Ok ==> name_views(r->Ok_0.division_cutoffs@) == cutoff_views(blocks@, cutoffs_name@),
{
    let count_block = match find_named_block(blocks, count_name) {
        Some(b) => b,
        None => {
            return Err(PipelineError::FormatFailure);
        },
    };
    let cutoffs_block = match find_named_block(blocks, cutoffs_name) {
        Some(b) => b,
        None => {
            return Err(PipelineError::FormatFailure);
        },
    };
    if count_block.block.rows.len() == 0 {
        return Err(PipelineError::FormatFailure);
    }
    let count_row = &count_block.block.rows[0];
    if count_row.len() == 0 {
        return Err(PipelineError::FormatFailure);
    }
    let qualifier_count = match parse_decimal_i32(count_row[0].as_str()) {
        Some(v) => v,
        None => {
            return Err(PipelineError::FormatFailure);
        },
    };
    let mut division_cutoffs: Vec<String> = Vec::new();
    if cutoffs_block.block.rows.len() > 0 {
        let row = &cutoffs_block.block.rows[0];
        let mut j: usize = 0;
        while j < row.len()
            invariant
                j <= row@.len(),
                division_cutoffs@.len() == j,
                forall|k: int| 0 <= k < j ==> (#[trigger] division_cutoffs@[k])@ == row@[k]@,
            decreases row@.len() - j,
        {
            division_cutoffs.push(row[j].clone());
            j += 1;
        }
    }
    proof {
        assert(name_views(division_cutoffs@) =~= cutoff_views(blocks@, cutoffs_name@));
    }
    Ok(QualifyingReport { qualifier_count, division_cutoffs })
}

/// The labeled line carrying the predicted qualifier count.
pub open spec fn count_field(n: nat) -> Seq<char> {
    "Predicted qualifiers: "@ + dec_rep(n)
}

/// The spreadsheet-layout convention, stated once: the cutoff in column
/// `j` belongs to division `j + 1`. The data itself does not carry this
/// mapping; it is an external contract of the sheet's layout.
pub open spec fn division_number(column: nat) -> nat {
    column + 1
}

/// The labeled line for the cutoff of the division at column `j`: column
/// order is division order.
pub open spec fn division_field(j: nat, cutoff: Seq<char>) -> Seq<char> {
    "Division "@ + dec_rep(division_number(j)) + ": "@ + cutoff
}

/// Renders the semantic payload as the structured report: the count line
/// first, then one line per division in column order.
pub fn render(report: &QualifyingReport, title: &str, footer: &str) -> (r: ReportMessage)
    requires
        0 <= report.qualifier_count,
    ensures
        r.title@ == title@,
        r.footer@ == footer@,
        r.fields@.len() == 1 + report.division_cutoffs@.len(),
        r.fields@[0]@ == count_field(report.qualifier_count as nat),
        forall|j: int| 0 <= j < report.division_cutoffs@.len() ==> r.fields@[j + 1]@
            == division_field(j as nat, (#[trigger] report.division_cutoffs@[j])@),
{
    let mut fields: Vec<String> = Vec::new();
    let mut count_line = String::new();
    count_line.append("Predicted qualifiers: ");
    crate::digits::push_decimal(&mut count_line, report.qualifier_count as u64);
    proof {
        assert(count_line@ =~= count_field(report.qualifier_count as nat));
    }
    fields.push(count_line);
    let mut j: usize = 0;
    while j < report.division_cutoffs.len()
        invariant
            j <= report.division_cutoffs@.len(),
            fields@.len() == 1 + j,
            fields@[0]@ == count_field(report.qualifier_count as nat),
            forall|k: int| 0 <= k < j ==> fields@[k + 1]@ == division_field(
                k as nat,
                (#[trigger] report.division_cutoffs@[k])@,
            ),
        decreases report.division_cutoffs@.len() - j,
    {
        let mut line = String::new();
        line.append("Division ");
        crate::digits::push_decimal(&mut line, j as u64 + 1);
        line.append(": ");
        line.append(report.division_cutoffs[j].as_str());
        proof {
            assert(line@ =~= division_field(j as nat, report.division_cutoffs@[j as int]@));
        }
        fields.push(line);
        j += 1;
    }
    ReportMessage { title: title.to_owned(), fields, footer: footer.to_owned() }
}

} // verus!
