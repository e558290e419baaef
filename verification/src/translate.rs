//! The coordinate translator: a complete grid rectangle becomes the
//! `"<sheet>!R<r1>C<c1>:R<r2>C<c2>"` range expression the spreadsheet
//! protocol's batch-read endpoint understands.

use vstd::prelude::*;

use crate::digits::{
    all_digits, dec_rep, is_digit_char, lemma_dec_rep_digits, lemma_dec_rep_val, push_decimal,
};
use crate::grid::GridRectangle;

verus! {

/// The range expression for the four bounds of a complete rectangle on the
/// sheet named `sheet`. Rows and columns turn from zero-based exclusive-end
/// into one-based inclusive-end: the starts gain one, the ends stay as
/// given.
pub open spec fn range_expr(sheet: Seq<char>, sr: int, sc: int, er: int, ec: int) -> Seq<char> {
    sheet + "!R"@ + dec_rep((sr + 1) as nat) + "C"@ + dec_rep((sc + 1) as nat) + ":R"@ + dec_rep(
        er as nat,
    ) + "C"@ + dec_rep(ec as nat)
}

/// The range expression a complete, well-formed rectangle translates to.
pub open spec fn rect_expr(sheet: Seq<char>, r: GridRectangle) -> Seq<char> {
    range_expr(
        sheet,
        r.start_row->0 as int,
        r.start_column->0 as int,
        r.end_row->0 as int,
        r.end_column->0 as int,
    )
}

/// Translates a rectangle into its range expression on the given sheet.
/// Produces no expression at all when the rectangle is incomplete; the
/// caller must treat that as a failure before any request is built.
pub fn translate(sheet_label: &str, rect: &GridRectangle) -> (r: Option<String>)
    requires
        sheet_label@.len() >= 1,
        rect.well_formed(),
    ensures
        r is Some <==> rect.is_complete(),
        r is Some ==> r->0@ == rect_expr(sheet_label@, *rect),
{
    let (sr, sc, er, ec) = match (&rect.start_row, &rect.start_column, &rect.end_row,
        &rect.end_column) {
        (Some(sr), Some(sc), Some(er), Some(ec)) => (*sr, *sc, *er, *ec),
        _ => {
            return None;
        },
    };
    let mut out = String::new();
    out.append(sheet_label);
    out.append("!R");
    push_decimal(&mut out, sr as u64 + 1);
    out.append("C");
    push_decimal(&mut out, sc as u64 + 1);
    out.append(":R");
    push_decimal(&mut out, er as u64);
    out.append("C");
    push_decimal(&mut out, ec as u64);
    proof {
        assert(out@ =~= rect_expr(sheet_label@, *rect));
    }
    Some(out)
}

/// Drops an equal prefix from an equality of concatenations.
proof fn lemma_cancel_prefix(p: Seq<char>, x: Seq<char>, y: Seq<char>)
    requires
        p + x == p + y,
    ensures
        x == y,
{
    p.lemma_concat_injective(x, y);
}

/// A run of digits followed by a non-digit splits an equality of
/// concatenations unambiguously: the digit runs agree and the remainders
/// agree.
proof fn lemma_digit_run_cancels(x: Seq<char>, u: Seq<char>, y: Seq<char>, v: Seq<char>)
    requires
        all_digits(x),
        all_digits(y),
        u.len() >= 1,
        v.len() >= 1,
        !is_digit_char(u[0]),
        !is_digit_char(v[0]),
        x + u == y + v,
    ensures
        x == y,
        u == v,
{
    broadcast use vstd::seq_lib::group_seq_properties;

    assert((x + u).len() == (y + v).len());
    if x.len() < y.len() {
        assert((x + u)[x.len() as int] == u[0]);
        assert((y + v)[x.len() as int] == y[x.len() as int]);
        assert(false);
    }
    if y.len() < x.len() {
        assert((y + v)[y.len() as int] == v[0]);
        assert((x + u)[y.len() as int] == x[y.len() as int]);
        assert(false);
    }
    assert(x =~= (x + u).take(x.len() as int));
    assert(y =~= (y + v).take(y.len() as int));
    assert(u =~= (x + u).skip(x.len() as int));
    assert(v =~= (y + v).skip(y.len() as int));
}

/// For one fixed sheet label, translation is injective: two complete
/// rectangles with the same range expression have the same four bounds.
/// (Determinism holds because the expression is a function of the bounds.)
#[verifier::rlimit(100)]
pub proof fn lemma_range_expr_injective(
    sheet: Seq<char>,
    a_sr: int,
    a_sc: int,
    a_er: int,
    a_ec: int,
    b_sr: int,
    b_sc: int,
    b_er: int,
    b_ec: int,
)
    requires
        0 <= a_sr && 0 <= a_sc && 0 <= a_er && 0 <= a_ec,
        0 <= b_sr && 0 <= b_sc && 0 <= b_er && 0 <= b_ec,
        range_expr(sheet, a_sr, a_sc, a_er, a_ec) == range_expr(sheet, b_sr, b_sc, b_er, b_ec),
    ensures
        a_sr == b_sr,
        a_sc == b_sc,
        a_er == b_er,
        a_ec == b_ec,
{
    reveal_strlit("!R");
    reveal_strlit("C");
    reveal_strlit(":R");
    let a1 = dec_rep((a_sr + 1) as nat);
    let a2 = dec_rep((a_sc + 1) as nat);
    let a3 = dec_rep(a_er as nat);
    let a4 = dec_rep(a_ec as nat);
    let b1 = dec_rep((b_sr + 1) as nat);
    let b2 = dec_rep((b_sc + 1) as nat);
    let b3 = dec_rep(b_er as nat);
    let b4 = dec_rep(b_ec as nat);
    lemma_dec_rep_digits((a_sr + 1) as nat);
    lemma_dec_rep_digits((a_sc + 1) as nat);
    lemma_dec_rep_digits(a_er as nat);
    lemma_dec_rep_digits(a_ec as nat);
    lemma_dec_rep_digits((b_sr + 1) as nat);
    lemma_dec_rep_digits((b_sc + 1) as nat);
    lemma_dec_rep_digits(b_er as nat);
    lemma_dec_rep_digits(b_ec as nat);
    let ta = a1 + ("C"@ + (a2 + (":R"@ + (a3 + ("C"@ + a4)))));
    let tb = b1 + ("C"@ + (b2 + (":R"@ + (b3 + ("C"@ + b4)))));
    assert(range_expr(sheet, a_sr, a_sc, a_er, a_ec) =~= (sheet + "!R"@) + ta);
    assert(range_expr(sheet, b_sr, b_sc, b_er, b_ec) =~= (sheet + "!R"@) + tb);
    lemma_cancel_prefix(sheet + "!R"@, ta, tb);
    let ua = "C"@ + (a2 + (":R"@ + (a3 + ("C"@ + a4))));
    let ub = "C"@ + (b2 + (":R"@ + (b3 + ("C"@ + b4))));
    assert(ua[0] == 'C' && ub[0] == 'C');
    lemma_digit_run_cancels(a1, ua, b1, ub);
    lemma_cancel_prefix("C"@, a2 + (":R"@ + (a3 + ("C"@ + a4))), b2 + (":R"@ + (b3 + ("C"@
        + b4))));
    let va = ":R"@ + (a3 + ("C"@ + a4));
    let vb = ":R"@ + (b3 + ("C"@ + b4));
    assert(va[0] == ':' && vb[0] == ':');
    lemma_digit_run_cancels(a2, va, b2, vb);
    lemma_cancel_prefix(":R"@, a3 + ("C"@ + a4), b3 + ("C"@ + b4));
    let wa = "C"@ + a4;
    let wb = "C"@ + b4;
    assert(wa[0] == 'C' && wb[0] == 'C');
    lemma_digit_run_cancels(a3, wa, b3, wb);
    lemma_cancel_prefix("C"@, a4, b4);
    lemma_dec_rep_val((a_sr + 1) as nat);
    lemma_dec_rep_val((a_sc + 1) as nat);
    lemma_dec_rep_val(a_er as nat);
    lemma_dec_rep_val(a_ec as nat);
    lemma_dec_rep_val((b_sr + 1) as nat);
    lemma_dec_rep_val((b_sc + 1) as nat);
    lemma_dec_rep_val(b_er as nat);
    lemma_dec_rep_val(b_ec as nat);
}

/// Injectivity stated on rectangles: for one fixed sheet label, two
/// complete, well-formed rectangles that translate to the same expression
/// are the same rectangle; different rectangles yield different
/// expressions.
pub proof fn lemma_translate_injective(sheet: Seq<char>, a: GridRectangle, b: GridRectangle)
    requires
        a.is_complete(),
        a.well_formed(),
        b.is_complete(),
        b.well_formed(),
        rect_expr(sheet, a) == rect_expr(sheet, b),
    ensures
        a == b,
{
    lemma_range_expr_injective(
        sheet,
        a.start_row->0 as int,
        a.start_column->0 as int,
        a.end_row->0 as int,
        a.end_column->0 as int,
        b.start_row->0 as int,
        b.start_column->0 as int,
        b.end_row->0 as int,
        b.end_column->0 as int,
    );
    assert(a == b) by {
        assert(a.start_row == b.start_row);
        assert(a.start_column == b.start_column);
        assert(a.end_row == b.end_row);
        assert(a.end_column == b.end_column);
    }
}

} // verus!
