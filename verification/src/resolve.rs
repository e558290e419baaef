//! The named-range resolver: looks each wanted name up in the metadata the
//! spreadsheet reported, translates complete rectangles into range
//! expressions, and keeps the name-to-expression correlation table in
//! request order.
//!
//! Policy for bad metadata, applied to each wanted name:
//! - name not found, or found without any rectangle: the name is skipped
//!   and the pass goes on;
//! - rectangle present but one of its four bounds absent: the whole pass
//!   aborts with `IncompleteMetadata`. A missing bound on a requested range
//!   means a corrupted spreadsheet section, and partial data would be
//!   misleading; this is the strict all-or-nothing choice.

use vstd::prelude::*;

use crate::error::PipelineError;
use crate::grid::{ranges_well_formed, NamedRange};
use crate::translate::{rect_expr, translate};

verus! {

/// One row of the correlation table: a wanted name and the range
/// expression its rectangle translated to.
pub struct ResolvedPair {
    pub name: String,
    pub expression: String,
}

/// The outcome of one resolution pass: the correlation table in request
/// order, and the names that were skipped, also in request order.
pub struct Resolution {
    pub pairs: Vec<ResolvedPair>,
    pub skipped: Vec<String>,
}

/// Whether this metadata entry carries the wanted name.
pub open spec fn name_matches(nr: NamedRange, w: Seq<char>) -> bool {
    nr.name is Some && nr.name->0@ == w
}

/// First metadata entry carrying the wanted name, if any.
pub open spec fn lookup(all: Seq<NamedRange>, w: Seq<char>) -> Option<NamedRange>
    decreases all.len(),
{
    if all.len() == 0 {
        None
    } else if name_matches(all[0], w) {
        Some(all[0])
    } else {
        lookup(all.drop_first(), w)
    }
}

/// The name is not in the metadata, or is there without any rectangle: it
/// is skipped and the pass goes on.
pub open spec fn is_skipped(all: Seq<NamedRange>, w: Seq<char>) -> bool {
    ||| lookup(all, w) is None
    ||| lookup(all, w)->0.rectangle is None
}

/// The name is there with a complete rectangle: it resolves to an
/// expression.
pub open spec fn is_resolved(all: Seq<NamedRange>, w: Seq<char>) -> bool {
    &&& lookup(all, w) is Some
    &&& lookup(all, w)->0.rectangle is Some
    &&& lookup(all, w)->0.rectangle->0.is_complete()
}

/// The name is there with a rectangle that lacks one of its four bounds:
/// the whole pass must abort.
pub open spec fn is_corrupt(all: Seq<NamedRange>, w: Seq<char>) -> bool {
    &&& lookup(all, w) is Some
    &&& lookup(all, w)->0.rectangle is Some
    &&& !lookup(all, w)->0.rectangle->0.is_complete()
}

/// Some wanted name hits a rectangle with an absent bound.
pub open spec fn any_corrupt(all: Seq<NamedRange>, wanted: Seq<String>) -> bool {
    exists|i: int| 0 <= i < wanted.len() && is_corrupt(all, #[trigger] wanted[i]@)
}

/// The correlation table a successful pass produces: one (name,
/// expression) row per wanted name that resolves, in request order.
pub open spec fn resolved_rows(all: Seq<NamedRange>, wanted: Seq<String>, sheet: Seq<char>) -> Seq<
    (Seq<char>, Seq<char>),
>
    decreases wanted.len(),
{
    if wanted.len() == 0 {
        Seq::empty()
    } else {
        resolved_rows(all, wanted.drop_last(), sheet) + (if is_resolved(all, wanted.last()@) {
            seq![
                (
                    wanted.last()@,
                    rect_expr(sheet, lookup(all, wanted.last()@)->0.rectangle->0),
                ),
            ]
        } else {
            Seq::empty()
        })
    }
}

/// The names a successful pass skips, in request order.
pub open spec fn skipped_rows(all: Seq<NamedRange>, wanted: Seq<String>) -> Seq<Seq<char>>
    decreases wanted.len(),
{
    if wanted.len() == 0 {
        Seq::empty()
    } else {
        skipped_rows(all, wanted.drop_last()) + (if is_skipped(all, wanted.last()@) {
            seq![wanted.last()@]
        } else {
            Seq::empty()
        })
    }
}

/// The views of an exec correlation table.
pub open spec fn pair_views(s: Seq<ResolvedPair>) -> Seq<(Seq<char>, Seq<char>)> {
    s.map_values(|p: ResolvedPair| (p.name@, p.expression@))
}

/// The views of an exec list of names.
pub open spec fn name_views(s: Seq<String>) -> Seq<Seq<char>> {
    s.map_values(|n: String| n@)
}

/// Index of the first metadata entry carrying the wanted name.
fn find_range(all: &Vec<NamedRange>, w: &String) -> (r: Option<usize>)
    ensures
        r is Some <==> lookup(all@, w@) is Some,
        r is Some ==> r->0 < all@.len() && all@[r->0 as int] == lookup(all@, w@)->0,
{
    let mut j: usize = 0;
    proof {
        assert(all@.skip(0) =~= all@);
    }
    while j < all.len()
        invariant
            j <= all@.len(),
            lookup(all@, w@) == lookup(all@.skip(j as int), w@),
        decreases all@.len() - j,
    {
        proof {
            assert(all@.skip(j as int)[0] == all@[j as int]);
            assert(all@.skip(j as int).drop_first() =~= all@.skip(j as int + 1));
        }
        let matched = match &all[j].name {
            Some(n) => *n == *w,
            None => false,
        };
        if matched {
            proof {
                assert(name_matches(all@[j as int], w@));
                assert(lookup(all@.skip(j as int), w@) == Some(all@[j as int]));
            }
            return Some(j);
        }
        proof {
            assert(!name_matches(all@[j as int], w@));
        }
        j += 1;
    }
    proof {
        assert(all@.skip(all@.len() as int) =~= Seq::<NamedRange>::empty());
    }
    None
}

/// Resolves each wanted name against the metadata set, in request order.
///
/// Returns the correlation table and the skipped names on success, and
/// `IncompleteMetadata` as soon as any wanted name hits a rectangle with an
/// absent bound. The table's order is the sole mechanism used later to
/// re-associate untagged response blocks with names; it is never reordered.
pub fn resolve(all: &Vec<NamedRange>, wanted: &Vec<String>, sheet_label: &str) -> (r: Result<
    Resolution,
    PipelineError,
>)
    requires
        sheet_label@.len() >= 1,
        ranges_well_formed(all@),
    ensures
        r is Ok <==> !any_corrupt(all@, wanted@),
        r is Err ==> r->Err_0 == PipelineError::IncompleteMetadata,
        r is Ok ==> pair_views(r->Ok_0.pairs@) == resolved_rows(all@, wanted@, sheet_label@),
        r is Ok ==> name_views(r->Ok_0.skipped@) == skipped_rows(all@, wanted@),
{
    let mut pairs: Vec<ResolvedPair> = Vec::new();
    let mut skipped: Vec<String> = Vec::new();
    let mut i: usize = 0;
    while i < wanted.len()
        invariant
            i <= wanted@.len(),
            sheet_label@.len() >= 1,
            ranges_well_formed(all@),
            forall|k: int| 0 <= k < i ==> !is_corrupt(all@, #[trigger] wanted@[k]@),
            pair_views(pairs@) == resolved_rows(all@, wanted@.take(i as int), sheet_label@),
            name_views(skipped@) == skipped_rows(all@, wanted@.take(i as int)),
        decreases wanted@.len() - i,
    {
        let w = &wanted[i];
        proof {
            assert(wanted@.take(i as int + 1).drop_last() =~= wanted@.take(i as int));
            assert(wanted@.take(i as int + 1).last() == wanted@[i as int]);
        }
        let found = find_range(all, w);
        match found {
            None => {
                skipped.push(w.clone());
                proof {
                    assert(name_views(skipped@) =~= skipped_rows(all@, wanted@.take(i as int + 1)));
                }
            },
            Some(j) => {
                match &all[j].rectangle {
                    None => {
                        skipped.push(w.clone());
                        proof {
                            assert(name_views(skipped@) =~= skipped_rows(
                                all@,
                                wanted@.take(i as int + 1),
                            ));
                        }
                    },
                    Some(rect) => {
                        let expression = match translate(sheet_label, rect) {
                            Some(e) => e,
                            None => {
                                proof {
                                    assert(is_corrupt(all@, wanted@[i as int]@));
                                }
                                return Err(PipelineError::IncompleteMetadata);
                            },
                        };
                        pairs.push(ResolvedPair { name: w.clone(), expression });
                        proof {
                            assert(pair_views(pairs@) =~= resolved_rows(
                                all@,
                                wanted@.take(i as int + 1),
                                sheet_label@,
                            ));
                        }
                    },
                }
            },
        }
        i += 1;
    }
    proof {
        assert(wanted@.take(wanted@.len() as int) =~= wanted@);
    }
    Ok(Resolution { pairs, skipped })
}

} // verus!
