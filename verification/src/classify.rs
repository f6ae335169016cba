//! The column classifier.
//!
//! Records are transposed into columns, each column is sorted by its string
//! representation, and a column counts as numeric exactly when its first
//! sorted value passes the (whitespace-trimmed) float probe. A numeric
//! column keeps, in sorted-string order, every value that matches the float
//! grammar on its own; values that do not are silently dropped. The probe
//! deliberately looks at the first sorted value only — a weak test, kept as
//! the tool's classification policy, and stated as such in the contracts.

use vstd::prelude::*;
use crate::lex::{lex_leq, sort_strings, views};
use crate::numeric::{float_syntax, is_float_syntax, is_valid_float, trimmed};

verus! {

/// One column that classified as numeric: its header label and its retained
/// values, still in their string form, in sorted-string order.
#[derive(Clone, Debug)]
pub struct NumericColumn {
    pub label: String,
    pub values: Vec<String>,
}

/// The predicate a retained value satisfies: it matches the float grammar.
pub open spec fn float_pred() -> spec_fn(Seq<char>) -> bool {
    |s: Seq<char>| float_syntax(s)
}

pub open spec fn all_float_syntax(vs: Seq<Seq<char>>) -> bool {
    forall|i: int| 0 <= i < vs.len() ==> float_syntax(#[trigger] vs[i])
}

impl NumericColumn {
    /// The views of the retained values.
    pub open spec fn values_views(self) -> Seq<Seq<char>> {
        views(self.values@)
    }

    /// Every retained value matches the float grammar.
    pub open spec fn wf(self) -> bool {
        all_float_syntax(self.values_views())
    }
}

/// The views of a sequence of records.
pub open spec fn record_views(rs: Seq<Vec<String>>) -> Seq<Seq<Seq<char>>> {
    rs.map_values(|r: Vec<String>| views(r@))
}

/// Column `j` of the records, in row order.
pub open spec fn column_of(records: Seq<Seq<Seq<char>>>, j: int) -> Seq<Seq<char>> {
    Seq::new(records.len(), |i: int| records[i][j])
}

/// Column `j`, sorted by the lexicographic string order.
pub open spec fn sorted_column(records: Seq<Seq<Seq<char>>>, j: int) -> Seq<Seq<char>> {
    column_of(records, j).sort_by(lex_leq())
}

/// The classification probe: non-empty, and the first sorted value parses as
/// a float after trimming.
pub open spec fn is_numeric_column(records: Seq<Seq<Seq<char>>>, j: int) -> bool {
    let sc = sorted_column(records, j);
    sc.len() > 0 && float_syntax(trimmed(sc[0]))
}

/// The values a numeric column retains: the sorted strings that match the
/// float grammar.
pub open spec fn numeric_values(records: Seq<Seq<Seq<char>>>, j: int) -> Seq<Seq<char>> {
    sorted_column(records, j).filter(float_pred())
}

/// The column indices below `upto` that classify as numeric, in order.
pub open spec fn numeric_indices(records: Seq<Seq<Seq<char>>>, upto: int) -> Seq<int>
    decreases upto,
{
    if upto <= 0 {
        Seq::empty()
    } else if is_numeric_column(records, upto - 1) {
        numeric_indices(records, upto - 1).push(upto - 1)
    } else {
        numeric_indices(records, upto - 1)
    }
}

pub proof fn lemma_numeric_indices_in_range(records: Seq<Seq<Seq<char>>>, upto: int)
    ensures
        forall|k: int|
            0 <= k < numeric_indices(records, upto).len() ==> 0 <= #[trigger] numeric_indices(
                records,
                upto,
            )[k] < upto,
    decreases upto,
{
    if upto > 0 {
        lemma_numeric_indices_in_range(records, upto - 1);
        let pre = numeric_indices(records, upto - 1);
        let cur = numeric_indices(records, upto);
        assert forall|k: int| 0 <= k < cur.len() implies 0 <= #[trigger] cur[k] < upto by {
            if k < pre.len() {
                assert(cur[k] == pre[k]);
            }
        }
    }
}

/// A numeric column retains at most one value per record.
pub proof fn lemma_numeric_values_len(records: Seq<Seq<Seq<char>>>, j: int)
    ensures
        numeric_values(records, j).len() <= records.len(),
{
    broadcast use vstd::seq_lib::group_to_multiset_ensures;
    broadcast use Seq::lemma_filter_len;

    crate::lex::lemma_lex_total_ordering();
    let col = column_of(records, j);
    col.lemma_sort_by_ensures(lex_leq());
    assert(col.sort_by(lex_leq()).to_multiset().len() == col.to_multiset().len());
}

/// Rebuild the columns of the records, in column-major order.
fn transpose(records: &Vec<Vec<String>>, ncols: usize) -> (cols: Vec<Vec<String>>)
    requires
        forall|i: int| 0 <= i < records@.len() ==> #[trigger] records@[i]@.len() == ncols,
    ensures
        cols@.len() == ncols,
        forall|j: int|
            0 <= j < ncols ==> views(#[trigger] cols@[j]@) == column_of(
                record_views(records@),
                j,
            ),
{
    let ghost rv = record_views(records@);
    let mut cols: Vec<Vec<String>> = Vec::new();
    let mut j: usize = 0;
    while j < ncols
        invariant
            rv == record_views(records@),
            forall|i: int| 0 <= i < records@.len() ==> #[trigger] records@[i]@.len() == ncols,
            j <= ncols,
            cols@.len() == j,
            forall|j2: int| 0 <= j2 < j ==> views(#[trigger] cols@[j2]@) == column_of(rv, j2),
        decreases ncols - j,
    {
        let mut col: Vec<String> = Vec::new();
        let mut i: usize = 0;
        while i < records.len()
            invariant
                rv == record_views(records@),
                forall|i2: int| 0 <= i2 < records@.len() ==> #[trigger] records@[i2]@.len() == ncols,
                j < ncols,
                i <= records@.len(),
                col@.len() == i,
                forall|i2: int| 0 <= i2 < i ==> #[trigger] col@[i2]@ == rv[i2][j as int],
            decreases records@.len() - i,
        {
            let row = &records[i];
            col.push(row[j].clone());
            proof {
                assert(rv[i as int] == views(records@[i as int]@));
                assert(rv[i as int][j as int] == records@[i as int]@[j as int]@);
            }
            i = i + 1;
        }
        proof {
            assert(views(col@) =~= column_of(rv, j as int));
        }
        cols.push(col);
        j = j + 1;
    }
    cols
}

/// Keep, in order, the values that match the float grammar.
fn filter_float_values(v: &Vec<String>) -> (out: Vec<String>)
    ensures
        views(out@) == views(v@).filter(float_pred()),
        all_float_syntax(views(out@)),
{
    let mut out: Vec<String> = Vec::new();
    let mut i: usize = 0;
    proof {
        reveal(Seq::filter);
        assert(views(out@) =~= views(v@.subrange(0, 0)).filter(float_pred()));
    }
    while i < v.len()
        invariant
            i <= v@.len(),
            views(out@) == views(v@.subrange(0, i as int)).filter(float_pred()),
            all_float_syntax(views(out@)),
        decreases v@.len() - i,
    {
        let keep = is_float_syntax(v[i].as_str());
        proof {
            reveal(Seq::filter);
            let pre = v@.subrange(0, i as int);
            let ext = v@.subrange(0, i + 1);
            assert(ext =~= pre.push(v@[i as int]));
            assert(views(ext) =~= views(pre).push(v@[i as int]@));
            assert(views(ext).drop_last() =~= views(pre));
            assert(views(ext).last() == v@[i as int]@);
        }
        if keep {
            out.push(v[i].clone());
            proof {
                assert(views(out@) =~= views(v@.subrange(0, i + 1)).filter(float_pred()));
            }
        } else {
            proof {
                assert(views(out@) =~= views(v@.subrange(0, i + 1)).filter(float_pred()));
            }
        }
        i = i + 1;
    }
    proof {
        assert(v@.subrange(0, v@.len() as int) =~= v@);
    }
    out
}

/// Classify the columns of the records.
///
/// Returns the numeric columns, in column order, and their header labels.
/// Column `j` is numeric exactly when `is_numeric_column` holds of it: its
/// sorted string values are non-empty and the first one passes the trimmed
/// float probe. A numeric column retains exactly the sorted values that
/// match the float grammar.
pub fn classify(records: &Vec<Vec<String>>, headers: &Vec<String>) -> (r: (
    Vec<NumericColumn>,
    Vec<String>,
))
    requires
        forall|i: int| 0 <= i < records@.len() ==> #[trigger] records@[i]@.len() == headers@.len(),
    ensures
        ({
            let rv = record_views(records@);
            let idxs = numeric_indices(rv, headers@.len() as int);
            &&& r.0@.len() == idxs.len()
            &&& r.1@.len() == idxs.len()
            &&& forall|k: int|
                0 <= k < idxs.len() ==> (#[trigger] r.0@[k]).label@ == headers@[idxs[k]]@
            &&& forall|k: int|
                0 <= k < idxs.len() ==> (#[trigger] r.0@[k]).values_views() == numeric_values(
                    rv,
                    idxs[k],
                )
            &&& forall|k: int| 0 <= k < idxs.len() ==> (#[trigger] r.0@[k]).wf()
            &&& forall|k: int| 0 <= k < idxs.len() ==> (#[trigger] r.1@[k])@ == headers@[idxs[k]]@
        }),
{
    let ghost rv = record_views(records@);
    let ncols = headers.len();
    let cols = transpose(records, ncols);
    let mut numeric: Vec<NumericColumn> = Vec::new();
    let mut labels: Vec<String> = Vec::new();
    let mut j: usize = 0;
    while j < ncols
        invariant
            rv == record_views(records@),
            ncols == headers@.len(),
            cols@.len() == ncols,
            forall|j2: int| 0 <= j2 < ncols ==> views(#[trigger] cols@[j2]@) == column_of(rv, j2),
            j <= ncols,
            numeric@.len() == numeric_indices(rv, j as int).len(),
            labels@.len() == numeric_indices(rv, j as int).len(),
            forall|k: int|
                0 <= k < numeric@.len() ==> (#[trigger] numeric@[k]).label@ == headers@[
                    numeric_indices(rv, j as int)[k]]@,
            forall|k: int|
                0 <= k < numeric@.len() ==> (#[trigger] numeric@[k]).values_views()
                    == numeric_values(rv, numeric_indices(rv, j as int)[k]),
            forall|k: int| 0 <= k < numeric@.len() ==> (#[trigger] numeric@[k]).wf(),
            forall|k: int|
                0 <= k < labels@.len() ==> (#[trigger] labels@[k])@ == headers@[numeric_indices(
                    rv,
                    j as int,
                )[k]]@,
        decreases ncols - j,
    {
        proof {
            lemma_numeric_indices_in_range(rv, j as int);
        }
        let sorted = sort_strings(&cols[j]);
        proof {
            assert(views(sorted@) == sorted_column(rv, j as int));
        }
        let numeric_here = if sorted.len() > 0 {
            proof {
                assert(views(sorted@)[0] == sorted@[0]@);
            }
            is_valid_float(sorted[0].as_str())
        } else {
            false
        };
        proof {
            assert(numeric_here == is_numeric_column(rv, j as int));
        }
        if numeric_here {
            let vals = filter_float_values(&sorted);
            let label = headers[j].clone();
            let col = NumericColumn { label, values: vals };
            numeric.push(col);
            let label2 = headers[j].clone();
            labels.push(label2);
        }
        j = j + 1;
    }
    (numeric, labels)
}

} // verus!
