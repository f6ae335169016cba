//! The whole pipeline: records in, paired labels, plot series and numeric
//! columns out.
//!
//! This is the one call the loader makes after reading the table: classify
//! the columns, then pair the numeric ones. Everything the presentation
//! layer shows — the raw table aside — derives from this result.

use vstd::prelude::*;
use crate::classify::{classify, lemma_numeric_values_len, numeric_indices, numeric_values,
    record_views, NumericColumn};
use crate::pairing::{col_views, extended, group, label_views, series_views, spec_labels,
    spec_series, PlotSeries};

verus! {

/// Classify the records' columns and pair the numeric ones.
///
/// Returns the paired axis labels, the plot series, and the numeric columns
/// themselves, in that order. The columns are exactly what `classify`
/// yields, and the labels and series are exactly the pairing of those
/// columns, counter column included when their count is odd.
pub fn parse_records(records: &Vec<Vec<String>>, headers: &Vec<String>) -> (r: (
    Vec<(String, String)>,
    Vec<PlotSeries>,
    Vec<NumericColumn>,
))
    requires
        forall|i: int| 0 <= i < records@.len() ==> #[trigger] records@[i]@.len() == headers@.len(),
        records@.len() < usize::MAX,
    ensures
        ({
            let rv = record_views(records@);
            let idxs = numeric_indices(rv, headers@.len() as int);
            &&& r.2@.len() == idxs.len()
            &&& forall|k: int|
                0 <= k < idxs.len() ==> (#[trigger] r.2@[k]).label@ == headers@[idxs[k]]@
            &&& forall|k: int|
                0 <= k < idxs.len() ==> (#[trigger] r.2@[k]).values_views() == numeric_values(
                    rv,
                    idxs[k],
                )
            &&& forall|k: int| 0 <= k < idxs.len() ==> (#[trigger] r.2@[k]).wf()
            &&& label_views(r.0@) == spec_labels(extended(col_views(r.2@)))
            &&& series_views(r.1@) == spec_series(extended(col_views(r.2@)))
        }),
{
    let ghost rv = record_views(records@);
    let (numeric, labels) = classify(records, headers);
    proof {
        if numeric@.len() % 2 == 1 {
            let idxs = numeric_indices(rv, headers@.len() as int);
            lemma_numeric_values_len(rv, idxs[0]);
            assert(numeric@[0].values_views().len() == numeric@[0].values@.len());
        }
    }
    let (grouped, series) = group(&numeric);
    (grouped, series, numeric)
}

} // verus!
