//! The pairing stage: numeric columns become two-dimensional plot series.
//!
//! Consecutive columns are paired off, `(col 0, col 1), (col 2, col 3), …`.
//! An odd column count is first made even by appending a synthetic counter
//! column, labelled `Increasing counter`, whose values run from `0` up to
//! *and including* the length of the first column — one value longer than
//! the columns it is paired against, a deliberate boundary condition that
//! the contracts state rather than repair. Each pair zips element-wise into
//! points, stopping at the shorter column.

use vstd::prelude::*;
use crate::classify::NumericColumn;
use crate::decimal::{decimal_digits, lemma_decimal_digits_float_syntax, to_decimal_string};
use crate::lex::views;
use crate::numeric::float_syntax;
use vstd::math::min;

verus! {

/// The spec-level contents of a column: its label and its value views.
pub ghost struct ColumnView {
    pub label: Seq<char>,
    pub values: Seq<Seq<char>>,
}

pub open spec fn col_view(c: NumericColumn) -> ColumnView {
    ColumnView { label: c.label@, values: views(c.values@) }
}

pub open spec fn col_views(cs: Seq<NumericColumn>) -> Seq<ColumnView> {
    cs.map_values(|c: NumericColumn| col_view(c))
}

/// One plot series: the two contributing labels and the paired points.
pub struct PlotSeries {
    pub label_x: String,
    pub label_y: String,
    pub points: Vec<(String, String)>,
}

/// The spec-level contents of a series.
pub ghost struct PlotSeriesView {
    pub label_x: Seq<char>,
    pub label_y: Seq<char>,
    pub points: Seq<(Seq<char>, Seq<char>)>,
}

impl View for PlotSeries {
    type V = PlotSeriesView;

    open spec fn view(&self) -> PlotSeriesView {
        PlotSeriesView {
            label_x: self.label_x@,
            label_y: self.label_y@,
            points: self.points@.map_values(|p: (String, String)| (p.0@, p.1@)),
        }
    }
}

pub open spec fn label_views(ls: Seq<(String, String)>) -> Seq<(Seq<char>, Seq<char>)> {
    ls.map_values(|p: (String, String)| (p.0@, p.1@))
}

pub open spec fn series_views(ss: Seq<PlotSeries>) -> Seq<PlotSeriesView> {
    ss.map_values(|s: PlotSeries| s@)
}

/// Element-wise zip of two value sequences, truncated to the shorter one.
pub open spec fn zip_views(x: Seq<Seq<char>>, y: Seq<Seq<char>>) -> Seq<(Seq<char>, Seq<char>)> {
    Seq::new(min(x.len() as int, y.len() as int) as nat, |i: int| (x[i], y[i]))
}

pub open spec fn counter_label() -> Seq<char> {
    "Increasing counter"@
}

/// The synthetic counter column's values: `0 ..= len`, rendered in decimal.
pub open spec fn counter_values(len: nat) -> Seq<Seq<char>> {
    Seq::new(len + 1, |i: int| decimal_digits(i as nat))
}

/// The column list made even: unchanged when the count already is, extended
/// by the counter column otherwise. The counter runs up to the length of
/// the *first* column.
pub open spec fn extended(cols: Seq<ColumnView>) -> Seq<ColumnView> {
    if cols.len() % 2 == 1 {
        cols.push(ColumnView { label: counter_label(), values: counter_values(cols[0].values.len()) })
    } else {
        cols
    }
}

/// The paired labels of an even column list.
pub open spec fn spec_labels(ext: Seq<ColumnView>) -> Seq<(Seq<char>, Seq<char>)> {
    Seq::new((ext.len() / 2) as nat, |k: int| (ext[2 * k].label, ext[2 * k + 1].label))
}

/// The series of an even column list.
pub open spec fn spec_series(ext: Seq<ColumnView>) -> Seq<PlotSeriesView> {
    Seq::new(
        (ext.len() / 2) as nat,
        |k: int|
            PlotSeriesView {
                label_x: ext[2 * k].label,
                label_y: ext[2 * k + 1].label,
                points: zip_views(ext[2 * k].values, ext[2 * k + 1].values),
            },
    )
}

/// Build the synthetic counter column for data columns of length `len`.
fn counter_column(len: usize) -> (c: NumericColumn)
    requires
        len < usize::MAX,
    ensures
        col_view(c) == (ColumnView { label: counter_label(), values: counter_values(len as nat) }),
        c.wf(),
{
    let mut values: Vec<String> = Vec::new();
    let mut i: usize = 0;
    while i <= len
        invariant
            len < usize::MAX,
            i <= len + 1,
            values@.len() == i,
            views(values@) =~= counter_values(len as nat).take(i as int),
            forall|k: int| 0 <= k < i ==> float_syntax(#[trigger] views(values@)[k]),
        decreases len + 1 - i,
    {
        let ghost pre = values@;
        values.push(to_decimal_string(i));
        proof {
            lemma_decimal_digits_float_syntax(i as nat);
            let cv = counter_values(len as nat);
            assert(values@ == pre.push(values@.last()));
            assert(values@.last()@ == decimal_digits(i as nat));
            assert forall|k: int| 0 <= k < i + 1 implies #[trigger] views(values@)[k] == cv.take(
                i + 1,
            )[k] by {
                if k < i {
                    assert(values@[k] == pre[k]);
                    assert(views(pre)[k] == cv.take(i as int)[k]);
                } else {
                    assert(cv[k] == decimal_digits(k as nat));
                }
            }
            assert(views(values@) =~= cv.take(i + 1));
        }
        i = i + 1;
    }
    proof {
        assert(counter_values(len as nat).take((len + 1) as int) =~= counter_values(len as nat));
    }
    let label = String::from_str("Increasing counter");
    NumericColumn { label, values }
}

/// Zip two columns' values into points, truncated to the shorter column.
fn zip_columns(x: &Vec<String>, y: &Vec<String>) -> (out: Vec<(String, String)>)
    ensures
        label_views(out@) == zip_views(views(x@), views(y@)),
{
    let n = if x.len() <= y.len() {
        x.len()
    } else {
        y.len()
    };
    let mut out: Vec<(String, String)> = Vec::new();
    let mut i: usize = 0;
    while i < n
        invariant
            n == min(x@.len() as int, y@.len() as int),
            i <= n,
            out@.len() == i,
            forall|k: int|
                0 <= k < i ==> #[trigger] label_views(out@)[k] == (x@[k]@, y@[k]@),
        decreases n - i,
    {
        let ghost pre = out@;
        out.push((x[i].clone(), y[i].clone()));
        proof {
            assert forall|k: int| 0 <= k < i + 1 implies #[trigger] label_views(out@)[k] == (
                x@[k]@,
                y@[k]@,
            ) by {
                if k < i {
                    assert(out@[k] == pre[k]);
                    assert(label_views(pre)[k] == (x@[k]@, y@[k]@));
                }
            }
        }
        i = i + 1;
    }
    proof {
        assert(label_views(out@) =~= zip_views(views(x@), views(y@)));
    }
    out
}

/// Pair the numeric columns into plot series.
///
/// Returns the paired labels and the series, both fully determined by the
/// column contents: an empty input yields empty outputs, an odd input is
/// extended by the counter column first.
pub fn group(cols: &Vec<NumericColumn>) -> (r: (Vec<(String, String)>, Vec<PlotSeries>))
    requires
        cols@.len() % 2 == 1 ==> cols@[0].values@.len() < usize::MAX,
    ensures
        label_views(r.0@) == spec_labels(extended(col_views(cols@))),
        series_views(r.1@) == spec_series(extended(col_views(cols@))),
{
    let ghost cv = col_views(cols@);
    let ghost ext_spec = extended(cv);
    let mut ext: Vec<NumericColumn> = Vec::new();
    let mut i: usize = 0;
    while i < cols.len()
        invariant
            cv == col_views(cols@),
            i <= cols@.len(),
            ext@.len() == i,
            forall|k: int| 0 <= k < i ==> col_view(#[trigger] ext@[k]) == cv[k],
        decreases cols@.len() - i,
    {
        let c = &cols[i];
        let copied = NumericColumn { label: c.label.clone(), values: c.values.clone() };
        proof {
            assert(copied.values@ =~= c.values@);
            assert(col_view(copied) == cv[i as int]);
        }
        ext.push(copied);
        i = i + 1;
    }
    if cols.len() % 2 == 1 {
        proof {
            assert(cv[0].values == views(cols@[0].values@));
        }
        let counter = counter_column(cols[0].values.len());
        ext.push(counter);
    }
    proof {
        assert(ext_spec.len() == ext@.len());
        assert(forall|k: int| 0 <= k < ext@.len() ==> col_view(#[trigger] ext@[k]) == ext_spec[k]);
        assert(ext@.len() % 2 == 0);
    }
    let total = ext.len();
    let half = total / 2;
    let mut labels: Vec<(String, String)> = Vec::new();
    let mut series: Vec<PlotSeries> = Vec::new();
    let mut k: usize = 0;
    while k < half
        invariant
            half == ext_spec.len() / 2,
            ext@.len() == ext_spec.len(),
            ext@.len() <= usize::MAX,
            forall|k2: int|
                0 <= k2 < ext@.len() ==> col_view(#[trigger] ext@[k2]) == ext_spec[k2],
            k <= half,
            labels@.len() == k,
            series@.len() == k,
            forall|k2: int|
                0 <= k2 < k ==> #[trigger] label_views(labels@)[k2] == spec_labels(ext_spec)[k2],
            forall|k2: int|
                0 <= k2 < k ==> #[trigger] series_views(series@)[k2] == spec_series(ext_spec)[k2],
        decreases half - k,
    {
        proof {
            assert(2 * (ext_spec.len() / 2) <= ext_spec.len());
            assert(2 * k + 1 < ext@.len());
        }
        let a = &ext[2 * k];
        let b = &ext[2 * k + 1];
        let points = zip_columns(&a.values, &b.values);
        let s = PlotSeries { label_x: a.label.clone(), label_y: b.label.clone(), points };
        proof {
            assert(col_view(ext@[2 * k]) == ext_spec[2 * k]);
            assert(col_view(ext@[2 * k + 1]) == ext_spec[2 * k + 1]);
            assert(s@ == spec_series(ext_spec)[k as int]);
        }
        let ghost pre_series = series@;
        let ghost pre_labels = labels@;
        series.push(s);
        labels.push((a.label.clone(), b.label.clone()));
        proof {
            assert forall|k2: int|
                0 <= k2 < k + 1 implies #[trigger] series_views(series@)[k2] == spec_series(
                ext_spec,
            )[k2] by {
                if k2 < k {
                    assert(series@[k2] == pre_series[k2]);
                    assert(series_views(pre_series)[k2] == spec_series(ext_spec)[k2]);
                } else {
                    assert(series@[k2] == s);
                }
            }
            assert forall|k2: int|
                0 <= k2 < k + 1 implies #[trigger] label_views(labels@)[k2] == spec_labels(
                ext_spec,
            )[k2] by {
                if k2 < k {
                    assert(labels@[k2] == pre_labels[k2]);
                    assert(label_views(pre_labels)[k2] == spec_labels(ext_spec)[k2]);
                } else {
                    assert(labels@[k2].0@ == ext_spec[2 * k2].label);
                    assert(labels@[k2].1@ == ext_spec[2 * k2 + 1].label);
                }
            }
        }
        k = k + 1;
    }
    proof {
        assert(label_views(labels@) =~= spec_labels(ext_spec));
        assert(series_views(series@) =~= spec_series(ext_spec));
    }
    (labels, series)
}

/// Pairing is a pure function of the column contents: two runs of the
/// pairing stage on the same numeric-column set yield identical labels and
/// identical series.
pub proof fn lemma_pairing_idempotent(
    cols: Seq<ColumnView>,
    l1: Seq<(Seq<char>, Seq<char>)>,
    s1: Seq<PlotSeriesView>,
    l2: Seq<(Seq<char>, Seq<char>)>,
    s2: Seq<PlotSeriesView>,
)
    requires
        l1 == spec_labels(extended(cols)),
        s1 == spec_series(extended(cols)),
        l2 == spec_labels(extended(cols)),
        s2 == spec_series(extended(cols)),
    ensures
        l1 == l2,
        s1 == s2,
{
}

/// The odd-count boundary condition: with `2m + 1` data columns, the
/// counter column holds one value more than the first data column, and the
/// last series pairs the last data column against the counter, zipping to
/// the shorter of the two.
pub proof fn lemma_odd_count_counter(cols: Seq<ColumnView>)
    requires
        cols.len() % 2 == 1,
    ensures
        extended(cols).len() == cols.len() + 1,
        extended(cols).last().values.len() == cols[0].values.len() + 1,
        spec_series(extended(cols)).len() == (cols.len() + 1) / 2,
        spec_series(extended(cols)).last().points.len() == min(
            cols.last().values.len() as int,
            cols[0].values.len() as int + 1,
        ),
{
    let ext = extended(cols);
    let m = (cols.len() - 1) as int / 2;
    assert(ext.last() == ext[2 * m + 1]);
    assert(spec_series(ext).last() == spec_series(ext)[m]);
    assert(ext[2 * m] == cols[2 * m]);
    assert(cols[2 * m] == cols.last());
}

} // verus!
