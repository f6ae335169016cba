use csv_explorer::classify::classify;
use csv_explorer::numeric::{is_float_syntax, is_valid_float};
use csv_explorer::pairing::group;
use csv_explorer::pipeline::parse_records;
use csv_explorer::stats::{percentile_index, percentile_indices};

fn s(v: &str) -> String {
    v.to_string()
}

#[test]
fn misclassified_numeric_column_keeps_parsable_values() {
    // column ["abc","2","3"] sorts to ["2","3","abc"]; the probe sees "2",
    // classifies the column numeric, and "abc" is silently dropped
    let records = vec![vec![s("abc")], vec![s("2")], vec![s("3")]];
    let headers = vec![s("col")];
    let (cols, labels) = classify(&records, &headers);
    assert_eq!(cols.len(), 1);
    assert_eq!(labels, vec![s("col")]);
    assert_eq!(cols[0].label, s("col"));
    assert_eq!(cols[0].values, vec![s("2"), s("3")]);
}

#[test]
fn non_numeric_first_sorted_value_rejects_column() {
    // sorted -> ["1","a"]? no: ["a","1"] sorts to ["1","a"], probe passes.
    // Use values whose smallest sorted string is non-numeric.
    let records = vec![vec![s("x1")], vec![s("x2")]];
    let headers = vec![s("col")];
    let (cols, labels) = classify(&records, &headers);
    assert_eq!(cols.len(), 0);
    assert_eq!(labels.len(), 0);
}

#[test]
fn empty_input_produces_empty_numeric_set() {
    let records: Vec<Vec<String>> = vec![];
    let headers = vec![s("a"), s("b")];
    let (cols, labels) = classify(&records, &headers);
    assert_eq!(cols.len(), 0);
    assert_eq!(labels.len(), 0);
}

#[test]
fn duplicate_values_are_all_kept() {
    let records = vec![vec![s("2")], vec![s("2")], vec![s("1")]];
    let headers = vec![s("col")];
    let (cols, _) = classify(&records, &headers);
    assert_eq!(cols[0].values, vec![s("1"), s("2"), s("2")]);
}

#[test]
fn classification_sorts_and_pairs_columns() {
    // A=[3,1,2], B=[30,10,20]: after classification+sort A=[1,2,3],
    // B=[10,20,30]; pairing yields one series (1,10),(2,20),(3,30)
    let records = vec![
        vec![s("3"), s("30")],
        vec![s("1"), s("10")],
        vec![s("2"), s("20")],
    ];
    let headers = vec![s("A"), s("B")];
    let (grouped, series, cols) = parse_records(&records, &headers);
    assert_eq!(cols.len(), 2);
    assert_eq!(cols[0].values, vec![s("1"), s("2"), s("3")]);
    assert_eq!(cols[1].values, vec![s("10"), s("20"), s("30")]);
    assert_eq!(grouped, vec![(s("A"), s("B"))]);
    assert_eq!(series.len(), 1);
    assert_eq!(series[0].label_x, s("A"));
    assert_eq!(series[0].label_y, s("B"));
    assert_eq!(
        series[0].points,
        vec![(s("1"), s("10")), (s("2"), s("20")), (s("3"), s("30"))]
    );
    // nearest-rank percentiles of A: index 1, 1, 2 -> values 2, 2, 3
    let (i25, i50, i75) = percentile_indices(3);
    assert_eq!((i25, i50, i75), (1, 1, 2));
    let a: Vec<f64> = cols[0].values.iter().map(|v| v.parse().unwrap()).collect();
    assert_eq!(a[i25], 2.0);
    assert_eq!(a[i50], 2.0);
    assert_eq!(a[i75], 3.0);
}

#[test]
fn lexicographic_sort_decides_value_order() {
    // "10" sorts before "2": the values follow string order, not numeric
    let records = vec![vec![s("2")], vec![s("10")], vec![s("30")]];
    let headers = vec![s("n")];
    let (cols, _) = classify(&records, &headers);
    assert_eq!(cols[0].values, vec![s("10"), s("2"), s("30")]);
}

#[test]
fn odd_column_count_gets_counter_column() {
    // 3 numeric columns of length 5: the counter column has 6 values, and
    // the 2nd series (3rd column against the counter) has min(5,6)=5 points
    let mut records = Vec::new();
    for i in 0..5 {
        let v = i.to_string();
        records.push(vec![v.clone(), v.clone(), v]);
    }
    let headers = vec![s("x"), s("y"), s("z")];
    let (grouped, series, cols) = parse_records(&records, &headers);
    assert_eq!(cols.len(), 3);
    assert_eq!(series.len(), 2);
    assert_eq!(grouped.len(), 2);
    assert_eq!(grouped[0], (s("x"), s("y")));
    assert_eq!(grouped[1], (s("z"), s("Increasing counter")));
    assert_eq!(series[1].points.len(), 5);
    // the counter runs 0,1,2,... and pairs index-wise with the sorted values
    assert_eq!(series[1].points[0], (s("0"), s("0")));
    assert_eq!(series[1].points[4], (s("4"), s("4")));
}

#[test]
fn even_column_count_gets_no_counter() {
    let records = vec![vec![s("1"), s("2")], vec![s("3"), s("4")]];
    let headers = vec![s("a"), s("b")];
    let (grouped, series, cols) = parse_records(&records, &headers);
    assert_eq!(cols.len(), 2);
    assert_eq!(grouped, vec![(s("a"), s("b"))]);
    assert_eq!(series.len(), 1);
    assert_eq!(series[0].points.len(), 2);
}

#[test]
fn pairing_is_idempotent() {
    let records = vec![
        vec![s("3"), s("9"), s("5")],
        vec![s("1"), s("7"), s("6")],
    ];
    let headers = vec![s("a"), s("b"), s("c")];
    let (cols, _) = classify(&records, &headers);
    let (l1, s1) = group(&cols);
    let (l2, s2) = group(&cols);
    assert_eq!(l1, l2);
    assert_eq!(s1.len(), s2.len());
    for (a, b) in s1.iter().zip(s2.iter()) {
        assert_eq!(a.label_x, b.label_x);
        assert_eq!(a.label_y, b.label_y);
        assert_eq!(a.points, b.points);
    }
}

#[test]
fn empty_column_set_pairs_to_nothing() {
    let cols = Vec::new();
    let (grouped, series) = group(&cols);
    assert_eq!(grouped.len(), 0);
    assert_eq!(series.len(), 0);
}

#[test]
fn zip_truncates_to_shorter_column() {
    // the second column keeps fewer values ("x" is dropped), so the series
    // stops at the shorter length
    let records = vec![
        vec![s("1"), s("4")],
        vec![s("2"), s("x")],
        vec![s("3"), s("5")],
    ];
    let headers = vec![s("p"), s("q")];
    let (_, series, cols) = parse_records(&records, &headers);
    assert_eq!(cols[0].values.len(), 3);
    assert_eq!(cols[1].values.len(), 2);
    assert_eq!(series[0].points, vec![(s("1"), s("4")), (s("2"), s("5"))]);
}

#[test]
fn percentile_indices_are_monotone() {
    for n in 1..60usize {
        let (a, b, c) = percentile_indices(n);
        assert!(a <= b && b <= c && c < n);
        assert_eq!(a, percentile_index(25, n));
        assert_eq!(b, percentile_index(50, n));
        assert_eq!(c, percentile_index(75, n));
    }
}

#[test]
fn percentile_values_are_monotone_on_sorted_column() {
    // value-level percentile monotonicity on a concrete column
    let records = vec![
        vec![s("5")],
        vec![s("1")],
        vec![s("4")],
        vec![s("2")],
        vec![s("3")],
    ];
    let headers = vec![s("n")];
    let (cols, _) = classify(&records, &headers);
    let vals: Vec<f64> = cols[0].values.iter().map(|v| v.parse().unwrap()).collect();
    let mut sorted = vals.clone();
    sorted.sort_by(|a, b| a.partial_cmp(b).unwrap());
    let (i25, i50, i75) = percentile_indices(sorted.len());
    assert_eq!((i25, i50, i75), (1, 2, 3));
    assert!(sorted[i25] <= sorted[i50]);
    assert!(sorted[i50] <= sorted[i75]);
    assert_eq!((sorted[i25], sorted[i50], sorted[i75]), (2.0, 3.0, 4.0));
}

#[test]
fn percentile_index_nearest_rank_rounds_half_up() {
    // round(p/100 * (n-1)) with halves up: n=3, p=25 -> round(0.5) = 1
    assert_eq!(percentile_index(25, 3), 1);
    assert_eq!(percentile_index(25, 1), 0);
    assert_eq!(percentile_index(50, 2), 1);
    assert_eq!(percentile_index(75, 2), 1);
    assert_eq!(percentile_index(25, 9), 2);
    assert_eq!(percentile_index(50, 9), 4);
    assert_eq!(percentile_index(75, 9), 6);
    // checked against the floating-point formula the table used
    for n in 1..200usize {
        for p in [25usize, 50, 75] {
            let expect = (p as f64 / 100.0 * (n - 1) as f64).round() as usize;
            assert_eq!(percentile_index(p, n), expect);
        }
    }
}

#[test]
fn statistic_names_are_the_fixed_ten_rows() {
    let names = csv_explorer::stats::stat_names();
    assert_eq!(
        names,
        vec![
            s("mean"),
            s("median"),
            s("range"),
            s("variance"),
            s("standard deviation"),
            s("percentile 25"),
            s("percentile 50"),
            s("percentile 75"),
            s("skewness"),
            s("kurtosis"),
        ]
    );
}

#[test]
fn float_probe_accepts_the_documented_grammar() {
    assert!(is_valid_float("2"));
    assert!(is_valid_float(" 2.5e3 "));
    assert!(is_valid_float("-.5"));
    assert!(is_valid_float("+5."));
    assert!(is_valid_float("INF"));
    assert!(is_valid_float("Infinity"));
    assert!(is_valid_float("-NaN"));
    assert!(is_valid_float("1e-10"));
    assert!(is_valid_float("0003"));
    assert!(!is_valid_float(""));
    assert!(!is_valid_float("   "));
    assert!(!is_valid_float("."));
    assert!(!is_valid_float("+"));
    assert!(!is_valid_float("1e"));
    assert!(!is_valid_float("e5"));
    assert!(!is_valid_float("abc"));
    assert!(!is_valid_float("1_000"));
    assert!(!is_valid_float("2x"));
    assert!(!is_valid_float("1.2.3"));
    assert!(!is_valid_float("1 2"));
    // the untrimmed form rejects surrounding whitespace
    assert!(is_float_syntax("2.5"));
    assert!(!is_float_syntax(" 2.5"));
    assert!(!is_float_syntax("2.5 "));
}

#[test]
fn float_probe_matches_std_parser() {
    let cases = [
        "", " ", "0", "2", "-3", "+4", "3.14", "-.5", "+5.", ".", "..", "1.2.3",
        "inf", "INF", "Inf", "infinity", "INFINITY", "Infinity", "nan", "NaN", "NAN",
        "-inf", "+infinity", "-nan", "infx", "nanx", "in", "infinit", "infinityy",
        "1e5", "1E5", "1e+5", "1e-5", "1.5e3", ".5e2", "5.e2", "1e", "1e+", "1e-",
        "e5", "+e5", "1ee5", "1e5e", "1_000", "0x10", "２", "½", "2x", "x2",
        "00", "007", "3.", ".3", "+-3", "--3", "3-", " 3", "3 ", "1,5",
        "9007199254740993", "1e400", "-1e-400", "nAn", "iNfInItY",
    ];
    for c in cases {
        assert_eq!(
            is_float_syntax(c),
            c.parse::<f64>().is_ok(),
            "probe disagrees with the parser on {:?}",
            c
        );
        assert_eq!(
            is_valid_float(c),
            c.trim().parse::<f64>().is_ok(),
            "trimmed probe disagrees with the parser on {:?}",
            c
        );
    }
}

#[test]
fn float_probe_matches_std_parser_exhaustively() {
    // every string up to length 4 over the grammar's interesting characters
    let alphabet = ['0', '9', '.', 'e', 'E', '+', '-', 'i', 'n', 'f', 'a', 'N', 'y', ' '];
    let mut cases: Vec<String> = vec![String::new()];
    let mut layer: Vec<String> = vec![String::new()];
    for _ in 0..4 {
        let mut next = Vec::new();
        for prefix in &layer {
            for c in alphabet {
                let mut w = prefix.clone();
                w.push(c);
                next.push(w);
            }
        }
        cases.extend(next.iter().cloned());
        layer = next;
    }
    for c in &cases {
        assert_eq!(
            is_float_syntax(c),
            c.parse::<f64>().is_ok(),
            "probe disagrees with the parser on {:?}",
            c
        );
    }
}

#[test]
fn longer_special_names_match_std_parser() {
    // prefixes and paddings of the named forms, at the lengths the grammar
    // treats specially
    let stems = ["infinity", "INFINITY", "Infinity", "iNfInItY", "nan", "inf"];
    let mut cases: Vec<String> = Vec::new();
    for stem in stems {
        for k in 0..=stem.len() {
            let cut = &stem[..k];
            cases.push(cut.to_string());
            cases.push(format!("-{}", cut));
            cases.push(format!("+{}", cut));
            cases.push(format!("{}x", cut));
            cases.push(format!("{}0", cut));
            cases.push(format!("0{}", cut));
        }
    }
    for c in &cases {
        assert_eq!(
            is_float_syntax(c),
            c.parse::<f64>().is_ok(),
            "probe disagrees with the parser on {:?}",
            c
        );
    }
}
