use csv_explorer::decimal::to_decimal_string;
use csv_explorer::lex::{sort_strings, str_le};
use csv_explorer::nav::{App, AppState, SelectedTab, SelectionState};
use csv_explorer::width::{constraint_len_calculator, menu_item_len_calculator};

fn s(v: &str) -> String {
    v.to_string()
}

#[test]
fn navigation_empty_never_moves() {
    // item_count = 0: next()/previous() leave the index at 0 indefinitely
    let mut st = SelectionState::new(0);
    for _ in 0..3 {
        st.next();
        assert_eq!(st.selected_index, 0);
        st.previous();
        assert_eq!(st.selected_index, 0);
    }
}

#[test]
fn navigation_wraps_both_ways() {
    let mut st = SelectionState::new(3);
    assert_eq!(st.selected_index, 0);
    st.next();
    st.next();
    assert_eq!(st.selected_index, 2);
    st.next();
    assert_eq!(st.selected_index, 0);
    st.previous();
    assert_eq!(st.selected_index, 2);
}

#[test]
fn color_rotation_cycles_over_four_palettes() {
    let mut st = SelectionState::new(4);
    st.previous();
    assert_eq!(st.selected_index, 3);
    st.next();
    assert_eq!(st.selected_index, 0);
}

#[test]
fn tab_stepping_wraps_at_the_ends() {
    let t = SelectedTab::Tab1;
    assert!(t.previous() == SelectedTab::Tab4);
    assert!(t.next() == SelectedTab::Tab2);
    assert!(t.next().next().next().next() == SelectedTab::Tab1);
    let last = SelectedTab::Tab4;
    assert!(last.next() == SelectedTab::Tab1);
    assert!(last.previous() == SelectedTab::Tab3);
}

#[test]
fn tab_titles_and_indices() {
    assert_eq!(SelectedTab::Tab1.title(), s("Data Explorer"));
    assert_eq!(SelectedTab::Tab2.title(), s("Visualization"));
    assert_eq!(SelectedTab::Tab3.title(), s("Statistics"));
    assert_eq!(SelectedTab::Tab4.title(), s("Extras"));
    assert_eq!(SelectedTab::Tab3.index(), 2);
}

#[test]
fn quit_is_terminal() {
    let mut app = App::default();
    assert!(app.state == AppState::Running);
    app.next_tab();
    assert!(app.selected_tab == SelectedTab::Tab2);
    app.quit();
    assert!(app.state == AppState::Quitting);
    app.previous_tab();
    assert!(app.state == AppState::Quitting);
    assert!(app.selected_tab == SelectedTab::Tab1);
}

#[test]
fn decimal_rendering() {
    assert_eq!(to_decimal_string(0), s("0"));
    assert_eq!(to_decimal_string(7), s("7"));
    assert_eq!(to_decimal_string(10), s("10"));
    assert_eq!(to_decimal_string(905), s("905"));
    assert_eq!(to_decimal_string(123456), s("123456"));
}

#[test]
fn string_order_is_lexicographic() {
    assert!(str_le("10", "2"));
    assert!(!str_le("2", "10"));
    assert!(str_le("a", "a"));
    assert!(str_le("", "a"));
    assert!(!str_le("ab", "a"));
    assert!(str_le("abc", "abd"));
}

#[test]
fn sorting_matches_the_standard_sort() {
    let v = vec![s("pear"), s("10"), s("2"), s(""), s("Apple"), s("apple")];
    let sorted = sort_strings(&v);
    let mut expect = v.clone();
    expect.sort();
    assert_eq!(sorted, expect);
}

#[test]
fn widths_follow_the_display_width_not_the_byte_length() {
    // two wide characters: 6 bytes, 2 chars, 4 terminal columns
    assert_eq!(menu_item_len_calculator(&vec![s("日本")]), 4);
    assert_eq!(menu_item_len_calculator(&vec![s("Menu")]), 4);
    assert_eq!(menu_item_len_calculator(&vec![s("a"), s("abc"), s("ab")]), 3);
    assert_eq!(menu_item_len_calculator(&vec![]), 0);
}

#[test]
fn constraint_lengths_per_record() {
    let items = vec![
        vec![s("abc"), s("x")],
        vec![s(""), s("hello!")],
    ];
    assert_eq!(constraint_len_calculator(&items), vec![3, 6]);
}
