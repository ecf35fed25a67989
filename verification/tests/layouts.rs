use minils::grid::format_as_grid;
use minils::list::format_as_list;
use minils::tree::format_as_tree;

fn names(v: &[&str]) -> Vec<String> {
    v.iter().map(|s| s.to_string()).collect()
}

#[test]
fn grid_of_nothing_is_empty() {
    assert_eq!(format_as_grid(&names(&[]), 40), "");
}

#[test]
fn grid_single_overlong_name_keeps_one_row() {
    let out = format_as_grid(&names(&["averyveryverylongname"]), 5);
    assert_eq!(out, "averyveryverylongname");
}

#[test]
fn grid_two_short_names_share_a_row() {
    let out = format_as_grid(&names(&["a.txt", "sub"]), 40);
    assert_eq!(out, "a.txt  sub");
}

#[test]
fn grid_packs_column_major_within_width() {
    // Two columns of three rows fit in twelve columns; three columns would not.
    let out = format_as_grid(&names(&["aa", "b", "cccc", "dd", "e"]), 12);
    assert_eq!(out, "aa    dd\nb     e\ncccc");
}

#[test]
fn grid_uses_the_largest_count_that_fits() {
    // Each column costs its width plus two, so two columns need exactly eight.
    assert_eq!(format_as_grid(&names(&["aa", "bb"]), 8), "aa  bb");
    assert_eq!(format_as_grid(&names(&["aa", "bb"]), 7), "aa\nbb");
}

#[test]
fn grid_narrow_width_falls_back_to_one_column() {
    let out = format_as_grid(&names(&["aaa", "bb"]), 1);
    assert_eq!(out, "aaa\nbb");
}

#[test]
fn tree_marks_exactly_the_last_entry() {
    let out = format_as_tree(&names(&["x", "y", "z"]));
    assert_eq!(out, "├─ x\n├─ y\n└─ z");
}

#[test]
fn tree_single_entry_is_the_last() {
    assert_eq!(format_as_tree(&names(&["only"])), "└─ only");
}

#[test]
fn tree_of_nothing_is_empty() {
    assert_eq!(format_as_tree(&names(&[])), "");
}

#[test]
fn list_renders_one_name_per_line() {
    assert_eq!(format_as_list(&names(&["a", "b", "c"])), "a\nb\nc");
}

#[test]
fn list_of_nothing_is_empty() {
    assert_eq!(format_as_list(&names(&[])), "");
}

#[test]
fn list_round_trips_through_newline_split() {
    let given = names(&["alpha", "beta", "gamma"]);
    let out = format_as_list(&given);
    let back: Vec<String> = out.split('\n').map(|s| s.to_string()).collect();
    assert_eq!(back, given);
}
