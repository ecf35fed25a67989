use minils::entry::{filter_entries, select_mode, Args, Entry, Mode, RenderContext};
use minils::render::{pretty_header, render_entries};
use minils::table::format_as_table;

fn entry(name: &str, dir: bool, size: u64) -> Entry {
    Entry { name: name.to_string(), is_directory: dir, size_bytes: Some(size), modified: None }
}

fn sample_dir() -> Vec<Entry> {
    vec![
        entry("a.txt", false, 1500),
        entry(".hidden", false, 0),
        entry("sub", true, 0),
    ]
}

fn args(all: bool, long: bool, tree: bool) -> Args {
    Args { dir_name: None, all, long, tree, pretty_print: false }
}

#[test]
fn hidden_names_begin_with_a_dot() {
    assert!(minils::entry::name_is_hidden(&".hidden".to_string()));
    assert!(!minils::entry::name_is_hidden(&"plain".to_string()));
    assert!(!minils::entry::name_is_hidden(&"".to_string()));
}

#[test]
fn entry_names_keep_the_given_order() {
    let names = minils::entry::entry_names(&sample_dir());
    assert_eq!(
        names,
        vec!["a.txt".to_string(), ".hidden".to_string(), "sub".to_string()]
    );
}

#[test]
fn hidden_entries_drop_without_all() {
    let kept = filter_entries(&sample_dir(), false);
    let kept_names: Vec<String> = kept.iter().map(|e| e.name.clone()).collect();
    assert_eq!(kept_names, vec!["a.txt".to_string(), "sub".to_string()]);
}

#[test]
fn hidden_entries_stay_with_all() {
    let kept = filter_entries(&sample_dir(), true);
    assert_eq!(kept.len(), 3);
    assert_eq!(kept[1].name, ".hidden");
}

#[test]
fn long_selects_table_before_tree() {
    assert!(matches!(select_mode(&args(false, true, true), true), Mode::Table));
    assert!(matches!(select_mode(&args(false, true, false), false), Mode::Table));
}

#[test]
fn tree_selects_tree_in_any_terminal() {
    assert!(matches!(select_mode(&args(false, false, true), true), Mode::Tree));
    assert!(matches!(select_mode(&args(false, false, true), false), Mode::Tree));
}

#[test]
fn plain_runs_pick_grid_or_list_by_terminal() {
    assert!(matches!(select_mode(&args(false, false, false), true), Mode::Grid));
    assert!(matches!(select_mode(&args(false, false, false), false), Mode::List));
}

#[test]
fn grid_scenario_packs_visible_entries() {
    let kept = filter_entries(&sample_dir(), false);
    let ctx = RenderContext { terminal_width: 40, mode: Mode::Grid, pretty: false };
    let out = render_entries(&kept, &ctx, &"demo".to_string());
    assert_eq!(out, "a.txt  sub");
    assert!(out.contains("a.txt") && out.contains("sub"));
    assert!(out.lines().all(|l| l.chars().count() <= 40));
}

#[test]
fn table_scenario_aligns_header_and_sizes() {
    let kept = filter_entries(&sample_dir(), false);
    let out = format_as_table(&kept);
    let expected =
        "Last modified  Size  Name \n----           1 kB  a.txt\n----                 sub  ";
    assert_eq!(out, expected);
}

#[test]
fn table_of_no_entries_is_the_bare_header() {
    let out = format_as_table(&Vec::new());
    assert_eq!(out, "Last modified  Size  Name");
}

#[test]
fn tree_scenario_draws_three_connectors() {
    let entries = vec![entry("x", false, 0), entry("y", false, 0), entry("z", false, 0)];
    let ctx = RenderContext { terminal_width: 40, mode: Mode::Tree, pretty: false };
    let out = render_entries(&entries, &ctx, &"demo".to_string());
    assert_eq!(out, "├─ x\n├─ y\n└─ z");
    assert_eq!(out.lines().count(), 3);
}

#[test]
fn list_scenario_keeps_given_order() {
    let entries = vec![entry("b", false, 0), entry("a", false, 0)];
    let ctx = RenderContext { terminal_width: 40, mode: Mode::List, pretty: false };
    let out = render_entries(&entries, &ctx, &"demo".to_string());
    assert_eq!(out, "b\na");
}

#[test]
fn pretty_header_draws_a_full_width_rule() {
    let out = pretty_header(&"demo".to_string(), 10);
    assert_eq!(out, "  Directory demo\n──────────\n");
}

#[test]
fn pretty_render_puts_the_header_above_the_body() {
    let entries = vec![entry("a", false, 0)];
    let ctx = RenderContext { terminal_width: 4, mode: Mode::List, pretty: true };
    let out = render_entries(&entries, &ctx, &"d".to_string());
    assert_eq!(out, "  Directory d\n────\na");
}

#[test]
fn placeholder_marks_unreadable_metadata() {
    let poor = vec![Entry {
        name: "ghost".to_string(),
        is_directory: false,
        size_bytes: None,
        modified: None,
    }];
    let out = format_as_table(&poor);
    assert_eq!(
        out,
        "Last modified  Size  Name \n----           ----  ghost"
    );
}
