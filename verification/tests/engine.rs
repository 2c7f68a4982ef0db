//! End-to-end tests of the search engine over real directory trees.

use assert_fs::fixture::FileTouch;
use assert_fs::fixture::FileWriteStr;
use assert_fs::fixture::PathChild;
use assert_fs::TempDir;
use rust_search::file_name_from_path;
use rust_search::CustomFilter;
use rust_search::CustomFilterHandle;
use rust_search::DirEntry;
use rust_search::FileSize;
use rust_search::Search;
use rust_search::SearchBuilder;
use rust_search::SearchError;

fn collect_names(mut search: Search) -> Vec<String> {
    let mut names = Vec::new();
    while let Some(path) = search.next() {
        names.push(file_name_from_path(&path));
    }
    names.sort();
    names
}

fn report_tree() -> TempDir {
    let tmp = TempDir::new().unwrap();
    tmp.child("report.txt").touch().unwrap();
    tmp.child("report_final.txt").touch().unwrap();
    tmp.child("notes.md").touch().unwrap();
    tmp
}

#[test]
fn non_strict_search_matches_prefixed_names() {
    let tmp = report_tree();
    let root = tmp.path().to_str().unwrap();
    let search = SearchBuilder::default()
        .location(root)
        .search_input("report")
        .ext("txt")
        .build()
        .unwrap();
    let names = collect_names(search);
    assert_eq!(names, vec!["report.txt".to_string(), "report_final.txt".to_string()]);
}

#[test]
fn strict_search_requires_immediate_extension() {
    let tmp = report_tree();
    let root = tmp.path().to_str().unwrap();
    let search = SearchBuilder::default()
        .location(root)
        .search_input("report")
        .ext("txt")
        .strict()
        .build()
        .unwrap();
    let names = collect_names(search);
    assert_eq!(names, vec!["report.txt".to_string()]);
}

#[test]
fn extension_dot_is_immaterial() {
    let tmp = report_tree();
    let root = tmp.path().to_str().unwrap();
    let with_dot = SearchBuilder::default()
        .location(root)
        .search_input("report")
        .ext(".txt")
        .build()
        .unwrap();
    let without_dot = SearchBuilder::default()
        .location(root)
        .search_input("report")
        .ext("txt")
        .build()
        .unwrap();
    assert_eq!(collect_names(with_dot), collect_names(without_dot));
    assert_eq!(collect_names(
        SearchBuilder::default().location(root).search_input("report").ext(".txt").build().unwrap()
    ).len(), 2);
}

#[test]
fn result_limit_caps_the_sequence() {
    let tmp = TempDir::new().unwrap();
    for i in 0..5 {
        tmp.child(format!("match_{i}.txt")).touch().unwrap();
    }
    let root = tmp.path().to_str().unwrap();
    let search = SearchBuilder::default()
        .location(root)
        .search_input("match")
        .ext("txt")
        .limit(2)
        .build()
        .unwrap();
    let names = collect_names(search);
    assert_eq!(names.len(), 2);
}

#[test]
fn zero_limit_yields_nothing() {
    let tmp = report_tree();
    let root = tmp.path().to_str().unwrap();
    let mut search = SearchBuilder::default()
        .location(root)
        .search_input("report")
        .ext("txt")
        .limit(0)
        .build()
        .unwrap();
    assert_eq!(search.next(), None);
    assert_eq!(search.next(), None);
}

#[test]
fn size_filter_excludes_empty_files() {
    let tmp = TempDir::new().unwrap();
    tmp.child("empty.txt").touch().unwrap();
    tmp.child("full.txt").write_str("contents").unwrap();
    let root = tmp.path().to_str().unwrap();
    let search = SearchBuilder::default()
        .location(root)
        .ext("txt")
        .file_size_greater(FileSize::Byte(0))
        .build()
        .unwrap();
    let names = collect_names(search);
    assert_eq!(names, vec!["full.txt".to_string()]);
}

#[test]
fn modified_time_filters_bound_the_results() {
    let tmp = TempDir::new().unwrap();
    tmp.child("now.txt").write_str("x").unwrap();
    let root = tmp.path().to_str().unwrap();
    let far_future: u64 = u64::MAX / 2;
    let included = SearchBuilder::default()
        .location(root)
        .ext("txt")
        .modified_before(far_future)
        .build()
        .unwrap();
    assert_eq!(collect_names(included), vec!["now.txt".to_string()]);
    let excluded = SearchBuilder::default()
        .location(root)
        .ext("txt")
        .modified_after(far_future)
        .build()
        .unwrap();
    assert_eq!(collect_names(excluded).len(), 0);
}

struct RejectAll;

impl CustomFilter for RejectAll {
    fn accept(&self, _entry: &DirEntry) -> bool {
        false
    }
}

struct AcceptAll;

impl CustomFilter for AcceptAll {
    fn accept(&self, _entry: &DirEntry) -> bool {
        true
    }
}

#[test]
fn custom_filters_govern_emission() {
    let tmp = report_tree();
    let root = tmp.path().to_str().unwrap();
    let none = SearchBuilder::default()
        .location(root)
        .search_input("report")
        .ext("txt")
        .custom_filter(CustomFilterHandle::new(RejectAll))
        .build()
        .unwrap();
    assert_eq!(collect_names(none).len(), 0);
    let all = SearchBuilder::default()
        .location(root)
        .search_input("report")
        .ext("txt")
        .custom_filter(CustomFilterHandle::new(AcceptAll))
        .build()
        .unwrap();
    assert_eq!(collect_names(all).len(), 2);
}

#[test]
fn invalid_pattern_is_the_only_build_error() {
    let result = SearchBuilder::default().search_input("[").build();
    match result {
        Err(e) => assert_eq!(e, SearchError::InvalidPattern),
        Ok(_) => panic!("an unclosed class must not compile"),
    }
}

#[test]
fn ignore_case_widens_matching() {
    let tmp = report_tree();
    let root = tmp.path().to_str().unwrap();
    let sensitive = SearchBuilder::default()
        .location(root)
        .search_input("REPORT")
        .ext("txt")
        .build()
        .unwrap();
    assert_eq!(collect_names(sensitive).len(), 0);
    let insensitive = SearchBuilder::default()
        .location(root)
        .search_input("REPORT")
        .ext("txt")
        .ignore_case()
        .build()
        .unwrap();
    assert_eq!(collect_names(insensitive).len(), 2);
}

#[test]
fn hidden_entries_need_the_flag() {
    let tmp = TempDir::new().unwrap();
    tmp.child(".secret.txt").touch().unwrap();
    let root = tmp.path().to_str().unwrap();
    let skipped = SearchBuilder::default()
        .location(root)
        .search_input("secret")
        .ext("txt")
        .build()
        .unwrap();
    assert_eq!(collect_names(skipped).len(), 0);
    let included = SearchBuilder::default()
        .location(root)
        .search_input("secret")
        .ext("txt")
        .hidden()
        .build()
        .unwrap();
    assert_eq!(collect_names(included), vec![".secret.txt".to_string()]);
}

#[test]
fn depth_bounds_the_recursion() {
    let tmp = TempDir::new().unwrap();
    tmp.child("top.txt").touch().unwrap();
    tmp.child("sub").child("deep.txt").touch().unwrap();
    let root = tmp.path().to_str().unwrap();
    let bounded = SearchBuilder::default()
        .location(root)
        .ext("txt")
        .depth(1)
        .build()
        .unwrap();
    assert_eq!(collect_names(bounded), vec!["top.txt".to_string()]);
    let unbounded = SearchBuilder::default().location(root).ext("txt").build().unwrap();
    assert_eq!(collect_names(unbounded).len(), 2);
}

#[test]
fn additional_roots_are_traversed_too() {
    let first = TempDir::new().unwrap();
    first.child("one.txt").touch().unwrap();
    let second = TempDir::new().unwrap();
    second.child("two.txt").touch().unwrap();
    let search = SearchBuilder::default()
        .location(first.path().to_str().unwrap())
        .more_locations(vec![second.path().to_str().unwrap().to_string()])
        .ext("txt")
        .build()
        .unwrap();
    let names = collect_names(search);
    assert_eq!(names, vec!["one.txt".to_string(), "two.txt".to_string()]);
}

#[test]
fn abandoning_the_sequence_terminates_promptly() {
    let tmp = TempDir::new().unwrap();
    for i in 0..50 {
        tmp.child(format!("file_{i}.txt")).touch().unwrap();
    }
    let root = tmp.path().to_str().unwrap();
    let search = SearchBuilder::default().location(root).ext("txt").build().unwrap();
    // Consume nothing: dropping the sequence must neither deadlock nor leak.
    drop(search);
}

#[test]
fn rebuilding_yields_the_same_set() {
    let tmp = report_tree();
    let root = tmp.path().to_str().unwrap();
    let config = SearchBuilder::default().location(root).search_input("report").ext("txt");
    let first = collect_names(config.build().unwrap());
    let second = collect_names(config.build().unwrap());
    assert_eq!(first, second);
    assert_eq!(first.len(), 2);
}
