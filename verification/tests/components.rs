//! Unit tests for the pure components: size conversion, filter evaluation,
//! path helpers and the similarity ranker.

use rust_search::file_name_from_path;
use rust_search::filters_pass;
use rust_search::replace_tilde_with_home_dir;
use rust_search::similarity_sort;
use rust_search::EntryMeta;
use rust_search::FileSize;
use rust_search::FilterType;
use std::cmp::Ordering;

#[test]
fn file_size_conversions() {
    assert_eq!(FileSize::Byte(0).to_bytes(), 0);
    assert_eq!(FileSize::Byte(12345).to_bytes(), 12345);
    assert_eq!(FileSize::Kilobyte(1).to_bytes(), 1024);
    assert_eq!(FileSize::Megabyte(1).to_bytes(), 1_048_576);
    assert_eq!(FileSize::Gigabyte(1).to_bytes(), 1_073_741_824);
    assert_eq!(FileSize::Terabyte(1).to_bytes(), 1_099_511_627_776);
    assert_eq!(FileSize::Kilobyte(3).to_bytes(), 3 * 1024);
    // A count too large to scale saturates at the largest byte count.
    assert_eq!(FileSize::Terabyte(u64::MAX).to_bytes(), u64::MAX);
}

#[test]
fn size_filter_on_metadata() {
    let greater_than_zero = FilterType::FileSize(Ordering::Greater, 0);
    let empty = EntryMeta { created: None, modified: None, size: Some(0) };
    let full = EntryMeta { created: None, modified: None, size: Some(17) };
    let unknown = EntryMeta { created: None, modified: None, size: None };
    assert!(!greater_than_zero.passes(&empty, true));
    assert!(greater_than_zero.passes(&full, true));
    assert!(!greater_than_zero.passes(&unknown, true));
}

#[test]
fn time_filters_on_metadata() {
    let m = EntryMeta { created: Some(100), modified: Some(200), size: Some(1) };
    assert!(FilterType::Created(Ordering::Less, 101).passes(&m, true));
    assert!(FilterType::Created(Ordering::Equal, 100).passes(&m, true));
    assert!(!FilterType::Created(Ordering::Greater, 100).passes(&m, true));
    assert!(FilterType::Modified(Ordering::Greater, 199).passes(&m, true));
    assert!(!FilterType::Modified(Ordering::Less, 200).passes(&m, true));
    let missing = EntryMeta { created: None, modified: None, size: None };
    assert!(!FilterType::Created(Ordering::Less, u64::MAX).passes(&missing, true));
}

#[test]
fn filter_conjunction() {
    let m = EntryMeta { created: Some(100), modified: Some(200), size: Some(50) };
    let empty: Vec<FilterType> = Vec::new();
    assert!(filters_pass(&empty, &m, &Vec::new()));
    let both = vec![
        FilterType::FileSize(Ordering::Greater, 10),
        FilterType::Modified(Ordering::Less, 300),
    ];
    assert!(filters_pass(&both, &m, &vec![true, true]));
    let one_fails = vec![
        FilterType::FileSize(Ordering::Greater, 10),
        FilterType::Modified(Ordering::Greater, 300),
    ];
    assert!(!filters_pass(&one_fails, &m, &vec![true, true]));
}

#[test]
fn file_name_extraction() {
    assert_eq!(file_name_from_path("a/b/c.txt"), "c.txt");
    assert_eq!(file_name_from_path("plain.txt"), "plain.txt");
    assert_eq!(file_name_from_path("/root/deep/nested/file.rs"), "file.rs");
    assert_eq!(file_name_from_path("dir/"), "");
    assert_eq!(file_name_from_path(""), "");
}

#[test]
fn tilde_expansion_leaves_plain_paths() {
    assert_eq!(replace_tilde_with_home_dir("/var/log"), "/var/log");
    assert_eq!(replace_tilde_with_home_dir("relative/path"), "relative/path");
    // A tilde that is not the whole first component is not a home marker.
    assert_eq!(replace_tilde_with_home_dir("~user/path"), "~user/path");
}

#[test]
fn tilde_expansion_uses_home() {
    let expanded = replace_tilde_with_home_dir("~/somewhere");
    if let Some(home) = dirs::home_dir().and_then(|p| p.to_str().map(str::to_owned)) {
        assert_eq!(expanded, format!("{home}/somewhere"));
    } else {
        assert_eq!(expanded, "~/somewhere");
    }
}

#[test]
fn similarity_sort_places_closest_first() {
    let mut v = vec![
        "banana.txt".to_string(),
        "appIe.txt".to_string(),
        "apple.txt".to_string(),
    ];
    similarity_sort(&mut v, "apple");
    assert_eq!(v[0], "apple.txt");
    assert_eq!(v.len(), 3);
    assert!(v.contains(&"banana.txt".to_string()));
    assert!(v.contains(&"appIe.txt".to_string()));
}

#[test]
fn similarity_sort_lowercases_both_sides() {
    let mut v = vec!["BANANA.TXT".to_string(), "APPLE.TXT".to_string()];
    similarity_sort(&mut v, "apple");
    assert_eq!(v[0], "APPLE.TXT");
    let mut w = vec!["banana.txt".to_string(), "apple.txt".to_string()];
    similarity_sort(&mut w, "APPLE");
    assert_eq!(w[0], "apple.txt");
}

#[test]
fn similarity_sort_is_stable_on_ties() {
    // Both paths have the same file name, so their ranks are equal; the
    // earlier one must stay first.
    let mut v = vec![
        "zzz/apple.txt".to_string(),
        "aaa/apple.txt".to_string(),
        "banana.txt".to_string(),
    ];
    similarity_sort(&mut v, "apple");
    assert_eq!(v[0], "zzz/apple.txt");
    assert_eq!(v[1], "aaa/apple.txt");
    assert_eq!(v[2], "banana.txt");
}

#[test]
fn similarity_sort_twice_is_identity() {
    let mut v = vec![
        "apple.txt".to_string(),
        "appIe.txt".to_string(),
        "banana.txt".to_string(),
        "other/apple.txt".to_string(),
    ];
    similarity_sort(&mut v, "apple");
    let once = v.clone();
    similarity_sort(&mut v, "apple");
    assert_eq!(v, once);
}

#[test]
fn similarity_sort_query_case_is_immaterial() {
    let mut lower = vec![
        "Apple.txt".to_string(),
        "banana.txt".to_string(),
        "appIe.txt".to_string(),
    ];
    let mut upper = lower.clone();
    similarity_sort(&mut lower, "apple");
    similarity_sort(&mut upper, "APPLE");
    assert_eq!(lower, upper);
}

#[test]
fn similarity_sort_ranks_by_file_name_only() {
    // The directory prefix must not influence the ranking.
    let mut v = vec![
        "apple/banana.txt".to_string(),
        "banana/apple.txt".to_string(),
    ];
    similarity_sort(&mut v, "apple");
    assert_eq!(v[0], "banana/apple.txt");
}
