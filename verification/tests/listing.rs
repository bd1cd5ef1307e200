use std::cmp::Ordering;
use filecrab::list::{_get_files, _sort, list_directory, sort_files, DirEntryInfo, File};
use filecrab::localization::{Localizer, LocalizerState};

fn entry(name: &str, directory: bool, size: u64, modified: Option<u64>) -> DirEntryInfo {
    DirEntryInfo { name: name.to_string(), directory, size, modified }
}

fn names(files: &[File]) -> Vec<String> {
    files.iter().map(|f| f.name.clone()).collect()
}

#[test]
fn empty_directory_lists_nothing() {
    let files = _get_files(Vec::new());
    assert_eq!(files.len(), 0);
}

#[test]
fn directories_first_then_case_insensitive_names() {
    // Entries B.txt, a (directory), C arrive in storage order.
    let entries = vec![
        entry("B.txt", false, 3, Some(10)),
        entry("a", true, 0, Some(20)),
        entry("C", false, 1, Some(30)),
    ];
    let files = _get_files(entries);
    assert_eq!(names(&files), vec!["a".to_string(), "B.txt".to_string(), "C".to_string()]);
}

#[test]
fn order_is_independent_of_enumeration_order() {
    let a = vec![
        entry("zeta", false, 1, None),
        entry("Alpha", false, 1, None),
        entry("beta", true, 0, None),
    ];
    let b = vec![
        entry("beta", true, 0, None),
        entry("Alpha", false, 1, None),
        entry("zeta", false, 1, None),
    ];
    assert_eq!(names(&_get_files(a)), names(&_get_files(b)));
    assert_eq!(
        names(&_get_files(vec![
            entry("zeta", false, 1, None),
            entry("Alpha", false, 1, None),
            entry("beta", true, 0, None),
        ])),
        vec!["beta".to_string(), "Alpha".to_string(), "zeta".to_string()]
    );
}

#[test]
fn names_compare_by_lowercase_form() {
    // With a case-sensitive comparison "B.txt" (0x42) would sort before
    // "a.txt" (0x61); case-insensitively "a.txt" comes first.
    let entries = vec![
        entry("B.txt", false, 1, None),
        entry("a.txt", false, 1, None),
    ];
    let files = _get_files(entries);
    assert_eq!(names(&files), vec!["a.txt".to_string(), "B.txt".to_string()]);
}

#[test]
fn sizes_and_timestamps_degrade_per_entry() {
    let entries = vec![
        entry("dir", true, 4096, Some(7)),
        entry("file", false, 123, None),
    ];
    let files = _get_files(entries);
    assert_eq!(files[0].name, "dir");
    assert_eq!(files[0].size, None);
    assert_eq!(files[0].modified, 7);
    assert!(files[0].directory);
    assert!(files[0].editable);
    assert_eq!(files[1].name, "file");
    assert_eq!(files[1].size, Some(123));
    assert_eq!(files[1].modified, 0);
    assert!(!files[1].directory);
    assert!(files[1].editable);
}

#[test]
fn comparator_puts_directories_before_files() {
    let d = File {
        name: "z".to_string(),
        size: None,
        modified: 0,
        editable: true,
        directory: true,
    };
    let f = File {
        name: "a".to_string(),
        size: Some(1),
        modified: 0,
        editable: true,
        directory: false,
    };
    assert_eq!(_sort(&d, &f), Ordering::Less);
    assert_eq!(_sort(&f, &d), Ordering::Greater);
}

#[test]
fn comparator_ignores_case_within_a_kind() {
    let a = File {
        name: "Apple".to_string(),
        size: Some(1),
        modified: 0,
        editable: true,
        directory: false,
    };
    let b = File {
        name: "apple".to_string(),
        size: Some(1),
        modified: 0,
        editable: true,
        directory: false,
    };
    let c = File {
        name: "banana".to_string(),
        size: Some(1),
        modified: 0,
        editable: true,
        directory: false,
    };
    assert_eq!(_sort(&a, &b), Ordering::Equal);
    assert_eq!(_sort(&a, &c), Ordering::Less);
    assert_eq!(_sort(&c, &b), Ordering::Greater);
}

#[test]
fn sort_files_keeps_every_entry() {
    let files = vec![
        File { name: "b".to_string(), size: Some(1), modified: 1, editable: true, directory: false },
        File { name: "A".to_string(), size: None, modified: 2, editable: true, directory: true },
        File { name: "a".to_string(), size: Some(3), modified: 3, editable: true, directory: false },
    ];
    let sorted = sort_files(files);
    assert_eq!(sorted.len(), 3);
    assert_eq!(names(&sorted), vec!["A".to_string(), "a".to_string(), "b".to_string()]);
}

fn listing_state() -> LocalizerState {
    let mut localizer = Localizer::default();
    let en = "list-directory-success = Listed '{ $directory }'.\n\
              list-directory-error = Could not list '{ $directory }'.";
    localizer.add_bundle("en".to_string(), &vec![en.to_string()]);
    LocalizerState { locales: localizer, fallback_language: "en".to_string() }
}

#[test]
fn listing_an_empty_directory_succeeds_with_no_files() {
    let state = listing_state();
    let (status, response) = list_directory(&state, "en", &"docs".to_string(), Some(Vec::new()));
    assert_eq!(status, 200);
    assert!(response.success);
    assert_eq!(response.files.unwrap().len(), 0);
    assert_eq!(response.message, "Listed 'docs'.");
}

#[test]
fn listing_orders_the_derived_entries() {
    let state = listing_state();
    let entries = vec![
        entry("B.txt", false, 3, Some(10)),
        entry("a", true, 0, Some(20)),
        entry("C", false, 1, Some(30)),
    ];
    let (status, response) = list_directory(&state, "en", &"docs".to_string(), Some(entries));
    assert_eq!(status, 200);
    assert_eq!(names(&response.files.unwrap()), vec![
        "a".to_string(),
        "B.txt".to_string(),
        "C".to_string(),
    ]);
}

#[test]
fn unreadable_directory_fails_the_whole_listing() {
    let state = listing_state();
    let (status, response) = list_directory(&state, "en", &"docs".to_string(), None);
    assert_eq!(status, 400);
    assert!(!response.success);
    assert!(response.files.is_none());
    assert_eq!(response.message, "Could not list 'docs'.");
}
