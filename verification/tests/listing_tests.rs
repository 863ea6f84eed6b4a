use filetool::fileinfo::{get_extension, make_file_info, needs_line_count, verify_content};
use filetool::listing::{partition_entries, sort_names, DirEntry};

fn entry(name: &str, is_dir: bool) -> DirEntry {
    DirEntry { name: name.to_string(), is_dir }
}

#[test]
fn partition_separates_and_sorts() {
    let entries = vec![
        entry("zeta.txt", false),
        entry("beta", true),
        entry("alpha.rs", false),
        entry("delta", true),
    ];
    let listing = partition_entries(&entries);
    assert_eq!(listing.dirs, vec!["beta".to_string(), "delta".to_string()]);
    assert_eq!(listing.files, vec!["alpha.rs".to_string(), "zeta.txt".to_string()]);
}

#[test]
fn partition_puts_each_entry_in_exactly_one_group() {
    let entries = vec![
        entry("a", true),
        entry("b", false),
        entry("c", true),
        entry("d", false),
        entry("e", false),
    ];
    let listing = partition_entries(&entries);
    assert_eq!(listing.dirs.len() + listing.files.len(), entries.len());
    for e in &entries {
        let in_dirs = listing.dirs.contains(&e.name);
        let in_files = listing.files.contains(&e.name);
        assert!(in_dirs != in_files);
        assert_eq!(in_dirs, e.is_dir);
    }
}

#[test]
fn partition_of_empty_directory_is_empty() {
    let listing = partition_entries(&Vec::new());
    assert!(listing.dirs.is_empty());
    assert!(listing.files.is_empty());
}

#[test]
fn sort_names_orders_by_code_point() {
    let names = vec![
        "pear".to_string(),
        "Apple".to_string(),
        "apple".to_string(),
        "fig".to_string(),
    ];
    let sorted = sort_names(names);
    assert_eq!(
        sorted,
        vec![
            "Apple".to_string(),
            "apple".to_string(),
            "fig".to_string(),
            "pear".to_string()
        ]
    );
}

#[test]
fn sort_names_keeps_duplicates() {
    let names = vec!["b".to_string(), "a".to_string(), "b".to_string()];
    let sorted = sort_names(names);
    assert_eq!(sorted, vec!["a".to_string(), "b".to_string(), "b".to_string()]);
}

#[test]
fn extension_after_last_dot() {
    assert_eq!(get_extension("notes.txt"), Some("txt"));
    assert_eq!(get_extension("archive.tar.gz"), Some("gz"));
    assert_eq!(get_extension("no_dot"), None);
    assert_eq!(get_extension("trailing."), Some(""));
}

#[test]
fn info_on_directory_omits_line_count() {
    assert!(!needs_line_count(false, Some("txt")));
    let info = make_file_info("src".to_string(), 4096, false, None);
    assert!(!info.is_file);
    assert_eq!(info.line_count, None);
}

#[test]
fn info_on_text_file_reports_line_count() {
    assert!(needs_line_count(true, Some("txt")));
    assert!(needs_line_count(true, Some("rs")));
    assert!(!needs_line_count(true, Some("bin")));
    assert!(!needs_line_count(true, None));
    let info = make_file_info("a.txt".to_string(), 12, true, Some(3));
    assert!(info.is_file);
    assert_eq!(info.line_count, Some(3));
    assert_eq!(info.size, 12);
    assert_eq!(info.name, "a.txt");
}

#[test]
fn create_verification_compares_content() {
    assert!(verify_content("hello world", "hello world"));
    assert!(!verify_content("hello world", "hello worl"));
    assert!(!verify_content("hello", "hellO"));
    assert!(verify_content("", ""));
}
