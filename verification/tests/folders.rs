use cloudnexus_core::copy::CopyProgress;
use cloudnexus_core::folder_copy::{FolderCopyContext, FolderStep};
use cloudnexus_core::listing::{
    entry_before_or_same, join_relative, name_before_or_same, order_listing, DirEntryInfo,
    EntryKind,
};
use cloudnexus_core::scan::{
    check_scan_root, scan_depth, FolderScanContext, FolderScanner,
};

fn entry(name: &str, kind: EntryKind, size: Option<u64>) -> DirEntryInfo {
    DirEntryInfo {
        name: name.to_string(),
        absolute_path: format!("/abs/{}", name),
        kind,
        size,
    }
}

fn file(name: &str, size: u64) -> DirEntryInfo {
    entry(name, EntryKind::File, Some(size))
}

fn dir(name: &str) -> DirEntryInfo {
    entry(name, EntryKind::Directory, None)
}

fn names(entries: &[DirEntryInfo]) -> Vec<String> {
    entries.iter().map(|e| e.name.clone()).collect()
}

#[test]
fn names_are_ordered_by_their_bytes() {
    let le = |a: &str, b: &str| {
        let a: Vec<char> = a.chars().collect();
        let b: Vec<char> = b.chars().collect();
        name_before_or_same(&a, &b)
    };
    assert!(le("", ""));
    assert!(le("", "a"));
    assert!(!le("a", ""));
    assert!(le("B.txt", "a.txt"));
    assert!(!le("a.txt", "B.txt"));
    assert!(le("a", "ab"));
    assert!(!le("ab", "a"));
    assert!(le("abc", "abc"));
    assert!(le("z", "é"));
    for (a, b) in [("B.txt", "a.txt"), ("a", "ab"), ("z", "é"), ("ab", "a"), ("x", "x")] {
        assert_eq!(le(a, b), a <= b);
    }
    assert!(entry_before_or_same(&dir("z"), &file("a", 1), true));
    assert!(!entry_before_or_same(&dir("a"), &file("z", 1), false));
    assert!(entry_before_or_same(&file("a", 1), &entry("b", EntryKind::Symlink, None), true));
}

#[test]
fn listings_are_put_in_order() {
    let listing = vec![file("c.txt", 1), dir("d"), file("a.txt", 2), file("B.txt", 3), dir("A")];
    assert_eq!(names(&order_listing(&listing, true)), vec!["A", "d", "B.txt", "a.txt", "c.txt"]);
    assert_eq!(names(&order_listing(&listing, false)), vec!["B.txt", "a.txt", "c.txt", "A", "d"]);
    assert!(order_listing(&Vec::new(), true).is_empty());
    // entries of one name keep their order
    let twice = vec![file("x", 1), file("x", 2)];
    let sizes: Vec<Option<u64>> = order_listing(&twice, true).iter().map(|e| e.size).collect();
    assert_eq!(sizes, vec![Some(1), Some(2)]);
    assert_eq!(join_relative("", "a"), "a");
    assert_eq!(join_relative("d", "e.txt"), "d/e.txt");
    assert_eq!(join_relative("d/x", ""), "d/x/");
}

#[test]
fn folder_copy_determinism() {
    let mut copy = FolderCopyContext::new("/src".to_string(), "/dst".to_string(), 40, 4, None);
    let mut copied = Vec::new();
    let mut created = Vec::new();
    let mut reports = Vec::new();
    let mut now = 0;
    loop {
        match copy.folder_copy_next_file() {
            FolderStep::ListDirectory { relative_path } => {
                let listing = match relative_path.as_str() {
                    "" => vec![file("c.txt", 10), dir("d"), file("a.txt", 10), file("B.txt", 10)],
                    "d" => vec![file("e.txt", 10)],
                    other => panic!("unexpected directory {}", other),
                };
                created.extend(copy.directory_listed(&relative_path, &listing));
            }
            FolderStep::CopyFile { relative_path } => {
                assert_eq!(copy.source_path(&relative_path), format!("/src/{}", relative_path));
                assert_eq!(copy.dest_path(&relative_path), format!("/dst/{}", relative_path));
                copied.push(relative_path);
                now += 300;
                reports.push(copy.file_copied_at(10, now));
            }
            FolderStep::Done => break,
            FolderStep::Stop { code } => panic!("stopped with {}", code),
        }
    }
    assert_eq!(copied, vec!["B.txt", "a.txt", "c.txt", "d/e.txt"]);
    assert_eq!(created, vec!["d"]);
    let all = CopyProgress { bytes_copied: 40, total_bytes: 40, files_processed: 4, total_files: 4 };
    assert_eq!(
        reports,
        vec![
            None,
            Some(CopyProgress { bytes_copied: 20, total_bytes: 40, files_processed: 2, total_files: 4 }),
            None,
            Some(all)
        ]
    );
    assert_eq!(copy.folder_copy_finalize(), all);
    assert_eq!(copy.copy_get_progress(), all);
    assert_eq!(copy.source_path(""), "/src");
    assert_eq!(copy.dest_path(""), "/dst");
}

#[test]
fn folder_copy_walks_depth_first_and_keeps_empty_directories() {
    let mut copy = FolderCopyContext::new("s".to_string(), "d".to_string(), 0, 0, None);
    let mut order = Vec::new();
    loop {
        match copy.next_step_polled(false) {
            FolderStep::ListDirectory { relative_path } => {
                let listing = match relative_path.as_str() {
                    "" => vec![dir("b"), dir("a"), file("z", 1), entry("l", EntryKind::Symlink, None)],
                    "a" => vec![dir("inner"), file("f", 1)],
                    "a/inner" => vec![],
                    "b" => vec![file("g", 1)],
                    other => panic!("unexpected directory {}", other),
                };
                for made in copy.directory_listed(&relative_path, &listing) {
                    order.push(format!("mkdir {}", made));
                }
            }
            FolderStep::CopyFile { relative_path } => {
                order.push(format!("copy {}", relative_path));
                copy.file_copied(1);
            }
            FolderStep::Done => break,
            FolderStep::Stop { code } => panic!("stopped with {}", code),
        }
    }
    assert_eq!(
        order,
        vec!["mkdir a", "mkdir b", "copy z", "mkdir a/inner", "copy a/f", "copy b/g"]
    );
    assert_eq!(copy.copy_get_progress().files_processed, 3);
}

#[test]
fn folder_copy_cancelled() {
    let mut copy = FolderCopyContext::new("s".to_string(), "d".to_string(), 0, 0, None);
    assert!(matches!(copy.next_step_polled(true), FolderStep::Stop { code: -7 }));
    // nothing was handed out: the root still waits
    assert!(matches!(copy.next_step_polled(false), FolderStep::ListDirectory { .. }));
    assert!(!copy.is_cancelled());
}

#[test]
fn scan_records_folders_first_and_walks_the_last_folder_first() {
    let mut scanner = FolderScanner::new("/root", None);
    let mut listed = Vec::new();
    while let Some(dir_now) = scanner.next_directory() {
        listed.push((dir_now.absolute_path.clone(), dir_now.relative_path.clone(), dir_now.depth));
        let listing = match dir_now.relative_path.as_str() {
            "" => vec![
                file("b.txt", 5),
                dir("sub"),
                entry("link", EntryKind::Symlink, Some(3)),
                file("a.txt", 7),
                dir("alpha"),
                entry("broken", EntryKind::File, None),
            ],
            "sub" => vec![file("deep.txt", 11)],
            "alpha" => vec![],
            other => panic!("unexpected directory {}", other),
        };
        scanner.add_listing(&dir_now, &listing);
    }
    assert_eq!(
        listed,
        vec![
            ("/root".to_string(), "".to_string(), 0),
            ("/abs/sub".to_string(), "sub".to_string(), 1),
            ("/abs/alpha".to_string(), "alpha".to_string(), 1),
        ]
    );
    let result = scanner.finish(42);
    assert_eq!(result.root_path, "/root");
    assert_eq!(result.scan_duration_ms, 42);
    assert_eq!(result.file_count, 3);
    assert_eq!(result.folder_count, 2);
    assert_eq!(result.total_size, 23);
    let found: Vec<(String, String, bool, u64, String)> = result
        .items
        .iter()
        .map(|i| (i.relative_path.clone(), i.name.clone(), i.is_folder, i.size, i.absolute_path.clone()))
        .collect();
    let item = |rel: &str, name: &str, folder: bool, size: u64| {
        (rel.to_string(), name.to_string(), folder, size, format!("/abs/{}", name))
    };
    assert_eq!(
        found,
        vec![
            item("alpha", "alpha", true, 0),
            item("sub", "sub", true, 0),
            item("a.txt", "a.txt", false, 7),
            item("b.txt", "b.txt", false, 5),
            item("sub/deep.txt", "deep.txt", false, 11),
        ]
    );
}

#[test]
fn scan_stops_at_its_depth() {
    let mut scanner = FolderScanner::new("/root", Some(1));
    let mut listed = Vec::new();
    while let Some(dir_now) = scanner.next_directory() {
        listed.push(dir_now.relative_path.clone());
        scanner.add_listing(&dir_now, &vec![dir("x")]);
    }
    // the root and one level below; the folders two levels below are recorded but not listed
    assert_eq!(listed, vec!["", "x"]);
    let result = scanner.finish(0);
    assert_eq!(result.folder_count, 2);
    let paths: Vec<String> = result.items.iter().map(|i| i.relative_path.clone()).collect();
    assert_eq!(paths, vec!["x", "x/x"]);
    let mut only_root = FolderScanner::new("/root", Some(0));
    let root = only_root.next_directory().unwrap();
    only_root.add_listing(&root, &vec![dir("x"), file("f", 1)]);
    assert!(only_root.next_directory().is_none());
    assert!(only_root.next_directory().is_none());
}

#[test]
fn scan_root_checks_and_depth() {
    assert_eq!(check_scan_root("/nowhere", false, false), Some("Path does not exist: /nowhere".to_string()));
    assert_eq!(check_scan_root("/file", true, false), Some("Path is not a directory: /file".to_string()));
    assert_eq!(check_scan_root("/dir", true, true), None);
    assert_eq!(scan_depth(0), None);
    assert_eq!(scan_depth(3), Some(3));
}

#[test]
fn scan_context_holds_the_outcome() {
    let mut context = FolderScanContext::new();
    assert!(context.get_result().is_none());
    assert!(context.get_error().is_none());
    assert!(!context.scan_folder_is_success());
    assert_eq!(context.scan_folder_get_file_count(), 0);
    context.set_error("it failed".to_string());
    assert_eq!(context.get_error(), Some("it failed"));
    assert!(!context.scan_folder_is_success());
    let mut scanner = FolderScanner::new("/root", None);
    let root = scanner.next_directory().unwrap();
    scanner.add_listing(&root, &vec![file("f", 9), dir("d")]);
    context.set_result(scanner.finish(5));
    assert!(context.scan_folder_is_success());
    assert_eq!(context.get_result().unwrap().items.len(), 2);
    assert_eq!(context.scan_folder_get_file_count(), 1);
    assert_eq!(context.scan_folder_get_folder_count(), 1);
    assert_eq!(context.scan_folder_get_total_size(), 9);
    assert_eq!(context.scan_folder_get_duration_ms(), 5);
    assert_eq!(context.get_error(), Some("it failed"));
}

#[test]
fn folder_copy_without_a_token_goes_on() {
    let mut copy = FolderCopyContext::new("s".to_string(), "d".to_string(), 0, 0, None);
    assert!(matches!(copy.folder_copy_next_file(), FolderStep::ListDirectory { .. }));
    assert!(matches!(copy.folder_copy_next_file(), FolderStep::Done));
}
