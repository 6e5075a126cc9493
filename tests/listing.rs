use shell::ls::{
    calculate_total_size, convert_to_permission, handlels, is_hidden, names_in_order,
    print_entries, print_indicator, render_entry, render_listing, visible_sorted, EntryMeta,
    LsRequest, Stamp,
};
use shell::error::ErrorKind;

fn entry(name: &str, mode: u32) -> EntryMeta {
    EntryMeta {
        name: name.to_string(),
        mode,
        nlink: 1,
        uid: 1000,
        gid: 1000,
        user: Some("alice".to_string()),
        group: None,
        size: 42,
        blocks: 8,
        mtime: 1_700_000_000,
        has_xattr: false,
    }
}

fn request(show_hidden: bool, long_form: bool, classify: bool) -> LsRequest {
    LsRequest { directory: ".".to_string(), show_hidden, long_form, classify }
}

fn strings(v: &[&str]) -> Vec<String> {
    v.iter().map(|s| s.to_string()).collect()
}

#[test]
fn ls_all_shows_hidden_and_pseudo_entries() {
    let entries = vec![entry("visible", 0o100644), entry(".hidden", 0o100644)];
    let lines = print_entries(
        &request(true, false, false),
        entries,
        Some(entry(".", 0o40755)),
        Some(entry("..", 0o40755)),
    );
    assert_eq!(lines, strings(&[".", "..", ".hidden", "visible"]));
}

#[test]
fn ls_without_all_shows_only_visible() {
    let entries = vec![entry("visible", 0o100644), entry(".hidden", 0o100644)];
    let lines = print_entries(&request(false, false, false), entries, None, None);
    assert_eq!(lines, strings(&["visible"]));
}

#[test]
fn ls_sorts_bytewise() {
    let entries = vec![entry("b", 0o100644), entry("B", 0o100644), entry("a", 0o100644), entry("é", 0o100644)];
    let shown = visible_sorted(entries, false);
    let names: Vec<&str> = shown.iter().map(|e| e.name.as_str()).collect();
    assert_eq!(names, vec!["B", "a", "b", "é"]);
    assert!(names_in_order("ab", "abc"));
    assert!(!names_in_order("abc", "ab"));
}

#[test]
fn ls_classify_suffixes() {
    assert_eq!(print_indicator(0o40755), Some('/'));
    assert_eq!(print_indicator(0o100755), Some('*'));
    assert_eq!(print_indicator(0o10644), Some('|'));
    assert_eq!(print_indicator(0o140644), Some('='));
    assert_eq!(print_indicator(0o100644), None);
    let lines = print_entries(&request(false, false, true), vec![entry("bin", 0o40755), entry("run", 0o100700)], None, None);
    assert_eq!(lines, strings(&["bin/", "run*"]));
}

#[test]
fn permission_column() {
    assert_eq!(convert_to_permission(0o40755, false), "drwxr-xr-x ");
    assert_eq!(convert_to_permission(0o100640, true), "-rw-r-----@");
}

#[test]
fn total_blocks_saturate() {
    let mut a = entry("a", 0o100644);
    a.blocks = u64::MAX;
    let b = entry("b", 0o100644);
    assert_eq!(calculate_total_size(&vec![entry("x", 0), entry("y", 0)]), 16);
    assert_eq!(calculate_total_size(&vec![a, b]), u64::MAX);
}

#[test]
fn long_line_same_year() {
    let e = entry("notes", 0o100644);
    let st = Stamp { year: 2024, month: 3, day: 5, hour: 9, minute: 7 };
    let line = render_entry(&e, "notes", true, false, 2024, Some(st));
    assert_eq!(
        line,
        format!("{:12} {:>3} {:20} {:10} {:>6} {:12} notes", "-rw-r--r-- ", 1, "alice", "1000", 42, "Mar  5 09:07")
    );
}

#[test]
fn long_line_other_year() {
    let e = entry("old", 0o100644);
    let st = Stamp { year: 2019, month: 12, day: 25, hour: 23, minute: 59 };
    let line = render_entry(&e, "old", true, true, 2024, Some(st));
    assert!(line.contains("Dec 25  2019"));
    assert!(line.ends_with(" old"));
}

#[test]
fn listing_with_total_and_pseudo_entries() {
    let shown = vec![entry("f", 0o100644)];
    let stamps = vec![None, None, None];
    let lines = render_listing(&request(true, true, false), &shown, &Some(entry(".", 0o40755)), &None, 2024, &stamps);
    assert_eq!(lines.len(), 3);
    assert_eq!(lines[0], "total 8");
    assert!(lines[1].starts_with("drwxr-xr-x "));
    assert!(lines[1].ends_with(" ."));
    assert!(lines[2].ends_with(" f"));
}

#[test]
fn long_listing_reads_the_clock() {
    let lines = print_entries(&request(false, true, false), vec![entry("f", 0o100644)], None, None);
    assert_eq!(lines[0], "total 8");
    let months = ["Jan", "Feb", "Mar", "Apr", "May", "Jun", "Jul", "Aug", "Sep", "Oct", "Nov", "Dec"];
    assert!(months.iter().any(|m| lines[1].contains(m)));
    assert!(!lines[1].contains("1700000000"));
}

#[test]
fn ls_arguments() {
    let q = handlels(&strings(&["src", "-a", "-F"])).unwrap();
    assert_eq!(q.directory, "src");
    assert!(q.show_hidden && q.classify && !q.long_form);
    let q = handlels(&strings(&["-l"])).unwrap();
    assert_eq!(q.directory, ".");
    assert!(q.long_form);
    assert_eq!(handlels(&strings(&["-x"])).unwrap_err(), ErrorKind::InvalidOption);
}

#[test]
fn hidden_names() {
    assert!(is_hidden(".git"));
    assert!(!is_hidden("git"));
    assert!(!is_hidden(""));
}
