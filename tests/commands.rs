use shell::cat::{cat, cat_operand};
use shell::cp::{copy_dir_entries, cp, cp_operands, ChildEntry};
use shell::echo::{echo, remove_quotes, EchoOutput};
use shell::error::{error_line, ErrorKind};
use shell::fs::{FsAction, PathKind};
use shell::mkdir::{mkdir, mkdir_with_flag};
use shell::mv::{handle_mv, move_file};
use shell::rm::{handle_rm, remove_item, rm_outcome, settle_removal};
use shell::cd::{cd_target, handle_cd, CdEvent, Shell};
use shell::command::{exit_code, lookup_builtin, parse_line, Builtin};
use shell::text::tokenize;

fn strings(v: &[&str]) -> Vec<String> {
    v.iter().map(|s| s.to_string()).collect()
}

#[test]
fn cat_splits_lines_in_order() {
    let lines = cat(&b"first\nsecond\r\nthird".to_vec());
    assert_eq!(lines, strings(&["first", "second", "third"]));
}

#[test]
fn cat_adds_no_trailing_blank_line() {
    assert_eq!(cat(&b"a\nb\n".to_vec()), strings(&["a", "b"]));
    assert_eq!(cat(&b"a\n\n".to_vec()), strings(&["a", ""]));
    assert_eq!(cat(&Vec::new()), Vec::<String>::new());
}

#[test]
fn cat_replaces_invalid_bytes() {
    let lines = cat(&vec![b'o', b'k', 0xff, b'\n', 0xe2, 0x82, 0xac]);
    assert_eq!(lines, vec!["ok\u{fffd}".to_string(), "\u{20ac}".to_string()]);
}

#[test]
fn cp_file_to_new_path() {
    let r = cp("f", "g", PathKind::File, PathKind::Missing).unwrap();
    assert!(matches!(&r[..], [FsAction::CopyFile(a, b)] if a == "f" && b == "g"));
}

#[test]
fn cp_file_into_directory() {
    let r = cp("src/notes.txt", "backup/", PathKind::File, PathKind::EmptyDir).unwrap();
    assert!(
        matches!(&r[..], [FsAction::CopyFile(a, b)] if a == "src/notes.txt" && b == "backup/notes.txt")
    );
}

#[test]
fn cp_directory_creates_destination() {
    let r = cp("tree", "copy", PathKind::NonEmptyDir, PathKind::Missing).unwrap();
    assert_eq!(r.len(), 2);
    assert!(matches!(&r[0], FsAction::CreateDirAll(p) if p == "copy"));
    assert!(matches!(&r[1], FsAction::CopyDirContents(a, b) if a == "tree" && b == "copy"));
}

#[test]
fn cp_missing_source_is_not_found() {
    assert_eq!(cp("nope", "g", PathKind::Missing, PathKind::Missing).unwrap_err(), ErrorKind::NotFound);
}

#[test]
fn cp_entries_of_directory() {
    let entries = vec![
        ChildEntry { name: "a.txt".to_string(), is_dir: false },
        ChildEntry { name: "sub".to_string(), is_dir: true },
    ];
    let r = copy_dir_entries("tree", "copy", &entries);
    assert_eq!(r.len(), 3);
    assert!(matches!(&r[0], FsAction::CopyFile(a, b) if a == "tree/a.txt" && b == "copy/a.txt"));
    assert!(matches!(&r[1], FsAction::CreateDirAll(p) if p == "copy/sub"));
    assert!(matches!(&r[2], FsAction::CopyDirContents(a, b) if a == "tree/sub" && b == "copy/sub"));
}

#[test]
fn mkdir_twice_fails_with_already_exists() {
    let first = mkdir(&"d".to_string(), false, PathKind::Missing).unwrap();
    assert!(matches!(first, FsAction::CreateDir(p) if p == "d"));
    assert_eq!(mkdir(&"d".to_string(), false, PathKind::EmptyDir).unwrap_err(), ErrorKind::AlreadyExists);
}

#[test]
fn mkdir_parents_is_idempotent() {
    let a = mkdir(&"x/y".to_string(), true, PathKind::Missing).unwrap();
    let b = mkdir(&"x/y".to_string(), true, PathKind::EmptyDir).unwrap();
    assert!(matches!(a, FsAction::CreateDirAll(p) if p == "x/y"));
    assert!(matches!(b, FsAction::CreateDirAll(p) if p == "x/y"));
    assert_eq!(mkdir(&"x/y".to_string(), true, PathKind::File).unwrap_err(), ErrorKind::AlreadyExists);
}

#[test]
fn mkdir_arguments() {
    let q = mkdir_with_flag(&strings(&["-p", "a/b"])).unwrap();
    assert_eq!(q.path, "a/b");
    assert!(q.create_parents);
    let q = mkdir_with_flag(&strings(&["d"])).unwrap();
    assert!(!q.create_parents);
    assert_eq!(mkdir_with_flag(&strings(&["-p"])).unwrap_err(), ErrorKind::MissingOperand);
    assert_eq!(mkdir_with_flag(&strings(&["-q", "d"])).unwrap_err(), ErrorKind::InvalidOption);
}

#[test]
fn rm_non_empty_dir_needs_recursion() {
    let p = "d".to_string();
    assert_eq!(remove_item(&p, PathKind::NonEmptyDir, false, false).unwrap_err(), ErrorKind::DirectoryNotEmpty);
    let r = remove_item(&p, PathKind::NonEmptyDir, true, false).unwrap();
    assert!(matches!(r, Some(FsAction::RemoveTree(q)) if q == "d"));
}

#[test]
fn rm_file_and_empty_dir() {
    let p = "f".to_string();
    assert!(matches!(remove_item(&p, PathKind::File, false, false).unwrap(), Some(FsAction::RemoveFile(_))));
    assert!(matches!(remove_item(&p, PathKind::EmptyDir, false, false).unwrap(), Some(FsAction::RemoveEmptyDir(_))));
}

#[test]
fn rm_force_suppresses_not_found() {
    let p = "gone".to_string();
    assert_eq!(remove_item(&p, PathKind::Missing, false, false).unwrap_err(), ErrorKind::NotFound);
    assert!(remove_item(&p, PathKind::Missing, false, true).unwrap().is_none());
    assert_eq!(settle_removal(true, Err(ErrorKind::NotFound)), Ok(()));
    assert_eq!(settle_removal(false, Err(ErrorKind::NotFound)), Err(ErrorKind::NotFound));
    assert_eq!(settle_removal(true, Err(ErrorKind::PermissionDenied)), Err(ErrorKind::PermissionDenied));
}

#[test]
fn rm_reports_first_failure() {
    let outcomes = vec![Ok(()), Err(ErrorKind::NotFound), Err(ErrorKind::PermissionDenied)];
    assert_eq!(rm_outcome(&outcomes), Err(ErrorKind::NotFound));
    assert_eq!(rm_outcome(&vec![Ok(()), Ok(())]), Ok(()));
}

#[test]
fn rm_arguments() {
    let q = handle_rm(&strings(&["-r", "a", "--force", "b"])).unwrap();
    assert_eq!(q.paths, strings(&["a", "b"]));
    assert!(q.recursive);
    assert!(q.force);
    let q = handle_rm(&strings(&["-R", "a"])).unwrap();
    assert!(q.recursive && !q.force);
    assert_eq!(handle_rm(&strings(&[])).unwrap_err(), ErrorKind::MissingOperand);
    assert_eq!(handle_rm(&strings(&["-f"])).unwrap_err(), ErrorKind::MissingOperand);
    assert_eq!(handle_rm(&strings(&["-x", "a"])).unwrap_err(), ErrorKind::InvalidOption);
}

#[test]
fn mv_renames_to_absent_destination() {
    let r = move_file("a", "b", PathKind::File, PathKind::Missing).unwrap();
    assert!(matches!(r, FsAction::Rename(s, d) if s == "a" && d == "b"));
}

#[test]
fn mv_into_existing_directory() {
    let r = move_file("docs/a.txt", "b", PathKind::File, PathKind::EmptyDir).unwrap();
    assert!(matches!(r, FsAction::Rename(s, d) if s == "docs/a.txt" && d == "b/a.txt"));
    let r = move_file("dir/", "b/", PathKind::NonEmptyDir, PathKind::NonEmptyDir).unwrap();
    assert!(matches!(r, FsAction::Rename(_, d) if d == "b/dir"));
}

#[test]
fn mv_missing_source_is_not_found() {
    assert_eq!(move_file("a", "b", PathKind::Missing, PathKind::Missing).unwrap_err(), ErrorKind::NotFound);
    assert_eq!(move_file("..", "b", PathKind::NonEmptyDir, PathKind::EmptyDir).unwrap_err(), ErrorKind::IoFailure);
}

#[test]
fn mv_arguments() {
    let (s, d) = handle_mv(&strings(&["a", "b"])).unwrap();
    assert_eq!((s.as_str(), d.as_str()), ("a", "b"));
    assert_eq!(handle_mv(&strings(&["a"])).unwrap_err(), ErrorKind::MissingOperand);
    assert_eq!(handle_mv(&strings(&["a", "b", "c"])).unwrap_err(), ErrorKind::MissingOperand);
}

#[test]
fn echo_redirect_writes_line() {
    let args = tokenize("\"x y\" > out.txt");
    match echo(&args).unwrap() {
        EchoOutput::Write(FsAction::WriteFile(p, t)) => {
            assert_eq!(p, "out.txt");
            assert_eq!(t.as_bytes(), b"x y\n");
        }
        other => panic!("unexpected {:?}", other),
    }
}

#[test]
fn echo_twice_gives_the_same_write() {
    let args = strings(&["x", "y", ">", "out.txt"]);
    let first = echo(&args).unwrap();
    let second = echo(&args).unwrap();
    assert!(matches!((&first, &second), (
        EchoOutput::Write(FsAction::WriteFile(p1, t1)),
        EchoOutput::Write(FsAction::WriteFile(p2, t2)),
    ) if p1 == p2 && t1 == t2 && t1 == "x y\n"));
}

#[test]
fn echo_prints_without_quotes() {
    let out = echo(&strings(&["'hello'", "\"wor\"ld\""])).unwrap();
    assert!(matches!(out, EchoOutput::Print(t) if t == "hello wor\"ld\n"));
    let out = echo(&strings(&[])).unwrap();
    assert!(matches!(out, EchoOutput::Print(t) if t == "\n"));
}

#[test]
fn echo_without_filename_is_missing_operand() {
    assert_eq!(echo(&strings(&["x", ">"])).unwrap_err(), ErrorKind::MissingOperand);
}

#[test]
fn remove_quotes_strips_both_ends() {
    assert_eq!(remove_quotes("\"'a'b\"'"), "a'b");
    assert_eq!(remove_quotes("\"\""), "");
    assert_eq!(remove_quotes("plain"), "plain");
}

#[test]
fn cd_nonexistent_keeps_directory() {
    let mut sh = Shell::new("/home/alice/proj".to_string(), Some("/home/alice".to_string()));
    let target = cd_target(&strings(&["nonexistent"]), &sh.home).unwrap();
    assert_eq!(target, "nonexistent");
    assert_eq!(handle_cd(&mut sh, CdEvent::Missing), Err(ErrorKind::NotFound));
    assert_eq!(sh.cwd, "/home/alice/proj");
    assert_eq!(handle_cd(&mut sh, CdEvent::Refused), Err(ErrorKind::IoFailure));
    assert_eq!(sh.cwd, "/home/alice/proj");
}

#[test]
fn cd_changes_directory_and_prompt() {
    let mut sh = Shell::new("/home/alice/proj".to_string(), Some("/home/alice".to_string()));
    assert_eq!(sh.prompt(), "~/proj $ ");
    assert_eq!(cd_target(&strings(&[]), &sh.home).unwrap(), "/home/alice");
    assert_eq!(handle_cd(&mut sh, CdEvent::Entered("/tmp".to_string())), Ok(()));
    assert_eq!(sh.prompt(), "/tmp $ ");
    let sh = Shell::new("/home/alice2".to_string(), Some("/home/alice".to_string()));
    assert_eq!(sh.prompt(), "/home/alice2 $ ");
    assert_eq!(cd_target(&strings(&[]), &None).unwrap_err(), ErrorKind::IoFailure);
}

#[test]
fn parse_line_dispatch() {
    assert!(parse_line("   \t ").is_none());
    let c = parse_line("  ls -a  dir ").unwrap();
    assert_eq!(c.command, Builtin::Ls);
    assert_eq!(c.args, strings(&["-a", "dir"]));
    let c = parse_line("grep x").unwrap();
    assert_eq!(c.command, Builtin::External);
    assert_eq!(c.name, "grep");
    assert_eq!(lookup_builtin("Exit"), Builtin::External);
    assert_eq!(lookup_builtin("exit"), Builtin::Exit);
}

#[test]
fn tokenize_on_unicode_space() {
    assert_eq!(tokenize("a\u{3000}b\n"), strings(&["a", "b"]));
}

#[test]
fn exit_codes() {
    assert_eq!(exit_code(&strings(&[])), Ok(0));
    assert_eq!(exit_code(&strings(&["42"])), Ok(42));
    assert_eq!(exit_code(&strings(&["2147483647"])), Ok(2147483647));
    assert_eq!(exit_code(&strings(&["2147483648"])), Err(ErrorKind::InvalidOption));
    assert_eq!(exit_code(&strings(&["4x"])), Err(ErrorKind::InvalidOption));
}

#[test]
fn error_lines_carry_command() {
    assert_eq!(error_line("cd", "nonexistent: No such file or directory"), "cd: nonexistent: No such file or directory");
}

#[test]
fn cat_and_cp_operands() {
    assert_eq!(cat_operand(&strings(&[])).unwrap_err(), ErrorKind::MissingOperand);
    assert_eq!(cat_operand(&strings(&["f"])).unwrap(), "f");
    assert_eq!(cp_operands(&strings(&["f"])).unwrap_err(), ErrorKind::MissingOperand);
    let (s, d) = cp_operands(&strings(&["f", "g"])).unwrap();
    assert_eq!((s.as_str(), d.as_str()), ("f", "g"));
}
