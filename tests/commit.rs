use rona::branch::{format_branch_name, resolve_branch, BranchStep, COMMIT_TYPES};
use rona::commit::{
    commit_header, decimal_string, filter_commit_args, generate_commit_message,
    interactive_commit_message, parse_commit_count,
};

fn strings(v: &[&str]) -> Vec<String> {
    v.iter().map(|s| s.to_string()).collect()
}

#[test]
fn test_format_branch_name() {
    assert_eq!(
        format_branch_name(&COMMIT_TYPES, "feat/new-feature"),
        "new-feature"
    );
    assert_eq!(format_branch_name(&COMMIT_TYPES, "fix/bug-123"), "bug-123");
    assert_eq!(format_branch_name(&COMMIT_TYPES, "main"), "main");
    assert_eq!(
        format_branch_name(&COMMIT_TYPES, "test/add-tests"),
        "add-tests"
    );
}

#[test]
fn branch_prefix_removed_once() {
    let types = ["feat", "fix", "chore", "test"];
    assert_eq!(format_branch_name(&types, "feat/user-auth"), "user-auth");
    assert_eq!(format_branch_name(&types, "main"), "main");
    assert_eq!(format_branch_name(&types, "feat/fix/complex"), "fix/complex");
    assert_eq!(format_branch_name(&types, "user/feat/x"), "user/feat/x");
    assert_eq!(format_branch_name(&types, "feature/x"), "feature/x");
}

#[test]
fn empty_status_header_without_number() {
    let msg = generate_commit_message("feat", "main", 0, true, "", &Vec::new());
    assert_eq!(msg, "(feat on main)\n\n\n");
}

#[test]
fn message_with_files_and_deletions() {
    let status = " M a.rs\n?? notes.md\nD  gone.rs\n D later.rs\n";
    let ignore = strings(&["notes.md"]);
    let msg = generate_commit_message("fix", "fix/crash", 41, false, status, &ignore);
    assert_eq!(
        msg,
        "[42] (fix on crash)\n\n\n- `a.rs`:\n\n\t\n\n- `gone.rs`: deleted\n\n"
    );
}

#[test]
fn deletions_are_never_ignored() {
    let status = "D  docs/old.md\n";
    let ignore = strings(&["docs"]);
    let msg = generate_commit_message("chore", "main", 9, false, status, &ignore);
    assert_eq!(msg, "[10] (chore on main)\n\n\n- `docs/old.md`: deleted\n\n");
}

#[test]
fn header_numbers() {
    assert_eq!(commit_header("feat", "main", Some(1)), "[1] (feat on main)");
    assert_eq!(commit_header("feat", "main", None), "(feat on main)");
    assert_eq!(decimal_string(0), "0");
    assert_eq!(decimal_string(4294967296), "4294967296");
    let msg = generate_commit_message("test", "main", u32::MAX, false, "", &Vec::new());
    assert_eq!(msg, "[4294967296] (test on main)\n\n\n");
}

#[test]
fn commit_counts() {
    assert_eq!(parse_commit_count("12\n"), Some(12));
    assert_eq!(parse_commit_count("  +7 "), Some(7));
    assert_eq!(parse_commit_count("4294967295"), Some(u32::MAX));
    assert_eq!(parse_commit_count("4294967296"), None);
    assert_eq!(parse_commit_count(""), None);
    assert_eq!(parse_commit_count("+"), None);
    assert_eq!(parse_commit_count("12a"), None);
    assert_eq!(parse_commit_count("fatal: bad revision"), None);
}

#[test]
fn clashing_commit_args_dropped() {
    let args = strings(&["--amend", "-c", "-cfoo", "--commit=x", "--no-edit"]);
    assert_eq!(filter_commit_args(&args), vec!["--amend", "--no-edit"]);
    assert!(filter_commit_args(&Vec::new()).is_empty());
}

#[test]
fn interactive_message_format() {
    assert_eq!(
        interactive_commit_message("feat", "feat/login", 2, "  add login  "),
        Some("[3] (feat on login) add login".to_string())
    );
    assert_eq!(interactive_commit_message("feat", "main", 2, "   "), None);
}

#[test]
fn branch_resolution() {
    match resolve_branch(Some("main\n"), None) {
        BranchStep::Use(b) => assert_eq!(b, "main"),
        _ => panic!("expected a branch"),
    }
    assert!(matches!(resolve_branch(None, Some(0)), BranchStep::UseDefaultBranch));
    assert!(matches!(resolve_branch(None, None), BranchStep::UseDefaultBranch));
    assert!(matches!(resolve_branch(None, Some(3)), BranchStep::Fail));
}
