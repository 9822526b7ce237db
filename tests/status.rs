use rona::status::{
    count_renamed_files, get_status_files, parse_status, parse_status_line,
    process_deleted_files, process_deleted_files_for_commit_message,
    process_deleted_files_for_staging, process_git_status, FileCategory,
};

fn sorted(mut v: Vec<String>) -> Vec<String> {
    v.sort();
    v
}

#[test]
fn test_count_renamed_files() {
    let status = " M file1.txt\n?? file2.txt\n";
    assert_eq!(count_renamed_files(status), 0);

    let status = "R  old_name.txt -> new_name.txt\n M file1.txt\n";
    assert_eq!(count_renamed_files(status), 1);

    let status = "R  old1.txt -> new1.txt\nR  old2.txt -> new2.txt\n M file1.txt\n";
    assert_eq!(count_renamed_files(status), 2);

    let status = "R\told_name.txt -> new_name.txt\n M file1.txt\n";
    assert_eq!(count_renamed_files(status), 1);

    let status = "R  .github/workflows/publish -> .github/workflows/publish.yaml\n";
    assert_eq!(count_renamed_files(status), 1);
}

#[test]
fn test_get_status_files_with_renamed() {
    let status = "R  old_file.txt -> new_file.txt\n M modified.txt\n?? untracked.txt\n";
    let files = get_status_files(status);
    assert!(files.contains(&"new_file.txt".to_string()));
    assert!(!files.contains(&"old_file.txt".to_string()));
    assert_eq!(
        sorted(files),
        vec!["modified.txt", "new_file.txt", "untracked.txt"]
    );
}

#[test]
fn test_process_git_status() {
    let lines: Vec<&str> = vec![
        " M src/git_related.rs",
        "M  src/main.rs",
        "AM src/utils.rs",
        "?? src/README.md",
        "UU src/bla.rs",
        "!! src/bli.rs",
        "DD src/blo.rs",
        "R  src/old_file.rs -> src/new_file.rs",
        " R src/old_path/file.rs -> src/new_path/file.rs",
        "C  src/bly.rs",
        "U  src/pae.rs",
    ];

    let modified_files = process_git_status(lines.join("\n").as_str()).unwrap();

    assert_eq!(
        modified_files,
        vec![
            "src/main.rs",
            "src/utils.rs",
            "src/bla.rs",
            "src/new_file.rs",
            "src/bly.rs",
            "src/pae.rs",
        ]
    );
}

#[test]
fn test_process_deteted_files() {
    let lines: Vec<&str> = vec![
        " D src/git_related.rs",
        "D  src/main.rs",
        "AD src/utils.rs",
        "?? src/README.md",
        "UU src/bla.rs",
        "!! src/bli.rs",
        "DD src/blo.rs",
        "R  src/blu.rs",
        "C  src/bly.rs",
        "U  src/pae.rs",
    ];
    let deleted_files = process_deleted_files(lines.join("\n").as_str()).unwrap();

    assert_eq!(
        deleted_files,
        vec!["src/git_related.rs", "src/utils.rs", "src/blo.rs"]
    );
}

#[test]
fn worktree_deletions_only_to_stage() {
    let status = " D a.rs\nMD b.rs\nAD c.rs\n";
    let to_stage = process_deleted_files_for_staging(status).unwrap();
    assert_eq!(to_stage, vec!["a.rs", "b.rs", "c.rs"]);
    assert!(process_deleted_files_for_commit_message(status).unwrap().is_empty());
    assert!(get_status_files(status).is_empty());
}

#[test]
fn staged_deletions_nowhere_else() {
    let status = "D  a.rs\nDD b.rs\n";
    assert_eq!(
        process_deleted_files_for_commit_message(status).unwrap(),
        vec!["a.rs", "b.rs"]
    );
    assert!(process_deleted_files_for_staging(status).unwrap().is_empty());
    assert!(get_status_files(status).is_empty());
    assert!(process_git_status(status).unwrap().is_empty());
}

#[test]
fn renames_contribute_new_path_and_are_counted() {
    let status = "R  a.rs -> b.rs\nR  c.rs -> d.rs\n M e.rs\n?? f.rs\nA  g.rs\n";
    let files = get_status_files(status);
    assert_eq!(files, vec!["b.rs", "d.rs", "e.rs", "f.rs", "g.rs"]);
    assert!(!files.contains(&"a.rs".to_string()));
    assert!(!files.contains(&"c.rs".to_string()));
    assert_eq!(count_renamed_files(status), 2);
}

#[test]
fn end_to_end_status_scenario() {
    let status = " M a.rs\nM  b.rs\n?? c.md\n D d.rs\nD  e.rs\nR  f.rs -> g.rs\n";
    assert_eq!(
        sorted(get_status_files(status)),
        vec!["a.rs", "b.rs", "c.md", "g.rs"]
    );
    assert_eq!(process_deleted_files_for_staging(status).unwrap(), vec!["d.rs"]);
    assert_eq!(
        process_deleted_files_for_commit_message(status).unwrap(),
        vec!["e.rs"]
    );
}

#[test]
fn extractors_are_repeatable() {
    let status = " M a.rs\nM  b.rs\n?? c.md\n D d.rs\nD  e.rs\nR  f.rs -> g.rs\n";
    assert_eq!(get_status_files(status), get_status_files(status));
    assert_eq!(
        process_deleted_files_for_staging(status).unwrap(),
        process_deleted_files_for_staging(status).unwrap()
    );
    assert_eq!(count_renamed_files(status), count_renamed_files(status));
}

#[test]
fn duplicate_paths_listed_once() {
    let status = " M a.rs\nM  a.rs\nR  x.rs -> a.rs\n";
    assert_eq!(get_status_files(status), vec!["a.rs"]);
}

#[test]
fn unknown_lines_are_skipped() {
    let status = "!! ignored.rs\nXY odd.rs\nM\n\n  spaces.rs\n M kept.rs\n";
    assert_eq!(get_status_files(status), vec!["kept.rs"]);
    assert_eq!(parse_status(status).len(), 1);
}

#[test]
fn empty_status_gives_nothing() {
    assert!(get_status_files("").is_empty());
    assert!(process_deleted_files_for_staging("").unwrap().is_empty());
    assert!(process_deleted_files_for_commit_message("").unwrap().is_empty());
    assert_eq!(count_renamed_files(""), 0);
}

#[test]
fn parse_line_categories() {
    let e = parse_status_line("R  old.rs -> new.rs").unwrap();
    assert_eq!(e.index_code, 'R');
    assert_eq!(e.worktree_code, ' ');
    assert_eq!(e.path, "old.rs");
    assert_eq!(e.renamed_to, Some("new.rs".to_string()));

    let e = parse_status_line("?? notes.md").unwrap();
    assert_eq!(e.path, "notes.md");
    assert_eq!(e.renamed_to, None);

    assert!(parse_status_line("!! build").is_none());
    assert!(parse_status_line("M").is_none());
    let _ = FileCategory::Modified;
}

#[test]
fn crlf_lines_and_type_changes() {
    let status = "T  a.sh\r\nM  b.rs\r\n";
    assert_eq!(get_status_files(status), vec!["a.sh", "b.rs"]);
}

#[test]
fn final_carriage_return_without_newline_is_kept() {
    assert_eq!(get_status_files(" M a.rs\r\n M b.rs\r"), vec!["a.rs", "b.rs\r"]);
}
