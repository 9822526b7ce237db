use rona::ignore::{
    check_for_file_in_folder, get_ignore_patterns, merge_ignore_files, process_gitignore_file,
    should_ignore_file,
    PathCheckError,
};

fn strings(v: &[&str]) -> Vec<String> {
    v.iter().map(|s| s.to_string()).collect()
}

#[test]
fn test_check_for_file_in_folder() {
    assert!(check_for_file_in_folder("src/file.rs", "src").unwrap());
    assert!(check_for_file_in_folder("src/nested/deep/file.rs", "src").unwrap());
    assert!(!check_for_file_in_folder("other/file.rs", "src").unwrap());
}

#[test]
fn test_check_for_file_in_folder_errors() {
    assert!(check_for_file_in_folder("", "src").is_err());
    assert!(check_for_file_in_folder("file.txt", "").is_err());
}

#[test]
fn path_check_error_kinds() {
    assert_eq!(check_for_file_in_folder("", "src"), Err(PathCheckError::EmptyFile));
    assert_eq!(check_for_file_in_folder("a", ""), Err(PathCheckError::EmptyFolder));
    assert_eq!(check_for_file_in_folder("/", "src"), Err(PathCheckError::NoParent));
}

#[test]
fn containment_is_by_component() {
    assert!(!check_for_file_in_folder("src2/file.rs", "src").unwrap());
    assert!(check_for_file_in_folder("src/file.rs", "src/").unwrap());
    assert!(check_for_file_in_folder("src//a/file.rs", "src/a").unwrap());
    assert!(!check_for_file_in_folder("file.rs", "src").unwrap());
    assert!(!check_for_file_in_folder("/src/file.rs", "src").unwrap());
}

#[test]
fn test_extract_filenames() {
    let content = "file1.txt\n#comment\nfile2.rs\n\nfile3.md";
    let result = process_gitignore_file(content);

    assert_eq!(result.len(), 3);
    assert!(result.contains(&"file1.txt".to_string()));
    assert!(result.contains(&"file2.rs".to_string()));
    assert!(result.contains(&"file3.md".to_string()));
}

#[test]
fn ignored_by_folder_prefix() {
    let entries = strings(&["data/year_2015/puzzles"]);
    assert!(should_ignore_file("data/year_2015/puzzles/day_01.md", &entries));
    assert!(!should_ignore_file("data/year_2016/x.md", &entries));
}

#[test]
fn ignored_by_exact_match() {
    let entries = strings(&["notes.md", "build"]);
    assert!(should_ignore_file("notes.md", &entries));
    assert!(should_ignore_file("build/out.txt", &entries));
    assert!(!should_ignore_file("src/notes.md", &entries));
    assert!(!should_ignore_file("a.rs", &Vec::new()));
}

#[test]
fn ignore_entries_are_literal() {
    let entries = strings(&["*.md"]);
    assert!(!should_ignore_file("notes.md", &entries));
}

#[test]
fn ignore_files_merge_without_repeats() {
    let merged = get_ignore_patterns(
        Some("target\n# note\nnotes.md\n"),
        "target\n\n.env\nnotes.md\n",
    );
    assert_eq!(merged, vec!["target", "notes.md", ".env"]);
    assert!(get_ignore_patterns(Some(""), "").is_empty());
    assert_eq!(process_gitignore_file("a b\n \nok\n"), vec!["a b", "ok"]);
}

#[test]
fn entries_are_kept_literally() {
    assert_eq!(get_ignore_patterns(Some("a b"), ""), vec!["a b"]);
    assert_eq!(process_gitignore_file("target \n\t\n#x\n # y\n"), vec!["target ", " # y"]);
}

#[test]
fn no_commitignore_file_ignores_nothing() {
    assert!(get_ignore_patterns(None, "target\n.env\n").is_empty());
    assert_eq!(merge_ignore_files("a\n", "b\na\n"), vec!["a", "b"]);
}
