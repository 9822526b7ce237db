use rona::exclude::exclude_file_addition;

fn strings(v: &[&str]) -> Vec<String> {
    v.iter().map(|s| s.to_string()).collect()
}

#[test]
fn adds_marker_and_missing_paths() {
    let paths = strings(&["commit_message.md", ".commitignore"]);
    assert_eq!(
        exclude_file_addition("", &paths),
        "# Added by git-commit-rust\ncommit_message.md\n.commitignore\n"
    );
    assert_eq!(
        exclude_file_addition("# comment\n*.log\n", &paths),
        "\n# Added by git-commit-rust\ncommit_message.md\n.commitignore\n"
    );
}

#[test]
fn listed_paths_are_not_repeated() {
    let paths = strings(&["commit_message.md", ".commitignore"]);
    let content = "# Added by git-commit-rust\ncommit_message.md\n";
    assert_eq!(exclude_file_addition(content, &paths), ".commitignore\n");
    let full = "# Added by git-commit-rust\ncommit_message.md\n.commitignore\n";
    assert_eq!(exclude_file_addition(full, &paths), "");
}

#[test]
fn commented_path_is_not_listed() {
    let paths = strings(&["a.md"]);
    assert_eq!(
        exclude_file_addition("#a.md\n", &paths),
        "\n# Added by git-commit-rust\na.md\n"
    );
}
