use rona::errors::RonaError;
use rona::staging::{
    added_count, plan_staging, preview_report, select_for_staging, staged_report, staging_action,
    StagingAction,
};

fn strings(v: &[&str]) -> Vec<String> {
    v.iter().map(|s| s.to_string()).collect()
}

#[test]
fn glob_patterns_exclude_matching_paths() {
    let stageable = strings(&["src/a.rs", "notes.md", "target/x.o", "b.rs"]);
    let patterns = strings(&["*.md", "target/*"]);
    let sel = select_for_staging(&stageable, &patterns).unwrap();
    assert_eq!(sel.included, vec!["src/a.rs", "b.rs"]);
    assert_eq!(sel.excluded_count, 2);
}

#[test]
fn glob_matches_full_relative_path() {
    let stageable = strings(&["src/a.rs", "a.rs", "src/deep/c.rs"]);
    let patterns = strings(&["src/**/*.rs"]);
    let sel = select_for_staging(&stageable, &patterns).unwrap();
    assert_eq!(sel.included, vec!["a.rs"]);
    assert_eq!(sel.excluded_count, 2);
}

#[test]
fn no_patterns_keep_everything() {
    let stageable = strings(&["a.rs", "b.rs"]);
    let sel = select_for_staging(&stageable, &Vec::new()).unwrap();
    assert_eq!(sel.included, stageable);
    assert_eq!(sel.excluded_count, 0);
}

#[test]
fn invalid_pattern_is_reported() {
    let stageable = strings(&["a.rs"]);
    let patterns = strings(&["*.rs", "a**b"]);
    match select_for_staging(&stageable, &patterns) {
        Err(RonaError::InvalidPattern(p)) => assert_eq!(p, "a**b"),
        _ => panic!("expected an invalid pattern"),
    }
    let patterns = strings(&["[abc"]);
    assert!(matches!(
        select_for_staging(&Vec::new(), &patterns),
        Err(RonaError::InvalidPattern(_))
    ));
}

#[test]
fn selection_idempotent() {
    let stageable = strings(&["a.rs", "b.md", "c.rs"]);
    let patterns = strings(&["*.md"]);
    let first = select_for_staging(&stageable, &patterns).unwrap();
    let second = select_for_staging(&stageable, &patterns).unwrap();
    assert_eq!(first.included, second.included);
    assert_eq!(first.excluded_count, second.excluded_count);
    let again = select_for_staging(&first.included, &patterns).unwrap();
    assert_eq!(again.included, first.included);
    assert_eq!(again.excluded_count, 0);
}

#[test]
fn preview_and_real_select_the_same() {
    let status = " M a.rs\n?? notes.md\n D old.rs\n";
    let patterns = strings(&["*.md"]);
    let preview = staging_action(plan_staging(status, &patterns).unwrap(), true);
    let real = staging_action(plan_staging(status, &patterns).unwrap(), false);
    let p = match preview {
        StagingAction::Preview(p) => p,
        _ => panic!("expected a preview"),
    };
    match real {
        StagingAction::Stage { args, plan } => {
            assert_eq!(plan.to_add, p.to_add);
            assert_eq!(plan.to_delete, p.to_delete);
            assert_eq!(plan.excluded_count, p.excluded_count);
            assert_eq!(args, vec!["add", "a.rs", "old.rs"]);
        }
        _ => panic!("expected staging"),
    }
    assert_eq!(p.to_add, vec!["a.rs"]);
    assert_eq!(p.to_delete, vec!["old.rs"]);
    assert_eq!(p.excluded_count, 1);
}

#[test]
fn nothing_to_do_when_all_excluded() {
    let status = "?? notes.md\n";
    let patterns = strings(&["*.md"]);
    let plan = plan_staging(status, &patterns).unwrap();
    assert!(matches!(staging_action(plan, false), StagingAction::NothingToDo));
    let plan = plan_staging("", &Vec::new()).unwrap();
    assert!(matches!(staging_action(plan, true), StagingAction::NothingToDo));
}

#[test]
fn added_count_clamps() {
    assert_eq!(added_count(5, 1, 1), 3);
    assert_eq!(added_count(1, 3, 0), 0);
    assert_eq!(added_count(2, 1, 1), 0);
}

#[test]
fn preview_report_lists_paths() {
    let status = " M a.rs\n?? notes.md\n D old.rs\n";
    let plan = plan_staging(status, &strings(&["*.md"])).unwrap();
    assert_eq!(
        preview_report(&plan),
        "Would add 1 files:\n  + a.rs\nWould delete 1 files:\n  - old.rs\nWould exclude 1 files"
    );
}

#[test]
fn staged_report_line() {
    assert_eq!(
        staged_report(12, 0, 3),
        "Added 12 files, deleted 0 and excluded 3 files for commit."
    );
}
