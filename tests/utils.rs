use rona::performance::{batch_process, format_file_path, StringBuilder};
use rona::utils::{
    format_list, format_message, format_message_with_suggestion, Error, Info, Success, Warning,
};

#[test]
fn test_format_list() {
    let items = vec!["item1", "item2", "item3"];
    let formatted = format_list(&items);

    assert_eq!(formatted, "  - item1\n  - item2\n  - item3");

    let empty: Vec<&str> = vec![];
    assert_eq!(format_list(&empty), "");

    let single = vec!["item"];
    assert_eq!(format_list(&single), "  - item");
}

#[test]
fn test_message_formatting() {
    let error_msg = format_message::<Error>("Test Error", "Error details");
    assert!(error_msg.contains("🚨 ERROR"));
    assert!(error_msg.contains("Test Error"));
    assert!(error_msg.contains("Error details"));

    let success_msg = format_message::<Success>("Test Success", "Success details");
    assert!(success_msg.contains("✅ SUCCESS"));
    assert!(success_msg.contains("Test Success"));
    assert!(success_msg.contains("Success details"));

    let error_with_suggestion = format_message_with_suggestion::<Error>(
        "Test Error",
        "Error details",
        "Try this instead",
    );
    assert!(error_with_suggestion.contains("Try this instead"));
}

#[test]
fn message_exact_layout() {
    assert_eq!(
        format_message::<Warning>("Title", "Details"),
        "⚠️ WARNING: Title\n\nDetails"
    );
    assert_eq!(
        format_message_with_suggestion::<Info>("T", "D", "S"),
        "ℹ️ INFO: T\n\nD\n\nS"
    );
}

#[test]
fn test_string_builder() {
    let mut builder = StringBuilder::with_capacity(20);
    builder.push("Hello");
    builder.push_str(" ");
    builder.push("World");

    assert_eq!(builder.build(), "Hello World");
}

#[test]
fn empty_builder_builds_empty() {
    assert_eq!(StringBuilder::with_capacity(0).build(), "");
}

#[test]
fn test_format_file_path() {
    assert_eq!(format_file_path("", "file.txt"), "file.txt");
    assert_eq!(format_file_path("base", "file.txt"), "base/file.txt");
    assert_eq!(format_file_path("base/", "file.txt"), "base/file.txt");
    assert_eq!(
        format_file_path("base", "/absolute/file.txt"),
        "/absolute/file.txt"
    );
}

#[test]
fn file_path_trailing_slashes() {
    assert_eq!(format_file_path("base///", "f"), "base/f");
    assert_eq!(format_file_path("/", "f"), "/f");
}

#[test]
fn batches_in_order() {
    let numbers = vec![1, 2, 3, 4, 5, 6, 7, 8, 9, 10];
    let results = batch_process(&numbers, 3, |batch: &[i32]| {
        batch.iter().map(|&x| x * x).collect()
    });
    assert_eq!(results, vec![1, 4, 9, 16, 25, 36, 49, 64, 81, 100]);

    let sizes = batch_process(&numbers, 4, |batch: &[i32]| vec![batch.len()]);
    assert_eq!(sizes, vec![4, 4, 2]);

    let empty: Vec<i32> = Vec::new();
    assert!(batch_process(&empty, 2, |batch: &[i32]| batch.to_vec()).is_empty());
}
