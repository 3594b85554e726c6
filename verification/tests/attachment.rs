use tuleap2gitlab::attachment::{attachment_dir, attachment_path, free_attachment_path, is_taken};

#[test]
fn paths_lie_in_the_directory_of_the_issue() {
    assert_eq!(attachment_dir("data", "7"), "data/7");
    assert_eq!(attachment_path("data", "7", "report.pdf", None), "data/7/report.pdf");
    assert_eq!(attachment_path("data", "7", "report.pdf", Some(0)), "data/7/0report.pdf");
    assert_eq!(attachment_path("data", "7", "report.pdf", Some(12)), "data/7/12report.pdf");
}

#[test]
fn two_attachments_of_one_name_get_distinct_paths() {
    let mut taken: Vec<String> = Vec::new();
    let first = free_attachment_path("data", "7", "report.pdf", &taken).unwrap();
    taken.push(first.clone());
    let second = free_attachment_path("data", "7", "report.pdf", &taken).unwrap();
    assert_eq!(first, "data/7/report.pdf");
    assert_eq!(second, "data/7/0report.pdf");
    assert_ne!(first, second);
    taken.push(second);
    let third = free_attachment_path("data", "7", "report.pdf", &taken).unwrap();
    assert_eq!(third, "data/7/1report.pdf");
}

#[test]
fn the_smallest_free_number_is_taken() {
    let taken = vec![
        "data/7/report.pdf".to_string(),
        "data/7/1report.pdf".to_string(),
        "data/7/0report.pdf".to_string(),
        "data/7/3report.pdf".to_string(),
    ];
    assert_eq!(
        free_attachment_path("data", "7", "report.pdf", &taken),
        Some("data/7/2report.pdf".to_string())
    );
}

#[test]
fn a_number_is_only_tried_when_the_name_is_taken() {
    let taken = vec!["data/7/0report.pdf".to_string(), "data/8/report.pdf".to_string()];
    assert_eq!(
        free_attachment_path("data", "7", "report.pdf", &taken),
        Some("data/7/report.pdf".to_string())
    );
}

#[test]
fn tells_whether_a_path_is_taken() {
    let taken = vec!["a/1/x".to_string(), "a/1/y".to_string()];
    assert!(is_taken(&taken, "a/1/y"));
    assert!(!is_taken(&taken, "a/1/z"));
    assert!(!is_taken(&Vec::new(), "a/1/x"));
}
