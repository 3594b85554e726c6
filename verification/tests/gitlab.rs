use tuleap2gitlab::gitlabclient::{GitlabComment, GitlabIssue};

fn issue() -> GitlabIssue {
    GitlabIssue {
        title: "Crash on start".to_string(),
        closed: true,
        description: "It crashes.".to_string(),
        assignee: "42".to_string(),
        labels: vec!["Critical".to_string(), "zombie".to_string()],
        project_url: "101".to_string(),
        created_at: "2017-01-02T03:04:05+01:00".to_string(),
        comments: vec![GitlabComment { body: "b".to_string(), created_at: "c".to_string() }],
        attachments: vec!["data/7/report.pdf".to_string()],
    }
}

#[test]
fn a_comment_is_written_in_round_brackets() {
    let comment = GitlabComment { body: "hello".to_string(), created_at: "today".to_string() };
    assert_eq!(comment.to_string(), "(hello, today)");
}

#[test]
fn an_issue_is_written_in_short() {
    assert_eq!(
        issue().to_string(),
        "Crash on start (true) assigned to 42\n2017-01-02T03:04:05+01:00\nIt crashes."
    );
    let mut open = issue();
    open.closed = false;
    assert_eq!(
        open.to_string(),
        "Crash on start (false) assigned to 42\n2017-01-02T03:04:05+01:00\nIt crashes."
    );
}

#[test]
fn labels_are_joined_by_commas() {
    assert_eq!(issue().label_list(), "Critical,zombie");
    let mut one = issue();
    one.labels = vec!["Major".to_string()];
    assert_eq!(one.label_list(), "Major");
    one.labels = Vec::new();
    assert_eq!(one.label_list(), "");
    one.labels = vec!["".to_string(), "a".to_string(), "".to_string()];
    assert_eq!(one.label_list(), ",a,");
}

#[test]
fn uploads_follow_the_description_each_behind_a_hard_break() {
    let references = vec!["[report.pdf](/uploads/1/report.pdf)".to_string(), "![x](/uploads/2/x.png)".to_string()];
    assert_eq!(
        issue().description_with_uploads(&references),
        "It crashes.  \n[report.pdf](/uploads/1/report.pdf)  \n![x](/uploads/2/x.png)"
    );
    assert_eq!(issue().description_with_uploads(&Vec::new()), "It crashes.");
}
