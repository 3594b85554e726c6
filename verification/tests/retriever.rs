use serde_json::Value;
use tuleap2gitlab::gitlabclient::GitlabIssue;
use tuleap2gitlab::issueretriever::{assemble, copy_texts, Fetched, IssueRetriever};
use tuleap2gitlab::lookup::LookupMap;
use tuleap2gitlab::source::{ArtifactError, FieldGroup, SourceArtifact, SourceComment};
use tuleap2gitlab::status::CUTOFF;

fn json(text: &str) -> Value {
    serde_json::from_str(text).unwrap()
}

fn table(key: &str, value: &str) -> LookupMap {
    let mut t = LookupMap::new();
    t.insert(key.to_string(), value.to_string());
    t
}

fn artifact(status: Option<&str>, last_modified: Option<i64>) -> SourceArtifact {
    let mut fields = vec![
        FieldGroup::Platform("linux".to_string()),
        FieldGroup::Severity("9 - Critical".to_string()),
        FieldGroup::AssignedTo("alice".to_string()),
    ];
    if let Some(s) = status {
        fields.push(FieldGroup::Status(s.to_string()));
    }
    SourceArtifact {
        id: "7".to_string(),
        title: "Crash #1".to_string(),
        submitted_on: "2017-01-02T03:04:05+01:00".to_string(),
        last_modified,
        submitter: "Carol".to_string(),
        fields,
    }
}

fn assembled(status: Option<&str>, last_modified: Option<i64>) -> GitlabIssue {
    assemble(
        &artifact(status, last_modified),
        &Vec::new(),
        &Vec::new(),
        &table("alice", "42"),
        &table("linux", "101"),
    )
}

fn has(issue: &GitlabIssue, label: &str) -> bool {
    issue.labels.iter().any(|l| l == label)
}

#[test]
fn an_open_and_stale_artifact_with_platform_severity_and_assignee() {
    let issue = assembled(Some("Open"), Some(CUTOFF - 1));
    assert_eq!(issue.project_url, "101");
    assert_eq!(issue.assignee, "42");
    assert!(has(&issue, "Critical"));
    assert!(has(&issue, "zombie"));
    assert!(issue.closed);
    assert_eq!(issue.labels, vec!["Critical".to_string(), "zombie".to_string()]);
    assert_eq!(issue.title, "Crash \\#1");
    assert_eq!(issue.created_at, "2017-01-02T03:04:05+01:00");
    assert_eq!(
        issue.description,
        "Issue generated from Tuleap's migration script.\n**Originally submitted by: Carol**"
    );
    assert!(issue.comments.is_empty());
    assert!(issue.attachments.is_empty());
}

#[test]
fn a_declined_artifact_is_closed_and_invalid() {
    for last_modified in [Some(0), Some(CUTOFF), Some(CUTOFF + 1), None] {
        let issue = assembled(Some("Declined"), last_modified);
        assert!(issue.closed);
        assert!(has(&issue, "invalid"));
        assert!(!has(&issue, "zombie"));
    }
}

#[test]
fn a_done_artifact_is_closed_without_a_state_label() {
    for last_modified in [Some(0), Some(CUTOFF), Some(CUTOFF + 1), None] {
        let issue = assembled(Some("Done"), last_modified);
        assert!(issue.closed);
        assert!(!has(&issue, "zombie"));
        assert!(!has(&issue, "invalid"));
        assert_eq!(issue.labels, vec!["Critical".to_string()]);
    }
}

#[test]
fn an_artifact_modified_at_or_after_the_cutoff_stays_open() {
    for last_modified in [Some(CUTOFF), Some(CUTOFF + 1), Some(i64::MAX), None] {
        let issue = assembled(Some("Open"), last_modified);
        assert!(!issue.closed);
        assert_eq!(issue.labels, vec!["Critical".to_string()]);
    }
}

#[test]
fn an_artifact_without_a_status_stays_open() {
    let issue = assembled(None, Some(0));
    assert!(!issue.closed);
    assert_eq!(issue.labels, vec!["Critical".to_string()]);
}

#[test]
fn the_state_label_follows_the_severity_labels() {
    let mut a = artifact(None, Some(0));
    a.fields.insert(0, FieldGroup::Status("Declined".to_string()));
    let issue = assemble(&a, &Vec::new(), &Vec::new(), &LookupMap::new(), &LookupMap::new());
    assert_eq!(issue.labels, vec!["Critical".to_string(), "invalid".to_string()]);
    assert_eq!(issue.project_url, "");
    assert_eq!(issue.assignee, "");
}

#[test]
fn comments_keep_the_order_of_the_source() {
    let comments: Vec<SourceComment> = ["c1", "c2", "c3"]
        .iter()
        .map(|body| SourceComment {
            author: "Bob".to_string(),
            body: body.to_string(),
            submitted_on: format!("day of {}", body),
        })
        .collect();
    let issue = assemble(
        &artifact(Some("Open"), None),
        &comments,
        &Vec::new(),
        &LookupMap::new(),
        &LookupMap::new(),
    );
    let bodies: Vec<&str> = issue.comments.iter().map(|c| c.body.as_str()).collect();
    assert_eq!(
        bodies,
        vec!["**Submitted by Bob**\n\nc1", "**Submitted by Bob**\n\nc2", "**Submitted by Bob**\n\nc3"]
    );
    let dates: Vec<&str> = issue.comments.iter().map(|c| c.created_at.as_str()).collect();
    assert_eq!(dates, vec!["day of c1", "day of c2", "day of c3"]);
}

#[test]
fn attachments_are_handed_on_as_they_are() {
    let paths = vec!["data/7/report.pdf".to_string(), "data/7/0report.pdf".to_string()];
    let issue = assemble(
        &artifact(Some("Open"), None),
        &Vec::new(),
        &paths,
        &LookupMap::new(),
        &LookupMap::new(),
    );
    assert_eq!(issue.attachments, paths);
    assert_eq!(copy_texts(&paths), paths);
}

fn summary(id: u64, title: &str) -> Value {
    json(&format!(r#"{{"id": {}, "title": "{}", "submitted_on": "2017-01-02T03:04:05+01:00"}}"#, id, title))
}

fn details(status: &str, last_modified: &str) -> Value {
    json(&format!(
        r#"{{"last_modified_date": "{}",
            "submitted_by_user": {{"display_name": "Carol"}},
            "values": [
                {{"label": "Platform", "values": [{{"label": "linux"}}]}},
                {{"label": "Severity", "values": [{{"label": "9 - Critical"}}]}},
                {{"label": "Original Submission", "value": "It crashes."}},
                {{"label": "Status", "values": [{{"label": "{}"}}]}},
                {{"label": "Attachments", "file_descriptions": [
                    {{"name": "report.pdf", "html_url": "/a/1"}},
                    {{"name": "report.pdf", "html_url": "/a/2"}}]}},
                {{"label": "Assigned to", "values": [{{"username": "alice"}}]}}]}}"#,
        last_modified, status
    ))
}

fn retriever(summaries: Vec<Value>) -> IssueRetriever {
    IssueRetriever::new(summaries, table("alice", "42"), table("linux", "101"), "data".to_string())
}

#[test]
fn the_retriever_keeps_what_it_was_made_with() {
    let r = retriever(vec![summary(7, "a"), summary(8, "b")]);
    assert_eq!(r.summaries().len(), 2);
    assert_eq!(r.summaries()[1], summary(8, "b"));
    assert_eq!(r.file_dir(), "data");
}

#[test]
fn migrates_an_artifact_from_its_records() {
    let r = retriever(vec![summary(7, "Crash")]);
    let fetched = Fetched {
        details: details("Open", "2017-07-20T23:59:59+02:00"),
        comments: vec![json(
            r#"{"submitted_by_user": {"display_name": "Bob"},
                "submitted_on": "2017-02-03T04:05:06+01:00",
                "last_comment": {"body": "me too"}}"#,
        )],
        attachments: vec!["data/7/report.pdf".to_string(), "data/7/0report.pdf".to_string()],
    };
    let issue = r.migrate(&summary(7, "Crash"), &fetched).unwrap();
    assert_eq!(issue.title, "Crash");
    assert!(issue.closed);
    assert_eq!(
        issue.description,
        "Issue generated from Tuleap's migration script.\n**Originally submitted by: Carol**\n\nIt crashes."
    );
    assert_eq!(issue.assignee, "42");
    assert_eq!(issue.labels, vec!["Critical".to_string(), "zombie".to_string()]);
    assert_eq!(issue.project_url, "101");
    assert_eq!(issue.created_at, "2017-01-02T03:04:05+01:00");
    assert_eq!(issue.comments.len(), 1);
    assert_eq!(issue.comments[0].body, "**Submitted by Bob**\n\nme too");
    assert_eq!(issue.comments[0].created_at, "2017-02-03T04:05:06+01:00");
    assert_eq!(issue.attachments, vec!["data/7/report.pdf".to_string(), "data/7/0report.pdf".to_string()]);
}

#[test]
fn an_artifact_modified_at_the_cutoff_is_migrated_open() {
    let r = retriever(Vec::new());
    let fetched = Fetched {
        details: details("Open", "2017-07-21T00:00:00+02:00"),
        comments: Vec::new(),
        attachments: Vec::new(),
    };
    let issue = r.migrate(&summary(7, "Crash"), &fetched).unwrap();
    assert!(!issue.closed);
    assert_eq!(issue.labels, vec!["Critical".to_string()]);
}

#[test]
fn migration_fails_for_the_artifact_alone() {
    let r = retriever(Vec::new());
    let no_submitter = Fetched { details: json(r#"{}"#), comments: Vec::new(), attachments: Vec::new() };
    assert_eq!(r.migrate(&summary(7, "x"), &no_submitter), Err(ArtifactError::MissingSubmitter));
    let no_author = Fetched {
        details: details("Open", ""),
        comments: vec![json(r#"{"last_comment": {"body": "?"}}"#)],
        attachments: Vec::new(),
    };
    assert_eq!(r.migrate(&summary(7, "x"), &no_author), Err(ArtifactError::MissingCommentAuthor));
    let neither = Fetched {
        details: json(r#"{}"#),
        comments: vec![json(r#"{"last_comment": {"body": "?"}}"#)],
        attachments: Vec::new(),
    };
    assert_eq!(r.migrate(&summary(7, "x"), &neither), Err(ArtifactError::MissingSubmitter));
}

fn fetched(status: &str) -> Option<Fetched> {
    Some(Fetched { details: details(status, "2018-01-01T00:00:00Z"), comments: Vec::new(), attachments: Vec::new() })
}

#[test]
fn issues_come_in_the_order_of_the_artifacts() {
    let r = retriever(vec![summary(1, "one"), summary(2, "two"), summary(3, "three")]);
    let issues = r.tuleap_to_gitlab(&vec![fetched("Open"), fetched("Done"), fetched("Declined")]);
    let titles: Vec<&str> = issues.iter().map(|i| i.title.as_str()).collect();
    assert_eq!(titles, vec!["one", "two", "three"]);
    let closed: Vec<bool> = issues.iter().map(|i| i.closed).collect();
    assert_eq!(closed, vec![false, true, true]);
}

#[test]
fn an_artifact_that_fails_takes_no_other_with_it() {
    let r = retriever(vec![summary(1, "one"), summary(2, "two"), summary(3, "three"), summary(4, "four")]);
    let broken = Some(Fetched { details: json(r#"{}"#), comments: Vec::new(), attachments: Vec::new() });
    let issues = r.tuleap_to_gitlab(&vec![fetched("Open"), broken, None, fetched("Done")]);
    let titles: Vec<&str> = issues.iter().map(|i| i.title.as_str()).collect();
    assert_eq!(titles, vec!["one", "four"]);
}

#[test]
fn only_artifacts_with_an_entry_are_migrated() {
    let r = retriever(vec![summary(1, "one"), summary(2, "two")]);
    assert_eq!(r.tuleap_to_gitlab(&vec![fetched("Open")]).len(), 1);
    assert_eq!(r.tuleap_to_gitlab(&vec![fetched("Open"), fetched("Open"), fetched("Open")]).len(), 2);
    assert!(r.tuleap_to_gitlab(&Vec::new()).is_empty());
    assert!(retriever(Vec::new()).tuleap_to_gitlab(&vec![fetched("Open")]).is_empty());
}
