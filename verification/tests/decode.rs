use serde_json::Value;
use tuleap2gitlab::source::{
    decode_artifact, decode_comment, decode_comments, decode_field_group, decode_fields,
    decode_identifier, decode_submitter, ArtifactError, AttachmentDescriptor, FieldGroup,
    SourceComment,
};

fn json(text: &str) -> Value {
    serde_json::from_str(text).unwrap()
}

#[test]
fn decodes_each_kind_of_field_group() {
    assert_eq!(
        decode_field_group(&json(r#"{"label": "Platform", "values": [{"label": "linux"}]}"#)),
        Some(FieldGroup::Platform("linux".to_string()))
    );
    assert_eq!(
        decode_field_group(&json(r#"{"label": "Severity", "values": [{"label": "5 - Major"}]}"#)),
        Some(FieldGroup::Severity("5 - Major".to_string()))
    );
    assert_eq!(
        decode_field_group(&json(r#"{"label": "Original Submission", "value": "It crashes."}"#)),
        Some(FieldGroup::Submission("It crashes.".to_string()))
    );
    assert_eq!(
        decode_field_group(&json(r#"{"label": "Status", "values": [{"label": "Done"}]}"#)),
        Some(FieldGroup::Status("Done".to_string()))
    );
    assert_eq!(
        decode_field_group(&json(r#"{"label": "Assigned to", "values": [{"username": "alice"}]}"#)),
        Some(FieldGroup::AssignedTo("alice".to_string()))
    );
    assert_eq!(
        decode_field_group(&json(
            r#"{"label": "Attachments", "file_descriptions": [
                {"name": "report.pdf", "html_url": "/plugins/tracker/attachments/1-report.pdf"},
                {"name": "x.png", "html_url": "/plugins/tracker/attachments/2-x.png"}]}"#
        )),
        Some(FieldGroup::Attachments(vec![
            AttachmentDescriptor {
                name: "report.pdf".to_string(),
                url: "/plugins/tracker/attachments/1-report.pdf".to_string(),
            },
            AttachmentDescriptor {
                name: "x.png".to_string(),
                url: "/plugins/tracker/attachments/2-x.png".to_string(),
            },
        ]))
    );
}

#[test]
fn only_the_first_chosen_value_counts() {
    assert_eq!(
        decode_field_group(&json(
            r#"{"label": "Platform", "values": [{"label": "linux"}, {"label": "mac"}]}"#
        )),
        Some(FieldGroup::Platform("linux".to_string()))
    );
}

#[test]
fn a_group_with_another_label_is_not_read() {
    assert_eq!(decode_field_group(&json(r#"{"label": "Summary", "value": "x"}"#)), None);
    assert_eq!(decode_field_group(&json(r#"{"label": "platform", "values": [{"label": "linux"}]}"#)), None);
    assert_eq!(decode_field_group(&json(r#"{"values": [{"label": "linux"}]}"#)), None);
    assert_eq!(decode_field_group(&json(r#"{"label": 3, "values": [{"label": "linux"}]}"#)), None);
    assert_eq!(decode_field_group(&json(r#""Platform""#)), None);
}

#[test]
fn a_group_that_lacks_its_value_is_not_read() {
    assert_eq!(decode_field_group(&json(r#"{"label": "Platform"}"#)), None);
    assert_eq!(decode_field_group(&json(r#"{"label": "Platform", "values": []}"#)), None);
    assert_eq!(decode_field_group(&json(r#"{"label": "Platform", "values": "linux"}"#)), None);
    assert_eq!(decode_field_group(&json(r#"{"label": "Platform", "values": [{"label": 1}]}"#)), None);
    assert_eq!(decode_field_group(&json(r#"{"label": "Severity", "values": [{}]}"#)), None);
    assert_eq!(decode_field_group(&json(r#"{"label": "Original Submission", "value": null}"#)), None);
    assert_eq!(decode_field_group(&json(r#"{"label": "Assigned to", "values": [{"label": "alice"}]}"#)), None);
    assert_eq!(decode_field_group(&json(r#"{"label": "Attachments"}"#)), None);
    assert_eq!(decode_field_group(&json(r#"{"label": "Attachments", "file_descriptions": {}}"#)), None);
}

#[test]
fn a_file_description_that_cannot_be_read_is_left_out() {
    assert_eq!(
        decode_field_group(&json(
            r#"{"label": "Attachments", "file_descriptions": [
                {"name": "a.txt"},
                {"name": "b.txt", "html_url": "/b"},
                {"html_url": "/c"},
                7]}"#
        )),
        Some(FieldGroup::Attachments(vec![AttachmentDescriptor {
            name: "b.txt".to_string(),
            url: "/b".to_string(),
        }]))
    );
    assert_eq!(
        decode_field_group(&json(r#"{"label": "Attachments", "file_descriptions": []}"#)),
        Some(FieldGroup::Attachments(Vec::new()))
    );
}

#[test]
fn field_groups_keep_their_order_and_skip_what_cannot_be_read() {
    let details = json(
        r#"{"values": [
            {"label": "Severity", "values": [{"label": "1 - Ordinary"}]},
            {"label": "Summary", "value": "x"},
            {"label": "Platform"},
            {"label": "Status", "values": [{"label": "Open"}]},
            {"label": "Severity", "values": [{"label": "9 - Critical"}]}]}"#,
    );
    assert_eq!(
        decode_fields(&details),
        vec![
            FieldGroup::Severity("1 - Ordinary".to_string()),
            FieldGroup::Status("Open".to_string()),
            FieldGroup::Severity("9 - Critical".to_string()),
        ]
    );
}

#[test]
fn a_record_without_values_has_no_field_groups() {
    assert!(decode_fields(&json(r#"{}"#)).is_empty());
    assert!(decode_fields(&json(r#"{"values": {"label": "Platform"}}"#)).is_empty());
    assert!(decode_fields(&json(r#"[]"#)).is_empty());
}

#[test]
fn the_submitter_stands_under_the_primary_name_first() {
    let both = json(
        r#"{"submitted_by_details": {"display_name": "Alice A"},
            "submitted_by_user": {"display_name": "Old Alice"}}"#,
    );
    assert_eq!(decode_submitter(&both), Some("Alice A".to_string()));
}

#[test]
fn the_submitter_stands_under_the_alternate_name_where_the_primary_is_absent() {
    let alternate = json(r#"{"submitted_by_user": {"display_name": "Bob B"}}"#);
    assert_eq!(decode_submitter(&alternate), Some("Bob B".to_string()));
    let null_primary = json(
        r#"{"submitted_by_details": null, "submitted_by_user": {"display_name": "Bob B"}}"#,
    );
    assert_eq!(decode_submitter(&null_primary), Some("Bob B".to_string()));
}

#[test]
fn a_primary_object_is_not_passed_over() {
    let nameless = json(
        r#"{"submitted_by_details": {"id": 3}, "submitted_by_user": {"display_name": "Bob B"}}"#,
    );
    assert_eq!(decode_submitter(&nameless), None);
}

#[test]
fn without_either_name_there_is_no_submitter() {
    assert_eq!(decode_submitter(&json(r#"{}"#)), None);
    assert_eq!(decode_submitter(&json(r#"{"submitted_by_user": {}}"#)), None);
    assert_eq!(decode_submitter(&json(r#"{"submitted_by_user": "Bob"}"#)), None);
}

#[test]
fn the_identifier_is_a_number_or_a_string() {
    assert_eq!(decode_identifier(&json(r#"{"id": 7}"#)), "7");
    assert_eq!(decode_identifier(&json(r#"{"id": "7"}"#)), "7");
    assert_eq!(decode_identifier(&json(r#"{"id": 18446744073709551615}"#)), "18446744073709551615");
    assert_eq!(decode_identifier(&json(r#"{"id": -7}"#)), "");
    assert_eq!(decode_identifier(&json(r#"{"id": 7.5}"#)), "");
    assert_eq!(decode_identifier(&json(r#"{"id": null}"#)), "");
    assert_eq!(decode_identifier(&json(r#"{}"#)), "");
}

#[test]
fn decodes_an_artifact_from_summary_and_details() {
    let summary = json(r#"{"id": 7, "title": "Crash", "submitted_on": "2017-01-02T03:04:05+01:00"}"#);
    let details = json(
        r#"{"id": 7, "title": "ignored",
            "last_modified_date": "2017-07-20T23:59:59+02:00",
            "submitted_by_user": {"display_name": "Carol"},
            "values": [{"label": "Platform", "values": [{"label": "linux"}]}]}"#,
    );
    let artifact = decode_artifact(&summary, &details).unwrap();
    assert_eq!(artifact.id, "7");
    assert_eq!(artifact.title, "Crash");
    assert_eq!(artifact.submitted_on, "2017-01-02T03:04:05+01:00");
    assert_eq!(artifact.last_modified, Some(1_500_587_999));
    assert_eq!(artifact.submitter, "Carol");
    assert_eq!(artifact.fields, vec![FieldGroup::Platform("linux".to_string())]);
}

#[test]
fn reads_the_moment_of_last_modification_with_its_offset() {
    let summary = json(r#"{}"#);
    let at_cutoff = json(
        r#"{"last_modified_date": "2017-07-21T00:00:00+02:00", "submitted_by_user": {"display_name": "C"}}"#,
    );
    assert_eq!(decode_artifact(&summary, &at_cutoff).unwrap().last_modified, Some(1_500_588_000));
    let utc = json(
        r#"{"last_modified_date": "2017-07-20T22:00:00Z", "submitted_by_user": {"display_name": "C"}}"#,
    );
    assert_eq!(decode_artifact(&summary, &utc).unwrap().last_modified, Some(1_500_588_000));
    let epoch = json(
        r#"{"last_modified_date": "1970-01-01T00:00:00+00:00", "submitted_by_user": {"display_name": "C"}}"#,
    );
    assert_eq!(decode_artifact(&summary, &epoch).unwrap().last_modified, Some(0));
}

#[test]
fn a_date_that_cannot_be_read_is_unknown() {
    let summary = json(r#"{}"#);
    for details in [
        r#"{"last_modified_date": "yesterday", "submitted_by_user": {"display_name": "C"}}"#,
        r#"{"last_modified_date": "2017-07-21", "submitted_by_user": {"display_name": "C"}}"#,
        r#"{"last_modified_date": 1500588000, "submitted_by_user": {"display_name": "C"}}"#,
        r#"{"submitted_by_user": {"display_name": "C"}}"#,
    ] {
        assert_eq!(decode_artifact(&summary, &json(details)).unwrap().last_modified, None);
    }
}

#[test]
fn what_an_artifact_lacks_is_empty() {
    let artifact = decode_artifact(
        &json(r#"{}"#),
        &json(r#"{"submitted_by_user": {"display_name": "Carol"}}"#),
    ).unwrap();
    assert_eq!(artifact.id, "");
    assert_eq!(artifact.title, "");
    assert_eq!(artifact.submitted_on, "");
    assert_eq!(artifact.last_modified, None);
    assert!(artifact.fields.is_empty());
}

#[test]
fn an_artifact_without_a_submitter_cannot_be_migrated() {
    let summary = json(r#"{"id": 7, "title": "Crash"}"#);
    let details = json(r#"{"values": [{"label": "Platform", "values": [{"label": "linux"}]}]}"#);
    assert_eq!(decode_artifact(&summary, &details), Err(ArtifactError::MissingSubmitter));
}

#[test]
fn decodes_a_comment() {
    let record = json(
        r#"{"submitted_by_details": {"display_name": "Bob"},
            "submitted_on": "2017-02-03T04:05:06+01:00",
            "last_comment": {"body": "me too", "format": "text"}}"#,
    );
    assert_eq!(
        decode_comment(&record),
        Ok(SourceComment {
            author: "Bob".to_string(),
            body: "me too".to_string(),
            submitted_on: "2017-02-03T04:05:06+01:00".to_string(),
        })
    );
}

#[test]
fn what_a_comment_lacks_is_empty() {
    let record = json(r#"{"submitted_by_user": {"display_name": "Bob"}}"#);
    assert_eq!(
        decode_comment(&record),
        Ok(SourceComment { author: "Bob".to_string(), body: String::new(), submitted_on: String::new() })
    );
    let no_body = json(r#"{"submitted_by_user": {"display_name": "Bob"}, "last_comment": {}}"#);
    assert_eq!(decode_comment(&no_body).unwrap().body, "");
}

#[test]
fn a_comment_without_an_author_cannot_be_migrated() {
    let record = json(r#"{"last_comment": {"body": "me too"}}"#);
    assert_eq!(decode_comment(&record), Err(ArtifactError::MissingCommentAuthor));
}

#[test]
fn comments_keep_the_order_of_their_records() {
    let records: Vec<Value> = vec![
        json(r#"{"submitted_by_user": {"display_name": "A"}, "last_comment": {"body": "one"}}"#),
        json(r#"{"submitted_by_user": {"display_name": "B"}, "last_comment": {"body": "two"}}"#),
        json(r#"{"submitted_by_user": {"display_name": "C"}, "last_comment": {"body": "three"}}"#),
    ];
    let comments = decode_comments(&records).unwrap();
    let bodies: Vec<&str> = comments.iter().map(|c| c.body.as_str()).collect();
    assert_eq!(bodies, vec!["one", "two", "three"]);
    assert!(decode_comments(&Vec::new()).unwrap().is_empty());
}

#[test]
fn one_comment_without_an_author_fails_them_all() {
    let records: Vec<Value> = vec![
        json(r#"{"submitted_by_user": {"display_name": "A"}, "last_comment": {"body": "one"}}"#),
        json(r#"{"last_comment": {"body": "two"}}"#),
        json(r#"{"submitted_by_user": {"display_name": "C"}, "last_comment": {"body": "three"}}"#),
    ];
    assert_eq!(decode_comments(&records), Err(ArtifactError::MissingCommentAuthor));
}
