//! Field mapper and comment transformer: what an artifact's field groups and
//! comments become in the target issue.

use crate::gitlabclient::{GitlabComment, GitlabCommentView};
use crate::lookup::{resolved, LookupMap};
use crate::source::{
    AttachmentDescriptor, AttachmentDescriptorView, FieldGroup, FieldGroupView, SourceComment,
    SourceCommentView,
};
use crate::text::{guarded, lemma_guarded_add, lemma_sanitized_guarded, sanitize, sanitized};
use vstd::prelude::*;

verus! {

/// The platform that the field groups name: that of the last group of this
/// kind.
pub open spec fn last_platform(fields: Seq<FieldGroupView>) -> Option<Seq<char>>
    decreases fields.len(),
{
    if fields.len() == 0 {
        None
    } else {
        match fields.last() {
            FieldGroupView::Platform(name) => Some(name),
            _ => last_platform(fields.drop_last()),
        }
    }
}

/// The user that the field groups name as assignee: that of the last group
/// of this kind.
pub open spec fn last_assignee(fields: Seq<FieldGroupView>) -> Option<Seq<char>>
    decreases fields.len(),
{
    if fields.len() == 0 {
        None
    } else {
        match fields.last() {
            FieldGroupView::AssignedTo(username) => Some(username),
            _ => last_assignee(fields.drop_last()),
        }
    }
}

/// The status that the field groups give: that of the last group of this
/// kind.
pub open spec fn last_status(fields: Seq<FieldGroupView>) -> Option<Seq<char>>
    decreases fields.len(),
{
    if fields.len() == 0 {
        None
    } else {
        match fields.last() {
            FieldGroupView::Status(label) => Some(label),
            _ => last_status(fields.drop_last()),
        }
    }
}

/// The label for a severity code, by the code's first character: `1` is
/// ordinary, `5` major, `9` critical. Any other code has no label.
pub open spec fn severity_label(code: Seq<char>) -> Option<Seq<char>> {
    if code.len() == 0 {
        None
    } else if code[0] == '1' {
        Some("Ordinary"@)
    } else if code[0] == '5' {
        Some("Major"@)
    } else if code[0] == '9' {
        Some("Critical"@)
    } else {
        None
    }
}

/// The labels of the severity groups among the field groups, in order.
pub open spec fn severity_labels(fields: Seq<FieldGroupView>) -> Seq<Seq<char>>
    decreases fields.len(),
{
    if fields.len() == 0 {
        Seq::empty()
    } else {
        match fields.last() {
            FieldGroupView::Severity(code) => match severity_label(code) {
                Some(label) => severity_labels(fields.drop_last()).push(label),
                None => severity_labels(fields.drop_last()),
            },
            _ => severity_labels(fields.drop_last()),
        }
    }
}

/// The sanitized texts of the submission groups among the field groups, in
/// order, each behind an empty line.
pub open spec fn submissions(fields: Seq<FieldGroupView>) -> Seq<char>
    decreases fields.len(),
{
    if fields.len() == 0 {
        Seq::empty()
    } else {
        match fields.last() {
            FieldGroupView::Submission(body) => submissions(fields.drop_last()) + "\n\n"@
                + sanitized(body),
            _ => submissions(fields.drop_last()),
        }
    }
}

/// The files of the attachment groups among the field groups, in order.
pub open spec fn attached_files(fields: Seq<FieldGroupView>) -> Seq<AttachmentDescriptorView>
    decreases fields.len(),
{
    if fields.len() == 0 {
        Seq::empty()
    } else {
        match fields.last() {
            FieldGroupView::Attachments(files) => attached_files(fields.drop_last()) + files,
            _ => attached_files(fields.drop_last()),
        }
    }
}

/// The description of the issue made from an artifact: a header that names
/// the submitter, then the submissions.
pub open spec fn description_of(submitter: Seq<char>, fields: Seq<FieldGroupView>) -> Seq<char> {
    "Issue generated from Tuleap's migration script.\n**Originally submitted by: "@ + submitter
        + "**"@ + submissions(fields)
}

/// The target project of an artifact: what the table gives for its platform,
/// and the empty text where it names no platform or the table does not hold
/// it.
pub open spec fn project_of(
    fields: Seq<FieldGroupView>,
    projects: Map<Seq<char>, Seq<char>>,
) -> Seq<char> {
    match last_platform(fields) {
        Some(name) => resolved(projects, name),
        None => Seq::empty(),
    }
}

/// The target user an artifact is assigned to: what the table gives for its
/// assignee, and the empty text where it names none or the table does not
/// hold it.
pub open spec fn assignee_of(
    fields: Seq<FieldGroupView>,
    assignees: Map<Seq<char>, Seq<char>>,
) -> Seq<char> {
    match last_assignee(fields) {
        Some(username) => resolved(assignees, username),
        None => Seq::empty(),
    }
}

/// The comment of the target that a comment of the source becomes: a header
/// that names the author, then the sanitized text; the date as it is.
pub open spec fn transformed(comment: SourceCommentView) -> GitlabCommentView {
    GitlabCommentView {
        body: "**Submitted by "@ + comment.author + "**\n\n"@ + sanitized(comment.body),
        created_at: comment.submitted_on,
    }
}

/// The comments of the target that a sequence of source comments becomes:
/// one for each, in the same order.
pub open spec fn transformed_all(comments: Seq<SourceCommentView>) -> Seq<GitlabCommentView> {
    Seq::new(comments.len(), |i: int| transformed(comments[i]))
}

/// The label for a severity code.
pub fn label_for_severity(code: &str) -> (r: Option<String>)
    ensures
        r.deep_view() == severity_label(code@),
{
    if code.unicode_len() == 0 {
        return None;
    }
    let first = code.get_char(0);
    if first == '1' {
        Some(String::from_str("Ordinary"))
    } else if first == '5' {
        Some(String::from_str("Major"))
    } else if first == '9' {
        Some(String::from_str("Critical"))
    } else {
        None
    }
}

/// The target project of the artifact with these field groups.
pub fn map_project(fields: &Vec<FieldGroup>, projects: &LookupMap) -> (r: String)
    ensures
        r@ == project_of(fields.deep_view(), projects@),
{
    let mut out = String::new();
    let mut i: usize = 0;
    while i < fields.len()
        invariant
            i <= fields.len(),
            out@ == project_of(fields.deep_view().take(i as int), projects@),
        decreases fields.len() - i,
    {
        proof {
            assert(fields.deep_view().take(i + 1).drop_last() =~= fields.deep_view().take(
                i as int,
            ));
        }
        match &fields[i] {
            FieldGroup::Platform(name) => {
                out = projects.resolve(name.as_str());
            },
            _ => {},
        }
        i += 1;
    }
    proof {
        assert(fields.deep_view().take(fields.len() as int) =~= fields.deep_view());
    }
    out
}

/// The target user that the artifact with these field groups is assigned to.
pub fn map_assignee(fields: &Vec<FieldGroup>, assignees: &LookupMap) -> (r: String)
    ensures
        r@ == assignee_of(fields.deep_view(), assignees@),
{
    let mut out = String::new();
    let mut i: usize = 0;
    while i < fields.len()
        invariant
            i <= fields.len(),
            out@ == assignee_of(fields.deep_view().take(i as int), assignees@),
        decreases fields.len() - i,
    {
        proof {
            assert(fields.deep_view().take(i + 1).drop_last() =~= fields.deep_view().take(
                i as int,
            ));
        }
        match &fields[i] {
            FieldGroup::AssignedTo(username) => {
                out = assignees.resolve(username.as_str());
            },
            _ => {},
        }
        i += 1;
    }
    proof {
        assert(fields.deep_view().take(fields.len() as int) =~= fields.deep_view());
    }
    out
}

/// The status of the artifact with these field groups.
pub fn find_status(fields: &Vec<FieldGroup>) -> (r: Option<&String>)
    ensures
        match r {
            Some(s) => last_status(fields.deep_view()) == Some(s@),
            None => last_status(fields.deep_view()) is None,
        },
{
    let mut out: Option<&String> = None;
    let mut i: usize = 0;
    while i < fields.len()
        invariant
            i <= fields.len(),
            match out {
                Some(s) => last_status(fields.deep_view().take(i as int)) == Some(s@),
                None => last_status(fields.deep_view().take(i as int)) is None,
            },
        decreases fields.len() - i,
    {
        proof {
            assert(fields.deep_view().take(i + 1).drop_last() =~= fields.deep_view().take(
                i as int,
            ));
        }
        match &fields[i] {
            FieldGroup::Status(label) => {
                out = Some(label);
            },
            _ => {},
        }
        i += 1;
    }
    proof {
        assert(fields.deep_view().take(fields.len() as int) =~= fields.deep_view());
    }
    out
}

/// The severity labels of the artifact with these field groups.
pub fn map_severities(fields: &Vec<FieldGroup>) -> (r: Vec<String>)
    ensures
        r.deep_view() == severity_labels(fields.deep_view()),
{
    let mut out: Vec<String> = Vec::new();
    let mut i: usize = 0;
    proof {
        assert(out.deep_view() =~= severity_labels(fields.deep_view().take(0)));
    }
    while i < fields.len()
        invariant
            i <= fields.len(),
            out.deep_view() == severity_labels(fields.deep_view().take(i as int)),
        decreases fields.len() - i,
    {
        let ghost before = out.deep_view();
        proof {
            assert(fields.deep_view().take(i + 1).drop_last() =~= fields.deep_view().take(
                i as int,
            ));
        }
        match &fields[i] {
            FieldGroup::Severity(code) => {
                match label_for_severity(code.as_str()) {
                    Some(label) => {
                        out.push(label);
                        proof {
                            assert(out.deep_view() =~= before.push(label@));
                        }
                    },
                    None => {},
                }
            },
            _ => {},
        }
        i += 1;
    }
    proof {
        assert(fields.deep_view().take(fields.len() as int) =~= fields.deep_view());
    }
    out
}

/// The description of the issue made from an artifact with this submitter
/// and these field groups.
pub fn map_description(submitter: &str, fields: &Vec<FieldGroup>) -> (r: String)
    ensures
        r@ == description_of(submitter@, fields.deep_view()),
{
    let mut out = String::from_str(
        "Issue generated from Tuleap's migration script.\n**Originally submitted by: ",
    );
    out.append(submitter);
    out.append("**");
    let ghost header = out@;
    let mut i: usize = 0;
    proof {
        assert(out@ =~= header + submissions(fields.deep_view().take(0)));
    }
    while i < fields.len()
        invariant
            i <= fields.len(),
            out@ == header + submissions(fields.deep_view().take(i as int)),
        decreases fields.len() - i,
    {
        proof {
            assert(fields.deep_view().take(i + 1).drop_last() =~= fields.deep_view().take(
                i as int,
            ));
        }
        match &fields[i] {
            FieldGroup::Submission(body) => {
                let clean = sanitize(body.as_str());
                out.append("\n\n");
                out.append(clean.as_str());
                proof {
                    assert(out@ =~= header + (submissions(fields.deep_view().take(i as int))
                        + "\n\n"@ + sanitized(body@)));
                }
            },
            _ => {},
        }
        i += 1;
    }
    proof {
        assert(fields.deep_view().take(fields.len() as int) =~= fields.deep_view());
    }
    out
}

/// The files attached to the artifact with these field groups: what is to be
/// fetched before the issue can be assembled.
pub fn attachments_of(fields: &Vec<FieldGroup>) -> (r: Vec<AttachmentDescriptor>)
    ensures
        r.deep_view() == attached_files(fields.deep_view()),
{
    let mut out: Vec<AttachmentDescriptor> = Vec::new();
    let mut i: usize = 0;
    proof {
        assert(out.deep_view() =~= attached_files(fields.deep_view().take(0)));
    }
    while i < fields.len()
        invariant
            i <= fields.len(),
            out.deep_view() == attached_files(fields.deep_view().take(i as int)),
        decreases fields.len() - i,
    {
        proof {
            assert(fields.deep_view().take(i + 1).drop_last() =~= fields.deep_view().take(
                i as int,
            ));
        }
        match &fields[i] {
            FieldGroup::Attachments(files) => {
                let ghost before = out.deep_view();
                let mut k: usize = 0;
                while k < files.len()
                    invariant
                        k <= files.len(),
                        out.deep_view() == before + files.deep_view().take(k as int),
                    decreases files.len() - k,
                {
                    let ghost so_far = out.deep_view();
                    let file = AttachmentDescriptor {
                        name: files[k].name.clone(),
                        url: files[k].url.clone(),
                    };
                    out.push(file);
                    proof {
                        assert(out.deep_view() =~= so_far.push(files[k as int]@));
                        assert(before + files.deep_view().take(k + 1) =~= (before
                            + files.deep_view().take(k as int)).push(files[k as int]@));
                    }
                    k += 1;
                }
                proof {
                    assert(files.deep_view().take(files.len() as int) =~= files.deep_view());
                }
            },
            _ => {},
        }
        i += 1;
    }
    proof {
        assert(fields.deep_view().take(fields.len() as int) =~= fields.deep_view());
    }
    out
}

/// Turns a comment of the source into one of the target. No comment is
/// dropped, whatever its text.
pub fn transform_comment(comment: &SourceComment) -> (r: GitlabComment)
    ensures
        r@ == transformed(comment@),
{
    let mut body = String::from_str("**Submitted by ");
    body.append(comment.author.as_str());
    body.append("**\n\n");
    let clean = sanitize(comment.body.as_str());
    body.append(clean.as_str());
    GitlabComment { body, created_at: comment.submitted_on.clone() }
}

/// Turns the comments of the source into comments of the target, one for
/// each and in the same order.
pub fn transform_comments(comments: &Vec<SourceComment>) -> (r: Vec<GitlabComment>)
    ensures
        r.deep_view() == transformed_all(comments.deep_view()),
{
    let mut out: Vec<GitlabComment> = Vec::new();
    let mut i: usize = 0;
    while i < comments.len()
        invariant
            i <= comments.len(),
            out.len() == i,
            forall|j: int| 0 <= j < i ==> out[j]@ == transformed(#[trigger] comments[j]@),
        decreases comments.len() - i,
    {
        out.push(transform_comment(&comments[i]));
        i += 1;
    }
    proof {
        assert(out.deep_view() =~= transformed_all(comments.deep_view()));
    }
    out
}

/// Every severity label is one of the three tiers.
pub proof fn lemma_severity_labels_are_tiers(fields: Seq<FieldGroupView>)
    ensures
        forall|i: int|
            0 <= i < severity_labels(fields).len() ==> {
                let label = #[trigger] severity_labels(fields)[i];
                label == "Ordinary"@ || label == "Major"@ || label == "Critical"@
            },
    decreases fields.len(),
{
    if fields.len() > 0 {
        lemma_severity_labels_are_tiers(fields.drop_last());
        let before = severity_labels(fields.drop_last());
        assert forall|i: int| 0 <= i < severity_labels(fields).len() implies {
            let label = #[trigger] severity_labels(fields)[i];
            label == "Ordinary"@ || label == "Major"@ || label == "Critical"@
        } by {
            if i < before.len() {
                assert(severity_labels(fields)[i] == before[i]);
            }
        }
    }
}

/// The comments of the target stand in the order of the comments of the
/// source: there are as many, and each is made from the comment at its own
/// place.
pub proof fn lemma_comments_keep_order(comments: Seq<SourceCommentView>)
    ensures
        transformed_all(comments).len() == comments.len(),
        forall|i: int|
            0 <= i < comments.len() ==> #[trigger] transformed_all(comments)[i] == transformed(
                comments[i],
            ),
{
}

/// In the part of a description that comes from the source's submissions,
/// every markup control character stands directly behind a backslash: none
/// is left for the target's renderer to interpret.
pub proof fn lemma_submissions_guarded(fields: Seq<FieldGroupView>)
    ensures
        guarded(submissions(fields)),
    decreases fields.len(),
{
    if fields.len() > 0 {
        lemma_submissions_guarded(fields.drop_last());
        match fields.last() {
            FieldGroupView::Submission(body) => {
                reveal_strlit("\n\n");
                lemma_sanitized_guarded(body);
                lemma_guarded_add(submissions(fields.drop_last()), "\n\n"@);
                lemma_guarded_add(submissions(fields.drop_last()) + "\n\n"@, sanitized(body));
            },
            _ => {},
        }
    }
}

} // verus!
