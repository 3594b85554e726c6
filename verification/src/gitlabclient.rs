//! The target tracker's issue and comment, as the transformation hands them
//! to a publisher, the addresses at which the target takes them, and what is
//! read from its answers.

use crate::json::{json_parsed, number_member, parse, read_number, read_text, text_member};
use crate::strings::{decimal, decimal_string, or_empty, text_or_empty};
use serde_json::Value;
use vstd::prelude::*;

verus! {

/// A comment of the target tracker.
#[derive(Clone, Debug, PartialEq, Eq)]
pub struct GitlabComment {
    /// Markup text that opens with a header naming the author.
    pub body: String,
    /// When the comment was written, as the source gave it.
    pub created_at: String,
}

/// What a [`GitlabComment`] holds.
pub struct GitlabCommentView {
    pub body: Seq<char>,
    pub created_at: Seq<char>,
}

impl View for GitlabComment {
    type V = GitlabCommentView;

    open spec fn view(&self) -> GitlabCommentView {
        GitlabCommentView { body: self.body@, created_at: self.created_at@ }
    }
}

impl DeepView for GitlabComment {
    type V = GitlabCommentView;

    open spec fn deep_view(&self) -> GitlabCommentView {
        self@
    }
}

/// An issue of the target tracker.
#[derive(Clone, Debug, PartialEq, Eq)]
pub struct GitlabIssue {
    pub title: String,
    /// Whether the issue is to be closed once it has been created.
    pub closed: bool,
    /// Markup text.
    pub description: String,
    /// The target's id of the user the issue is assigned to; empty for none.
    pub assignee: String,
    pub labels: Vec<String>,
    /// The target's id of the project the issue belongs to; empty for none.
    pub project_url: String,
    pub created_at: String,
    /// In the order in which the source returned them.
    pub comments: Vec<GitlabComment>,
    /// Local paths of the files attached to the issue.
    pub attachments: Vec<String>,
}

/// What a [`GitlabIssue`] holds.
pub struct GitlabIssueView {
    pub title: Seq<char>,
    pub closed: bool,
    pub description: Seq<char>,
    pub assignee: Seq<char>,
    pub labels: Seq<Seq<char>>,
    pub project_url: Seq<char>,
    pub created_at: Seq<char>,
    pub comments: Seq<GitlabCommentView>,
    pub attachments: Seq<Seq<char>>,
}

impl View for GitlabIssue {
    type V = GitlabIssueView;

    open spec fn view(&self) -> GitlabIssueView {
        GitlabIssueView {
            title: self.title@,
            closed: self.closed,
            description: self.description@,
            assignee: self.assignee@,
            labels: self.labels.deep_view(),
            project_url: self.project_url@,
            created_at: self.created_at@,
            comments: self.comments.deep_view(),
            attachments: self.attachments.deep_view(),
        }
    }
}

impl DeepView for GitlabIssue {
    type V = GitlabIssueView;

    open spec fn deep_view(&self) -> GitlabIssueView {
        self@
    }
}

/// The texts of `items` in order, with `separator` between each two.
pub open spec fn joined(items: Seq<Seq<char>>, separator: Seq<char>) -> Seq<char>
    decreases items.len(),
{
    if items.len() == 0 {
        Seq::empty()
    } else if items.len() == 1 {
        items[0]
    } else {
        joined(items.drop_last(), separator) + separator + items.last()
    }
}

/// The references to uploaded files as they are put behind a description:
/// each on a line of its own, behind a hard line break.
pub open spec fn upload_lines(references: Seq<Seq<char>>) -> Seq<char>
    decreases references.len(),
{
    if references.len() == 0 {
        Seq::empty()
    } else {
        upload_lines(references.drop_last()) + "  \n"@ + references.last()
    }
}

/// How a truth value is written.
pub open spec fn truth_text(b: bool) -> Seq<char> {
    if b {
        "true"@
    } else {
        "false"@
    }
}

impl GitlabComment {
    /// The comment on one line, for a log: its text and its date in round
    /// brackets.
    pub fn to_string(&self) -> (r: String)
        ensures
            r@ == "("@ + self.body@ + ", "@ + self.created_at@ + ")"@,
    {
        let mut out = String::from_str("(");
        out.append(self.body.as_str());
        out.append(", ");
        out.append(self.created_at.as_str());
        out.append(")");
        out
    }
}

impl GitlabIssue {
    /// The issue in short, for a log: title, whether it is closed, assignee,
    /// date and description.
    pub fn to_string(&self) -> (r: String)
        ensures
            r@ == self.title@ + " ("@ + truth_text(self.closed) + ") assigned to "@
                + self.assignee@ + "\n"@ + self.created_at@ + "\n"@ + self.description@,
    {
        let mut out = self.title.clone();
        out.append(" (");
        if self.closed {
            out.append("true");
        } else {
            out.append("false");
        }
        out.append(") assigned to ");
        out.append(self.assignee.as_str());
        out.append("\n");
        out.append(self.created_at.as_str());
        out.append("\n");
        out.append(self.description.as_str());
        out
    }

    /// The labels as the target takes them: in one text, with commas
    /// between them.
    pub fn label_list(&self) -> (r: String)
        ensures
            r@ == joined(self.labels.deep_view(), ","@),
    {
        let mut out = String::new();
        let mut i: usize = 0;
        while i < self.labels.len()
            invariant
                i <= self.labels.len(),
                out@ == joined(self.labels.deep_view().take(i as int), ","@),
            decreases self.labels.len() - i,
        {
            proof {
                assert(self.labels.deep_view().take(i + 1).drop_last()
                    =~= self.labels.deep_view().take(i as int));
            }
            if i > 0 {
                out.append(",");
            } else {
                proof {
                    assert(out@ + self.labels[0]@ =~= self.labels[0]@);
                }
            }
            out.append(self.labels[i].as_str());
            i += 1;
        }
        proof {
            assert(self.labels.deep_view().take(self.labels.len() as int)
                =~= self.labels.deep_view());
        }
        out
    }

    /// The description as it is sent: the issue's own, then the references
    /// that the target gave for the uploaded attachments, in their order.
    pub fn description_with_uploads(&self, references: &Vec<String>) -> (r: String)
        ensures
            r@ == self.description@ + upload_lines(references.deep_view()),
    {
        let mut out = self.description.clone();
        let mut i: usize = 0;
        proof {
            assert(out@ =~= self.description@ + upload_lines(references.deep_view().take(0)));
        }
        while i < references.len()
            invariant
                i <= references.len(),
                out@ == self.description@ + upload_lines(references.deep_view().take(i as int)),
            decreases references.len() - i,
        {
            proof {
                assert(references.deep_view().take(i + 1).drop_last()
                    =~= references.deep_view().take(i as int));
            }
            out.append("  \n");
            out.append(references[i].as_str());
            proof {
                assert(out@ =~= self.description@ + (upload_lines(
                    references.deep_view().take(i as int),
                ) + "  \n"@ + references[i as int]@));
            }
            i += 1;
        }
        proof {
            assert(references.deep_view().take(references.len() as int)
                =~= references.deep_view());
        }
        out
    }
}

/// Where the target keeps what belongs to project `project`; `token`
/// grants the access.
pub open spec fn project_address(
    gitlab_url: Seq<char>,
    project: Seq<char>,
    what: Seq<char>,
    token: Seq<char>,
) -> Seq<char> {
    gitlab_url + "/api/v4/projects/"@ + project + "/"@ + what + "?private_token="@ + token
}

/// Where the target keeps what belongs to issue `iid` of project `project`.
pub open spec fn issue_address(
    gitlab_url: Seq<char>,
    project: Seq<char>,
    iid: nat,
    token: Seq<char>,
) -> Seq<char> {
    project_address(gitlab_url, project, "issues/"@ + decimal(iid), token)
}

/// Where the target lists the issues of all projects, open and closed.
pub open spec fn listing_address(gitlab_url: Seq<char>, token: Seq<char>) -> Seq<char> {
    gitlab_url + "/api/v4/issues/?private_token="@ + token + "&state=all&scope=all"@
}

fn project_url(gitlab_url: &str, project: &str, what: &str, token: &str) -> (r: String)
    ensures
        r@ == project_address(gitlab_url@, project@, what@, token@),
{
    let mut out = String::from_str(gitlab_url);
    out.append("/api/v4/projects/");
    out.append(project);
    out.append("/");
    out.append(what);
    out.append("?private_token=");
    out.append(token);
    out
}

/// The address at which labels of a project are created.
pub fn labels_url(gitlab_url: &str, project: &str, token: &str) -> (r: String)
    ensures
        r@ == project_address(gitlab_url@, project@, "labels"@, token@),
{
    project_url(gitlab_url, project, "labels", token)
}

/// The address at which issues of a project are created.
pub fn issues_url(gitlab_url: &str, project: &str, token: &str) -> (r: String)
    ensures
        r@ == project_address(gitlab_url@, project@, "issues"@, token@),
{
    project_url(gitlab_url, project, "issues", token)
}

/// The address at which files are uploaded to a project.
pub fn uploads_url(gitlab_url: &str, project: &str, token: &str) -> (r: String)
    ensures
        r@ == project_address(gitlab_url@, project@, "uploads"@, token@),
{
    project_url(gitlab_url, project, "uploads", token)
}

/// The address of issue `iid` of a project: where it is deleted.
pub fn issue_url(gitlab_url: &str, project: &str, iid: u64, token: &str) -> (r: String)
    ensures
        r@ == issue_address(gitlab_url@, project@, iid as nat, token@),
{
    let mut what = String::from_str("issues/");
    what.append(decimal_string(iid).as_str());
    project_url(gitlab_url, project, what.as_str(), token)
}

/// The address at which comments on issue `iid` of a project are created.
pub fn notes_url(gitlab_url: &str, project: &str, iid: u64, token: &str) -> (r: String)
    ensures
        r@ == project_address(
            gitlab_url@,
            project@,
            "issues/"@ + decimal(iid as nat) + "/notes"@,
            token@,
        ),
{
    let mut what = String::from_str("issues/");
    what.append(decimal_string(iid).as_str());
    what.append("/notes");
    project_url(gitlab_url, project, what.as_str(), token)
}

/// The address that closes issue `iid` of a project.
pub fn close_url(gitlab_url: &str, project: &str, iid: u64, token: &str) -> (r: String)
    ensures
        r@ == issue_address(gitlab_url@, project@, iid as nat, token@) + "&state_event=close"@,
{
    let mut out = issue_url(gitlab_url, project, iid, token);
    out.append("&state_event=close");
    out
}

/// The address of the listing of all issues.
pub fn listing_url(gitlab_url: &str, token: &str) -> (r: String)
    ensures
        r@ == listing_address(gitlab_url@, token@),
{
    let mut out = String::from_str(gitlab_url);
    out.append("/api/v4/issues/?private_token=");
    out.append(token);
    out.append("&state=all&scope=all");
    out
}

/// The reference to an uploaded file that the target's answer to the upload
/// gives: the text under `markdown`, and the empty text where there is none.
pub fn upload_reference(answer: &Value) -> (r: String)
    ensures
        r@ == or_empty(text_member(*answer, "markdown"@)),
{
    text_or_empty(read_text(answer, "markdown"))
}

/// The number under which the target created an issue, as its answer gives
/// it: the number under `iid`, and 0 where there is none.
pub fn created_iid(answer: &Value) -> (r: u64)
    ensures
        r == match number_member(*answer, "iid"@) {
            Some(iid) => iid,
            None => 0u64,
        },
{
    match read_number(answer, "iid") {
        Some(iid) => iid,
        None => 0,
    }
}

/// What the target's answer to an upload says: the reference to the file,
/// and `None` where the answer is not JSON, which fails the issue.
pub fn uploaded(body: &str) -> (r: Option<String>)
    ensures
        r.deep_view() == match json_parsed(body@) {
            Some(answer) => Some(or_empty(text_member(answer, "markdown"@))),
            None => None,
        },
{
    match parse(body) {
        Some(answer) => Some(upload_reference(&answer)),
        None => None,
    }
}

/// What the target's answer to the creation of an issue says: the number of
/// the issue, and `None` where the answer is not JSON, which fails the
/// issue.
pub fn created(body: &str) -> (r: Option<u64>)
    ensures
        r == match json_parsed(body@) {
            Some(answer) => Some(
                match number_member(answer, "iid"@) {
                    Some(iid) => iid,
                    None => 0u64,
                },
            ),
            None => None,
        },
{
    match parse(body) {
        Some(answer) => Some(created_iid(&answer)),
        None => None,
    }
}

/// The project and the number of an issue of the target's listing, if the
/// entry gives both.
pub fn listed_issue(entry: &Value) -> (r: Option<(u64, u64)>)
    ensures
        r == match (number_member(*entry, "project_id"@), number_member(*entry, "iid"@)) {
            (Some(project), Some(iid)) => Some((project, iid)),
            _ => None,
        },
{
    match read_number(entry, "project_id") {
        Some(project) => match read_number(entry, "iid") {
            Some(iid) => Some((project, iid)),
            None => None,
        },
        None => None,
    }
}

/// The name and the color of a label of the configuration; what it lacks is
/// empty.
pub fn label_fields(label: &Value) -> (r: (String, String))
    ensures
        r.0@ == or_empty(text_member(*label, "name"@)),
        r.1@ == or_empty(text_member(*label, "color"@)),
{
    (text_or_empty(read_text(label, "name")), text_or_empty(read_text(label, "color")))
}

} // verus!
