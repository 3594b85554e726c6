//! The publishing of one issue, as a sequence of requests to the target and
//! of their outcomes: first the attachments are uploaded, then the issue is
//! created with their references in its description, then its comments are
//! sent in their order, and in the end it is closed if it is to be closed.
//! The caller sends each request and hands back what came of it.

use crate::gitlabclient::{
    close_url, created, issue_address, issues_url, joined, notes_url, project_address,
    upload_lines, uploaded, uploads_url, GitlabIssue, GitlabIssueView,
};
use crate::json::{json_parsed, number_member, text_member};
use crate::strings::{decimal, or_empty};
use vstd::prelude::*;

verus! {

/// How far the publishing of an issue has come.
#[derive(Clone, Debug, PartialEq, Eq)]
pub enum Publishing {
    /// The issue does not exist yet. `references` are what the target gave
    /// for the attachments uploaded so far. Awaited is the upload of the
    /// attachment that follows them, and after the last the creation of the
    /// issue.
    Preparing { references: Vec<String> },
    /// The issue exists under the number `iid`, and `sent` of its comments
    /// were sent. Awaited is the comment that follows them.
    Commenting { iid: u64, sent: usize },
    /// All comments were sent. Awaited is the closing of the issue.
    Closing { iid: u64 },
    /// The issue is published.
    Done,
    /// The issue is given up: an upload or the creation failed.
    Aborted,
}

/// What a [`Publishing`] holds.
pub enum PublishingView {
    Preparing { references: Seq<Seq<char>> },
    Commenting { iid: u64, sent: nat },
    Closing { iid: u64 },
    Done,
    Aborted,
}

impl View for Publishing {
    type V = PublishingView;

    open spec fn view(&self) -> PublishingView {
        match self {
            Publishing::Preparing { references } => PublishingView::Preparing {
                references: references.deep_view(),
            },
            Publishing::Commenting { iid, sent } => PublishingView::Commenting {
                iid: *iid,
                sent: *sent as nat,
            },
            Publishing::Closing { iid } => PublishingView::Closing { iid: *iid },
            Publishing::Done => PublishingView::Done,
            Publishing::Aborted => PublishingView::Aborted,
        }
    }
}

/// A request to the target.
#[derive(Clone, Debug, PartialEq, Eq)]
pub enum Post {
    /// Upload the file at the local path `path`.
    Upload { url: String, path: String },
    /// Create the issue.
    Create {
        url: String,
        title: String,
        description: String,
        assignee_id: String,
        created_at: String,
        labels: String,
    },
    /// Create a comment on the issue.
    Comment { url: String, body: String, created_at: String },
    /// Close the issue.
    Close { url: String },
    /// Nothing more.
    Nothing,
}

/// What a [`Post`] holds.
pub enum PostView {
    Upload { url: Seq<char>, path: Seq<char> },
    Create {
        url: Seq<char>,
        title: Seq<char>,
        description: Seq<char>,
        assignee_id: Seq<char>,
        created_at: Seq<char>,
        labels: Seq<char>,
    },
    Comment { url: Seq<char>, body: Seq<char>, created_at: Seq<char> },
    Close { url: Seq<char> },
    Nothing,
}

impl View for Post {
    type V = PostView;

    open spec fn view(&self) -> PostView {
        match self {
            Post::Upload { url, path } => PostView::Upload { url: url@, path: path@ },
            Post::Create {
                url,
                title,
                description,
                assignee_id,
                created_at,
                labels,
            } => PostView::Create {
                url: url@,
                title: title@,
                description: description@,
                assignee_id: assignee_id@,
                created_at: created_at@,
                labels: labels@,
            },
            Post::Comment { url, body, created_at } => PostView::Comment {
                url: url@,
                body: body@,
                created_at: created_at@,
            },
            Post::Close { url } => PostView::Close { url: url@ },
            Post::Nothing => PostView::Nothing,
        }
    }
}

/// What came of a request.
#[derive(Clone, Debug, PartialEq, Eq)]
pub enum Outcome {
    /// The target answered with this text.
    Answered(String),
    /// The request could not be sent, or no answer could be read.
    Failed,
}

/// The text of the target's answer, if there is one.
pub open spec fn answer_of(outcome: Outcome) -> Option<Seq<char>> {
    match outcome {
        Outcome::Answered(text) => Some(text@),
        Outcome::Failed => None,
    }
}

/// The reference to an uploaded file that an outcome gives: the text under
/// `markdown` of the answer, empty where the answer has none; `None` where
/// there is no answer or it is not JSON.
pub open spec fn reference_in(outcome: Outcome) -> Option<Seq<char>> {
    match answer_of(outcome) {
        Some(text) => match json_parsed(text) {
            Some(answer) => Some(or_empty(text_member(answer, "markdown"@))),
            None => None,
        },
        None => None,
    }
}

/// The number of the created issue that an outcome gives: the number under
/// `iid` of the answer, 0 where the answer has none; `None` where there is
/// no answer or it is not JSON.
pub open spec fn iid_in(outcome: Outcome) -> Option<u64> {
    match answer_of(outcome) {
        Some(text) => match json_parsed(text) {
            Some(answer) => Some(
                match number_member(answer, "iid"@) {
                    Some(iid) => iid,
                    None => 0u64,
                },
            ),
            None => None,
        },
        None => None,
    }
}

/// How far the publishing has come once `sent` comments of the issue `iid`
/// were sent: the next comment is due, or the closing, or nothing.
pub open spec fn after_comments(issue: GitlabIssueView, iid: u64, sent: nat) -> PublishingView {
    if sent < issue.comments.len() {
        PublishingView::Commenting { iid, sent }
    } else if issue.closed {
        PublishingView::Closing { iid }
    } else {
        PublishingView::Done
    }
}

/// The request that follows from how far the publishing has come.
pub open spec fn posted(
    state: PublishingView,
    issue: GitlabIssueView,
    gitlab_url: Seq<char>,
    token: Seq<char>,
) -> PostView {
    match state {
        PublishingView::Preparing { references } => if references.len()
            < issue.attachments.len() {
            PostView::Upload {
                url: project_address(gitlab_url, issue.project_url, "uploads"@, token),
                path: issue.attachments[references.len() as int],
            }
        } else {
            PostView::Create {
                url: project_address(gitlab_url, issue.project_url, "issues"@, token),
                title: issue.title,
                description: issue.description + upload_lines(references),
                assignee_id: issue.assignee,
                created_at: issue.created_at,
                labels: joined(issue.labels, ","@),
            }
        },
        PublishingView::Commenting { iid, sent } => if sent < issue.comments.len() {
            PostView::Comment {
                url: project_address(
                    gitlab_url,
                    issue.project_url,
                    "issues/"@ + decimal(iid as nat) + "/notes"@,
                    token,
                ),
                body: issue.comments[sent as int].body,
                created_at: issue.comments[sent as int].created_at,
            }
        } else {
            PostView::Nothing
        },
        PublishingView::Closing { iid } => PostView::Close {
            url: issue_address(gitlab_url, issue.project_url, iid as nat, token)
                + "&state_event=close"@,
        },
        PublishingView::Done => PostView::Nothing,
        PublishingView::Aborted => PostView::Nothing,
    }
}

/// How far the publishing has come once `outcome` has come of the request
/// that followed from `state`.
///
/// An upload that fails gives the issue up, and so does a creation that
/// fails. What comes of a comment or of the closing changes nothing: the
/// publishing goes on.
pub open spec fn published(
    state: PublishingView,
    issue: GitlabIssueView,
    outcome: Outcome,
) -> PublishingView {
    match state {
        PublishingView::Preparing { references } => if references.len()
            < issue.attachments.len() {
            match reference_in(outcome) {
                Some(reference) => PublishingView::Preparing {
                    references: references.push(reference),
                },
                None => PublishingView::Aborted,
            }
        } else {
            match iid_in(outcome) {
                Some(iid) => after_comments(issue, iid, 0),
                None => PublishingView::Aborted,
            }
        },
        PublishingView::Commenting { iid, sent } => after_comments(issue, iid, sent + 1),
        PublishingView::Closing { iid } => PublishingView::Done,
        PublishingView::Done => PublishingView::Done,
        PublishingView::Aborted => PublishingView::Aborted,
    }
}

/// The number of requests that are still to be sent, at most, before the
/// publishing ends.
pub open spec fn posts_left(state: PublishingView, issue: GitlabIssueView) -> nat {
    match state {
        PublishingView::Preparing { references } => if references.len()
            < issue.attachments.len() {
            (issue.attachments.len() - references.len() + issue.comments.len() + 2) as nat
        } else {
            issue.comments.len() + 2
        },
        PublishingView::Commenting { iid, sent } => if sent < issue.comments.len() {
            (issue.comments.len() - sent + 1) as nat
        } else {
            0
        },
        PublishingView::Closing { iid } => 1,
        PublishingView::Done => 0,
        PublishingView::Aborted => 0,
    }
}

fn next_after_comments(issue: &GitlabIssue, iid: u64, sent: usize) -> (r: Publishing)
    ensures
        r@ == after_comments(issue@, iid, sent as nat),
{
    if sent < issue.comments.len() {
        Publishing::Commenting { iid, sent }
    } else if issue.closed {
        Publishing::Closing { iid }
    } else {
        Publishing::Done
    }
}

impl Publishing {
    /// The publishing before anything was sent.
    pub fn start() -> (r: Publishing)
        ensures
            r@ == (PublishingView::Preparing { references: Seq::empty() }),
    {
        let references: Vec<String> = Vec::new();
        proof {
            assert(references.deep_view() =~= Seq::<Seq<char>>::empty());
        }
        Publishing::Preparing { references }
    }

    /// What is to be sent to the target next, for the issue `issue`.
    pub fn request(&self, issue: &GitlabIssue, gitlab_url: &str, token: &str) -> (r: Post)
        ensures
            r@ == posted(self@, issue@, gitlab_url@, token@),
    {
        match self {
            Publishing::Preparing { references } => {
                if references.len() < issue.attachments.len() {
                    Post::Upload {
                        url: uploads_url(gitlab_url, issue.project_url.as_str(), token),
                        path: issue.attachments[references.len()].clone(),
                    }
                } else {
                    Post::Create {
                        url: issues_url(gitlab_url, issue.project_url.as_str(), token),
                        title: issue.title.clone(),
                        description: issue.description_with_uploads(references),
                        assignee_id: issue.assignee.clone(),
                        created_at: issue.created_at.clone(),
                        labels: issue.label_list(),
                    }
                }
            },
            Publishing::Commenting { iid, sent } => {
                if *sent < issue.comments.len() {
                    let comment = &issue.comments[*sent];
                    Post::Comment {
                        url: notes_url(gitlab_url, issue.project_url.as_str(), *iid, token),
                        body: comment.body.clone(),
                        created_at: comment.created_at.clone(),
                    }
                } else {
                    Post::Nothing
                }
            },
            Publishing::Closing { iid } => Post::Close {
                url: close_url(gitlab_url, issue.project_url.as_str(), *iid, token),
            },
            Publishing::Done => Post::Nothing,
            Publishing::Aborted => Post::Nothing,
        }
    }

    /// Takes what came of the request that was due, and moves on.
    pub fn step(self, issue: &GitlabIssue, outcome: Outcome) -> (r: Publishing)
        ensures
            r@ == published(self@, issue@, outcome),
    {
        match self {
            Publishing::Preparing { references } => {
                if references.len() < issue.attachments.len() {
                    let reference = match &outcome {
                        Outcome::Answered(text) => uploaded(text.as_str()),
                        Outcome::Failed => None,
                    };
                    match reference {
                        Some(reference) => {
                            let ghost before = references.deep_view();
                            let mut references = references;
                            references.push(reference);
                            proof {
                                assert(references.deep_view() =~= before.push(reference@));
                            }
                            Publishing::Preparing { references }
                        },
                        None => Publishing::Aborted,
                    }
                } else {
                    let iid = match &outcome {
                        Outcome::Answered(text) => created(text.as_str()),
                        Outcome::Failed => None,
                    };
                    match iid {
                        Some(iid) => next_after_comments(issue, iid, 0),
                        None => Publishing::Aborted,
                    }
                }
            },
            Publishing::Commenting { iid, sent } => {
                if sent < issue.comments.len() {
                    next_after_comments(issue, iid, sent + 1)
                } else {
                    next_after_comments(issue, iid, sent)
                }
            },
            Publishing::Closing { iid: _ } => Publishing::Done,
            Publishing::Done => Publishing::Done,
            Publishing::Aborted => Publishing::Aborted,
        }
    }
}

/// Each outcome brings the end of the publishing nearer, and while the end
/// is not reached there is a request to send: an issue with `a` attachments
/// and `c` comments is published, or given up, after `a + c + 2` requests at
/// the latest.
pub proof fn lemma_outcome_brings_the_end_nearer(
    state: PublishingView,
    issue: GitlabIssueView,
    gitlab_url: Seq<char>,
    token: Seq<char>,
    outcome: Outcome,
)
    ensures
        posts_left(state, issue) > 0 ==> posts_left(published(state, issue, outcome), issue)
            < posts_left(state, issue),
        posts_left(state, issue) > 0 <==> !(posted(state, issue, gitlab_url, token) is Nothing),
{
}

/// The comments of an issue are sent in their order: once the issue exists
/// and `sent` comments were sent, the comment that is sent next is the one
/// at position `sent`, and after it `sent + 1` comments were sent.
pub proof fn lemma_comments_are_sent_in_order(
    issue: GitlabIssueView,
    gitlab_url: Seq<char>,
    token: Seq<char>,
    iid: u64,
    sent: nat,
    outcome: Outcome,
)
    requires
        sent < issue.comments.len(),
    ensures
        ({
            let state = PublishingView::Commenting { iid, sent };
            &&& posted(state, issue, gitlab_url, token) matches PostView::Comment {
                url,
                body,
                created_at,
            } && body == issue.comments[sent as int].body && created_at
                == issue.comments[sent as int].created_at
            &&& sent + 1 < issue.comments.len() ==> published(state, issue, outcome)
                == (PublishingView::Commenting { iid, sent: sent + 1 })
            &&& sent + 1 == issue.comments.len() ==> !(published(state, issue, outcome)
                is Commenting)
        }),
{
}

/// An issue is closed in the target if and only if it is to be closed: the
/// closing is asked for once all comments were sent, and only then.
pub proof fn lemma_closed_issues_are_closed(issue: GitlabIssueView, iid: u64)
    ensures
        after_comments(issue, iid, issue.comments.len()) is Closing <==> issue.closed,
        !issue.closed ==> after_comments(issue, iid, issue.comments.len()) is Done,
{
}

} // verus!
