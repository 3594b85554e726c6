//! Issue assembler: builds the target issues from the artifacts of the
//! source, one artifact at a time and in the order of the source.

use crate::gitlabclient::{GitlabIssue, GitlabIssueView};
use crate::lookup::LookupMap;
use crate::mapper::{
    assignee_of, description_of, find_status, last_status, map_assignee, map_description,
    map_project, map_severities, project_of, severity_labels, transform_comments,
    transformed_all,
};
use crate::source::{
    artifact_of, comment_of, comments_of, decode_artifact, decode_comments,
    lemma_comments_of_in_order, ArtifactError, FieldGroupView, SourceArtifact,
    SourceArtifactView, SourceComment, SourceCommentView,
};
use crate::status::{classified, classify, state_closed, state_labels};
use crate::text::{sanitize, sanitized};
use serde_json::Value;
use vstd::prelude::*;

verus! {

/// The issue that an artifact becomes, with its comments and with the local
/// paths of its attachments.
pub open spec fn assembled(
    artifact: SourceArtifactView,
    comments: Seq<SourceCommentView>,
    attachments: Seq<Seq<char>>,
    assignees: Map<Seq<char>, Seq<char>>,
    projects: Map<Seq<char>, Seq<char>>,
) -> GitlabIssueView {
    let state = classified(last_status(artifact.fields), artifact.last_modified);
    GitlabIssueView {
        title: sanitized(artifact.title),
        closed: state_closed(state),
        description: description_of(artifact.submitter, artifact.fields),
        assignee: assignee_of(artifact.fields, assignees),
        labels: severity_labels(artifact.fields) + state_labels(state),
        project_url: project_of(artifact.fields, projects),
        created_at: sanitized(artifact.submitted_on),
        comments: transformed_all(comments),
        attachments,
    }
}

/// A copy of each text of `texts`, in order.
pub fn copy_texts(texts: &Vec<String>) -> (r: Vec<String>)
    ensures
        r.deep_view() == texts.deep_view(),
{
    let mut out: Vec<String> = Vec::new();
    let mut i: usize = 0;
    while i < texts.len()
        invariant
            i <= texts.len(),
            out.len() == i,
            forall|j: int| 0 <= j < i ==> out[j]@ == texts[j]@,
        decreases texts.len() - i,
    {
        out.push(texts[i].clone());
        i += 1;
    }
    proof {
        assert(out.deep_view() =~= texts.deep_view());
    }
    out
}

/// Assembles the issue for one artifact from the artifact, its comments and
/// the local paths of its attachments.
pub fn assemble(
    artifact: &SourceArtifact,
    comments: &Vec<SourceComment>,
    attachments: &Vec<String>,
    assignees: &LookupMap,
    projects: &LookupMap,
) -> (r: GitlabIssue)
    ensures
        r@ == assembled(
            artifact@,
            comments.deep_view(),
            attachments.deep_view(),
            assignees@,
            projects@,
        ),
{
    let state = match find_status(&artifact.fields) {
        Some(status) => classify(Some(status.as_str()), artifact.last_modified),
        None => classify(None, artifact.last_modified),
    };
    let mut labels = map_severities(&artifact.fields);
    let mut added = state.labels();
    let ghost seeded = labels.deep_view();
    labels.append(&mut added);
    proof {
        assert(labels.deep_view() =~= seeded + state_labels(state));
    }
    GitlabIssue {
        title: sanitize(artifact.title.as_str()),
        closed: state.is_closed(),
        description: map_description(artifact.submitter.as_str(), &artifact.fields),
        assignee: map_assignee(&artifact.fields, assignees),
        labels,
        project_url: map_project(&artifact.fields, projects),
        created_at: sanitize(artifact.submitted_on.as_str()),
        comments: transform_comments(comments),
        attachments: copy_texts(attachments),
    }
}

/// What was fetched for one artifact.
pub struct Fetched {
    /// The artifact's detail record.
    pub details: Value,
    /// The artifact's comment records, in the order of the source.
    pub comments: Vec<Value>,
    /// The local paths of the attachments that could be fetched and stored.
    pub attachments: Vec<String>,
}

/// What a [`Fetched`] holds.
pub struct FetchedView {
    pub details: Value,
    pub comments: Seq<Value>,
    pub attachments: Seq<Seq<char>>,
}

impl View for Fetched {
    type V = FetchedView;

    open spec fn view(&self) -> FetchedView {
        FetchedView {
            details: self.details,
            comments: self.comments@,
            attachments: self.attachments.deep_view(),
        }
    }
}

impl DeepView for Fetched {
    type V = FetchedView;

    open spec fn deep_view(&self) -> FetchedView {
        self@
    }
}

/// What becomes of one artifact: its issue, or the reason why it cannot be
/// migrated. A record without a submitter comes before a comment without an
/// author.
pub open spec fn migrated(
    summary: Value,
    fetched: Fetched,
    assignees: Map<Seq<char>, Seq<char>>,
    projects: Map<Seq<char>, Seq<char>>,
) -> Result<GitlabIssueView, ArtifactError> {
    match artifact_of(summary, fetched.details) {
        Err(e) => Err(e),
        Ok(artifact) => match comments_of(fetched.comments@) {
            Err(e) => Err(e),
            Ok(comments) => Ok(
                assembled(
                    artifact,
                    comments,
                    fetched.attachments.deep_view(),
                    assignees,
                    projects,
                ),
            ),
        },
    }
}

/// The issues of the first `n` artifacts, in the order of the artifacts. An
/// artifact for which nothing was fetched, or which cannot be migrated, has
/// no issue; it takes none of the others with it.
pub open spec fn migrated_first(
    summaries: Seq<Value>,
    fetched: Seq<Option<Fetched>>,
    n: nat,
    assignees: Map<Seq<char>, Seq<char>>,
    projects: Map<Seq<char>, Seq<char>>,
) -> Seq<GitlabIssueView>
    decreases n,
{
    if n == 0 {
        Seq::empty()
    } else {
        let before = migrated_first(summaries, fetched, (n - 1) as nat, assignees, projects);
        match fetched[n - 1] {
            Some(f) => match migrated(summaries[n - 1], f, assignees, projects) {
                Ok(issue) => before.push(issue),
                Err(_) => before,
            },
            None => before,
        }
    }
}

/// The number of artifacts that stand beside an entry of what was fetched.
pub open spec fn paired(summaries: Seq<Value>, fetched: Seq<Option<Fetched>>) -> nat {
    if summaries.len() <= fetched.len() {
        summaries.len()
    } else {
        fetched.len()
    }
}

/// Makes the transition between the source tracker and the target: holds the
/// summaries of all artifacts and the configuration, and builds the issues.
pub struct IssueRetriever {
    all_artifacts: Vec<Value>,
    assignees_map: LookupMap,
    project_map: LookupMap,
    file_dir: String,
}

impl IssueRetriever {
    /// The summary records of the artifacts, in the order of the source.
    pub closed spec fn artifacts(&self) -> Seq<Value> {
        self.all_artifacts@
    }

    /// The table from user names of the source to user ids of the target.
    pub closed spec fn assignees(&self) -> Map<Seq<char>, Seq<char>> {
        self.assignees_map@
    }

    /// The table from platform names of the source to project ids of the
    /// target.
    pub closed spec fn projects(&self) -> Map<Seq<char>, Seq<char>> {
        self.project_map@
    }

    /// The directory under which attachments are stored.
    pub closed spec fn attachment_root(&self) -> Seq<char> {
        self.file_dir@
    }

    /// A retriever for the artifacts with these summary records, with the
    /// tables and the attachment directory of the configuration.
    pub fn new(
        all_artifacts: Vec<Value>,
        assignees_map: LookupMap,
        project_map: LookupMap,
        file_dir: String,
    ) -> (r: IssueRetriever)
        ensures
            r.artifacts() == all_artifacts@,
            r.assignees() == assignees_map@,
            r.projects() == project_map@,
            r.attachment_root() == file_dir@,
    {
        IssueRetriever { all_artifacts, assignees_map, project_map, file_dir }
    }

    /// The summary records of the artifacts.
    pub fn summaries(&self) -> (r: &Vec<Value>)
        ensures
            r@ == self.artifacts(),
    {
        &self.all_artifacts
    }

    /// The directory under which attachments are stored.
    pub fn file_dir(&self) -> (r: &String)
        ensures
            r@ == self.attachment_root(),
    {
        &self.file_dir
    }

    /// Migrates one artifact: decodes what was fetched for it and assembles
    /// its issue.
    pub fn migrate(&self, summary: &Value, fetched: &Fetched) -> (r: Result<
        GitlabIssue,
        ArtifactError,
    >)
        ensures
            match r {
                Ok(issue) => migrated(*summary, *fetched, self.assignees(), self.projects())
                    == Ok::<GitlabIssueView, ArtifactError>(issue@),
                Err(e) => migrated(*summary, *fetched, self.assignees(), self.projects())
                    == Err::<GitlabIssueView, ArtifactError>(e),
            },
    {
        let artifact = match decode_artifact(summary, &fetched.details) {
            Ok(artifact) => artifact,
            Err(e) => {
                return Err(e);
            },
        };
        let comments = match decode_comments(&fetched.comments) {
            Ok(comments) => comments,
            Err(e) => {
                return Err(e);
            },
        };
        Ok(
            assemble(
                &artifact,
                &comments,
                &fetched.attachments,
                &self.assignees_map,
                &self.project_map,
            ),
        )
    }

    /// Builds the issues of the target from what was fetched for the
    /// artifacts: entry `i` of `fetched` belongs to artifact `i`, and is
    /// `None` where fetching failed. The issues come in the order of the
    /// artifacts. An artifact that cannot be migrated is left out, and the
    /// others are migrated all the same.
    pub fn tuleap_to_gitlab(&self, fetched: &Vec<Option<Fetched>>) -> (r: Vec<GitlabIssue>)
        ensures
            r.deep_view() == migrated_first(
                self.artifacts(),
                fetched@,
                paired(self.artifacts(), fetched@),
                self.assignees(),
                self.projects(),
            ),
    {
        let mut gitlab_issues: Vec<GitlabIssue> = Vec::new();
        let n = if self.all_artifacts.len() <= fetched.len() {
            self.all_artifacts.len()
        } else {
            fetched.len()
        };
        let mut i: usize = 0;
        proof {
            assert(gitlab_issues.deep_view() =~= Seq::<GitlabIssueView>::empty());
        }
        while i < n
            invariant
                i <= n,
                n == paired(self.artifacts(), fetched@),
                self.artifacts() == self.all_artifacts@,
                self.assignees() == self.assignees_map@,
                self.projects() == self.project_map@,
                gitlab_issues.deep_view() == migrated_first(
                    self.artifacts(),
                    fetched@,
                    i as nat,
                    self.assignees(),
                    self.projects(),
                ),
            decreases n - i,
        {
            let ghost before = gitlab_issues.deep_view();
            match &fetched[i] {
                Some(f) => {
                    match self.migrate(&self.all_artifacts[i], f) {
                        Ok(issue) => {
                            gitlab_issues.push(issue);
                            proof {
                                assert(gitlab_issues.deep_view() =~= before.push(issue@));
                            }
                        },
                        Err(_) => {},
                    }
                },
                None => {},
            }
            i += 1;
        }
        gitlab_issues
    }
}

/// Neither `zombie` nor `invalid` is a severity label.
proof fn lemma_severity_labels_hold_no_state_label(fields: Seq<FieldGroupView>)
    ensures
        !severity_labels(fields).contains("zombie"@),
        !severity_labels(fields).contains("invalid"@),
{
    reveal_strlit("zombie");
    reveal_strlit("invalid");
    reveal_strlit("Ordinary");
    reveal_strlit("Major");
    reveal_strlit("Critical");
    crate::mapper::lemma_severity_labels_are_tiers(fields);
    let labels = severity_labels(fields);
    assert forall|i: int| 0 <= i < labels.len() implies labels[i] != "zombie"@ && labels[i]
        != "invalid"@ by {
        let label = labels[i];
        assert(label.len() == 8 || label.len() == 5);
    }
}

/// An artifact that the source has as declined becomes a closed issue that
/// bears the label `invalid`.
pub proof fn lemma_declined_is_closed_and_invalid(
    artifact: SourceArtifactView,
    comments: Seq<SourceCommentView>,
    attachments: Seq<Seq<char>>,
    assignees: Map<Seq<char>, Seq<char>>,
    projects: Map<Seq<char>, Seq<char>>,
)
    requires
        last_status(artifact.fields) == Some("Declined"@),
    ensures
        assembled(artifact, comments, attachments, assignees, projects).closed,
        assembled(artifact, comments, attachments, assignees, projects).labels.contains(
            "invalid"@,
        ),
{
    let labels = assembled(artifact, comments, attachments, assignees, projects).labels;
    assert(labels[labels.len() - 1] == "invalid"@);
}

/// An artifact that the source has as done becomes a closed issue that bears
/// neither the label `zombie` nor the label `invalid`.
pub proof fn lemma_done_is_closed_without_state_label(
    artifact: SourceArtifactView,
    comments: Seq<SourceCommentView>,
    attachments: Seq<Seq<char>>,
    assignees: Map<Seq<char>, Seq<char>>,
    projects: Map<Seq<char>, Seq<char>>,
)
    requires
        last_status(artifact.fields) == Some("Done"@),
    ensures
        assembled(artifact, comments, attachments, assignees, projects).closed,
        !assembled(artifact, comments, attachments, assignees, projects).labels.contains(
            "zombie"@,
        ),
        !assembled(artifact, comments, attachments, assignees, projects).labels.contains(
            "invalid"@,
        ),
{
    reveal_strlit("Done");
    reveal_strlit("Declined");
    assert("Done"@.len() != "Declined"@.len());
    assert(classified(last_status(artifact.fields), artifact.last_modified)
        == crate::status::IssueState::ClosedDone);
    lemma_severity_labels_hold_no_state_label(artifact.fields);
    assert(assembled(artifact, comments, attachments, assignees, projects).labels
        =~= severity_labels(artifact.fields));
}

/// An artifact that the source has neither as done nor as declined, and that
/// was last modified before the cutoff, becomes a closed issue that bears the
/// label `zombie`.
pub proof fn lemma_stale_is_closed_and_zombie(
    artifact: SourceArtifactView,
    comments: Seq<SourceCommentView>,
    attachments: Seq<Seq<char>>,
    assignees: Map<Seq<char>, Seq<char>>,
    projects: Map<Seq<char>, Seq<char>>,
)
    requires
        last_status(artifact.fields) matches Some(s) && s != "Done"@ && s != "Declined"@,
        artifact.last_modified matches Some(t) && t < crate::status::CUTOFF,
    ensures
        assembled(artifact, comments, attachments, assignees, projects).closed,
        assembled(artifact, comments, attachments, assignees, projects).labels.contains(
            "zombie"@,
        ),
{
    let labels = assembled(artifact, comments, attachments, assignees, projects).labels;
    assert(labels[labels.len() - 1] == "zombie"@);
}

/// An artifact that the source has neither as done nor as declined, and that
/// was last modified at the cutoff or after it, becomes an open issue. So
/// does one whose moment of last modification is not known, and one without
/// a status.
pub proof fn lemma_recent_stays_open(
    artifact: SourceArtifactView,
    comments: Seq<SourceCommentView>,
    attachments: Seq<Seq<char>>,
    assignees: Map<Seq<char>, Seq<char>>,
    projects: Map<Seq<char>, Seq<char>>,
)
    requires
        last_status(artifact.fields) != Some("Done"@),
        last_status(artifact.fields) != Some("Declined"@),
        !(artifact.last_modified matches Some(t) && t < crate::status::CUTOFF),
    ensures
        !assembled(artifact, comments, attachments, assignees, projects).closed,
{
}

/// An issue that bears the label `zombie` or the label `invalid` is closed.
pub proof fn lemma_state_label_means_closed(
    artifact: SourceArtifactView,
    comments: Seq<SourceCommentView>,
    attachments: Seq<Seq<char>>,
    assignees: Map<Seq<char>, Seq<char>>,
    projects: Map<Seq<char>, Seq<char>>,
)
    ensures
        ({
            let issue = assembled(artifact, comments, attachments, assignees, projects);
            issue.labels.contains("zombie"@) || issue.labels.contains("invalid"@) ==> issue.closed
        }),
{
    let issue = assembled(artifact, comments, attachments, assignees, projects);
    if !issue.closed {
        lemma_severity_labels_hold_no_state_label(artifact.fields);
        assert(issue.labels =~= severity_labels(artifact.fields));
    }
}

/// The comments of an assembled issue stand in the order of the source's
/// comments: there are as many, and each is made from the comment at its own
/// place.
pub proof fn lemma_assembled_comments_keep_order(
    artifact: SourceArtifactView,
    comments: Seq<SourceCommentView>,
    attachments: Seq<Seq<char>>,
    assignees: Map<Seq<char>, Seq<char>>,
    projects: Map<Seq<char>, Seq<char>>,
)
    ensures
        ({
            let issue = assembled(artifact, comments, attachments, assignees, projects);
            &&& issue.comments.len() == comments.len()
            &&& forall|i: int|
                0 <= i < comments.len() ==> #[trigger] issue.comments[i]
                    == crate::mapper::transformed(comments[i])
        }),
{
}

/// The comments of a migrated artifact stand in the order of its comment
/// records: there are as many, and each is made from the record at its own
/// place.
pub proof fn lemma_migrated_comments_keep_order(
    summary: Value,
    fetched: Fetched,
    assignees: Map<Seq<char>, Seq<char>>,
    projects: Map<Seq<char>, Seq<char>>,
)
    requires
        migrated(summary, fetched, assignees, projects) is Ok,
    ensures
        ({
            let issue = migrated(summary, fetched, assignees, projects)->Ok_0;
            let records = fetched.comments@;
            &&& issue.comments.len() == records.len()
            &&& forall|i: int|
                0 <= i < records.len() ==> comment_of(#[trigger] records[i]) is Ok
                    && issue.comments[i] == crate::mapper::transformed(
                    comment_of(records[i])->Ok_0,
                )
        }),
{
    lemma_comments_of_in_order(fetched.comments@);
}

/// Where something was fetched for each of the first `n` artifacts and each
/// of them can be migrated, their issues are `n`, and issue `i` is that of
/// artifact `i`: the order of the source is kept.
pub proof fn lemma_issues_keep_order(
    summaries: Seq<Value>,
    fetched: Seq<Option<Fetched>>,
    n: nat,
    assignees: Map<Seq<char>, Seq<char>>,
    projects: Map<Seq<char>, Seq<char>>,
)
    requires
        n <= summaries.len(),
        n <= fetched.len(),
        forall|i: int|
            0 <= i < n ==> (#[trigger] fetched[i]) is Some && migrated(
                summaries[i],
                fetched[i]->0,
                assignees,
                projects,
            ) is Ok,
    ensures
        migrated_first(summaries, fetched, n, assignees, projects).len() == n,
        forall|i: int|
            0 <= i < n ==> Ok::<GitlabIssueView, ArtifactError>(
                #[trigger] migrated_first(summaries, fetched, n, assignees, projects)[i],
            ) == migrated(summaries[i], fetched[i]->0, assignees, projects),
    decreases n,
{
    if n > 0 {
        lemma_issues_keep_order(summaries, fetched, (n - 1) as nat, assignees, projects);
        assert(fetched[n - 1] is Some);
    }
}

/// The assignee and the project of an assembled issue are what the tables
/// give for the artifact's user name and platform, and empty where a table
/// does not hold the name: a miss is no failure.
pub proof fn lemma_lookups_hit_or_leave_empty(
    artifact: SourceArtifactView,
    comments: Seq<SourceCommentView>,
    attachments: Seq<Seq<char>>,
    assignees: Map<Seq<char>, Seq<char>>,
    projects: Map<Seq<char>, Seq<char>>,
)
    ensures
        ({
            let issue = assembled(artifact, comments, attachments, assignees, projects);
            &&& crate::mapper::last_assignee(artifact.fields) matches Some(name) ==> issue.assignee
                == if assignees.contains_key(name) {
                assignees[name]
            } else {
                Seq::empty()
            }
            &&& crate::mapper::last_platform(artifact.fields) matches Some(name)
                ==> issue.project_url == if projects.contains_key(name) {
                projects[name]
            } else {
                Seq::empty()
            }
            &&& crate::mapper::last_assignee(artifact.fields) is None ==> issue.assignee.len() == 0
            &&& crate::mapper::last_platform(artifact.fields) is None ==> issue.project_url.len()
                == 0
        }),
{
}

/// The issues of the first `n` artifacts depend on nothing but those
/// artifacts and what was fetched for them.
pub proof fn lemma_issues_of_the_first(
    summaries: Seq<Value>,
    fetched: Seq<Option<Fetched>>,
    other_summaries: Seq<Value>,
    other_fetched: Seq<Option<Fetched>>,
    n: nat,
    assignees: Map<Seq<char>, Seq<char>>,
    projects: Map<Seq<char>, Seq<char>>,
)
    requires
        forall|i: int| 0 <= i < n ==> summaries[i] == other_summaries[i],
        forall|i: int| 0 <= i < n ==> fetched[i] == other_fetched[i],
    ensures
        migrated_first(summaries, fetched, n, assignees, projects) == migrated_first(
            other_summaries,
            other_fetched,
            n,
            assignees,
            projects,
        ),
    decreases n,
{
    if n > 0 {
        lemma_issues_of_the_first(
            summaries,
            fetched,
            other_summaries,
            other_fetched,
            (n - 1) as nat,
            assignees,
            projects,
        );
    }
}

/// An artifact that fails takes no other with it: the issues are those that
/// would have been built had the artifact not been there at all.
pub proof fn lemma_failed_artifact_takes_no_other(
    summaries: Seq<Value>,
    fetched: Seq<Option<Fetched>>,
    n: nat,
    k: int,
    assignees: Map<Seq<char>, Seq<char>>,
    projects: Map<Seq<char>, Seq<char>>,
)
    requires
        n <= summaries.len(),
        n <= fetched.len(),
        0 <= k < n,
        fetched[k] is None || migrated(summaries[k], fetched[k]->0, assignees, projects) is Err,
    ensures
        migrated_first(summaries, fetched, n, assignees, projects) == migrated_first(
            summaries.remove(k),
            fetched.remove(k),
            (n - 1) as nat,
            assignees,
            projects,
        ),
    decreases n,
{
    if k == n - 1 {
        lemma_issues_of_the_first(
            summaries,
            fetched,
            summaries.remove(k),
            fetched.remove(k),
            (n - 1) as nat,
            assignees,
            projects,
        );
    } else {
        lemma_failed_artifact_takes_no_other(
            summaries,
            fetched,
            (n - 1) as nat,
            k,
            assignees,
            projects,
        );
        assert(summaries.remove(k)[n - 2] == summaries[n - 1]);
        assert(fetched.remove(k)[n - 2] == fetched[n - 1]);
    }
}

} // verus!
