//! The source tracker's records, decoded from the JSON in which the tracker
//! returns them into what the transformation reads.

use crate::json::{
    json_is_object, json_items, json_member, json_text, json_u64, member, read_text, text_member,
};
use crate::status::{parse_timestamp, rfc3339_timestamp};
use crate::strings::{decimal, decimal_string, or_empty, same_text, text_or_empty};
use serde_json::Value;
use vstd::prelude::*;

verus! {

/// A file attached to an artifact: its name, and where the tracker serves it.
#[derive(Clone, Debug, PartialEq, Eq)]
pub struct AttachmentDescriptor {
    pub name: String,
    pub url: String,
}

/// What an [`AttachmentDescriptor`] holds.
pub struct AttachmentDescriptorView {
    pub name: Seq<char>,
    pub url: Seq<char>,
}

impl View for AttachmentDescriptor {
    type V = AttachmentDescriptorView;

    open spec fn view(&self) -> AttachmentDescriptorView {
        AttachmentDescriptorView { name: self.name@, url: self.url@ }
    }
}

impl DeepView for AttachmentDescriptor {
    type V = AttachmentDescriptorView;

    open spec fn deep_view(&self) -> AttachmentDescriptorView {
        self@
    }
}

/// One labeled field group of an artifact, by its kind.
#[derive(Clone, Debug, PartialEq, Eq)]
pub enum FieldGroup {
    /// The name of the platform the artifact is about.
    Platform(String),
    /// The severity code, such as `5 - Major`.
    Severity(String),
    /// The text of the original submission.
    Submission(String),
    /// The status label, such as `Done`.
    Status(String),
    /// The files attached to the artifact.
    Attachments(Vec<AttachmentDescriptor>),
    /// The user name of the person the artifact is assigned to.
    AssignedTo(String),
}

/// What a [`FieldGroup`] holds.
pub enum FieldGroupView {
    Platform(Seq<char>),
    Severity(Seq<char>),
    Submission(Seq<char>),
    Status(Seq<char>),
    Attachments(Seq<AttachmentDescriptorView>),
    AssignedTo(Seq<char>),
}

impl View for FieldGroup {
    type V = FieldGroupView;

    open spec fn view(&self) -> FieldGroupView {
        match self {
            FieldGroup::Platform(name) => FieldGroupView::Platform(name@),
            FieldGroup::Severity(code) => FieldGroupView::Severity(code@),
            FieldGroup::Submission(body) => FieldGroupView::Submission(body@),
            FieldGroup::Status(label) => FieldGroupView::Status(label@),
            FieldGroup::Attachments(files) => FieldGroupView::Attachments(files.deep_view()),
            FieldGroup::AssignedTo(username) => FieldGroupView::AssignedTo(username@),
        }
    }
}

impl DeepView for FieldGroup {
    type V = FieldGroupView;

    open spec fn deep_view(&self) -> FieldGroupView {
        self@
    }
}

/// A comment on an artifact.
#[derive(Clone, Debug, PartialEq, Eq)]
pub struct SourceComment {
    /// The display name of who wrote it.
    pub author: String,
    pub body: String,
    pub submitted_on: String,
}

/// What a [`SourceComment`] holds.
pub struct SourceCommentView {
    pub author: Seq<char>,
    pub body: Seq<char>,
    pub submitted_on: Seq<char>,
}

impl View for SourceComment {
    type V = SourceCommentView;

    open spec fn view(&self) -> SourceCommentView {
        SourceCommentView {
            author: self.author@,
            body: self.body@,
            submitted_on: self.submitted_on@,
        }
    }
}

impl DeepView for SourceComment {
    type V = SourceCommentView;

    open spec fn deep_view(&self) -> SourceCommentView {
        self@
    }
}

/// An artifact of the source tracker. The transformation reads it and never
/// changes it.
#[derive(Clone, Debug, PartialEq, Eq)]
pub struct SourceArtifact {
    pub id: String,
    pub title: String,
    pub submitted_on: String,
    /// When the artifact was last modified, in seconds since
    /// 1970-01-01T00:00:00Z; `None` where the tracker gave no date that can
    /// be read.
    pub last_modified: Option<i64>,
    /// The display name of who submitted it.
    pub submitter: String,
    /// The field groups that could be read, in the tracker's order.
    pub fields: Vec<FieldGroup>,
}

/// What a [`SourceArtifact`] holds.
pub struct SourceArtifactView {
    pub id: Seq<char>,
    pub title: Seq<char>,
    pub submitted_on: Seq<char>,
    pub last_modified: Option<i64>,
    pub submitter: Seq<char>,
    pub fields: Seq<FieldGroupView>,
}

impl View for SourceArtifact {
    type V = SourceArtifactView;

    open spec fn view(&self) -> SourceArtifactView {
        SourceArtifactView {
            id: self.id@,
            title: self.title@,
            submitted_on: self.submitted_on@,
            last_modified: self.last_modified,
            submitter: self.submitter@,
            fields: self.fields.deep_view(),
        }
    }
}

/// Why an artifact cannot be migrated. The failure is that artifact's alone.
#[derive(Clone, Copy, Debug, PartialEq, Eq)]
pub enum ArtifactError {
    /// The record names nobody as the artifact's submitter.
    MissingSubmitter,
    /// One of the artifact's comments names nobody as its author.
    MissingCommentAuthor,
}

/// The text that the first of a field group's chosen values holds under
/// `key`.
pub open spec fn first_choice(group: Value, key: Seq<char>) -> Option<Seq<char>> {
    match json_member(group, "values"@) {
        Some(values) => match json_items(values) {
            Some(items) => if items.len() > 0 {
                text_member(items[0], key)
            } else {
                None
            },
            None => None,
        },
        None => None,
    }
}

fn read_first_choice(group: &Value, key: &str) -> (r: Option<String>)
    ensures
        r.deep_view() == first_choice(*group, key@),
{
    match member(group, "values") {
        Some(values) => match values.as_array() {
            Some(items) => if items.len() > 0 {
                read_text(&items[0], key)
            } else {
                None
            },
            None => None,
        },
        None => None,
    }
}

/// The file that a JSON file description describes, if it gives both a name
/// and an address as strings.
pub open spec fn descriptor_of(v: Value) -> Option<AttachmentDescriptorView> {
    match (text_member(v, "name"@), text_member(v, "html_url"@)) {
        (Some(name), Some(url)) => Some(AttachmentDescriptorView { name, url }),
        _ => None,
    }
}

/// The files that a sequence of JSON file descriptions describes, in order;
/// a description that cannot be read is left out.
pub open spec fn descriptors_of(items: Seq<Value>) -> Seq<AttachmentDescriptorView>
    decreases items.len(),
{
    if items.len() == 0 {
        Seq::empty()
    } else {
        match descriptor_of(items.last()) {
            Some(d) => descriptors_of(items.drop_last()).push(d),
            None => descriptors_of(items.drop_last()),
        }
    }
}

fn read_descriptor(v: &Value) -> (r: Option<AttachmentDescriptor>)
    ensures
        r.deep_view() == descriptor_of(*v),
{
    match read_text(v, "name") {
        Some(name) => match read_text(v, "html_url") {
            Some(url) => Some(AttachmentDescriptor { name, url }),
            None => None,
        },
        None => None,
    }
}

fn read_descriptors(items: &Vec<Value>) -> (r: Vec<AttachmentDescriptor>)
    ensures
        r.deep_view() == descriptors_of(items@),
{
    let mut out: Vec<AttachmentDescriptor> = Vec::new();
    let mut i: usize = 0;
    proof {
        assert(out.deep_view() =~= descriptors_of(items@.take(0)));
    }
    while i < items.len()
        invariant
            i <= items.len(),
            out.deep_view() == descriptors_of(items@.take(i as int)),
        decreases items.len() - i,
    {
        let ghost before = out.deep_view();
        proof {
            assert(items@.take(i + 1).drop_last() =~= items@.take(i as int));
        }
        match read_descriptor(&items[i]) {
            Some(d) => {
                out.push(d);
                proof {
                    assert(out.deep_view() =~= before.push(d@));
                }
            },
            None => {},
        }
        i += 1;
    }
    proof {
        assert(items@.take(items.len() as int) =~= items@);
    }
    out
}

/// The field group that a JSON field group holds, by its label. `None` for a
/// label that the transformation does not read, and for a group that lacks
/// what its kind must hold.
pub open spec fn field_group_of(v: Value) -> Option<FieldGroupView> {
    match text_member(v, "label"@) {
        None => None,
        Some(label) => if label == "Platform"@ {
            match first_choice(v, "label"@) {
                Some(name) => Some(FieldGroupView::Platform(name)),
                None => None,
            }
        } else if label == "Severity"@ {
            match first_choice(v, "label"@) {
                Some(code) => Some(FieldGroupView::Severity(code)),
                None => None,
            }
        } else if label == "Original Submission"@ {
            match text_member(v, "value"@) {
                Some(body) => Some(FieldGroupView::Submission(body)),
                None => None,
            }
        } else if label == "Status"@ {
            match first_choice(v, "label"@) {
                Some(status) => Some(FieldGroupView::Status(status)),
                None => None,
            }
        } else if label == "Attachments"@ {
            match json_member(v, "file_descriptions"@) {
                Some(descriptions) => match json_items(descriptions) {
                    Some(items) => Some(FieldGroupView::Attachments(descriptors_of(items))),
                    None => None,
                },
                None => None,
            }
        } else if label == "Assigned to"@ {
            match first_choice(v, "username"@) {
                Some(username) => Some(FieldGroupView::AssignedTo(username)),
                None => None,
            }
        } else {
            None
        },
    }
}

/// Decodes one field group of an artifact's detail record.
pub fn decode_field_group(v: &Value) -> (r: Option<FieldGroup>)
    ensures
        r.deep_view() == field_group_of(*v),
{
    let label = match read_text(v, "label") {
        Some(label) => label,
        None => {
            return None;
        },
    };
    if same_text(label.as_str(), "Platform") {
        match read_first_choice(v, "label") {
            Some(name) => Some(FieldGroup::Platform(name)),
            None => None,
        }
    } else if same_text(label.as_str(), "Severity") {
        match read_first_choice(v, "label") {
            Some(code) => Some(FieldGroup::Severity(code)),
            None => None,
        }
    } else if same_text(label.as_str(), "Original Submission") {
        match read_text(v, "value") {
            Some(body) => Some(FieldGroup::Submission(body)),
            None => None,
        }
    } else if same_text(label.as_str(), "Status") {
        match read_first_choice(v, "label") {
            Some(status) => Some(FieldGroup::Status(status)),
            None => None,
        }
    } else if same_text(label.as_str(), "Attachments") {
        match member(v, "file_descriptions") {
            Some(descriptions) => match descriptions.as_array() {
                Some(items) => Some(FieldGroup::Attachments(read_descriptors(items))),
                None => None,
            },
            None => None,
        }
    } else if same_text(label.as_str(), "Assigned to") {
        match read_first_choice(v, "username") {
            Some(username) => Some(FieldGroup::AssignedTo(username)),
            None => None,
        }
    } else {
        None
    }
}

/// The field groups that a sequence of JSON field groups holds, in order; a
/// group that cannot be read is left out.
pub open spec fn field_groups_of(items: Seq<Value>) -> Seq<FieldGroupView>
    decreases items.len(),
{
    if items.len() == 0 {
        Seq::empty()
    } else {
        match field_group_of(items.last()) {
            Some(g) => field_groups_of(items.drop_last()).push(g),
            None => field_groups_of(items.drop_last()),
        }
    }
}

/// The field groups of a detail record: those under `values`, and none where
/// the record holds no such array.
pub open spec fn fields_of(details: Value) -> Seq<FieldGroupView> {
    match json_member(details, "values"@) {
        Some(values) => match json_items(values) {
            Some(items) => field_groups_of(items),
            None => Seq::empty(),
        },
        None => Seq::empty(),
    }
}

/// Decodes the field groups of an artifact's detail record.
pub fn decode_fields(details: &Value) -> (r: Vec<FieldGroup>)
    ensures
        r.deep_view() == fields_of(*details),
{
    let mut out: Vec<FieldGroup> = Vec::new();
    proof {
        assert(out.deep_view() =~= Seq::<FieldGroupView>::empty());
    }
    let items = match member(details, "values") {
        Some(values) => match values.as_array() {
            Some(items) => items,
            None => {
                return out;
            },
        },
        None => {
            return out;
        },
    };
    let mut i: usize = 0;
    proof {
        assert(out.deep_view() =~= field_groups_of(items@.take(0)));
    }
    while i < items.len()
        invariant
            i <= items.len(),
            out.deep_view() == field_groups_of(items@.take(i as int)),
        decreases items.len() - i,
    {
        let ghost before = out.deep_view();
        proof {
            assert(items@.take(i + 1).drop_last() =~= items@.take(i as int));
        }
        match decode_field_group(&items[i]) {
            Some(g) => {
                out.push(g);
                proof {
                    assert(out.deep_view() =~= before.push(g@));
                }
            },
            None => {},
        }
        i += 1;
    }
    proof {
        assert(items@.take(items.len() as int) =~= items@);
    }
    out
}

/// The display name of who submitted a record. It stands under
/// `submitted_by_details` where the record holds an object there, and under
/// `submitted_by_user` only where it does not.
pub open spec fn submitter_of(record: Value) -> Option<Seq<char>> {
    let primary = json_member(record, "submitted_by_details"@);
    if primary is Some && json_is_object(primary->0) {
        text_member(primary->0, "display_name"@)
    } else {
        match json_member(record, "submitted_by_user"@) {
            Some(user) => text_member(user, "display_name"@),
            None => None,
        }
    }
}

/// Reads the display name of who submitted a record.
pub fn decode_submitter(record: &Value) -> (r: Option<String>)
    ensures
        r.deep_view() == submitter_of(*record),
{
    match member(record, "submitted_by_details") {
        Some(primary) => {
            if primary.is_object() {
                return read_text(primary, "display_name");
            }
        },
        None => {},
    }
    match member(record, "submitted_by_user") {
        Some(user) => read_text(user, "display_name"),
        None => None,
    }
}

/// The identifier of a record: its `id`, which the tracker gives as a
/// number and which may be a string, as text; empty where it is neither.
pub open spec fn identifier_of(record: Value) -> Seq<char> {
    match json_member(record, "id"@) {
        Some(id) => match json_text(id) {
            Some(t) => t,
            None => match json_u64(id) {
                Some(n) => decimal(n as nat),
                None => Seq::empty(),
            },
        },
        None => Seq::empty(),
    }
}

/// Reads the identifier of a record.
pub fn decode_identifier(record: &Value) -> (r: String)
    ensures
        r@ == identifier_of(*record),
{
    match member(record, "id") {
        Some(id) => match id.as_str() {
            Some(t) => String::from_str(t),
            None => match id.as_u64() {
                Some(n) => decimal_string(n),
                None => String::new(),
            },
        },
        None => String::new(),
    }
}

/// When a detail record was last modified: what its `last_modified_date`
/// denotes as an RFC 3339 date.
pub open spec fn last_modified_of(details: Value) -> Option<i64> {
    match text_member(details, "last_modified_date"@) {
        Some(t) => rfc3339_timestamp(t),
        None => None,
    }
}

/// The artifact that a summary record and its detail record hold. The
/// identifier, the title and the date of submission come from the summary,
/// all else from the detail record. What is missing is empty, but for the
/// submitter: without one the artifact cannot be migrated.
pub open spec fn artifact_of(summary: Value, details: Value) -> Result<
    SourceArtifactView,
    ArtifactError,
> {
    match submitter_of(details) {
        None => Err(ArtifactError::MissingSubmitter),
        Some(submitter) => Ok(
            SourceArtifactView {
                id: identifier_of(summary),
                title: or_empty(text_member(summary, "title"@)),
                submitted_on: or_empty(text_member(summary, "submitted_on"@)),
                last_modified: last_modified_of(details),
                submitter,
                fields: fields_of(details),
            },
        ),
    }
}

/// Decodes an artifact from its summary record and its detail record.
pub fn decode_artifact(summary: &Value, details: &Value) -> (r: Result<
    SourceArtifact,
    ArtifactError,
>)
    ensures
        match r {
            Ok(a) => artifact_of(*summary, *details) == Ok::<SourceArtifactView, ArtifactError>(a@),
            Err(e) => artifact_of(*summary, *details) == Err::<SourceArtifactView, ArtifactError>(
                e,
            ),
        },
{
    let submitter = match decode_submitter(details) {
        Some(name) => name,
        None => {
            return Err(ArtifactError::MissingSubmitter);
        },
    };
    let last_modified = match read_text(details, "last_modified_date") {
        Some(t) => parse_timestamp(t.as_str()),
        None => None,
    };
    Ok(
        SourceArtifact {
            id: decode_identifier(summary),
            title: text_or_empty(read_text(summary, "title")),
            submitted_on: text_or_empty(read_text(summary, "submitted_on")),
            last_modified,
            submitter,
            fields: decode_fields(details),
        },
    )
}

/// The text of a comment record: what it holds under `last_comment`, `body`.
pub open spec fn comment_body_of(record: Value) -> Seq<char> {
    match json_member(record, "last_comment"@) {
        Some(last) => or_empty(text_member(last, "body"@)),
        None => Seq::empty(),
    }
}

/// The comment that a comment record holds. A body or a date that is missing
/// is empty; without an author the comment cannot be migrated.
pub open spec fn comment_of(record: Value) -> Result<SourceCommentView, ArtifactError> {
    match submitter_of(record) {
        None => Err(ArtifactError::MissingCommentAuthor),
        Some(author) => Ok(
            SourceCommentView {
                author,
                body: comment_body_of(record),
                submitted_on: or_empty(text_member(record, "submitted_on"@)),
            },
        ),
    }
}

/// Decodes one comment record.
pub fn decode_comment(record: &Value) -> (r: Result<SourceComment, ArtifactError>)
    ensures
        match r {
            Ok(c) => comment_of(*record) == Ok::<SourceCommentView, ArtifactError>(c@),
            Err(e) => comment_of(*record) == Err::<SourceCommentView, ArtifactError>(e),
        },
{
    let author = match decode_submitter(record) {
        Some(name) => name,
        None => {
            return Err(ArtifactError::MissingCommentAuthor);
        },
    };
    let body = match member(record, "last_comment") {
        Some(last) => text_or_empty(read_text(last, "body")),
        None => String::new(),
    };
    let submitted_on = text_or_empty(read_text(record, "submitted_on"));
    Ok(SourceComment { author, body, submitted_on })
}

/// The comments that a sequence of comment records holds, in order; the
/// first record that cannot be migrated fails them all.
pub open spec fn comments_of(records: Seq<Value>) -> Result<Seq<SourceCommentView>, ArtifactError>
    decreases records.len(),
{
    if records.len() == 0 {
        Ok(Seq::empty())
    } else {
        match comments_of(records.drop_last()) {
            Err(e) => Err(e),
            Ok(comments) => match comment_of(records.last()) {
                Ok(c) => Ok(comments.push(c)),
                Err(e) => Err(e),
            },
        }
    }
}

/// Decodes the comment records of an artifact.
pub fn decode_comments(records: &Vec<Value>) -> (r: Result<Vec<SourceComment>, ArtifactError>)
    ensures
        match r {
            Ok(comments) => comments_of(records@) == Ok::<Seq<SourceCommentView>, ArtifactError>(
                comments.deep_view(),
            ),
            Err(e) => comments_of(records@) == Err::<Seq<SourceCommentView>, ArtifactError>(e),
        },
{
    let mut out: Vec<SourceComment> = Vec::new();
    let mut i: usize = 0;
    proof {
        assert(out.deep_view() =~= Seq::<SourceCommentView>::empty());
    }
    while i < records.len()
        invariant
            i <= records.len(),
            comments_of(records@.take(i as int)) == Ok::<Seq<SourceCommentView>, ArtifactError>(
                out.deep_view(),
            ),
        decreases records.len() - i,
    {
        let ghost before = out.deep_view();
        proof {
            assert(records@.take(i + 1).drop_last() =~= records@.take(i as int));
        }
        match decode_comment(&records[i]) {
            Ok(c) => {
                out.push(c);
                proof {
                    assert(out.deep_view() =~= before.push(c@));
                }
            },
            Err(e) => {
                proof {
                    lemma_comments_fail_from(records@, i + 1);
                }
                return Err(e);
            },
        }
        i += 1;
    }
    proof {
        assert(records@.take(records.len() as int) =~= records@);
    }
    Ok(out)
}

/// Comments that fail for the first `n` records fail, in the same way, for
/// all of them.
pub proof fn lemma_comments_fail_from(records: Seq<Value>, n: int)
    requires
        0 <= n <= records.len(),
        comments_of(records.take(n)) is Err,
    ensures
        comments_of(records) == comments_of(records.take(n)),
    decreases records.len() - n,
{
    if n == records.len() {
        assert(records.take(n) =~= records);
    } else {
        assert(records.take(n + 1).drop_last() =~= records.take(n));
        lemma_comments_fail_from(records, n + 1);
    }
}

/// Comments that can all be migrated stand in the order of their records:
/// there are as many, and each is what the record at its own place holds.
pub proof fn lemma_comments_of_in_order(records: Seq<Value>)
    requires
        comments_of(records) is Ok,
    ensures
        comments_of(records)->Ok_0.len() == records.len(),
        forall|i: int|
            0 <= i < records.len() ==> comment_of(#[trigger] records[i]) == Ok::<
                SourceCommentView,
                ArtifactError,
            >(comments_of(records)->Ok_0[i]),
    decreases records.len(),
{
    if records.len() > 0 {
        lemma_comments_of_in_order(records.drop_last());
        let before = comments_of(records.drop_last())->Ok_0;
        assert forall|i: int| 0 <= i < records.len() implies comment_of(#[trigger] records[i])
            == Ok::<SourceCommentView, ArtifactError>(comments_of(records)->Ok_0[i]) by {
            if i < records.len() - 1 {
                assert(records[i] == records.drop_last()[i]);
                assert(comments_of(records)->Ok_0[i] == before[i]);
            }
        }
    }
}

} // verus!
