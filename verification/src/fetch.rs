//! The fetching of what the migration of one artifact needs, as a sequence
//! of requests and answers. The caller sends each request to the source and
//! hands back what came of it; which request comes next, and what a failure
//! means for the artifact, is decided here.

use crate::issueretriever::{Fetched, FetchedView};
use crate::json::{json_parsed, parse, parse_records, records_in};
use crate::mapper::{attached_files, attachments_of};
use crate::source::{decode_fields, fields_of, AttachmentDescriptor, AttachmentDescriptorView};
use serde_json::Value;
use vstd::prelude::*;

verus! {

/// How far the fetching for one artifact has come.
pub enum Fetching {
    /// The detail record is awaited.
    Details,
    /// The detail record is there, and `files` are the attachments that it
    /// names. Each file that was asked for has its outcome in `outcomes`:
    /// the local path where it was stored, or `None`. Awaited is the file
    /// that follows them, and after the last file the comment records.
    Content { details: Value, files: Vec<AttachmentDescriptor>, outcomes: Vec<Option<String>> },
    /// Nothing is awaited: all was fetched, or the artifact is given up.
    Done(Option<Fetched>),
}

/// What a [`Fetching`] holds.
pub enum FetchingView {
    Details,
    Content {
        details: Value,
        files: Seq<AttachmentDescriptorView>,
        outcomes: Seq<Option<Seq<char>>>,
    },
    Done(Option<FetchedView>),
}

impl View for Fetching {
    type V = FetchingView;

    open spec fn view(&self) -> FetchingView {
        match self {
            Fetching::Details => FetchingView::Details,
            Fetching::Content { details, files, outcomes } => FetchingView::Content {
                details: *details,
                files: files.deep_view(),
                outcomes: outcomes.deep_view(),
            },
            Fetching::Done(result) => FetchingView::Done(result.deep_view()),
        }
    }
}

/// What is to be asked of the source.
#[derive(Clone, Debug, PartialEq, Eq)]
pub enum Request {
    /// The detail record of the artifact.
    Details,
    /// An attached file, to be fetched and stored.
    File(AttachmentDescriptor),
    /// The comment records of the artifact.
    Comments,
    /// Nothing more.
    Nothing,
}

/// What a [`Request`] holds.
pub enum RequestView {
    Details,
    File(AttachmentDescriptorView),
    Comments,
    Nothing,
}

impl View for Request {
    type V = RequestView;

    open spec fn view(&self) -> RequestView {
        match self {
            Request::Details => RequestView::Details,
            Request::File(file) => RequestView::File(file@),
            Request::Comments => RequestView::Comments,
            Request::Nothing => RequestView::Nothing,
        }
    }
}

/// What came of a request.
#[derive(Clone, Debug, PartialEq, Eq)]
pub enum Answer {
    /// The text that the source returned for a record or for records.
    Body(String),
    /// The local path under which a file was stored.
    Stored(String),
    /// Nothing: the request failed, and so did every other attempt at it.
    Failed,
}

/// What an [`Answer`] holds.
pub enum AnswerView {
    Body(Seq<char>),
    Stored(Seq<char>),
    Failed,
}

impl View for Answer {
    type V = AnswerView;

    open spec fn view(&self) -> AnswerView {
        match self {
            Answer::Body(text) => AnswerView::Body(text@),
            Answer::Stored(path) => AnswerView::Stored(path@),
            Answer::Failed => AnswerView::Failed,
        }
    }
}

/// The local paths among the outcomes of storing attachments, in order: an
/// attachment that could not be fetched or stored has none and is left out.
pub open spec fn stored(outcomes: Seq<Option<Seq<char>>>) -> Seq<Seq<char>>
    decreases outcomes.len(),
{
    if outcomes.len() == 0 {
        Seq::empty()
    } else {
        match outcomes.last() {
            Some(path) => stored(outcomes.drop_last()).push(path),
            None => stored(outcomes.drop_last()),
        }
    }
}

/// What was fetched for an artifact, each part `None` where fetching it
/// failed. Without its detail record or without its comment records the
/// artifact is given up. An attachment that failed is left out, and the
/// artifact is migrated without it.
pub open spec fn gathered(
    details: Option<Value>,
    comments: Option<Seq<Value>>,
    outcomes: Seq<Option<Seq<char>>>,
) -> Option<FetchedView> {
    match (details, comments) {
        (Some(details), Some(comments)) => Some(
            FetchedView { details, comments, attachments: stored(outcomes) },
        ),
        _ => None,
    }
}

/// The request that follows from how far the fetching has come.
pub open spec fn requested(state: FetchingView) -> RequestView {
    match state {
        FetchingView::Details => RequestView::Details,
        FetchingView::Content { details, files, outcomes } => if outcomes.len() < files.len() {
            RequestView::File(files[outcomes.len() as int])
        } else {
            RequestView::Comments
        },
        FetchingView::Done(_) => RequestView::Nothing,
    }
}

/// The outcome that an answer is for the file that was asked for.
pub open spec fn outcome_of(answer: AnswerView) -> Option<Seq<char>> {
    match answer {
        AnswerView::Stored(path) => Some(path),
        _ => None,
    }
}

/// The text that an answer holds, if it holds one.
pub open spec fn body_of(answer: AnswerView) -> Option<Seq<char>> {
    match answer {
        AnswerView::Body(text) => Some(text),
        _ => None,
    }
}

/// The detail record that an answer holds: what its text spells out.
pub open spec fn details_in(answer: AnswerView) -> Option<Value> {
    match body_of(answer) {
        Some(text) => json_parsed(text),
        None => None,
    }
}

/// The comment records that an answer holds: the elements of the array that
/// its text spells out.
pub open spec fn comments_in(answer: AnswerView) -> Option<Seq<Value>> {
    match body_of(answer) {
        Some(text) => records_in(text),
        None => None,
    }
}

/// How far the fetching has come once `answer` has come for the request
/// that followed from `state`.
///
/// Without a detail record that can be read the artifact is given up, and so
/// it is without comment records that can be read. A file that could not be
/// had is noted as such, and the fetching goes on.
pub open spec fn stepped(state: FetchingView, answer: AnswerView) -> FetchingView {
    match state {
        FetchingView::Details => match details_in(answer) {
            Some(details) => FetchingView::Content {
                details,
                files: attached_files(fields_of(details)),
                outcomes: Seq::empty(),
            },
            None => FetchingView::Done(None),
        },
        FetchingView::Content { details, files, outcomes } => if outcomes.len() < files.len() {
            FetchingView::Content { details, files, outcomes: outcomes.push(outcome_of(answer)) }
        } else {
            FetchingView::Done(gathered(Some(details), comments_in(answer), outcomes))
        },
        FetchingView::Done(result) => FetchingView::Done(result),
    }
}

/// The number of answers after which the fetching is done at the latest,
/// once the detail record is there.
pub open spec fn answers_left(state: FetchingView) -> nat {
    match state {
        FetchingView::Details => 0,
        FetchingView::Content { details, files, outcomes } => if outcomes.len() < files.len() {
            (files.len() - outcomes.len() + 1) as nat
        } else {
            1
        },
        FetchingView::Done(_) => 0,
    }
}

/// Puts together what was fetched for one artifact, each part `None` where
/// fetching it failed.
pub fn gather(
    details: Option<Value>,
    comments: Option<Vec<Value>>,
    outcomes: Vec<Option<String>>,
) -> (r: Option<Fetched>)
    ensures
        r.deep_view() == gathered(
            details,
            match comments {
                Some(c) => Some(c@),
                None => None,
            },
            outcomes.deep_view(),
        ),
{
    let details = match details {
        Some(details) => details,
        None => {
            return None;
        },
    };
    let comments = match comments {
        Some(comments) => comments,
        None => {
            return None;
        },
    };
    let mut paths: Vec<String> = Vec::new();
    let mut i: usize = 0;
    proof {
        assert(paths.deep_view() =~= stored(outcomes.deep_view().take(0)));
    }
    while i < outcomes.len()
        invariant
            i <= outcomes.len(),
            paths.deep_view() == stored(outcomes.deep_view().take(i as int)),
        decreases outcomes.len() - i,
    {
        let ghost before = paths.deep_view();
        proof {
            assert(outcomes.deep_view().take(i + 1).drop_last() =~= outcomes.deep_view().take(
                i as int,
            ));
        }
        match &outcomes[i] {
            Some(path) => {
                paths.push(path.clone());
                proof {
                    assert(paths.deep_view() =~= before.push(path@));
                }
            },
            None => {},
        }
        i += 1;
    }
    proof {
        assert(outcomes.deep_view().take(outcomes.len() as int) =~= outcomes.deep_view());
    }
    Some(Fetched { details, comments, attachments: paths })
}

impl Fetching {
    /// The fetching before anything was asked.
    pub fn start() -> (r: Fetching)
        ensures
            r@ == FetchingView::Details,
    {
        Fetching::Details
    }

    /// What is to be asked of the source next.
    pub fn request(&self) -> (r: Request)
        ensures
            r@ == requested(self@),
    {
        match self {
            Fetching::Details => Request::Details,
            Fetching::Content { details: _, files, outcomes } => {
                if outcomes.len() < files.len() {
                    let file = &files[outcomes.len()];
                    Request::File(
                        AttachmentDescriptor { name: file.name.clone(), url: file.url.clone() },
                    )
                } else {
                    Request::Comments
                }
            },
            Fetching::Done(_) => Request::Nothing,
        }
    }

    /// Takes the answer to the request that was due, and moves on.
    pub fn step(self, answer: Answer) -> (r: Fetching)
        ensures
            r@ == stepped(self@, answer@),
    {
        match self {
            Fetching::Details => {
                let parsed = match answer {
                    Answer::Body(text) => parse(text.as_str()),
                    _ => None,
                };
                match parsed {
                    Some(details) => {
                        let fields = decode_fields(&details);
                        let files = attachments_of(&fields);
                        let outcomes: Vec<Option<String>> = Vec::new();
                        proof {
                            assert(outcomes.deep_view() =~= Seq::<Option<Seq<char>>>::empty());
                        }
                        Fetching::Content { details, files, outcomes }
                    },
                    None => Fetching::Done(None),
                }
            },
            Fetching::Content { details, files, outcomes } => {
                if outcomes.len() < files.len() {
                    let ghost before = outcomes.deep_view();
                    let mut outcomes = outcomes;
                    let outcome = match answer {
                        Answer::Stored(path) => Some(path),
                        _ => None,
                    };
                    outcomes.push(outcome);
                    proof {
                        assert(outcomes.deep_view() =~= before.push(outcome_of(answer@)));
                    }
                    Fetching::Content { details, files, outcomes }
                } else {
                    let comments = match answer {
                        Answer::Body(text) => parse_records(text.as_str()),
                        _ => None,
                    };
                    Fetching::Done(gather(Some(details), comments, outcomes))
                }
            },
            Fetching::Done(result) => Fetching::Done(result),
        }
    }

    /// What was fetched, once nothing is awaited any more: `None` while
    /// something is, and where the artifact is given up.
    pub fn finish(self) -> (r: Option<Fetched>)
        ensures
            r.deep_view() == match self@ {
                FetchingView::Done(result) => result,
                _ => None,
            },
    {
        match self {
            Fetching::Done(result) => result,
            _ => None,
        }
    }
}

/// Once the detail record is there, each answer brings the end nearer, and
/// the fetching is done when no answer is left to wait for: for an artifact
/// with `n` attachments, after `n + 1` answers at the latest. Until then
/// there is always a request to send.
pub proof fn lemma_step_brings_the_end_nearer(state: FetchingView, answer: AnswerView)
    ensures
        state is Content ==> answers_left(stepped(state, answer)) < answers_left(state),
        state is Details ==> !(stepped(state, answer) is Details),
        answers_left(state) == 0 && !(state is Details) <==> state is Done,
        requested(state) is Nothing <==> state is Done,
{
}

} // verus!
