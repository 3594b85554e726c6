//! Status classifier: what becomes of an artifact in the target tracker,
//! decided once per artifact from its status in the source and from the
//! moment it was last modified.

use crate::strings::same_text;
use vstd::prelude::*;

verus! {

/// The cutoff, 2017-07-21T00:00:00+02:00, in seconds since 1970-01-01T00:00:00Z.
/// What was left open in the source and not touched since is taken for
/// abandoned.
pub const CUTOFF: i64 = 1_500_588_000;

/// The state of an issue in the target tracker. `Open` is the only state that
/// is not final.
#[derive(Clone, Copy, Debug, PartialEq, Eq)]
pub enum IssueState {
    Open,
    /// The source had it as done.
    ClosedDone,
    /// The source had it as declined.
    ClosedDeclined,
    /// The source had it open, and nobody touched it since before the cutoff.
    ClosedZombie,
}

/// The state that follows from a status and a moment of last modification, in
/// this order of precedence: declined, done, abandoned, open. An artifact
/// without a status, or whose moment of last modification is not known, is
/// not taken for abandoned.
pub open spec fn classified(status: Option<Seq<char>>, last_modified: Option<i64>) -> IssueState {
    match status {
        None => IssueState::Open,
        Some(s) => if s == "Declined"@ {
            IssueState::ClosedDeclined
        } else if s == "Done"@ {
            IssueState::ClosedDone
        } else {
            match last_modified {
                Some(t) => if t < CUTOFF {
                    IssueState::ClosedZombie
                } else {
                    IssueState::Open
                },
                None => IssueState::Open,
            }
        },
    }
}

/// Whether an issue in state `state` is closed.
pub open spec fn state_closed(state: IssueState) -> bool {
    state != IssueState::Open
}

/// The labels that state `state` adds to an issue.
pub open spec fn state_labels(state: IssueState) -> Seq<Seq<char>> {
    match state {
        IssueState::ClosedDeclined => seq!["invalid"@],
        IssueState::ClosedZombie => seq!["zombie"@],
        _ => Seq::empty(),
    }
}

/// Classifies an artifact by its status and the moment it was last modified.
pub fn classify(status: Option<&str>, last_modified: Option<i64>) -> (r: IssueState)
    ensures
        r == classified(
            match status {
                Some(s) => Some(s@),
                None => None,
            },
            last_modified,
        ),
{
    match status {
        None => IssueState::Open,
        Some(s) => {
            if same_text(s, "Declined") {
                IssueState::ClosedDeclined
            } else if same_text(s, "Done") {
                IssueState::ClosedDone
            } else {
                match last_modified {
                    Some(t) => if t < CUTOFF {
                        IssueState::ClosedZombie
                    } else {
                        IssueState::Open
                    },
                    None => IssueState::Open,
                }
            }
        },
    }
}

impl IssueState {
    /// Whether the issue is closed.
    pub fn is_closed(&self) -> (r: bool)
        ensures
            r == state_closed(*self),
    {
        match self {
            IssueState::Open => false,
            _ => true,
        }
    }

    /// The labels that the state adds to the issue's own.
    pub fn labels(&self) -> (r: Vec<String>)
        ensures
            r.deep_view() == state_labels(*self),
    {
        let mut out: Vec<String> = Vec::new();
        match self {
            IssueState::ClosedDeclined => {
                out.push(String::from_str("invalid"));
            },
            IssueState::ClosedZombie => {
                out.push(String::from_str("zombie"));
            },
            _ => {},
        }
        proof {
            assert(out.deep_view() =~= state_labels(*self));
        }
        out
    }
}

/// The moment that an RFC 3339 date and time denotes, in seconds since
/// 1970-01-01T00:00:00Z; `None` for a text that is no such date.
pub uninterp spec fn rfc3339_timestamp(text: Seq<char>) -> Option<i64>;

/// `chrono::DateTime::parse_from_rfc3339`, and `DateTime::timestamp` on the
/// moment that it returns, which has no other use here. Both depend on the
/// text alone: the offset is part of it. Nothing is proved of either; the
/// contract only gives their result its name.
#[verifier::external_body]
pub(crate) fn parse_timestamp(text: &str) -> (r: Option<i64>)
    ensures
        r == rfc3339_timestamp(text@),
{
    match chrono::DateTime::parse_from_rfc3339(text) {
        Ok(moment) => Some(moment.timestamp()),
        Err(_) => None,
    }
}

} // verus!
