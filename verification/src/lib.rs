//! Migration of the artifacts of a Tuleap tracker to GitLab issues: the
//! transformation, verified.
//!
//! The library decides and computes; it sends nothing and stores nothing.
//! [`fetch`] says what is to be fetched for an artifact, [`source`] decodes
//! the tracker's records, [`mapper`], [`status`] and [`text`] turn them into
//! the parts of an issue, and [`issueretriever`] assembles the issues, in
//! the order of the source. [`attachment`] chooses where a fetched file is
//! stored, [`publish`] says what is to be sent to the target for an issue,
//! and [`retry`] what follows a request that failed. [`tuleapclient`] and
//! [`gitlabclient`] hold the addresses that the two trackers answer at and
//! what is read from their answers.

pub mod attachment;
pub mod fetch;
pub mod gitlabclient;
pub mod issueretriever;
pub mod json;
pub mod lookup;
pub mod mapper;
pub mod publish;
pub mod retry;
pub mod source;
pub mod status;
pub mod strings;
pub mod text;
pub mod tuleapclient;
