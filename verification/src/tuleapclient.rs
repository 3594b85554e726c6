//! The requests that the source tracker answers, and how its pages of
//! artifacts are walked. Sending them is left to the caller.

use crate::strings::{decimal, decimal_string};
use vstd::prelude::*;

verus! {

/// The number of artifacts that the tracker returns at once, at most.
pub const PAGE: u64 = 100;

/// Where the tracker lists the artifacts of tracker `tracker_nb` from the
/// one at `offset` on.
pub open spec fn artifacts_address(tracker_url: Seq<char>, tracker_nb: nat, offset: nat) -> Seq<
    char,
> {
    tracker_url + "/api/trackers/"@ + decimal(tracker_nb) + "/artifacts?offset="@ + decimal(
        offset,
    )
}

/// Where the tracker gives the detail record of artifact `id`.
pub open spec fn details_address(tracker_url: Seq<char>, id: Seq<char>) -> Seq<char> {
    tracker_url + "/api/artifacts/"@ + id
}

/// Where the tracker gives the comment records of artifact `id`.
pub open spec fn comments_address(tracker_url: Seq<char>, id: Seq<char>) -> Seq<char> {
    tracker_url + "/api/artifacts/"@ + id + "/changesets?fields=comments"@
}

/// Where the tracker serves the file that a file description gives `path`
/// for.
pub open spec fn file_address(tracker_url: Seq<char>, path: Seq<char>) -> Seq<char> {
    tracker_url + path
}

/// The offset of the page that follows the page at `offset`, of which
/// `page_len` artifacts came back: `None` after an empty page, which ends
/// the listing, and where there is no such offset.
pub open spec fn following_offset(offset: u64, page_len: nat) -> Option<u64> {
    if page_len == 0 || offset + PAGE > u64::MAX {
        None
    } else {
        Some((offset + PAGE) as u64)
    }
}

/// The address of the listing of artifacts from `offset` on.
pub fn artifacts_url(tracker_url: &str, tracker_nb: u64, offset: u64) -> (r: String)
    ensures
        r@ == artifacts_address(tracker_url@, tracker_nb as nat, offset as nat),
{
    let mut out = String::from_str(tracker_url);
    out.append("/api/trackers/");
    out.append(decimal_string(tracker_nb).as_str());
    out.append("/artifacts?offset=");
    out.append(decimal_string(offset).as_str());
    out
}

/// Decides how the listing goes on after a page: with the page at the
/// offset returned, or not at all.
pub fn next_offset(offset: u64, page_len: usize) -> (r: Option<u64>)
    ensures
        r == following_offset(offset, page_len as nat),
{
    if page_len == 0 || offset > u64::MAX - PAGE {
        None
    } else {
        Some(offset + PAGE)
    }
}

/// The address of the detail record of artifact `id`.
pub fn details_url(tracker_url: &str, id: &str) -> (r: String)
    ensures
        r@ == details_address(tracker_url@, id@),
{
    let mut out = String::from_str(tracker_url);
    out.append("/api/artifacts/");
    out.append(id);
    out
}

/// The address of the comment records of artifact `id`.
pub fn comments_url(tracker_url: &str, id: &str) -> (r: String)
    ensures
        r@ == comments_address(tracker_url@, id@),
{
    let mut out = details_url(tracker_url, id);
    out.append("/changesets?fields=comments");
    out
}

/// The address of an attached file.
pub fn file_url(tracker_url: &str, path: &str) -> (r: String)
    ensures
        r@ == file_address(tracker_url@, path@),
{
    let mut out = String::from_str(tracker_url);
    out.append(path);
    out
}

} // verus!
