//! Attachment resolver, the part that decides: where a fetched file is
//! stored, so that no two attachments of an issue share a path.

use crate::strings::{decimal, decimal_string, same_text};
use vstd::prelude::*;

verus! {

/// The directory that holds the attachments of one issue.
pub open spec fn directory(root: Seq<char>, id: Seq<char>) -> Seq<char> {
    root + "/"@ + id
}

/// The path of a file in the directory of its issue, under its own name.
pub open spec fn plain_path(root: Seq<char>, id: Seq<char>, name: Seq<char>) -> Seq<char> {
    directory(root, id) + "/"@ + name
}

/// The path of a file in the directory of its issue, its name behind the
/// number `k`.
pub open spec fn numbered_path(root: Seq<char>, id: Seq<char>, name: Seq<char>, k: nat) -> Seq<
    char,
> {
    directory(root, id) + "/"@ + decimal(k) + name
}

/// The first of the numbered paths from number `k` on that is not taken;
/// `None` where all of them are, up to the last number there is.
pub open spec fn first_free_from(
    root: Seq<char>,
    id: Seq<char>,
    name: Seq<char>,
    taken: Seq<Seq<char>>,
    k: nat,
) -> Option<Seq<char>>
    decreases u64::MAX + 1 - k,
{
    if k > u64::MAX {
        None
    } else if !taken.contains(numbered_path(root, id, name, k)) {
        Some(numbered_path(root, id, name, k))
    } else {
        first_free_from(root, id, name, taken, k + 1)
    }
}

/// Where a file is stored: under its own name if that path is not taken,
/// else behind the smallest number from 0 on that gives a path not taken.
pub open spec fn first_free(
    root: Seq<char>,
    id: Seq<char>,
    name: Seq<char>,
    taken: Seq<Seq<char>>,
) -> Option<Seq<char>> {
    if !taken.contains(plain_path(root, id, name)) {
        Some(plain_path(root, id, name))
    } else {
        first_free_from(root, id, name, taken, 0)
    }
}

/// The directory that holds the attachments of issue `id`.
pub fn attachment_dir(root: &str, id: &str) -> (r: String)
    ensures
        r@ == directory(root@, id@),
{
    let mut out = String::from_str(root);
    out.append("/");
    out.append(id);
    out
}

/// The path of the file `name` of issue `id`: behind the number `attempt`
/// where there is one, under its own name where there is none.
pub fn attachment_path(root: &str, id: &str, name: &str, attempt: Option<u64>) -> (r: String)
    ensures
        r@ == match attempt {
            Some(k) => numbered_path(root@, id@, name@, k as nat),
            None => plain_path(root@, id@, name@),
        },
{
    let mut out = attachment_dir(root, id);
    out.append("/");
    match attempt {
        Some(k) => {
            let number = decimal_string(k);
            out.append(number.as_str());
        },
        None => {},
    }
    out.append(name);
    out
}

/// Whether `path` is one of `taken`.
pub fn is_taken(taken: &Vec<String>, path: &str) -> (r: bool)
    ensures
        r == taken.deep_view().contains(path@),
{
    let mut i: usize = 0;
    while i < taken.len()
        invariant
            i <= taken.len(),
            forall|j: int| 0 <= j < i ==> taken.deep_view()[j] != path@,
        decreases taken.len() - i,
    {
        if same_text(taken[i].as_str(), path) {
            proof {
                assert(taken.deep_view()[i as int] == path@);
            }
            return true;
        }
        i += 1;
    }
    false
}

/// Chooses where the file `name` of issue `id` is stored, given the paths
/// that are taken in the directory of that issue.
pub fn free_attachment_path(root: &str, id: &str, name: &str, taken: &Vec<String>) -> (r: Option<
    String,
>)
    ensures
        r.deep_view() == first_free(root@, id@, name@, taken.deep_view()),
{
    let plain = attachment_path(root, id, name, None);
    if !is_taken(taken, plain.as_str()) {
        return Some(plain);
    }
    let mut k: u64 = 0;
    loop
        invariant
            first_free(root@, id@, name@, taken.deep_view()) == first_free_from(
                root@,
                id@,
                name@,
                taken.deep_view(),
                k as nat,
            ),
        decreases u64::MAX - k,
    {
        let path = attachment_path(root, id, name, Some(k));
        if !is_taken(taken, path.as_str()) {
            return Some(path);
        }
        if k == u64::MAX {
            proof {
                assert(first_free_from(root@, id@, name@, taken.deep_view(), (k + 1) as nat)
                    is None);
            }
            return None;
        }
        k += 1;
    }
}

/// The path that is chosen is not among those taken.
pub proof fn lemma_first_free_from_is_free(
    root: Seq<char>,
    id: Seq<char>,
    name: Seq<char>,
    taken: Seq<Seq<char>>,
    k: nat,
)
    ensures
        first_free_from(root, id, name, taken, k) matches Some(p) ==> !taken.contains(p),
    decreases u64::MAX + 1 - k,
{
    if k <= u64::MAX && taken.contains(numbered_path(root, id, name, k)) {
        lemma_first_free_from_is_free(root, id, name, taken, k + 1);
    }
}

/// The path chosen for a file is not among those taken: storing the file
/// there overwrites nothing.
pub proof fn lemma_first_free_is_free(
    root: Seq<char>,
    id: Seq<char>,
    name: Seq<char>,
    taken: Seq<Seq<char>>,
)
    ensures
        first_free(root, id, name, taken) matches Some(p) ==> !taken.contains(p),
{
    lemma_first_free_from_is_free(root, id, name, taken, 0);
}

/// Two files of one issue, resolved one after the other, get distinct paths,
/// whatever their names: the second is chosen with the first path taken.
pub proof fn lemma_successive_paths_differ(
    root: Seq<char>,
    id: Seq<char>,
    first_name: Seq<char>,
    second_name: Seq<char>,
    taken: Seq<Seq<char>>,
)
    ensures
        first_free(root, id, first_name, taken) matches Some(first) ==> (first_free(
            root,
            id,
            second_name,
            taken.push(first),
        ) matches Some(second) ==> second != first),
{
    match first_free(root, id, first_name, taken) {
        Some(first) => {
            lemma_first_free_is_free(root, id, second_name, taken.push(first));
            assert(taken.push(first).last() == first);
        },
        None => {},
    }
}

} // verus!
