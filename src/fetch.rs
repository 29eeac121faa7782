//! What a registry reply means for one project, and the report made of it.
use vstd::prelude::*;

use crate::label::{RankedLabel, is_report, rank};
use crate::tag::TagDescriptor;

verus! {

/// HTTP status of a reply that carries the tag list.
pub const STATUS_OK: u16 = 200;

/// HTTP status of a reply that denies access to the project.
pub const STATUS_UNAUTHORIZED: u16 = 401;

/// Why the tags of a project could not be had.
#[derive(Clone, Copy, Debug, PartialEq, Eq, Structural)]
pub enum FetchError {
    /// The request did not reach the registry or got no answer.
    Transport,
    /// The registry answered with a status other than OK or unauthorized.
    UnexpectedStatus(u16),
    /// The registry answered OK with a body that is not a tag list.
    Decode,
}

/// The tags the registry gave for a project. `unauthorized` marks the
/// warning that access was denied, in which case `tags` is empty.
#[derive(Debug)]
pub struct Fetched {
    pub tags: Vec<TagDescriptor>,
    pub unauthorized: bool,
}

/// What a registry reply with `status` means, where `decoded` holds the tags
/// if its body decoded as a tag list: the tags on OK, an empty list with a
/// warning on unauthorized, an error otherwise.
pub fn interpret_reply(status: u16, decoded: Option<Vec<TagDescriptor>>) -> (r: Result<
    Fetched,
    FetchError,
>)
    ensures
        status == STATUS_OK && decoded is Some ==> r is Ok && r->Ok_0.tags@ == decoded->Some_0@
            && !r->Ok_0.unauthorized,
        status == STATUS_OK && decoded is None ==> r == Err::<Fetched, FetchError>(
            FetchError::Decode,
        ),
        status == STATUS_UNAUTHORIZED ==> r is Ok && r->Ok_0.tags@.len() == 0
            && r->Ok_0.unauthorized,
        status != STATUS_OK && status != STATUS_UNAUTHORIZED ==> r == Err::<Fetched, FetchError>(
            FetchError::UnexpectedStatus(status),
        ),
{
    if status == STATUS_OK {
        match decoded {
            Some(tags) => Ok(Fetched { tags, unauthorized: false }),
            None => Err(FetchError::Decode),
        }
    } else if status == STATUS_UNAUTHORIZED {
        Ok(Fetched { tags: Vec::new(), unauthorized: true })
    } else {
        Err(FetchError::UnexpectedStatus(status))
    }
}

/// `outcome` is what the pipeline of `project` gives for `fetched`: its
/// report where the tags were had, the same error where not.
pub open spec fn is_outcome_for(
    outcome: Result<Vec<RankedLabel>, FetchError>,
    fetched: Result<Fetched, FetchError>,
    count: usize,
    repo: Seq<char>,
    project: Seq<char>,
    include_timestamp: bool,
) -> bool {
    match fetched {
        Ok(f) => outcome is Ok && is_report(
            outcome->Ok_0@,
            f.tags@,
            count,
            repo,
            project,
            include_timestamp,
        ),
        Err(e) => outcome is Err && outcome->Err_0 == e,
    }
}

/// The report of `project` in `repo` made of what its fetch gave: the
/// ranked labels of the tags, or the fetch's error unchanged.
pub fn project_report(
    fetched: Result<Fetched, FetchError>,
    count: usize,
    repo: &str,
    project: &str,
    include_timestamp: bool,
) -> (r: Result<Vec<RankedLabel>, FetchError>)
    ensures
        is_outcome_for(r, fetched, count, repo@, project@, include_timestamp),
{
    match fetched {
        Ok(f) => Ok(rank(&f.tags, count, repo, project, include_timestamp)),
        Err(e) => Err(e),
    }
}

} // verus!
