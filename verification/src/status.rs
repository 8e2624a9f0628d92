//! The status of a catalog item.

use crate::text::{chain, str_eq};
use vstd::prelude::*;

verus! {

/// Where an item stands in the catalog.
#[derive(Clone, Copy, Debug, PartialEq, Eq, Structural)]
pub enum MovieStatus {
    Queued,
    Watched,
    Deleted,
}

/// What follows a status name that is not known, in the message that
/// rejects it.
pub open spec fn unknown_status_suffix() -> Seq<char> {
    " is not implemented for `MovieStatus`"@
}

impl MovieStatus {
    /// The name under which the catalog service knows this status.
    pub open spec fn name(self) -> Seq<char> {
        match self {
            MovieStatus::Queued => "Queued"@,
            MovieStatus::Watched => "Watched"@,
            MovieStatus::Deleted => "Deleted"@,
        }
    }

    /// The status that `name` denotes, if any.
    pub open spec fn named(name: Seq<char>) -> Option<MovieStatus> {
        if name == MovieStatus::Queued.name() {
            Some(MovieStatus::Queued)
        } else if name == MovieStatus::Watched.name() {
            Some(MovieStatus::Watched)
        } else if name == MovieStatus::Deleted.name() {
            Some(MovieStatus::Deleted)
        } else {
            None
        }
    }

    /// The name of this status.
    pub fn to_string(&self) -> (s: String)
        ensures
            s@ == self.name(),
    {
        match self {
            MovieStatus::Queued => "Queued".to_owned(),
            MovieStatus::Watched => "Watched".to_owned(),
            MovieStatus::Deleted => "Deleted".to_owned(),
        }
    }

    /// Reads a status from its name. Any other text is rejected with a
    /// message that quotes it.
    pub fn from_str(s: &str) -> (parsed: Result<MovieStatus, String>)
        ensures
            match parsed {
                Ok(status) => MovieStatus::named(s@) == Some(status),
                Err(message) => MovieStatus::named(s@) is None && message@ == s@
                    + unknown_status_suffix(),
            },
    {
        if str_eq(s, "Queued") {
            Ok(MovieStatus::Queued)
        } else if str_eq(s, "Watched") {
            Ok(MovieStatus::Watched)
        } else if str_eq(s, "Deleted") {
            Ok(MovieStatus::Deleted)
        } else {
            Err(chain(s, " is not implemented for `MovieStatus`"))
        }
    }
}

} // verus!
