use vstd::prelude::*;

verus! {

/// Why a store operation failed.
#[derive(Clone, Debug, PartialEq, Eq)]
pub enum DbError {
    /// The backing storage could not be read or written.
    Io(String),
    /// The stored document is not a valid snapshot.
    Decode(String),
    /// No epic has the given identifier.
    EpicNotFound,
    /// No story has the given identifier.
    StoryNotFound,
    /// The story is not listed by the given epic.
    StoryNotInEpic,
    /// The identifier counter has reached its largest value.
    IdsExhausted,
}

} // verus!
