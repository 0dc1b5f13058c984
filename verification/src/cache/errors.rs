//! What can go wrong in the cache.

use vstd::prelude::*;
use vstd::string::StringExecFns;

verus! {

/// A failure of the cache. Callers treat every one of them as a miss.
#[derive(Debug, Clone, PartialEq, Eq)]
pub enum CacheError {
    /// The store could not be opened, read or written.
    DatabaseError(String),
    /// A value could not be turned into bytes.
    SerializationError(String),
    Other(String),
}

impl CacheError {
    /// The error in words: what kind it is, and what it carries.
    pub open spec fn description(&self) -> Seq<char> {
        match self {
            CacheError::DatabaseError(e) => "Database error: "@ + e@,
            CacheError::SerializationError(e) => "Serialization error: "@ + e@,
            CacheError::Other(message) => "Cache error: "@ + message@,
        }
    }

    /// The error in words.
    pub fn describe(&self) -> (text: String)
        ensures
            text@ == self.description(),
    {
        match self {
            CacheError::DatabaseError(e) => String::from_str("Database error: ").concat(
                e.as_str(),
            ),
            CacheError::SerializationError(e) => String::from_str("Serialization error: ").concat(
                e.as_str(),
            ),
            CacheError::Other(message) => String::from_str("Cache error: ").concat(
                message.as_str(),
            ),
        }
    }
}

} // verus!
