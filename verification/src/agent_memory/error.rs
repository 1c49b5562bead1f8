use vstd::prelude::*;

use crate::text::owned;

verus! {

/// Errors of agent memory.
#[derive(Debug, Clone, PartialEq, Eq)]
pub enum MemoryError {
    /// Storage error.
    Storage(String),
    /// Serialization error.
    Serialization(String),
    /// Memory not found.
    NotFound(String),
    /// Concurrent access error.
    Concurrency(String),
}

impl MemoryError {
    /// The message that describes this error.
    pub fn message(&self) -> (r: String)
        ensures
            match self {
                MemoryError::Storage(m) => r@ == seq![
                    's', 't', 'o', 'r', 'a', 'g', 'e', ' ', 'e', 'r', 'r', 'o', 'r', ':', ' ',
                ] + m@,
                MemoryError::Serialization(m) => r@ == seq![
                    's', 'e', 'r', 'i', 'a', 'l', 'i', 'z', 'a', 't', 'i', 'o', 'n', ' ', 'e', 'r', 'r',
                    'o', 'r', ':', ' ',
                ] + m@,
                MemoryError::NotFound(m) => r@ == seq!['n', 'o', 't', ' ', 'f', 'o', 'u', 'n', 'd', ':', ' ']
                    + m@,
                MemoryError::Concurrency(m) => r@ == seq![
                    'c', 'o', 'n', 'c', 'u', 'r', 'r', 'e', 'n', 'c', 'y', ' ', 'e', 'r', 'r', 'o', 'r',
                    ':', ' ',
                ] + m@,
            },
    {
        proof {
            reveal_strlit("storage error: ");
            reveal_strlit("serialization error: ");
            reveal_strlit("not found: ");
            reveal_strlit("concurrency error: ");
        }
        let (mut r, m) = match self {
            MemoryError::Storage(m) => (owned("storage error: "), m),
            MemoryError::Serialization(m) => (owned("serialization error: "), m),
            MemoryError::NotFound(m) => (owned("not found: "), m),
            MemoryError::Concurrency(m) => (owned("concurrency error: "), m),
        };
        r.append(m.as_str());
        r
    }
}

}
