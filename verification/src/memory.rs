//! The unit of persistent memory.
use vstd::prelude::*;

verus! {

/// A stored piece of memory, attached to a session.
#[derive(Debug, Clone)]
pub struct MemoryFragment {
    pub id: String,
    pub session_id: String,
    pub content: String,
    pub created_at: String,
}

} // verus!
