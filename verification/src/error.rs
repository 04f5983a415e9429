//! The ways in which a graph operation can be rejected.

use vstd::prelude::*;

verus! {

/// Why an operation left the graph untouched.
#[derive(Clone, Copy, PartialEq, Eq, Structural, Debug)]
pub enum GraphError {
    /// A vertex named by the call is absent.
    VertexNotExist,
    /// The vertex to insert is already present.
    VertexDuplication,
    /// The edge named by the call is absent.
    EdgeNotExist,
    /// The edge to insert is already present.
    EdgeDuplication,
}

impl GraphError {
    /// The sentence that describes the error.
    pub open spec fn message_text(self) -> Seq<char> {
        match self {
            GraphError::VertexNotExist => "Trying to access a vertex non-existent"@,
            GraphError::VertexDuplication => "Trying to insert the same vertex two times"@,
            GraphError::EdgeNotExist => "Trying to access a edge non-existent"@,
            GraphError::EdgeDuplication => "Trying to insert the same edge two times"@,
        }
    }

    /// The sentence that describes the error.
    pub fn message(&self) -> (text: &'static str)
        ensures
            text@ == self.message_text(),
    {
        match self {
            GraphError::VertexNotExist => "Trying to access a vertex non-existent",
            GraphError::VertexDuplication => "Trying to insert the same vertex two times",
            GraphError::EdgeNotExist => "Trying to access a edge non-existent",
            GraphError::EdgeDuplication => "Trying to insert the same edge two times",
        }
    }
}

} // verus!
