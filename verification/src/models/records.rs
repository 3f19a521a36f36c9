use vstd::prelude::*;

verus! {

/// The state of a job handed to a remote runner.
#[derive(Debug, Clone, Copy, PartialEq, Eq, Structural)]
pub enum JobStatus {
    Success,
    Running,
    Failed,
    /// The server stopped the job; the reason is in the job's failure data.
    Cancelled,
}

/// A tag of a medium, with the custom task that added it, if any.
#[derive(Debug, Clone)]
pub struct MediaTag {
    pub id: i32,
    pub media_id: i32,
    pub tag: String,
    pub task: Option<String>,
}

} // verus!
