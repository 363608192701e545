//! How the content of a task is handed over.
use vstd::prelude::*;

verus! {

/// The content of a task, or where it is found.
#[derive(Debug, Clone, PartialEq, Eq)]
pub enum Payload {
    /// The content itself.
    Inline {
        /// The content.
        content: String,
    },
    /// A file that holds the content; who receives the payload reads it.
    FileReference {
        /// The file.
        path: String,
    },
}

impl Payload {
    /// A payload that holds the content.
    pub fn inline(content: &str) -> (r: Payload)
        ensures
            r matches Payload::Inline { content: held } && held@ == content@,
    {
        Payload::Inline { content: content.to_owned() }
    }

    /// A payload that points to a file.
    pub fn file_ref(path: &str) -> (r: Payload)
        ensures
            r matches Payload::FileReference { path: held } && held@ == path@,
    {
        Payload::FileReference { path: path.to_owned() }
    }
}

} // verus!
