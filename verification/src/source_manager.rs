//! Source files of one compilation session, each under a stable id.

use vstd::prelude::*;

verus! {

/// Stable id of a source file within one session.
#[derive(Debug, Clone, Copy, PartialEq, Eq, Structural, Hash)]
pub struct FileId(pub u32);

/// A character range in a specific file.
#[derive(Debug, Clone, PartialEq, Eq, Structural)]
pub struct Span {
    pub file: FileId,
    pub start: usize,
    pub end: usize,
}

/// A single source file: its display name and its content.
#[derive(Debug)]
pub struct SourceFile {
    pub name: String,
    pub content: String,
}

/// Holds every source file of the session; ids are handed out in order.
#[derive(Debug)]
pub struct SourceManager {
    files: Vec<SourceFile>,
}

impl View for SourceManager {
    type V = Seq<SourceFile>;

    closed spec fn view(&self) -> Seq<SourceFile> {
        self.files@
    }
}

impl SourceManager {
    pub fn new() -> (r: Self)
        ensures
            r@ == Seq::<SourceFile>::empty(),
    {
        SourceManager { files: Vec::new() }
    }

    /// Registers a file and returns its id, the index it was added at.
    pub fn add_file(&mut self, name: String, content: String) -> (id: FileId)
        requires
            old(self)@.len() < u32::MAX,
        ensures
            final(self)@ == old(self)@.push(SourceFile { name, content }),
            id.0 == old(self)@.len(),
    {
        let id = FileId(self.files.len() as u32);
        self.files.push(SourceFile { name, content });
        id
    }

    /// Looks a file up by id.
    pub fn get(&self, id: FileId) -> (r: Option<&SourceFile>)
        ensures
            id.0 < self@.len() ==> (r matches Some(f) && *f == self@[id.0 as int]),
            id.0 >= self@.len() ==> r is None,
    {
        if (id.0 as usize) < self.files.len() {
            Some(&self.files[id.0 as usize])
        } else {
            None
        }
    }
}

} // verus!
