//! The host's operating-system release description, as read from the
//! platform's release file. Reading the file is the caller's concern; this
//! type only carries the contents.

use vstd::prelude::*;

verus! {

#[derive(Clone, PartialEq, Eq, Debug)]
pub struct OsRelease {
    file_contents: String,
}

impl OsRelease {
    pub fn new(file_contents: String) -> (r: OsRelease)
        ensures
            r.spec_contents() == file_contents@,
    {
        OsRelease { file_contents }
    }

    /// The carried file contents.
    pub closed spec fn spec_contents(self) -> Seq<char> {
        self.file_contents@
    }

    pub fn file_contents(&self) -> (r: String)
        ensures
            r@ == self.spec_contents(),
    {
        self.file_contents.clone()
    }

    /// Borrows the carried file contents.
    pub fn contents_str(&self) -> (r: &str)
        ensures
            r@ == self.spec_contents(),
    {
        self.file_contents.as_str()
    }
}

} // verus!
