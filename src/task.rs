use vstd::prelude::*;

verus! {

/// One file to copy: where it is read from and where it is written to.
#[derive(PartialEq, Debug, Clone)]
pub struct FileMover {
    pub source_path: String,
    pub destination: String,
}

impl View for FileMover {
    /// The pair (source path, destination path).
    type V = (Seq<char>, Seq<char>);

    open spec fn view(&self) -> (Seq<char>, Seq<char>) {
        (self.source_path@, self.destination@)
    }
}

} // verus!
