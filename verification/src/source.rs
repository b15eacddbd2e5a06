//! Where the content of a path is read from.

use crate::text::chars_of;
use vstd::prelude::*;

verus! {

/// A place that text is read from.
#[derive(Clone, Copy, Debug, PartialEq, Eq, Structural)]
pub enum Source {
    /// The standard input of the process.
    Stdin,
    /// The file at the path.
    File,
}

/// The place that `path` stands for: standard input for the path `-`, for
/// every other path the file of that name.
pub open spec fn source_for(path: Seq<char>) -> Source {
    if path == seq!['-'] {
        Source::Stdin
    } else {
        Source::File
    }
}

/// The place that `path` is read from.
pub fn source_of(path: &str) -> (source: Source)
    ensures
        source == source_for(path@),
{
    let chars = chars_of(path);
    if chars.len() == 1 && chars[0] == '-' {
        assert(chars@ =~= seq!['-']);
        Source::Stdin
    } else {
        Source::File
    }
}

} // verus!
