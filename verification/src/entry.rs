//! Directory entries: a name and the kind the filesystem reported for it,
//! and the hidden-name test that keeps dotfiles out of every listing.

use vstd::prelude::*;

verus! {

/// The kind of a filesystem entry, a closed set of variants.
#[derive(Clone, Copy, PartialEq, Eq, Structural, Debug)]
pub enum FileKind {
    Directory,
    Symlink,
    Socket,
    Fifo,
    BlockDevice,
    CharDevice,
    RegularFile,
    Other,
}

/// One directory entry as the scanner collects it.
pub struct DirEntry {
    pub name: String,
    pub kind: FileKind,
}

/// A name is hidden when it starts with the `.` designator.
pub open spec fn is_hidden_name(name: Seq<char>) -> bool {
    name.len() > 0 && name[0] == '.'
}

/// Executable hidden-name test.
pub fn name_is_hidden(name: &str) -> (r: bool)
    ensures
        r == is_hidden_name(name@),
{
    if name.is_empty() {
        false
    } else {
        name.get_char(0) == '.'
    }
}

} // verus!
