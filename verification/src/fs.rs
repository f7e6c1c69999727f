//! What the filesystem layer hands to the library.
//!
//! The library never touches the disk. Its caller reads the directories an
//! operation needs and records what came of each read in a `DirReads`; the
//! operation then takes from it what it would have read.

use crate::path::JoshutoPath;
use crate::path_map::PathMap;
use crate::structs::JoshutoDirEntry;
use vstd::prelude::*;

verus! {

/// Why the filesystem refused an operation.
#[derive(Clone, Copy, Debug, PartialEq, Eq, Structural)]
pub enum IoError {
    NotFound,
    PermissionDenied,
    AlreadyExists,
    NotADirectory,
    Other,
}

/// What came of reading some directories: for each path either its entries,
/// in the order in which they are to be shown, or the error of the read.
pub type DirReads = PathMap<Result<Vec<JoshutoDirEntry>, IoError>>;

/// What reading `path` gave according to `reads`. A directory of which
/// nothing is recorded counts as not found.
pub open spec fn spec_read(
    reads: Map<Seq<Seq<char>>, Result<Vec<JoshutoDirEntry>, IoError>>,
    path: Seq<Seq<char>>,
) -> Result<Vec<JoshutoDirEntry>, IoError> {
    if reads.contains_key(path) {
        reads[path]
    } else {
        Err(IoError::NotFound)
    }
}

/// What is left of `reads` once the read of `path` was asked for: a read
/// that gave entries is used up, a failed one stays recorded.
pub open spec fn spec_reads_after(
    reads: Map<Seq<Seq<char>>, Result<Vec<JoshutoDirEntry>, IoError>>,
    path: Seq<Seq<char>>,
) -> Map<Seq<Seq<char>>, Result<Vec<JoshutoDirEntry>, IoError>> {
    if spec_read(reads, path) is Ok {
        reads.remove(path)
    } else {
        reads
    }
}

/// What reading `path` gave, without taking it.
pub fn peek_read(reads: &DirReads, path: &JoshutoPath) -> (r: Result<(), IoError>)
    requires
        reads.wf(),
    ensures
        r is Ok == spec_read(reads@, path@) is Ok,
        r is Err ==> spec_read(reads@, path@) == Err::<Vec<JoshutoDirEntry>, IoError>(r->Err_0),
{
    match reads.get(path) {
        Some(outcome) => match outcome {
            Ok(_) => Ok(()),
            Err(e) => Err(*e),
        },
        None => Err(IoError::NotFound),
    }
}

/// Hands out what reading `path` gave. Entries are taken out of `reads`;
/// an error stays recorded.
pub fn take_read(reads: &mut DirReads, path: &JoshutoPath) -> (r: Result<
    Vec<JoshutoDirEntry>,
    IoError,
>)
    requires
        old(reads).wf(),
    ensures
        final(reads).wf(),
        final(reads)@ == spec_reads_after(old(reads)@, path@),
        r == spec_read(old(reads)@, path@),
{
    match peek_read(reads, path) {
        Ok(_) => match reads.remove(path) {
            Some(outcome) => outcome,
            None => Err(IoError::NotFound),
        },
        Err(e) => Err(e),
    }
}

} // verus!
