//! The command that deletes the files a listing has marked.

use crate::keymap::ENTER;
use crate::structs::FileType;
use vstd::prelude::*;

verus! {

/// Deletes the files that are marked.
#[derive(Clone, Copy, Debug)]
pub struct DeleteFiles;

/// How a path is to be removed.
#[derive(Clone, Copy, Debug, PartialEq, Eq, Structural)]
pub enum Removal {
    /// Nothing is known of the path: it is passed over.
    Skip,
    /// The path is a directory: it is removed with all that is in it.
    Tree,
    /// The path is anything else: it is removed as a file.
    File,
}

impl DeleteFiles {
    pub fn new() -> (r: Self) {
        DeleteFiles
    }

    /// The word that the keymap binds.
    pub fn command() -> (r: &'static str)
        ensures
            r@ == "delete_files"@,
    {
        "delete_files"
    }

    /// The command as the keymap shows it.
    pub fn to_string(&self) -> (r: String)
        ensures
            r@ == "delete_files"@,
    {
        Self::command().to_owned()
    }

    /// Whether the key `ch` confirms the deletion: `y` and the enter key
    /// do.
    pub fn confirmed(ch: i32) -> (r: bool)
        ensures
            r == (ch == 'y' as i32 || ch == ENTER),
    {
        ch == 121 || ch == ENTER
    }

    /// How a path is to be removed, given its kind as the filesystem told
    /// it without following links, or `None` where it could not tell.
    pub fn removal(kind: Option<FileType>) -> (r: Removal)
        ensures
            r == (match kind {
                None => Removal::Skip,
                Some(FileType::Directory) => Removal::Tree,
                Some(_) => Removal::File,
            }),
    {
        match kind {
            None => Removal::Skip,
            Some(FileType::Directory) => Removal::Tree,
            Some(_) => Removal::File,
        }
    }
}

} // verus!
