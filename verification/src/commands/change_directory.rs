//! The command that moves the tab on show to a directory.

use crate::context::ContextView;
use crate::context::JoshutoContext;
use crate::fs::DirReads;
use crate::fs::IoError;
use crate::path::spec_display;
use crate::path::JoshutoPath;
use crate::tab::spec_navigate;
use crate::tab::NavError;
use vstd::prelude::*;
use vstd::string::StringExecFns;

verus! {

/// Moves the tab on show to a directory.
#[derive(Debug)]
pub struct ChangeDirectory {
    path: JoshutoPath,
}

impl Clone for ChangeDirectory {
    fn clone(&self) -> (r: Self)
        ensures
            r.path()@ == self.path()@,
    {
        ChangeDirectory { path: self.path.clone() }
    }
}

impl ChangeDirectory {
    pub fn new(path: JoshutoPath) -> (r: Self)
        ensures
            r.path() == path,
    {
        ChangeDirectory { path }
    }

    /// The word that the keymap binds.
    pub fn command() -> (r: &'static str)
        ensures
            r@ == "cd"@,
    {
        "cd"
    }

    /// The command as the keymap shows it: its word and the directory.
    pub fn to_string(&self) -> (r: String)
        ensures
            r@ == "cd "@ + spec_display(self.path()@),
    {
        let written = self.path.display();
        "cd ".to_owned().concat(written.as_str())
    }

    /// The directory that the command moves to.
    pub closed spec fn path(&self) -> JoshutoPath {
        self.path
    }

    /// The directory that the command moves to.
    pub fn target(&self) -> (r: &JoshutoPath)
        ensures
            *r == self.path(),
    {
        &self.path
    }

    /// Moves the tab on show to `path` (see `JoshutoTab::navigate`):
    /// where it cannot, that tab stays as it was. The other tabs and the
    /// jobs are not touched.
    pub fn change_directory(
        path: &JoshutoPath,
        context: &mut JoshutoContext,
        exists: bool,
        chdir: Result<(), IoError>,
        reads: &mut DirReads,
    ) -> (r: Result<(), NavError>)
        requires
            old(context).wf(),
            old(reads).wf(),
            old(context)@.curr_tab_index < old(context)@.tabs.len(),
        ensures
            final(context).wf(),
            final(reads).wf(),
            ({
                let at = old(context)@.curr_tab_index as int;
                let moved = spec_navigate(old(context)@.tabs[at], path@, exists, chdir, old(reads)@);
                &&& r == moved.0
                &&& final(reads)@ == moved.2
                &&& final(context)@ == (ContextView {
                    tabs: old(context)@.tabs.update(at, moved.1),
                    ..old(context)@
                })
            }),
    {
        context.navigate_curr_tab(path, exists, chdir, reads)
    }
}

} // verus!
