//! One browsing context: a working directory, its listing, the listing of
//! its parent, and the stash of listings seen before.

use crate::context::JoshutoConfig;
use crate::fs::peek_read;
use crate::fs::spec_read;
use crate::fs::spec_reads_after;
use crate::fs::take_read;
use crate::fs::DirReads;
use crate::fs::IoError;
use crate::history::spec_history_wf;
use crate::history::spec_pop_or_create;
use crate::history::spec_populated;
use crate::history::spec_put_back;
use crate::history::spec_reads_left;
use crate::history::DirHistory;
use crate::path::spec_parent;
use crate::path::JoshutoPath;
use crate::structs::spec_updated;
use crate::structs::DirListView;
use crate::structs::JoshutoDirEntry;
use crate::structs::JoshutoDirList;
use crate::ui::spec_titlebar_path;
use crate::ui::titlebar_path;
use crate::window::spec_dir_display;
use crate::window::spec_shown_list;
use crate::window::DirDisplay;
use crate::window::DirDisplayView;
use crate::window::JoshutoPanel;
use crate::window::JoshutoView;
use vstd::prelude::*;

verus! {

/// Why a tab did not move to another directory.
#[derive(Clone, Copy, Debug, PartialEq, Eq, Structural)]
pub enum NavError {
    /// The target does not exist.
    TargetMissing,
    /// The target is no directory.
    NotADirectory,
    /// The working directory could not be changed.
    ChangeDirFailed(IoError),
    /// The target or its parent could not be read.
    ReadFailed(IoError),
    /// The target is no child of the working directory.
    NotAChild,
}

/// A tab as contracts see it.
pub struct TabView {
    pub history: Map<Seq<Seq<char>>, DirListView>,
    pub curr_path: Seq<Seq<char>>,
    pub parent_list: Option<DirListView>,
    pub curr_list: Option<DirListView>,
}

impl TabView {
    /// The stash is well formed; the current listing is that of the working
    /// directory and the parent listing that of its parent; and a listing
    /// that the tab shows is not in the stash as well.
    pub open spec fn wf(self) -> bool {
        &&& spec_history_wf(self.history)
        &&& self.curr_list matches Some(l) ==> {
            &&& l.wf()
            &&& l.path == self.curr_path
            &&& !self.history.contains_key(l.path)
        }
        &&& self.parent_list matches Some(l) ==> {
            &&& l.wf()
            &&& spec_parent(self.curr_path) == Some(l.path)
            &&& !self.history.contains_key(l.path)
        }
    }
}

/// A listing that may be absent, as contracts see it.
pub open spec fn spec_list_view(list: Option<JoshutoDirList>) -> Option<DirListView> {
    match list {
        Some(l) => Some(l@),
        None => None,
    }
}

/// The error of a navigation whose change of the working directory failed
/// with `e`.
pub open spec fn spec_chdir_error(e: IoError) -> NavError {
    if e == IoError::NotADirectory {
        NavError::NotADirectory
    } else {
        NavError::ChangeDirFailed(e)
    }
}

/// The error of a navigation whose target could not be read for `e`.
pub open spec fn spec_target_error(e: IoError) -> NavError {
    if e == IoError::NotADirectory {
        NavError::NotADirectory
    } else {
        NavError::ReadFailed(e)
    }
}

/// The tab that is opened on `path`, or the error of the first read that
/// it could not do without: the stash is populated up to the root, then
/// the listings of `path` and of its parent are asked of it.
pub open spec fn spec_new_tab(
    path: Seq<Seq<char>>,
    reads: Map<Seq<Seq<char>>, Result<Vec<JoshutoDirEntry>, IoError>>,
) -> Result<TabView, IoError> {
    let empty = Map::<Seq<Seq<char>>, DirListView>::empty();
    let stash = spec_populated(empty, path, reads);
    let left = spec_reads_left(empty, path, reads);
    let curr = spec_pop_or_create(stash, path, left);
    match curr.0 {
        Err(e) => Err(e),
        Ok(curr_list) => match spec_parent(path) {
            None => Ok(
                TabView {
                    history: curr.1,
                    curr_path: path,
                    parent_list: None,
                    curr_list: Some(curr_list),
                },
            ),
            Some(above) => {
                let parent = spec_pop_or_create(curr.1, above, curr.2);
                match parent.0 {
                    Err(e) => Err(e),
                    Ok(parent_list) => Ok(
                        TabView {
                            history: parent.1,
                            curr_path: path,
                            parent_list: Some(parent_list),
                            curr_list: Some(curr_list),
                        },
                    ),
                }
            },
        },
    }
}

/// The stash of a tab once both of its listings were put back.
pub open spec fn spec_stashed(tab: TabView) -> Map<Seq<Seq<char>>, DirListView> {
    spec_put_back(spec_put_back(tab.history, tab.parent_list), tab.curr_list)
}

/// What moving `tab` to `path` gives: the result, the tab and the reads
/// after it.
///
/// `exists` says whether the target was found and `chdir` what came of
/// changing the working directory to it. Where either failed, or a listing
/// that the tab needs could not be had, the tab and the reads stay as they
/// were. Otherwise both listings go to the stash, the stash is populated up
/// to the root, and the listings of `path` and of its parent are asked of
/// it.
pub open spec fn spec_navigate(
    tab: TabView,
    path: Seq<Seq<char>>,
    exists: bool,
    chdir: Result<(), IoError>,
    reads: Map<Seq<Seq<char>>, Result<Vec<JoshutoDirEntry>, IoError>>,
) -> (Result<(), NavError>, TabView, Map<Seq<Seq<char>>, Result<Vec<JoshutoDirEntry>, IoError>>) {
    if !exists {
        (Err(NavError::TargetMissing), tab, reads)
    } else if chdir is Err {
        (Err(spec_chdir_error(chdir->Err_0)), tab, reads)
    } else {
        let stash = spec_populated(spec_stashed(tab), path, reads);
        let left = spec_reads_left(spec_stashed(tab), path, reads);
        let curr = spec_pop_or_create(stash, path, left);
        match curr.0 {
            Err(e) => (Err(spec_target_error(e)), tab, reads),
            Ok(curr_list) => match spec_parent(path) {
                None => (
                    Ok(()),
                    TabView {
                        history: curr.1,
                        curr_path: path,
                        parent_list: None,
                        curr_list: Some(curr_list),
                    },
                    curr.2,
                ),
                Some(above) => {
                    let parent = spec_pop_or_create(curr.1, above, curr.2);
                    match parent.0 {
                        Err(e) => (Err(NavError::ReadFailed(e)), tab, reads),
                        Ok(parent_list) => (
                            Ok(()),
                            TabView {
                                history: parent.1,
                                curr_path: path,
                                parent_list: Some(parent_list),
                                curr_list: Some(curr_list),
                            },
                            parent.2,
                        ),
                    }
                },
            },
        }
    }
}

/// What stepping from the working directory of `tab` into its child `path`
/// gives: the result, the tab and the reads after it.
///
/// Where the change of the working directory failed, `path` is no child of
/// the working directory, or its listing could not be had, the tab and the
/// reads stay as they were. Otherwise the parent listing goes to the stash,
/// the current listing becomes the parent listing, and the listing of
/// `path` is asked of the stash.
pub open spec fn spec_into_directory(
    tab: TabView,
    path: Seq<Seq<char>>,
    chdir: Result<(), IoError>,
    reads: Map<Seq<Seq<char>>, Result<Vec<JoshutoDirEntry>, IoError>>,
) -> (Result<(), NavError>, TabView, Map<Seq<Seq<char>>, Result<Vec<JoshutoDirEntry>, IoError>>) {
    if chdir is Err {
        (Err(spec_chdir_error(chdir->Err_0)), tab, reads)
    } else if spec_parent(path) != Some(tab.curr_path) {
        (Err(NavError::NotAChild), tab, reads)
    } else {
        let curr = spec_pop_or_create(spec_put_back(tab.history, tab.parent_list), path, reads);
        match curr.0 {
            Err(e) => (Err(spec_target_error(e)), tab, reads),
            Ok(curr_list) => (
                Ok(()),
                TabView {
                    history: curr.1,
                    curr_path: path,
                    parent_list: tab.curr_list,
                    curr_list: Some(curr_list),
                },
                curr.2,
            ),
        }
    }
}

/// A listing after its directory was read anew, with the reads after it: a
/// listing whose read gave entries takes them; one whose read failed, or of
/// which nothing is recorded, stays as it was.
pub open spec fn spec_reloaded_list(
    list: Option<DirListView>,
    reads: Map<Seq<Seq<char>>, Result<Vec<JoshutoDirEntry>, IoError>>,
) -> (Option<DirListView>, Map<Seq<Seq<char>>, Result<Vec<JoshutoDirEntry>, IoError>>) {
    match list {
        None => (None, reads),
        Some(l) => match spec_read(reads, l.path) {
            Ok(contents) => (Some(spec_updated(l, contents@)), spec_reads_after(reads, l.path)),
            Err(_) => (Some(l), reads),
        },
    }
}

/// The tab after both of its listings were read anew, the current one
/// first, with the reads after it.
pub open spec fn spec_reload(
    tab: TabView,
    reads: Map<Seq<Seq<char>>, Result<Vec<JoshutoDirEntry>, IoError>>,
) -> (TabView, Map<Seq<Seq<char>>, Result<Vec<JoshutoDirEntry>, IoError>>) {
    let curr = spec_reloaded_list(tab.curr_list, reads);
    let parent = spec_reloaded_list(tab.parent_list, curr.1);
    (TabView { parent_list: parent.0, curr_list: curr.0, ..tab }, parent.1)
}

/// The directories on the way from the root to `path`, `path` itself
/// last.
pub open spec fn spec_way(path: Seq<Seq<char>>) -> Seq<Seq<Seq<char>>> {
    Seq::new(path.len() + 1, |depth: int| path.take(depth))
}

/// The directories that a navigation to `path` asks of the reads: those on
/// the way from the root to `path` of which the tab has no listing, in the
/// stash or on show.
pub open spec fn spec_navigation_reads(tab: TabView, path: Seq<Seq<char>>) -> Seq<Seq<Seq<char>>> {
    spec_way(path).filter(spec_lacks(tab))
}

/// Whether the tab has no listing of a directory, in the stash or on show.
pub open spec fn spec_lacks(tab: TabView) -> spec_fn(Seq<Seq<char>>) -> bool {
    |dir: Seq<Seq<char>>| !spec_stashed(tab).contains_key(dir)
}

/// The paths as contracts see them.
pub open spec fn spec_paths(paths: Seq<JoshutoPath>) -> Seq<Seq<Seq<char>>> {
    paths.map_values(|p: JoshutoPath| p@)
}

/// A listing that may be absent, after `win` has shown it.
pub open spec fn spec_shown(list: Option<DirListView>, win: JoshutoPanel, scroll_offset: usize) -> Option<
    DirListView,
> {
    match list {
        Some(l) => Some(spec_shown_list(l, win, scroll_offset)),
        None => None,
    }
}

/// What `win` shows of a listing that may be absent: of an absent one,
/// nothing is drawn and the panel is left as it is.
pub open spec fn spec_shows(list: Option<DirListView>, win: JoshutoPanel, scroll_offset: usize) -> Option<
    DirDisplayView,
> {
    match list {
        Some(l) => Some(spec_dir_display(l, win, scroll_offset)),
        None => None,
    }
}

/// What a panel shows, where it shows anything, as contracts see it.
pub open spec fn spec_display_view(display: Option<DirDisplay>) -> Option<DirDisplayView> {
    match display {
        Some(d) => Some(d@),
        None => None,
    }
}

/// What the two columns of listings show of a tab.
#[derive(Debug, PartialEq, Eq)]
pub struct TabDisplay {
    pub curr: Option<DirDisplay>,
    pub parent: Option<DirDisplay>,
}

/// The place of the selection as the status line tells it, counted from
/// one, and the number of entries.
#[derive(Clone, Copy, Debug, PartialEq, Eq, Structural)]
pub struct FileStatus {
    pub position: usize,
    pub len: usize,
}

/// One browsing context.
pub struct JoshutoTab {
    history: DirHistory,
    curr_path: JoshutoPath,
    parent_list: Option<JoshutoDirList>,
    curr_list: Option<JoshutoDirList>,
}

impl View for JoshutoTab {
    type V = TabView;

    closed spec fn view(&self) -> TabView {
        TabView {
            history: self.history@,
            curr_path: self.curr_path@,
            parent_list: spec_list_view(self.parent_list),
            curr_list: spec_list_view(self.curr_list),
        }
    }
}

/// A tab that was opened, or the error, as contracts see it.
pub open spec fn spec_tab_result(r: Result<JoshutoTab, IoError>) -> Result<TabView, IoError> {
    match r {
        Ok(t) => Ok(t@),
        Err(e) => Err(e),
    }
}

impl JoshutoTab {
    /// The tab is well formed (see `TabView::wf`).
    pub closed spec fn wf(&self) -> bool {
        self.history.wf() && self@.wf()
    }

    /// A well-formed tab has a well-formed view.
    pub proof fn lemma_wf(&self)
        requires
            self.wf(),
        ensures
            self@.wf(),
    {
    }

    /// Opens a tab on `curr_path` with what `reads` holds of it and of the
    /// directories above it. The tab is not opened where the directory or
    /// its parent could not be read.
    pub fn new(curr_path: JoshutoPath, reads: DirReads) -> (r: Result<Self, IoError>)
        requires
            reads.wf(),
        ensures
            spec_tab_result(r) == spec_new_tab(curr_path@, reads@),
            r matches Ok(tab) ==> tab.wf(),
    {
        let mut reads = reads;
        let mut history = DirHistory::new();
        history.populate_to_root(&curr_path, &mut reads);
        let curr_list = match history.pop_or_create(&curr_path, &mut reads) {
            Ok(l) => l,
            Err(e) => {
                return Err(e);
            },
        };
        let parent_list = match curr_path.parent() {
            Some(above) => match history.pop_or_create(&above, &mut reads) {
                Ok(l) => Some(l),
                Err(e) => {
                    return Err(e);
                },
            },
            None => None,
        };
        proof {
            history.lemma_wf();
        }
        Ok(JoshutoTab { history, curr_path, parent_list, curr_list: Some(curr_list) })
    }

    /// The working directory.
    pub fn curr_path(&self) -> (r: &JoshutoPath)
        ensures
            r@ == self@.curr_path,
    {
        &self.curr_path
    }

    /// The listing of the working directory.
    pub fn curr_list(&self) -> (r: Option<&JoshutoDirList>)
        ensures
            r is Some == self@.curr_list is Some,
            r matches Some(l) ==> Some(l@) == self@.curr_list,
            self.wf() ==> (r matches Some(l) ==> l.wf()),
    {
        self.curr_list.as_ref()
    }

    /// The listing of the parent of the working directory.
    pub fn parent_list(&self) -> (r: Option<&JoshutoDirList>)
        ensures
            r is Some == self@.parent_list is Some,
            r matches Some(l) ==> Some(l@) == self@.parent_list,
            self.wf() ==> (r matches Some(l) ==> l.wf()),
    {
        self.parent_list.as_ref()
    }

    /// The stash of listings that the tab does not show.
    pub fn history(&self) -> (r: &DirHistory)
        ensures
            r@ == self@.history,
            self.wf() ==> r.wf(),
    {
        &self.history
    }

    /// Whether the tab has a listing of `path`, in the stash or on show.
    fn holds(&self, path: &JoshutoPath) -> (r: bool)
        requires
            self.wf(),
        ensures
            r == spec_stashed(self@).contains_key(path@),
    {
        if self.history.contains(path) {
            return true;
        }
        let in_parent = match &self.parent_list {
            Some(l) => l.path().same_as(path),
            None => false,
        };
        let in_curr = match &self.curr_list {
            Some(l) => l.path().same_as(path),
            None => false,
        };
        in_parent || in_curr
    }

    /// The directories that the caller is to read before it moves the tab
    /// to `path` (see `spec_navigation_reads`).
    pub fn navigation_reads(&self, path: &JoshutoPath) -> (r: Vec<JoshutoPath>)
        requires
            self.wf(),
        ensures
            spec_paths(r@) == spec_navigation_reads(self@, path@),
    {
        let n = path.depth();
        let mut dirs: Vec<JoshutoPath> = Vec::new();
        let mut depth: usize = 0;
        let ghost keep = spec_lacks(self@);
        assert(spec_way(path@).take(0) =~= Seq::empty());
        assert(spec_paths(dirs@) =~= spec_way(path@).take(0).filter(keep));
        while depth <= n
            invariant
                depth <= n + 1,
                n == path@.len(),
                self.wf(),
                keep == spec_lacks(self@),
                spec_paths(dirs@) == spec_way(path@).take(depth as int).filter(keep),
            decreases n + 1 - depth,
        {
            let dir = path.ancestor(depth);
            let ghost before = dirs@;
            proof {
                let upto = spec_way(path@).take(depth as int + 1);
                assert(upto.drop_last() =~= spec_way(path@).take(depth as int));
                assert(upto.last() == dir@);
                reveal(Seq::filter);
            }
            if !self.holds(&dir) {
                dirs.push(dir);
                assert(spec_paths(dirs@) =~= spec_paths(before).push(dir@));
            }
            if depth == n {
                assert(spec_way(path@).take(depth as int + 1) =~= spec_way(path@));
                return dirs;
            }
            depth = depth + 1;
        }
        assert(spec_way(path@).take(depth as int) =~= spec_way(path@));
        dirs
    }

    /// The directories whose listings the tab shows: the caller reads them
    /// before it lets the tab read its listings anew.
    pub fn shown_paths(&self) -> (r: Vec<JoshutoPath>)
        ensures
            spec_paths(r@) == (match self@.curr_list {
                Some(l) => seq![l.path],
                None => Seq::empty(),
            }) + (match self@.parent_list {
                Some(l) => seq![l.path],
                None => Seq::empty(),
            }),
    {
        let mut dirs: Vec<JoshutoPath> = Vec::new();
        if let Some(list) = &self.curr_list {
            dirs.push(list.path().clone());
        }
        if let Some(list) = &self.parent_list {
            dirs.push(list.path().clone());
        }
        assert(spec_paths(dirs@) =~= (match self@.curr_list {
            Some(l) => seq![l.path],
            None => Seq::empty(),
        }) + (match self@.parent_list {
            Some(l) => seq![l.path],
            None => Seq::empty(),
        }));
        dirs
    }

    /// Moves the tab to `path`.
    ///
    /// The caller says whether the target exists (`exists`), what came of
    /// changing the working directory to it (`chdir`), and hands in what
    /// it read (`reads`). Where the target is missing, the working
    /// directory could not be changed, or the listing of the target or of
    /// its parent can neither be found in the stash nor be had from
    /// `reads`, the tab and `reads` stay as they were and the error says
    /// why. Otherwise the tab shows `path` and its parent, and every
    /// directory above `path` has a listing in the stash where the stash
    /// held one or its read gave one.
    pub fn navigate(
        &mut self,
        path: &JoshutoPath,
        exists: bool,
        chdir: Result<(), IoError>,
        reads: &mut DirReads,
    ) -> (r: Result<(), NavError>)
        requires
            old(self).wf(),
            old(reads).wf(),
        ensures
            final(self).wf(),
            final(reads).wf(),
            (r, final(self)@, final(reads)@) == spec_navigate(
                old(self)@,
                path@,
                exists,
                chdir,
                old(reads)@,
            ),
            r is Err ==> *final(self) == *old(self),
    {
        if !exists {
            return Err(NavError::TargetMissing);
        }
        if let Err(e) = chdir {
            return Err(
                if e == IoError::NotADirectory {
                    NavError::NotADirectory
                } else {
                    NavError::ChangeDirFailed(e)
                },
            );
        }
        proof {
            lemma_navigate_needs(self@, path@, reads@);
        }
        if !self.holds(path) {
            if let Err(e) = peek_read(reads, path) {
                return Err(
                    if e == IoError::NotADirectory {
                        NavError::NotADirectory
                    } else {
                        NavError::ReadFailed(e)
                    },
                );
            }
        }
        let above = path.parent();
        if let Some(dir) = &above {
            if !self.holds(dir) {
                if let Err(e) = peek_read(reads, dir) {
                    return Err(NavError::ReadFailed(e));
                }
            }
        }
        let parent_list = self.parent_list.take();
        self.history.put_back(parent_list);
        let curr_list = self.curr_list.take();
        self.history.put_back(curr_list);
        self.history.populate_to_root(path, reads);
        let new_curr = match self.history.pop_or_create(path, reads) {
            Ok(l) => l,
            Err(_) => {
                proof {
                    assert(false);
                }
                return Err(NavError::TargetMissing);
            },
        };
        let new_parent = match above {
            Some(dir) => match self.history.pop_or_create(&dir, reads) {
                Ok(l) => Some(l),
                Err(_) => {
                    proof {
                        assert(false);
                    }
                    return Err(NavError::TargetMissing);
                },
            },
            None => None,
        };
        self.curr_list = Some(new_curr);
        self.parent_list = new_parent;
        self.curr_path = path.clone();
        proof {
            self.history.lemma_wf();
        }
        Ok(())
    }

    /// Steps into `path`, a child of the working directory.
    ///
    /// The caller says what came of changing the working directory to it
    /// (`chdir`) and hands in what it read (`reads`). Where the change
    /// failed, `path` is no child of the working directory, or its listing
    /// can neither be found in the stash nor be had from `reads`, the tab
    /// and `reads` stay as they were and the error says why. Otherwise the
    /// listing that was current becomes the parent listing.
    pub fn into_directory(
        &mut self,
        path: &JoshutoPath,
        chdir: Result<(), IoError>,
        reads: &mut DirReads,
    ) -> (r: Result<(), NavError>)
        requires
            old(self).wf(),
            old(reads).wf(),
        ensures
            final(self).wf(),
            final(reads).wf(),
            (r, final(self)@, final(reads)@) == spec_into_directory(
                old(self)@,
                path@,
                chdir,
                old(reads)@,
            ),
            r is Err ==> *final(self) == *old(self),
    {
        if let Err(e) = chdir {
            return Err(
                if e == IoError::NotADirectory {
                    NavError::NotADirectory
                } else {
                    NavError::ChangeDirFailed(e)
                },
            );
        }
        let is_child = match path.parent() {
            Some(dir) => dir.same_as(&self.curr_path),
            None => false,
        };
        if !is_child {
            return Err(NavError::NotAChild);
        }
        let held = self.history.contains(path) || match &self.parent_list {
            Some(l) => l.path().same_as(path),
            None => false,
        };
        if !held {
            if let Err(e) = peek_read(reads, path) {
                return Err(
                    if e == IoError::NotADirectory {
                        NavError::NotADirectory
                    } else {
                        NavError::ReadFailed(e)
                    },
                );
            }
        }
        let parent_list = self.parent_list.take();
        self.history.put_back(parent_list);
        let new_curr = match self.history.pop_or_create(path, reads) {
            Ok(l) => l,
            Err(_) => {
                proof {
                    assert(false);
                }
                return Err(NavError::TargetMissing);
            },
        };
        let curr_list = self.curr_list.take();
        self.parent_list = curr_list;
        self.curr_list = Some(new_curr);
        self.curr_path = path.clone();
        proof {
            self.history.lemma_wf();
        }
        Ok(())
    }

    /// Shows the current listing in `win`: its window follows the
    /// selection, and the result says what is drawn. Nothing is drawn for
    /// a tab without a current listing.
    pub fn refresh_curr(&mut self, win: &JoshutoPanel, scroll_offset: usize) -> (r: Option<
        DirDisplay,
    >)
        requires
            old(self).wf(),
        ensures
            final(self).wf(),
            final(self)@ == (TabView {
                curr_list: spec_shown(old(self)@.curr_list, *win, scroll_offset),
                ..old(self)@
            }),
            spec_display_view(r) == spec_shows(old(self)@.curr_list, *win, scroll_offset),
    {
        match self.curr_list.take() {
            Some(mut list) => {
                let shown = win.display_contents(&mut list, scroll_offset);
                self.curr_list = Some(list);
                Some(shown)
            },
            None => None,
        }
    }

    /// Shows the parent listing in `win`, as `refresh_curr` shows the
    /// current one.
    pub fn refresh_parent(&mut self, win: &JoshutoPanel, scroll_offset: usize) -> (r: Option<
        DirDisplay,
    >)
        requires
            old(self).wf(),
        ensures
            final(self).wf(),
            final(self)@ == (TabView {
                parent_list: spec_shown(old(self)@.parent_list, *win, scroll_offset),
                ..old(self)@
            }),
            spec_display_view(r) == spec_shows(old(self)@.parent_list, *win, scroll_offset),
    {
        match self.parent_list.take() {
            Some(mut list) => {
                let shown = win.display_contents(&mut list, scroll_offset);
                self.parent_list = Some(list);
                Some(shown)
            },
            None => None,
        }
    }

    /// Shows the current listing in the middle column of `views` and the
    /// parent listing in its left column.
    pub fn refresh_(&mut self, views: &JoshutoView, scroll_offset: usize) -> (r: TabDisplay)
        requires
            old(self).wf(),
        ensures
            final(self).wf(),
            final(self)@ == (TabView {
                curr_list: spec_shown(old(self)@.curr_list, views.window_mid, scroll_offset),
                parent_list: spec_shown(old(self)@.parent_list, views.window_left, scroll_offset),
                ..old(self)@
            }),
            spec_display_view(r.curr) == spec_shows(
                old(self)@.curr_list,
                views.window_mid,
                scroll_offset,
            ),
            spec_display_view(r.parent) == spec_shows(
                old(self)@.parent_list,
                views.window_left,
                scroll_offset,
            ),
    {
        let curr = self.refresh_curr(&views.window_mid, scroll_offset);
        let parent = self.refresh_parent(&views.window_left, scroll_offset);
        TabDisplay { curr, parent }
    }

    /// Shows both listings with the scroll margin that the settings give
    /// (see `refresh_`).
    pub fn refresh(&mut self, views: &JoshutoView, config_t: &JoshutoConfig) -> (r: TabDisplay)
        requires
            old(self).wf(),
        ensures
            final(self).wf(),
            final(self)@ == (TabView {
                curr_list: spec_shown(
                    old(self)@.curr_list,
                    views.window_mid,
                    config_t.scroll_offset,
                ),
                parent_list: spec_shown(
                    old(self)@.parent_list,
                    views.window_left,
                    config_t.scroll_offset,
                ),
                ..old(self)@
            }),
            spec_display_view(r.curr) == spec_shows(
                old(self)@.curr_list,
                views.window_mid,
                config_t.scroll_offset,
            ),
            spec_display_view(r.parent) == spec_shows(
                old(self)@.parent_list,
                views.window_left,
                config_t.scroll_offset,
            ),
    {
        self.refresh_(views, config_t.scroll_offset)
    }

    /// What the status line tells of the selection: its place counted from
    /// one and the number of entries. A tab without a current listing, or
    /// with an empty one, tells nothing.
    pub fn refresh_file_status(&self) -> (r: Option<FileStatus>)
        requires
            self.wf(),
        ensures
            r == (match self@.curr_list {
                Some(l) => match l.index {
                    Some(i) => Some(
                        FileStatus { position: (i + 1) as usize, len: l.contents.len() as usize },
                    ),
                    None => None,
                },
                None => None,
            }),
    {
        match &self.curr_list {
            Some(list) => match list.index() {
                Some(i) => {
                    let len = list.len();
                    Some(FileStatus { position: i + 1, len })
                },
                None => None,
            },
            None => None,
        }
    }

    /// The working directory as the title bar shows it (see
    /// `spec_titlebar_path`).
    pub fn refresh_path_status(&self, username: &str, tilde_in_titlebar: bool) -> (r: String)
        ensures
            r@ == spec_titlebar_path(self@.curr_path, username@, tilde_in_titlebar),
    {
        titlebar_path(&self.curr_path, username, tilde_in_titlebar)
    }

    /// Reads both listings anew from `reads`, the current one first. A
    /// listing whose directory could not be read stays as it was.
    pub fn reload_contents(&mut self, reads: &mut DirReads)
        requires
            old(self).wf(),
            old(reads).wf(),
        ensures
            final(self).wf(),
            final(reads).wf(),
            (final(self)@, final(reads)@) == spec_reload(old(self)@, old(reads)@),
    {
        match self.curr_list.take() {
            Some(mut list) => {
                match take_read(reads, list.path()) {
                    Ok(contents) => {
                        list.update_contents(contents);
                    },
                    Err(_) => {},
                }
                self.curr_list = Some(list);
            },
            None => {},
        }
        match self.parent_list.take() {
            Some(mut list) => {
                match take_read(reads, list.path()) {
                    Ok(contents) => {
                        list.update_contents(contents);
                    },
                    Err(_) => {},
                }
                self.parent_list = Some(list);
            },
            None => {},
        }
    }
}

/// Whether a navigation to `path` finds the listings it needs: the stash
/// with both listings put back holds the directory, or its read gave
/// entries.
pub open spec fn spec_available(
    tab: TabView,
    dir: Seq<Seq<char>>,
    reads: Map<Seq<Seq<char>>, Result<Vec<JoshutoDirEntry>, IoError>>,
) -> bool {
    spec_stashed(tab).contains_key(dir) || spec_read(reads, dir) is Ok
}

/// Whether a navigation to `path` finds the listing of the parent of
/// `path`, where `path` has one.
pub open spec fn spec_parent_available(
    tab: TabView,
    path: Seq<Seq<char>>,
    reads: Map<Seq<Seq<char>>, Result<Vec<JoshutoDirEntry>, IoError>>,
) -> bool {
    match spec_parent(path) {
        None => true,
        Some(above) => spec_available(tab, above, reads),
    }
}

/// A navigation whose target exists and whose change of the working
/// directory went well fails exactly where the listing of the target or of
/// its parent is not available, with the error of the first read that was
/// missed.
pub proof fn lemma_navigate_needs(
    tab: TabView,
    path: Seq<Seq<char>>,
    reads: Map<Seq<Seq<char>>, Result<Vec<JoshutoDirEntry>, IoError>>,
)
    ensures
        ({
            let r = spec_navigate(tab, path, true, Ok(()), reads).0;
            if !spec_available(tab, path, reads) {
                r == Err::<(), NavError>(spec_target_error(spec_read(reads, path)->Err_0))
            } else if !spec_parent_available(tab, path, reads) {
                r == Err::<(), NavError>(
                    NavError::ReadFailed(spec_read(reads, spec_parent(path)->0)->Err_0),
                )
            } else {
                r is Ok
            }
        }),
{
    let stash = spec_populated(spec_stashed(tab), path, reads);
    let left = spec_reads_left(spec_stashed(tab), path, reads);
    let curr = spec_pop_or_create(stash, path, left);
    assert(stash.contains_key(path) == spec_stashed(tab).contains_key(path));
    assert(spec_read(left, path) == spec_read(reads, path));
    if spec_parent(path) is Some {
        let above = spec_parent(path)->0;
        assert(above.is_prefix_of(path));
        assert(stash.contains_key(above) == spec_available(tab, above, reads));
        assert(curr.1.contains_key(above) == stash.contains_key(above));
        if !spec_available(tab, above, reads) {
            assert(spec_read(left, above) == spec_read(reads, above));
            assert(spec_read(curr.2, above) == spec_read(reads, above));
        }
    }
}

/// A navigation whose target exists and whose change of the working
/// directory went well succeeds where every directory that it asks of the
/// reads was read without an error.
pub proof fn lemma_navigate_succeeds_with_reads(
    tab: TabView,
    path: Seq<Seq<char>>,
    reads: Map<Seq<Seq<char>>, Result<Vec<JoshutoDirEntry>, IoError>>,
)
    requires
        forall|dir: Seq<Seq<char>>|
            spec_navigation_reads(tab, path).contains(dir) ==> spec_read(reads, dir) is Ok,
    ensures
        spec_navigate(tab, path, true, Ok(()), reads).0 is Ok,
{
    let keep = spec_lacks(tab);
    let way = spec_way(path);
    let asked = spec_navigation_reads(tab, path);
    assert(asked == way.filter(keep));
    lemma_navigate_needs(tab, path, reads);
    let last = path.len() as int;
    assert(way[last] == path.take(last));
    assert(path.take(last) =~= path);
    if !spec_stashed(tab).contains_key(path) {
        assert(keep(way[last]));
        way.lemma_filter_contains(keep, last);
        assert(asked.contains(path));
        assert(spec_read(reads, path) is Ok);
    }
    assert(spec_available(tab, path, reads));
    if spec_parent(path) is Some {
        let above = spec_parent(path)->0;
        assert(way[last - 1] == path.take(last - 1));
        assert(path.take(last - 1) =~= above);
        if !spec_stashed(tab).contains_key(above) {
            assert(keep(way[last - 1]));
            way.lemma_filter_contains(keep, last - 1);
            assert(asked.contains(above));
            assert(spec_read(reads, above) is Ok);
        }
        assert(spec_available(tab, above, reads));
    }
    assert(spec_parent_available(tab, path, reads));
}

/// A navigation that fails leaves the tab and the reads as they were. A
/// target that does not exist is one such failure.
pub proof fn lemma_failed_navigation_changes_nothing(
    tab: TabView,
    path: Seq<Seq<char>>,
    exists: bool,
    chdir: Result<(), IoError>,
    reads: Map<Seq<Seq<char>>, Result<Vec<JoshutoDirEntry>, IoError>>,
)
    ensures
        ({
            let after = spec_navigate(tab, path, exists, chdir, reads);
            &&& after.0 is Err ==> after.1 == tab && after.2 == reads
            &&& !exists ==> after.0 == Err::<(), NavError>(NavError::TargetMissing)
        }),
{
}

} // verus!
