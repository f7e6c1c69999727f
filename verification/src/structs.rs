//! Directory entries and directory listings.

use crate::page_state::spec_update;
use crate::page_state::JoshutoPageState;
use crate::path::JoshutoPath;
use vstd::prelude::*;

verus! {

/// What kind of file an entry is.
#[derive(Clone, Copy, Debug, PartialEq, Eq, Structural)]
pub enum FileType {
    Directory,
    Symlink,
    BlockDevice,
    CharDevice,
    Fifo,
    Socket,
    Regular,
}

/// What was known of a file when its directory was read: its size in bytes,
/// its modification time in seconds since the epoch, its permission bits
/// and its kind.
#[derive(Clone, Copy, Debug, PartialEq, Eq, Structural)]
pub struct JoshutoMetadata {
    pub len: u64,
    pub modified: i64,
    pub mode: u32,
    pub file_type: FileType,
}

/// One child of a directory.
#[derive(Debug, PartialEq, Eq)]
pub struct JoshutoDirEntry {
    pub file_name_as_string: String,
    pub path: JoshutoPath,
    pub metadata: JoshutoMetadata,
    pub selected: bool,
}

impl Clone for JoshutoDirEntry {
    fn clone(&self) -> (r: Self)
        ensures
            r.file_name_as_string@ == self.file_name_as_string@,
            r.path@ == self.path@,
            r.metadata == self.metadata,
            r.selected == self.selected,
    {
        JoshutoDirEntry {
            file_name_as_string: self.file_name_as_string.clone(),
            path: self.path.clone(),
            metadata: self.metadata,
            selected: self.selected,
        }
    }
}

impl JoshutoDirEntry {
    /// An entry that is not marked as selected.
    pub fn new(file_name_as_string: String, path: JoshutoPath, metadata: JoshutoMetadata) -> (r:
        Self)
        ensures
            r.file_name_as_string == file_name_as_string,
            r.path == path,
            r.metadata == metadata,
            !r.selected,
    {
        JoshutoDirEntry { file_name_as_string, path, metadata, selected: false }
    }
}

/// Whether `i` is the first place among `contents` whose entry has the path
/// `path`.
pub open spec fn spec_first_at(contents: Seq<JoshutoDirEntry>, path: Seq<Seq<char>>, i: int) -> bool {
    &&& 0 <= i < contents.len()
    &&& contents[i].path@ == path
    &&& forall|j: int| 0 <= j < i ==> contents[j].path@ != path
}

/// The first place among `contents` whose entry has the path `path`.
pub open spec fn spec_position(contents: Seq<JoshutoDirEntry>, path: Seq<Seq<char>>) -> Option<
    int,
> {
    if exists|i: int| spec_first_at(contents, path, i) {
        Some(choose|i: int| spec_first_at(contents, path, i))
    } else {
        None
    }
}

/// The first place with a path is the only one that `spec_position` can
/// give.
pub proof fn lemma_position_first(contents: Seq<JoshutoDirEntry>, path: Seq<Seq<char>>, i: int)
    requires
        spec_first_at(contents, path, i),
    ensures
        spec_position(contents, path) == Some(i),
{
    let c = choose|c: int| spec_first_at(contents, path, c);
    assert(spec_first_at(contents, path, c));
    if c < i {
        assert(contents[c].path@ != path);
    } else if i < c {
        assert(contents[i].path@ != path);
    }
}

/// Where no entry has the path, `spec_position` gives nothing.
pub proof fn lemma_position_none(contents: Seq<JoshutoDirEntry>, path: Seq<Seq<char>>)
    requires
        forall|j: int| 0 <= j < contents.len() ==> contents[j].path@ != path,
    ensures
        spec_position(contents, path) is None,
{
}

/// The first entry of `contents` with the path of `path`.
pub fn position(contents: &Vec<JoshutoDirEntry>, path: &JoshutoPath) -> (r: Option<usize>)
    ensures
        r is Some == spec_position(contents@, path@) is Some,
        r is Some ==> r->0 as int == spec_position(contents@, path@)->0,
        r is Some ==> spec_first_at(contents@, path@, r->0 as int),
        r is None ==> forall|j: int| 0 <= j < contents.len() ==> contents[j].path@ != path@,
{
    let n = contents.len();
    let mut i: usize = 0;
    while i < n
        invariant
            i <= n,
            n == contents.len(),
            forall|j: int| 0 <= j < i ==> contents[j].path@ != path@,
        decreases n - i,
    {
        if contents[i].path.same_as(path) {
            proof {
                lemma_position_first(contents@, path@, i as int);
            }
            return Some(i);
        }
        i = i + 1;
    }
    proof {
        lemma_position_none(contents@, path@);
    }
    None
}

/// A listing as contracts see it: the directory's path, its entries in the
/// order in which they are shown, the place of the selection and the window.
pub struct DirListView {
    pub path: Seq<Seq<char>>,
    pub contents: Seq<JoshutoDirEntry>,
    pub index: Option<usize>,
    pub pagestate: JoshutoPageState,
}

impl DirListView {
    /// A listing has a selection exactly when it has entries, the selection
    /// is one of them, and the window lies inside the listing and is no
    /// higher than a terminal can be.
    pub open spec fn wf(self) -> bool {
        &&& self.index is None <==> self.contents.len() == 0
        &&& self.index matches Some(i) ==> i < self.contents.len()
        &&& self.pagestate.start <= self.pagestate.end <= self.contents.len()
        &&& self.pagestate.end - self.pagestate.start <= i32::MAX
    }
}

/// The listing made of a directory that was just read: the selection is on
/// the first entry, if there is one, and the window is empty.
pub open spec fn spec_new_list(path: Seq<Seq<char>>, contents: Seq<JoshutoDirEntry>) -> DirListView {
    DirListView {
        path,
        contents,
        index: if contents.len() == 0 {
            None
        } else {
            Some(0usize)
        },
        pagestate: JoshutoPageState { start: 0, end: 0 },
    }
}

/// Where the selection goes when a listing is read anew: to the first new
/// entry with the path of the entry that was selected; if there is none, to
/// the old place, or to the last entry where the old place is past the end;
/// to the first entry if nothing was selected. An empty listing has no
/// selection.
pub open spec fn spec_reselect(old_list: DirListView, contents: Seq<JoshutoDirEntry>) -> Option<
    usize,
> {
    if contents.len() == 0 {
        None
    } else {
        match old_list.index {
            None => Some(0usize),
            Some(i) => match spec_position(contents, old_list.contents[i as int].path@) {
                Some(j) => Some(j as usize),
                None => if i < contents.len() {
                    Some(i)
                } else {
                    Some((contents.len() - 1) as usize)
                },
            },
        }
    }
}

/// `value`, or `len` where `value` is past it.
pub open spec fn spec_capped(value: usize, len: nat) -> usize {
    if value <= len {
        value
    } else {
        len as usize
    }
}

/// The listing after its directory was read anew: the new entries, the
/// selection as `spec_reselect` gives it, and the old window cut to the new
/// length.
pub open spec fn spec_updated(old_list: DirListView, contents: Seq<JoshutoDirEntry>) -> DirListView {
    DirListView {
        path: old_list.path,
        contents,
        index: spec_reselect(old_list, contents),
        pagestate: JoshutoPageState {
            start: spec_capped(old_list.pagestate.start, contents.len()),
            end: spec_capped(old_list.pagestate.end, contents.len()),
        },
    }
}

/// The entries of one directory with the selection and the window over
/// them.
#[derive(Debug, PartialEq, Eq)]
pub struct JoshutoDirList {
    path: JoshutoPath,
    contents: Vec<JoshutoDirEntry>,
    index: Option<usize>,
    pagestate: JoshutoPageState,
}

impl View for JoshutoDirList {
    type V = DirListView;

    closed spec fn view(&self) -> DirListView {
        DirListView {
            path: self.path@,
            contents: self.contents@,
            index: self.index,
            pagestate: self.pagestate,
        }
    }
}

impl JoshutoDirList {
    /// The listing is well formed (see `DirListView::wf`).
    pub open spec fn wf(&self) -> bool {
        self@.wf()
    }

    /// The listing of the directory `path` with the entries `contents`,
    /// which are in the order in which they are shown.
    pub fn new(path: JoshutoPath, contents: Vec<JoshutoDirEntry>) -> (r: Self)
        ensures
            r.wf(),
            r@ == spec_new_list(path@, contents@),
    {
        let index = if contents.len() == 0 {
            None
        } else {
            Some(0)
        };
        JoshutoDirList { path, contents, index, pagestate: JoshutoPageState::new() }
    }

    /// The directory that is listed.
    pub fn path(&self) -> (r: &JoshutoPath)
        ensures
            r@ == self@.path,
    {
        &self.path
    }

    /// The entries, in the order in which they are shown.
    pub fn contents(&self) -> (r: &Vec<JoshutoDirEntry>)
        ensures
            r@ == self@.contents,
    {
        &self.contents
    }

    /// How many entries the listing has.
    pub fn len(&self) -> (r: usize)
        ensures
            r == self@.contents.len(),
    {
        self.contents.len()
    }

    /// The place of the selection; an empty listing has none.
    pub fn index(&self) -> (r: Option<usize>)
        ensures
            r == self@.index,
    {
        self.index
    }

    /// The window over the listing.
    pub fn pagestate(&self) -> (r: JoshutoPageState)
        ensures
            r == self@.pagestate,
    {
        self.pagestate
    }

    /// The selected entry.
    pub fn get_curr_ref(&self) -> (r: Option<&JoshutoDirEntry>)
        requires
            self.wf(),
        ensures
            r is Some == self@.index is Some,
            r is Some ==> *r->0 == self@.contents[self@.index->0 as int],
    {
        match self.index {
            Some(i) => Some(&self.contents[i]),
            None => None,
        }
    }

    /// Moves the selection to `index` if the listing has such an entry, and
    /// says whether it did.
    pub fn select(&mut self, index: usize) -> (r: bool)
        requires
            old(self).wf(),
        ensures
            final(self).wf(),
            r == (index < old(self)@.contents.len()),
            r ==> final(self)@ == (DirListView { index: Some(index), ..old(self)@ }),
            !r ==> final(self)@ == old(self)@,
    {
        if index < self.contents.len() {
            self.index = Some(index);
            true
        } else {
            false
        }
    }

    /// Sets the mark of the entry at `index` if the listing has such an
    /// entry, and says whether it did.
    pub fn set_selected(&mut self, index: usize, selected: bool) -> (r: bool)
        requires
            old(self).wf(),
        ensures
            final(self).wf(),
            r == (index < old(self)@.contents.len()),
            final(self)@.path == old(self)@.path,
            final(self)@.index == old(self)@.index,
            final(self)@.pagestate == old(self)@.pagestate,
            final(self)@.contents.len() == old(self)@.contents.len(),
            forall|k: int|
                0 <= k < old(self)@.contents.len() && k != index ==> final(self)@.contents[k]
                    == old(self)@.contents[k],
            r ==> final(self)@.contents[index as int].selected == selected,
            r ==> final(self)@.contents[index as int].path == old(self)@.contents[index as int].path,
            r ==> final(self)@.contents[index as int].file_name_as_string == old(
                self,
            )@.contents[index as int].file_name_as_string,
            r ==> final(self)@.contents[index as int].metadata == old(
                self,
            )@.contents[index as int].metadata,
    {
        if index < self.contents.len() {
            self.contents[index].selected = selected;
            true
        } else {
            false
        }
    }

    /// Takes the entries of a new read of the directory. The selection
    /// stays with the entry it was on where the new entries have one with
    /// its path, and is moved into the listing otherwise.
    pub fn update_contents(&mut self, contents: Vec<JoshutoDirEntry>)
        requires
            old(self).wf(),
        ensures
            final(self).wf(),
            final(self)@ == spec_updated(old(self)@, contents@),
    {
        let new_len = contents.len();
        let index = if new_len == 0 {
            None
        } else {
            match self.index {
                None => Some(0),
                Some(i) => match position(&contents, &self.contents[i].path) {
                    Some(j) => Some(j),
                    None => if i < new_len {
                        Some(i)
                    } else {
                        Some(new_len - 1)
                    },
                },
            }
        };
        self.contents = contents;
        self.index = index;
        if self.pagestate.start > new_len {
            self.pagestate.start = new_len;
        }
        if self.pagestate.end > new_len {
            self.pagestate.end = new_len;
        }
    }

    /// Moves the window so that it follows the selection when the listing
    /// is drawn in `win_rows` rows with a scroll margin of `scroll_offset`.
    /// A listing without a selection keeps its window.
    pub fn update_page_state(&mut self, win_rows: i32, scroll_offset: usize)
        requires
            old(self).wf(),
        ensures
            final(self).wf(),
            final(self)@.path == old(self)@.path,
            final(self)@.contents == old(self)@.contents,
            final(self)@.index == old(self)@.index,
            old(self)@.index is None ==> final(self)@.pagestate == old(self)@.pagestate,
            old(self)@.index matches Some(i) ==> (
                final(self)@.pagestate.start as int,
                final(self)@.pagestate.end as int,
            ) == spec_update(
                old(self)@.pagestate.start as int,
                i as int,
                win_rows as int,
                old(self)@.contents.len() as int,
                scroll_offset as int,
            ),
    {
        match self.index {
            Some(i) => {
                let n = self.contents.len();
                self.pagestate.update_page_state(i, win_rows, n, scroll_offset);
            },
            None => {},
        }
    }
}

} // verus!
