//! The commands that a key can be bound to, as far as they decide
//! anything.

pub mod change_directory;
pub mod delete_files;
pub mod open_file;

use crate::path::JoshutoPath;
use crate::structs::DirListView;
use crate::structs::JoshutoDirEntry;
use crate::structs::JoshutoDirList;
use vstd::prelude::*;

verus! {

/// The paths as contracts see them.
pub open spec fn spec_path_views(paths: Seq<JoshutoPath>) -> Seq<Seq<Seq<char>>> {
    paths.map_values(|p: JoshutoPath| p@)
}

/// The paths of the entries that are marked, in the order of the listing.
pub open spec fn spec_marked_paths(contents: Seq<JoshutoDirEntry>) -> Seq<Seq<Seq<char>>> {
    contents.filter(|e: JoshutoDirEntry| e.selected).map_values(|e: JoshutoDirEntry| e.path@)
}

/// The paths that a command works on: those of the marked entries, or,
/// where none is marked, that of the entry under the selection. A listing
/// without a selection gives none.
pub open spec fn spec_collect_selected_paths(list: DirListView) -> Option<Seq<Seq<Seq<char>>>> {
    match list.index {
        None => None,
        Some(i) => {
            let marked = spec_marked_paths(list.contents);
            if marked.len() > 0 {
                Some(marked)
            } else {
                Some(seq![list.contents[i as int].path@])
            }
        },
    }
}

/// The paths that a command works on (see `spec_collect_selected_paths`).
pub fn collect_selected_paths(dirlist: &JoshutoDirList) -> (r: Option<Vec<JoshutoPath>>)
    requires
        dirlist.wf(),
    ensures
        r is Some == spec_collect_selected_paths(dirlist@) is Some,
        r matches Some(paths) ==> spec_path_views(paths@) == spec_collect_selected_paths(
            dirlist@,
        )->0,
{
    let index = match dirlist.index() {
        Some(i) => i,
        None => {
            return None;
        },
    };
    let contents = dirlist.contents();
    let n = contents.len();
    let mut paths: Vec<JoshutoPath> = Vec::new();
    let mut i: usize = 0;
    assert(contents@.take(0) =~= Seq::empty());
    assert(spec_path_views(paths@) =~= spec_marked_paths(contents@.take(0)));
    while i < n
        invariant
            i <= n,
            n == contents.len(),
            spec_path_views(paths@) == spec_marked_paths(contents@.take(i as int)),
        decreases n - i,
    {
        let ghost before = paths@;
        proof {
            let upto = contents@.take(i as int + 1);
            assert(upto.drop_last() =~= contents@.take(i as int));
            assert(upto.last() == contents@[i as int]);
            reveal(Seq::filter);
        }
        if contents[i].selected {
            paths.push(contents[i].path.clone());
            assert(spec_path_views(paths@) =~= spec_path_views(before).push(contents@[i as int].path@));
            assert(spec_marked_paths(contents@.take(i as int + 1)) =~= spec_marked_paths(
                contents@.take(i as int),
            ).push(contents@[i as int].path@));
        }
        i = i + 1;
    }
    assert(contents@.take(n as int) =~= contents@);
    if paths.len() == 0 {
        paths.push(contents[index].path.clone());
        assert(spec_path_views(paths@) =~= seq![contents@[index as int].path@]);
    }
    Some(paths)
}

} // verus!
