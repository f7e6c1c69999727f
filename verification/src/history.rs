//! The stash of listings that no tab shows at the moment.

use crate::fs::spec_read;
use crate::fs::spec_reads_after;
use crate::fs::take_read;
use crate::fs::DirReads;
use crate::fs::IoError;
use crate::path::spec_is_ancestor;
use crate::path::JoshutoPath;
use crate::path_map::PathMap;
use crate::structs::spec_new_list;
use crate::structs::DirListView;
use crate::structs::JoshutoDirEntry;
use crate::structs::JoshutoDirList;
use vstd::prelude::*;

verus! {

/// The listings that were put aside, each under the path of its directory.
/// Nothing is ever dropped from it for its size or its age: a listing
/// leaves when it is asked for.
pub struct DirHistory {
    map: PathMap<JoshutoDirList>,
}

/// Every listing is well formed and is held under its own path.
pub open spec fn spec_history_wf(lists: Map<Seq<Seq<char>>, DirListView>) -> bool {
    forall|p: Seq<Seq<char>>| #[trigger]
        lists.contains_key(p) ==> lists[p].wf() && lists[p].path == p
}

/// The fresh listing of `path` or the error of its read, by `reads`.
pub open spec fn spec_read_list(
    reads: Map<Seq<Seq<char>>, Result<Vec<JoshutoDirEntry>, IoError>>,
    path: Seq<Seq<char>>,
) -> Result<DirListView, IoError> {
    match spec_read(reads, path) {
        Ok(contents) => Ok(spec_new_list(path, contents@)),
        Err(e) => Err(e),
    }
}

/// The stash after `listing` was put back into it.
pub open spec fn spec_put_back(
    lists: Map<Seq<Seq<char>>, DirListView>,
    listing: Option<DirListView>,
) -> Map<Seq<Seq<char>>, DirListView> {
    match listing {
        Some(l) => lists.insert(l.path, l),
        None => lists,
    }
}

/// What asking for the listing of `path` gives, with the stash and the
/// reads after it. A listing that the stash holds leaves it, and the reads
/// are not touched. Otherwise the stash stays, and the read of `path` gives
/// a fresh listing or its error.
pub open spec fn spec_pop_or_create(
    lists: Map<Seq<Seq<char>>, DirListView>,
    path: Seq<Seq<char>>,
    reads: Map<Seq<Seq<char>>, Result<Vec<JoshutoDirEntry>, IoError>>,
) -> (
    Result<DirListView, IoError>,
    Map<Seq<Seq<char>>, DirListView>,
    Map<Seq<Seq<char>>, Result<Vec<JoshutoDirEntry>, IoError>>,
) {
    if lists.contains_key(path) {
        (Ok(lists[path]), lists.remove(path), reads)
    } else {
        (spec_read_list(reads, path), lists, spec_reads_after(reads, path))
    }
}

/// A listing handed out, or the error, as contracts see it.
pub open spec fn spec_list_result(r: Result<JoshutoDirList, IoError>) -> Result<
    DirListView,
    IoError,
> {
    match r {
        Ok(l) => Ok(l@),
        Err(e) => Err(e),
    }
}

/// Whether a populating walk from `path` towards the root takes the read of
/// `dir`: it does for each directory above `path`, down to `depth` names,
/// that the stash does not hold.
pub open spec fn spec_walk_reads(
    lists: Map<Seq<Seq<char>>, DirListView>,
    path: Seq<Seq<char>>,
    depth: int,
    dir: Seq<Seq<char>>,
) -> bool {
    spec_is_ancestor(dir, path) && dir.len() < depth && !lists.contains_key(dir)
}

/// The stash after the directories above `path` with fewer than `depth`
/// names were populated: each of them that it did not hold and whose read
/// succeeded has a fresh listing.
pub open spec fn spec_populated_upto(
    lists: Map<Seq<Seq<char>>, DirListView>,
    path: Seq<Seq<char>>,
    reads: Map<Seq<Seq<char>>, Result<Vec<JoshutoDirEntry>, IoError>>,
    depth: int,
) -> Map<Seq<Seq<char>>, DirListView> {
    Map::new(
        |p: Seq<Seq<char>>|
            lists.contains_key(p) || (spec_walk_reads(lists, path, depth, p) && spec_read(
                reads,
                p,
            ) is Ok),
        |p: Seq<Seq<char>>|
            if lists.contains_key(p) {
                lists[p]
            } else {
                spec_new_list(p, spec_read(reads, p)->Ok_0@)
            },
    )
}

/// What is left of `reads` after that walk: the reads that gave it a
/// listing are used up.
pub open spec fn spec_reads_left_upto(
    lists: Map<Seq<Seq<char>>, DirListView>,
    path: Seq<Seq<char>>,
    reads: Map<Seq<Seq<char>>, Result<Vec<JoshutoDirEntry>, IoError>>,
    depth: int,
) -> Map<Seq<Seq<char>>, Result<Vec<JoshutoDirEntry>, IoError>> {
    Map::new(
        |p: Seq<Seq<char>>|
            reads.contains_key(p) && !(spec_walk_reads(lists, path, depth, p) && reads[p] is Ok),
        |p: Seq<Seq<char>>| reads[p],
    )
}

/// The stash after every directory above `path` was populated.
pub open spec fn spec_populated(
    lists: Map<Seq<Seq<char>>, DirListView>,
    path: Seq<Seq<char>>,
    reads: Map<Seq<Seq<char>>, Result<Vec<JoshutoDirEntry>, IoError>>,
) -> Map<Seq<Seq<char>>, DirListView> {
    spec_populated_upto(lists, path, reads, path.len() as int)
}

/// What is left of `reads` after every directory above `path` was
/// populated.
pub open spec fn spec_reads_left(
    lists: Map<Seq<Seq<char>>, DirListView>,
    path: Seq<Seq<char>>,
    reads: Map<Seq<Seq<char>>, Result<Vec<JoshutoDirEntry>, IoError>>,
) -> Map<Seq<Seq<char>>, Result<Vec<JoshutoDirEntry>, IoError>> {
    spec_reads_left_upto(lists, path, reads, path.len() as int)
}

/// One step of the populating walk: the directory `depth` names below the
/// root is looked at, and nothing else changes.
pub proof fn lemma_populate_step(
    lists: Map<Seq<Seq<char>>, DirListView>,
    path: Seq<Seq<char>>,
    reads: Map<Seq<Seq<char>>, Result<Vec<JoshutoDirEntry>, IoError>>,
    depth: int,
)
    requires
        0 <= depth < path.len(),
    ensures
        ({
            let dir = path.take(depth);
            let before = spec_populated_upto(lists, path, reads, depth);
            let after = spec_populated_upto(lists, path, reads, depth + 1);
            let left = spec_reads_left_upto(lists, path, reads, depth);
            let left_after = spec_reads_left_upto(lists, path, reads, depth + 1);
            &&& before.contains_key(dir) == lists.contains_key(dir)
            &&& lists.contains_key(dir) ==> after == before && left_after == left
            &&& !lists.contains_key(dir) ==> {
                &&& left_after == spec_reads_after(left, dir)
                &&& spec_read(left, dir) == spec_read(reads, dir)
                &&& match spec_read(reads, dir) {
                    Ok(contents) => after == before.insert(dir, spec_new_list(dir, contents@)),
                    Err(_) => after == before,
                }
            }
        }),
{
    let dir = path.take(depth);
    let before = spec_populated_upto(lists, path, reads, depth);
    let after = spec_populated_upto(lists, path, reads, depth + 1);
    let left = spec_reads_left_upto(lists, path, reads, depth);
    let left_after = spec_reads_left_upto(lists, path, reads, depth + 1);
    assert(spec_is_ancestor(dir, path));
    assert forall|p: Seq<Seq<char>>|
        spec_walk_reads(lists, path, depth + 1, p) == (spec_walk_reads(lists, path, depth, p) || (p
            == dir && !lists.contains_key(dir))) by {
        if spec_is_ancestor(p, path) && p.len() == depth {
            assert(p =~= dir);
        }
    }
    assert(!spec_walk_reads(lists, path, depth, dir));
    if lists.contains_key(dir) {
        assert(after =~= before);
        assert(left_after =~= left);
    } else {
        assert(left_after =~= spec_reads_after(left, dir));
        match spec_read(reads, dir) {
            Ok(contents) => {
                assert(after =~= before.insert(dir, spec_new_list(dir, contents@)));
            },
            Err(_) => {
                assert(after =~= before);
            },
        }
    }
}

impl View for DirHistory {
    type V = Map<Seq<Seq<char>>, DirListView>;

    closed spec fn view(&self) -> Map<Seq<Seq<char>>, DirListView> {
        self.map@.map_values(|l: JoshutoDirList| l@)
    }
}

impl DirHistory {
    /// Every listing is well formed and is held under its own path.
    pub closed spec fn wf(&self) -> bool {
        self.map.wf() && spec_history_wf(self@)
    }

    /// A well-formed stash holds what `spec_history_wf` says.
    pub proof fn lemma_wf(&self)
        requires
            self.wf(),
        ensures
            spec_history_wf(self@),
    {
    }

    /// The empty stash.
    pub fn new() -> (r: Self)
        ensures
            r.wf(),
            r@ == Map::<Seq<Seq<char>>, DirListView>::empty(),
    {
        let r = DirHistory { map: PathMap::new() };
        assert(r@ =~= Map::<Seq<Seq<char>>, DirListView>::empty());
        r
    }

    /// Whether the stash holds a listing of `path`.
    pub fn contains(&self, path: &JoshutoPath) -> (r: bool)
        requires
            self.wf(),
        ensures
            r == self@.contains_key(path@),
    {
        self.map.contains(path)
    }

    /// Puts `listing` into the stash under its own path, in place of any
    /// listing of that path. Nothing happens for `None`.
    pub fn put_back(&mut self, listing: Option<JoshutoDirList>)
        requires
            old(self).wf(),
            listing matches Some(l) ==> l.wf(),
        ensures
            final(self).wf(),
            final(self)@ == spec_put_back(
                old(self)@,
                match listing {
                    Some(l) => Some(l@),
                    None => None,
                },
            ),
    {
        if let Some(l) = listing {
            let key = l.path().clone();
            let _ = self.map.insert(key, l);
            assert(self@ =~= old(self)@.insert(l@.path, l@));
        }
    }

    /// Takes the listing of `path` out of the stash, if it holds one.
    pub fn pop(&mut self, path: &JoshutoPath) -> (r: Option<JoshutoDirList>)
        requires
            old(self).wf(),
        ensures
            final(self).wf(),
            final(self)@ == old(self)@.remove(path@),
            r is Some == old(self)@.contains_key(path@),
            r matches Some(l) ==> l.wf() && l@ == old(self)@[path@],
    {
        let r = self.map.remove(path);
        assert(self@ =~= old(self)@.remove(path@));
        r
    }

    /// Hands out the listing of `path`. Where the stash holds one it leaves
    /// the stash and `reads` is not touched. Otherwise the read of `path`
    /// is taken from `reads` and gives a fresh listing or its error, and
    /// the stash stays as it was.
    pub fn pop_or_create(&mut self, path: &JoshutoPath, reads: &mut DirReads) -> (r: Result<
        JoshutoDirList,
        IoError,
    >)
        requires
            old(self).wf(),
            old(reads).wf(),
        ensures
            final(self).wf(),
            final(reads).wf(),
            (spec_list_result(r), final(self)@, final(reads)@) == spec_pop_or_create(
                old(self)@,
                path@,
                old(reads)@,
            ),
            r matches Ok(l) ==> l.wf() && l@.path == path@,
    {
        match self.pop(path) {
            Some(l) => Ok(l),
            None => {
                assert(self@ =~= old(self)@);
                match take_read(reads, path) {
                    Ok(contents) => Ok(JoshutoDirList::new(path.clone(), contents)),
                    Err(e) => Err(e),
                }
            },
        }
    }

    /// Gives every directory above `path`, up to the root, a listing in the
    /// stash: one that the stash does not hold is taken from `reads`, and
    /// left out where its read failed.
    pub fn populate_to_root(&mut self, path: &JoshutoPath, reads: &mut DirReads)
        requires
            old(self).wf(),
            old(reads).wf(),
        ensures
            final(self).wf(),
            final(reads).wf(),
            final(self)@ == spec_populated(old(self)@, path@, old(reads)@),
            final(reads)@ == spec_reads_left(old(self)@, path@, old(reads)@),
    {
        let n = path.depth();
        let mut depth: usize = 0;
        assert(self@ =~= spec_populated_upto(old(self)@, path@, old(reads)@, 0));
        assert(reads@ =~= spec_reads_left_upto(old(self)@, path@, old(reads)@, 0));
        while depth < n
            invariant
                depth <= n,
                n == path@.len(),
                old(self).wf(),
                self.wf(),
                reads.wf(),
                self@ == spec_populated_upto(old(self)@, path@, old(reads)@, depth as int),
                reads@ == spec_reads_left_upto(old(self)@, path@, old(reads)@, depth as int),
            decreases n - depth,
        {
            let dir = path.ancestor(depth);
            let ghost lists = self@;
            proof {
                lemma_populate_step(old(self)@, path@, old(reads)@, depth as int);
            }
            if !self.map.contains(&dir) {
                match take_read(reads, &dir) {
                    Ok(contents) => {
                        let listing = JoshutoDirList::new(dir.clone(), contents);
                        let _ = self.map.insert(dir, listing);
                        assert(self@ =~= lists.insert(listing@.path, listing@));
                    },
                    Err(_) => {},
                }
            }
            depth = depth + 1;
        }
    }
}

/// A listing that was put back is what the next request for its path hands
/// out, whatever was read: the reads are not touched. The request takes it
/// out of the stash, so that a second request goes by the reads.
pub proof fn lemma_put_back_round_trip(
    lists: Map<Seq<Seq<char>>, DirListView>,
    listing: DirListView,
    reads: Map<Seq<Seq<char>>, Result<Vec<JoshutoDirEntry>, IoError>>,
    later_reads: Map<Seq<Seq<char>>, Result<Vec<JoshutoDirEntry>, IoError>>,
)
    ensures
        ({
            let stash = spec_put_back(lists, Some(listing));
            let first = spec_pop_or_create(stash, listing.path, reads);
            let second = spec_pop_or_create(first.1, listing.path, later_reads);
            &&& first.0 == Ok::<DirListView, IoError>(listing)
            &&& first.2 == reads
            &&& !first.1.contains_key(listing.path)
            &&& second.0 == spec_read_list(later_reads, listing.path)
            &&& second.1 == first.1
        }),
{
}

} // verus!
