use vstd::prelude::*;
use crate::depth::SearchDepth;

verus! {

/// A path, as the sequence of its components below the filesystem root.
/// The root itself is the empty sequence.
pub type PathModel = Seq<Seq<char>>;

/// A filesystem as the search sees it: each directory that can be listed,
/// mapped to the names of its entries. A path that is not in the map cannot
/// be listed (it is missing, not a directory, or unreadable).
pub type FsModel = Map<PathModel, Seq<Seq<char>>>;

/// The name of the subdirectory that a search also looks into.
pub open spec fn recurse_dir() -> Seq<char> {
    seq!['d', 'o', 'c', 'k', 'e', 'r', '-', 'c', 'o', 'm', 'p', 'o', 's', 'e']
}

/// What listing `dir` gives: `None` where it cannot be listed.
pub open spec fn listing_of(fs: FsModel, dir: PathModel) -> Option<Seq<Seq<char>>> {
    if fs.contains_key(dir) {
        Some(fs[dir])
    } else {
        None
    }
}

/// The first of `names`, from position `i` on, that `listing` holds.
pub open spec fn first_recognized_from(
    names: Seq<Seq<char>>,
    listing: Seq<Seq<char>>,
    i: int,
) -> Option<Seq<char>>
    decreases names.len() - i,
{
    if i < 0 || i >= names.len() {
        None
    } else if listing.contains(names[i]) {
        Some(names[i])
    } else {
        first_recognized_from(names, listing, i + 1)
    }
}

/// The first of `names`, in their own order, that `listing` holds: where a
/// directory holds several recognized names, the one listed first in `names`
/// wins, whatever the order of the directory's entries.
pub open spec fn first_recognized(names: Seq<Seq<char>>, listing: Seq<Seq<char>>) -> Option<
    Seq<char>,
> {
    first_recognized_from(names, listing, 0)
}

/// The recognized name found directly in `dir`, if `dir` can be listed.
pub open spec fn direct_match(fs: FsModel, names: Seq<Seq<char>>, dir: PathModel) -> Option<
    Seq<char>,
> {
    match listing_of(fs, dir) {
        Some(l) => first_recognized(names, l),
        None => None,
    }
}

/// `dir` followed by `level` components named [`recurse_dir`].
pub open spec fn nested(dir: PathModel, level: nat) -> PathModel {
    dir + Seq::new(level, |_i: int| recurse_dir())
}

/// Level `i` below `dir` gives no match, and holds the next nested level.
pub open spec fn passes(fs: FsModel, names: Seq<Seq<char>>, dir: PathModel, i: nat) -> bool {
    &&& fs.contains_key(nested(dir, i))
    &&& first_recognized(names, fs[nested(dir, i)]) is None
    &&& fs[nested(dir, i)].contains(recurse_dir())
}

/// The scan of `dir`, resumed at nested level `from`, ends with a match at
/// nested level `k`.
pub open spec fn hit_between(
    fs: FsModel,
    names: Seq<Seq<char>>,
    dir: PathModel,
    from: nat,
    k: nat,
) -> bool {
    &&& from <= k
    &&& forall|i: nat| from <= i < k ==> #[trigger] passes(fs, names, dir, i)
    &&& direct_match(fs, names, nested(dir, k)) is Some
}

/// The match of the scan of `dir` resumed at nested level `from`: a file
/// named in `names` directly in the directory at that level, or else in the
/// [`recurse_dir`] subdirectory below it, and so on down. A direct match
/// always wins over the subdirectory, whatever the order of the entries.
pub open spec fn scan_from(fs: FsModel, names: Seq<Seq<char>>, dir: PathModel, from: nat) -> Option<
    PathModel,
> {
    if exists|k: nat| hit_between(fs, names, dir, from, k) {
        let k = choose|k: nat| hit_between(fs, names, dir, from, k);
        Some(nested(dir, k).push(direct_match(fs, names, nested(dir, k))->Some_0))
    } else {
        None
    }
}

/// The match that scanning `dir` gives.
pub open spec fn scan_dir(fs: FsModel, names: Seq<Seq<char>>, dir: PathModel) -> Option<PathModel> {
    scan_from(fs, names, dir, 0)
}

/// What the walk gives after `dir`, `depth` steps above the start, found
/// nothing: the next directory up, unless the depth or the root stops it.
pub open spec fn walk_above(
    fs: FsModel,
    names: Seq<Seq<char>>,
    policy: SearchDepth,
    dir: PathModel,
    depth: nat,
) -> Option<PathModel>
    decreases dir.len(), 1nat,
{
    if policy.exceeded(depth + 1) || dir.len() == 0 {
        None
    } else {
        walk(fs, names, policy, dir.drop_last(), depth + 1)
    }
}

/// The walk from `dir`, `depth` steps above the start.
pub open spec fn walk(
    fs: FsModel,
    names: Seq<Seq<char>>,
    policy: SearchDepth,
    dir: PathModel,
    depth: nat,
) -> Option<PathModel>
    decreases dir.len(), 2nat,
{
    match scan_dir(fs, names, dir) {
        Some(p) => Some(p),
        None => walk_above(fs, names, policy, dir, depth),
    }
}

/// The file that a search from `start` finds: the first directory on the way
/// up to the root, within `policy`, whose scan gives a match.
pub open spec fn locate(
    fs: FsModel,
    start: PathModel,
    policy: SearchDepth,
    names: Seq<Seq<char>>,
) -> Option<PathModel> {
    walk(fs, names, policy, start, 0)
}

/// The ancestor of `start` that lies `i` steps above it.
pub open spec fn ancestor(start: PathModel, i: nat) -> PathModel {
    start.subrange(0, start.len() - i)
}

} // verus!
