use vstd::prelude::*;
use crate::depth::SearchDepth;
use crate::model::{
    ancestor, direct_match, hit_between, listing_of, locate, nested, recurse_dir, scan_dir, walk,
    walk_above, FsModel, PathModel,
};
use crate::scan::{lemma_scan_descend, lemma_scan_hit};
use crate::search::{lemma_advance_keeps_outcome, lemma_start_outcome, SearchModel, StepModel};

verus! {

/// The verdict of a search that is fed the listings of `fs`, if it reaches
/// one within `fuel` steps.
pub open spec fn run(fs: FsModel, s: SearchModel, fuel: nat) -> Option<Option<PathModel>>
    decreases fuel,
{
    if fuel == 0 {
        None
    } else {
        let (next, step) = s.advance(listing_of(fs, s.target()));
        match step {
            StepModel::Found(p) => Some(Some(p)),
            StepModel::Absent => Some(None),
            StepModel::Scan(_) => run(fs, next, (fuel - 1) as nat),
        }
    }
}

proof fn lemma_run_outcome(fs: FsModel, s: SearchModel, fuel: nat)
    ensures
        run(fs, s, fuel) is Some ==> run(fs, s, fuel)->Some_0 == s.outcome(fs),
    decreases fuel,
{
    if fuel > 0 {
        lemma_advance_keeps_outcome(fs, s);
        let (next, step) = s.advance(listing_of(fs, s.target()));
        lemma_run_outcome(fs, next, (fuel - 1) as nat);
    }
}

/// A search that is handed, step by step, the listings that `fs` gives of
/// the directories it asks for ends with what [`locate`] gives.
pub proof fn lemma_search_finds_located(
    fs: FsModel,
    start: PathModel,
    policy: SearchDepth,
    names: Seq<Seq<char>>,
    fuel: nat,
)
    ensures
        run(fs, SearchModel::start(start, policy, names), fuel) is Some ==> run(
            fs,
            SearchModel::start(start, policy, names),
            fuel,
        )->Some_0 == locate(fs, start, policy, names),
{
    lemma_run_outcome(fs, SearchModel::start(start, policy, names), fuel);
    lemma_start_outcome(fs, start, policy, names);
}

proof fn lemma_ancestor_up(start: PathModel, d: nat)
    requires
        d < start.len(),
    ensures
        ancestor(start, d).drop_last() == ancestor(start, d + 1),
        ancestor(start, d).len() > 0,
{
    assert(ancestor(start, d).drop_last() =~= ancestor(start, d + 1));
}

/// Where the walk passes levels `d` to `i` above the start with no match and
/// within `policy`, what it gives from level `d` is what it gives from `i`.
proof fn lemma_walk_reaches(
    fs: FsModel,
    names: Seq<Seq<char>>,
    policy: SearchDepth,
    start: PathModel,
    d: nat,
    i: nat,
)
    requires
        d <= i <= start.len(),
        forall|j: nat| d <= j < i ==> #[trigger] scan_dir(fs, names, ancestor(start, j)) is None,
        forall|j: nat| d <= j < i ==> !#[trigger] policy.exceeded(j + 1),
    ensures
        walk(fs, names, policy, ancestor(start, d), d) == walk(
            fs,
            names,
            policy,
            ancestor(start, i),
            i,
        ),
    decreases i - d,
{
    if d < i {
        assert(scan_dir(fs, names, ancestor(start, d)) is None);
        assert(!policy.exceeded(d + 1));
        lemma_ancestor_up(start, d);
        reveal_with_fuel(walk, 1);
        reveal_with_fuel(walk_above, 1);
        lemma_walk_reaches(fs, names, policy, start, d + 1, i);
    }
}

/// An unlimited search passes every ancestor that gives no match, up to and
/// including the filesystem root: where the ancestors below level `i` give
/// none, the search gives what level `i` gives if that is a match, and at the
/// root, whatever the root gives.
pub proof fn lemma_unlimited_reaches(
    fs: FsModel,
    start: PathModel,
    names: Seq<Seq<char>>,
    i: nat,
)
    requires
        i <= start.len(),
        forall|j: nat| j < i ==> #[trigger] scan_dir(fs, names, ancestor(start, j)) is None,
    ensures
        scan_dir(fs, names, ancestor(start, i)) is Some ==> locate(
            fs,
            start,
            SearchDepth::Unlimited,
            names,
        ) == scan_dir(fs, names, ancestor(start, i)),
        i == start.len() ==> locate(fs, start, SearchDepth::Unlimited, names) == scan_dir(
            fs,
            names,
            ancestor(start, i),
        ),
{
    assert(ancestor(start, 0) =~= start);
    lemma_walk_reaches(fs, names, SearchDepth::Unlimited, start, 0, i);
    reveal_with_fuel(walk, 1);
    reveal_with_fuel(walk_above, 1);
}

/// Where an ancestor of the start (at any level) holds a recognized name and
/// none of the ancestors below it does, nor a nested [`recurse_dir`]
/// subdirectory of one of those, an unlimited search finds the file in that
/// ancestor, however far below it the search starts.
pub proof fn lemma_single_match_found(
    fs: FsModel,
    start: PathModel,
    names: Seq<Seq<char>>,
    i: nat,
)
    requires
        i <= start.len(),
        direct_match(fs, names, ancestor(start, i)) is Some,
        forall|j: nat, k: nat|
            j < i ==> #[trigger] direct_match(fs, names, nested(ancestor(start, j), k)) is None,
    ensures
        locate(fs, start, SearchDepth::Unlimited, names) == Some(
            ancestor(start, i).push(direct_match(fs, names, ancestor(start, i))->Some_0),
        ),
{
    assert forall|j: nat| j < i implies #[trigger] scan_dir(fs, names, ancestor(start, j)) is None by {
        if exists|k: nat| hit_between(fs, names, ancestor(start, j), 0, k) {
            let k = choose|k: nat| hit_between(fs, names, ancestor(start, j), 0, k);
            assert(direct_match(fs, names, nested(ancestor(start, j), k)) is None);
        }
    }
    assert(nested(ancestor(start, i), 0) =~= ancestor(start, i));
    lemma_scan_hit(fs, names, ancestor(start, i), 0);
    lemma_unlimited_reaches(fs, start, names, i);
}

/// Where neither an ancestor of the start, up to the root, nor any nested
/// [`recurse_dir`] subdirectory below one holds a recognized name, the
/// search finds nothing, whatever its depth.
pub proof fn lemma_no_match_absent(
    fs: FsModel,
    start: PathModel,
    policy: SearchDepth,
    names: Seq<Seq<char>>,
)
    requires
        forall|i: nat, k: nat|
            i <= start.len() ==> #[trigger] direct_match(fs, names, nested(ancestor(start, i), k))
                is None,
    ensures
        locate(fs, start, policy, names) is None,
{
    assert(ancestor(start, 0) =~= start);
    lemma_no_match_from(fs, start, policy, names, 0);
}

proof fn lemma_no_match_from(
    fs: FsModel,
    start: PathModel,
    policy: SearchDepth,
    names: Seq<Seq<char>>,
    d: nat,
)
    requires
        d <= start.len(),
        forall|i: nat, k: nat|
            i <= start.len() ==> #[trigger] direct_match(fs, names, nested(ancestor(start, i), k))
                is None,
    ensures
        walk(fs, names, policy, ancestor(start, d), d) is None,
    decreases start.len() - d,
{
    if exists|k: nat| hit_between(fs, names, ancestor(start, d), 0, k) {
        let k = choose|k: nat| hit_between(fs, names, ancestor(start, d), 0, k);
        assert(direct_match(fs, names, nested(ancestor(start, d), k)) is None);
    }
    reveal_with_fuel(walk, 1);
    reveal_with_fuel(walk_above, 1);
    if d < start.len() {
        lemma_ancestor_up(start, d);
        lemma_no_match_from(fs, start, policy, names, d + 1);
    }
}

/// Where `dir` holds no recognized name but holds the [`recurse_dir`]
/// subdirectory, and that holds one, a search from `dir` finds the file in
/// that subdirectory, whatever its depth.
pub proof fn lemma_nested_match(
    fs: FsModel,
    dir: PathModel,
    policy: SearchDepth,
    names: Seq<Seq<char>>,
)
    requires
        fs.contains_key(dir),
        direct_match(fs, names, dir) is None,
        fs[dir].contains(recurse_dir()),
        direct_match(fs, names, dir.push(recurse_dir())) is Some,
    ensures
        locate(fs, dir, policy, names) == Some(
            dir.push(recurse_dir()).push(
                direct_match(fs, names, dir.push(recurse_dir()))->Some_0,
            ),
        ),
{
    assert(nested(dir, 0) =~= dir);
    assert(nested(dir, 1) =~= dir.push(recurse_dir()));
    lemma_scan_descend(fs, names, dir, 0);
    lemma_scan_hit(fs, names, dir, 1);
    reveal_with_fuel(walk, 1);
}

/// A search limited to `n` steps looks at no ancestor `n` or more levels
/// above the start (it always scans the start itself): two filesystems whose
/// scans agree on the nearer ancestors give the same result.
pub proof fn lemma_limited_stays_near(
    fs1: FsModel,
    fs2: FsModel,
    start: PathModel,
    n: usize,
    names: Seq<Seq<char>>,
)
    requires
        forall|i: nat|
            i <= start.len() && (i < n || i == 0) ==> #[trigger] scan_dir(
                fs1,
                names,
                ancestor(start, i),
            ) == scan_dir(fs2, names, ancestor(start, i)),
    ensures
        locate(fs1, start, SearchDepth::Limited(n), names) == locate(
            fs2,
            start,
            SearchDepth::Limited(n),
            names,
        ),
{
    assert(ancestor(start, 0) =~= start);
    lemma_limited_from(fs1, fs2, start, n, names, 0);
}

proof fn lemma_limited_from(
    fs1: FsModel,
    fs2: FsModel,
    start: PathModel,
    n: usize,
    names: Seq<Seq<char>>,
    d: nat,
)
    requires
        d <= start.len(),
        d < n || d == 0,
        forall|i: nat|
            i <= start.len() && (i < n || i == 0) ==> #[trigger] scan_dir(
                fs1,
                names,
                ancestor(start, i),
            ) == scan_dir(fs2, names, ancestor(start, i)),
    ensures
        walk(fs1, names, SearchDepth::Limited(n), ancestor(start, d), d) == walk(
            fs2,
            names,
            SearchDepth::Limited(n),
            ancestor(start, d),
            d,
        ),
    decreases start.len() - d,
{
    assert(scan_dir(fs1, names, ancestor(start, d)) == scan_dir(fs2, names, ancestor(start, d)));
    reveal_with_fuel(walk, 1);
    reveal_with_fuel(walk_above, 1);
    if d < start.len() && d + 1 < n {
        lemma_ancestor_up(start, d);
        lemma_limited_from(fs1, fs2, start, n, names, d + 1);
    }
}

} // verus!
