use vstd::prelude::*;
use crate::model::{direct_match, hit_between, nested, passes, recurse_dir, scan_from, FsModel, PathModel};

verus! {

/// A scan of one directory ends at no more than one nested level.
pub proof fn lemma_hit_unique(
    fs: FsModel,
    names: Seq<Seq<char>>,
    dir: PathModel,
    from: nat,
    k1: nat,
    k2: nat,
)
    requires
        hit_between(fs, names, dir, from, k1),
        hit_between(fs, names, dir, from, k2),
    ensures
        k1 == k2,
{
    if k1 < k2 {
        assert(passes(fs, names, dir, k1));
    } else if k2 < k1 {
        assert(passes(fs, names, dir, k2));
    }
}

/// A recognized name at the level being scanned ends the scan there.
pub proof fn lemma_scan_hit(fs: FsModel, names: Seq<Seq<char>>, dir: PathModel, from: nat)
    requires
        direct_match(fs, names, nested(dir, from)) is Some,
    ensures
        scan_from(fs, names, dir, from) == Some(
            nested(dir, from).push(direct_match(fs, names, nested(dir, from))->Some_0),
        ),
{
    assert(hit_between(fs, names, dir, from, from));
    let k = choose|k: nat| hit_between(fs, names, dir, from, k);
    lemma_hit_unique(fs, names, dir, from, k, from);
}

/// A level without a recognized name that holds [`recurse_dir`] hands the
/// scan on to the level below.
pub proof fn lemma_scan_descend(fs: FsModel, names: Seq<Seq<char>>, dir: PathModel, from: nat)
    requires
        direct_match(fs, names, nested(dir, from)) is None,
        fs.contains_key(nested(dir, from)),
        fs[nested(dir, from)].contains(recurse_dir()),
    ensures
        scan_from(fs, names, dir, from) == scan_from(fs, names, dir, from + 1),
{
    let below = (from + 1) as nat;
    assert(passes(fs, names, dir, from));
    assert forall|k: nat|
        hit_between(fs, names, dir, from, k) == hit_between(fs, names, dir, below, k) by {
        if hit_between(fs, names, dir, below, k) {
            assert forall|i: nat| from <= i < k implies #[trigger] passes(fs, names, dir, i) by {
                if i > from {
                    assert(below <= i < k);
                }
            }
        }
    }
    if exists|k: nat| hit_between(fs, names, dir, from, k) {
        let k1 = choose|k: nat| hit_between(fs, names, dir, from, k);
        let k2 = choose|k: nat| hit_between(fs, names, dir, below, k);
        lemma_hit_unique(fs, names, dir, from, k1, k2);
    }
}

/// A level without a recognized name that cannot be listed or does not hold
/// [`recurse_dir`] ends the scan without a match.
pub proof fn lemma_scan_stop(fs: FsModel, names: Seq<Seq<char>>, dir: PathModel, from: nat)
    requires
        direct_match(fs, names, nested(dir, from)) is None,
        !(fs.contains_key(nested(dir, from)) && fs[nested(dir, from)].contains(recurse_dir())),
    ensures
        scan_from(fs, names, dir, from) is None,
{
    if exists|k: nat| hit_between(fs, names, dir, from, k) {
        let k = choose|k: nat| hit_between(fs, names, dir, from, k);
        if k > from {
            assert(passes(fs, names, dir, from));
        }
    }
}

} // verus!
