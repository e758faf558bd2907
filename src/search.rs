use vstd::prelude::*;
use crate::depth::SearchDepth;
use crate::model::{
    first_recognized, listing_of, locate, nested, recurse_dir, scan_from, walk,
    walk_above, FsModel, PathModel,
};
use crate::names::{first_match, holds, recurse_dir_name};
use crate::scan::{lemma_scan_descend, lemma_scan_hit, lemma_scan_stop};

verus! {

/// A search in progress: the walk up from the start directory, and within
/// the directory on the way the descent into nested [`recurse_dir`]
/// subdirectories.
pub struct Search {
    names: Vec<String>,
    policy: SearchDepth,
    dir: Vec<String>,
    target: Vec<String>,
    depth: usize,
}

/// The state of a [`Search`] as plain values.
pub ghost struct SearchModel {
    /// The recognized file names, in order of preference.
    pub names: Seq<Seq<char>>,
    pub policy: SearchDepth,
    /// The directory of the upward walk that is being scanned.
    pub dir: PathModel,
    /// How many [`recurse_dir`] levels below `dir` the scan has gone.
    pub level: nat,
    /// How many upward steps the walk has taken.
    pub depth: nat,
}

/// What a [`Search`] asks for next, or how it ended.
#[derive(Debug)]
pub enum Step {
    /// List this directory and hand its entries to [`Search::advance`].
    Scan(Vec<String>),
    /// The search found this file.
    Found(Vec<String>),
    /// The search ended without a match.
    Absent,
}

pub ghost enum StepModel {
    Scan(PathModel),
    Found(PathModel),
    Absent,
}

impl Step {
    pub open spec fn model(self) -> StepModel {
        match self {
            Step::Scan(p) => StepModel::Scan(p.deep_view()),
            Step::Found(p) => StepModel::Found(p.deep_view()),
            Step::Absent => StepModel::Absent,
        }
    }
}

impl SearchModel {
    /// A search that has not listed anything yet.
    pub open spec fn start(start: PathModel, policy: SearchDepth, names: Seq<Seq<char>>) -> Self {
        SearchModel { names, policy, dir: start, level: 0, depth: 0 }
    }

    /// The directory that the search lists next.
    pub open spec fn target(self) -> PathModel {
        nested(self.dir, self.level)
    }

    /// The state and the step that follow the listing of [`Self::target`]:
    /// `None` where that directory could not be listed.
    pub open spec fn advance(self, listing: Option<Seq<Seq<char>>>) -> (Self, StepModel) {
        let hit = match listing {
            Some(l) => first_recognized(self.names, l),
            None => None,
        };
        if hit is Some {
            (self, StepModel::Found(self.target().push(hit->Some_0)))
        } else if listing is Some && listing->Some_0.contains(recurse_dir()) {
            let next = SearchModel { level: self.level + 1, ..self };
            (next, StepModel::Scan(next.target()))
        } else if self.dir.len() == 0 || self.policy.exceeded(self.depth + 1) {
            (self, StepModel::Absent)
        } else {
            let next = SearchModel { dir: self.dir.drop_last(), level: 0, depth: self.depth + 1, ..self };
            (next, StepModel::Scan(next.target()))
        }
    }

    /// The file that the search still finds in `fs`, from where it stands.
    pub open spec fn outcome(self, fs: FsModel) -> Option<PathModel> {
        match scan_from(fs, self.names, self.dir, self.level) {
            Some(p) => Some(p),
            None => walk_above(fs, self.names, self.policy, self.dir, self.depth),
        }
    }
}

impl View for Search {
    type V = SearchModel;

    closed spec fn view(&self) -> SearchModel {
        SearchModel {
            names: self.names.deep_view(),
            policy: self.policy,
            dir: self.dir.deep_view(),
            level: (self.target.len() - self.dir.len()) as nat,
            depth: self.depth as nat,
        }
    }
}

impl Search {
    /// The directory being listed lies below the walk's directory by nested
    /// [`recurse_dir`] levels, and the depth can still be counted.
    pub closed spec fn wf(&self) -> bool {
        &&& self.dir.len() <= self.target.len()
        &&& self.target.deep_view() == nested(self.dir.deep_view(), self@.level)
        &&& self.depth + self.dir.len() <= usize::MAX
    }

    /// A search from `start` for a file named by one of `names` (the first
    /// of them wins where a directory holds several), within `policy`.
    pub fn new(start: Vec<String>, policy: SearchDepth, names: Vec<String>) -> (r: Search)
        ensures
            r.wf(),
            r@ == SearchModel::start(start.deep_view(), policy, names.deep_view()),
    {
        let target = start.clone();
        let r = Search { names, policy, dir: start, target, depth: 0 };
        assert(nested(r.dir.deep_view(), 0) =~= r.dir.deep_view());
        r
    }

    /// The directory to list next.
    pub fn target(&self) -> (r: Vec<String>)
        requires
            self.wf(),
        ensures
            r.deep_view() == self@.target(),
    {
        self.target.clone()
    }

    /// Takes the listing of [`Self::target`] (`None` where it could not be
    /// listed) and moves the search on.
    pub fn advance(&mut self, listing: Option<Vec<String>>) -> (r: Step)
        requires
            old(self).wf(),
        ensures
            final(self).wf(),
            (final(self)@, r.model()) == old(self)@.advance(listing.deep_view()),
    {
        let hit = match &listing {
            Some(l) => first_match(&self.names, l),
            None => None,
        };
        match hit {
            Some(name) => {
                let mut found = self.target.clone();
                found.push(name);
                proof {
                    assert(found.deep_view() =~= self@.target().push(name@));
                }
                Step::Found(found)
            },
            None => {
                let rd = recurse_dir_name();
                let descend = match &listing {
                    Some(l) => holds(l, &rd),
                    None => false,
                };
                if descend {
                    let ghost before = self@;
                    let ghost old_target = self.target.deep_view();
                    self.target.push(rd);
                    proof {
                        assert(nested(before.dir, before.level + 1) =~= nested(
                            before.dir,
                            before.level,
                        ).push(recurse_dir()));
                        assert(self.target.deep_view() =~= old_target.push(recurse_dir()));
                    }
                    Step::Scan(self.target.clone())
                } else if self.dir.len() == 0 || self.policy.is_exceeded(self.depth + 1) {
                    Step::Absent
                } else {
                    let ghost before = self@;
                    self.dir.pop();
                    self.depth = self.depth + 1;
                    self.target = self.dir.clone();
                    proof {
                        assert(self.dir.deep_view() =~= before.dir.drop_last());
                        assert(self.target.deep_view() =~= nested(self.dir.deep_view(), 0));
                    }
                    Step::Scan(self.target.clone())
                }
            },
        }
    }
}

/// What the search finds in `fs` after a step: the step's own verdict, or
/// what the next state still finds.
pub open spec fn step_outcome(fs: FsModel, next: SearchModel, step: StepModel) -> Option<PathModel> {
    match step {
        StepModel::Found(p) => Some(p),
        StepModel::Absent => None,
        StepModel::Scan(_) => next.outcome(fs),
    }
}

/// A fresh search finds what [`locate`] gives.
pub proof fn lemma_start_outcome(
    fs: FsModel,
    start: PathModel,
    policy: SearchDepth,
    names: Seq<Seq<char>>,
)
    ensures
        SearchModel::start(start, policy, names).outcome(fs) == locate(fs, start, policy, names),
{
    reveal_with_fuel(walk, 1);
}

/// Each step keeps what the search finds: fed the listing that `fs` gives
/// of the directory it asked for, the search ends with, or goes on towards,
/// the same file.
pub proof fn lemma_advance_keeps_outcome(fs: FsModel, s: SearchModel)
    ensures
        ({
            let (next, step) = s.advance(listing_of(fs, s.target()));
            step_outcome(fs, next, step) == s.outcome(fs)
        }),
{
    let listing = listing_of(fs, s.target());
    let hit = match listing {
        Some(l) => first_recognized(s.names, l),
        None => None,
    };
    if hit is Some {
        lemma_scan_hit(fs, s.names, s.dir, s.level);
    } else if listing is Some && listing->Some_0.contains(recurse_dir()) {
        lemma_scan_descend(fs, s.names, s.dir, s.level);
    } else {
        lemma_scan_stop(fs, s.names, s.dir, s.level);
        if !(s.dir.len() == 0 || s.policy.exceeded(s.depth + 1)) {
            reveal_with_fuel(walk, 1);
        }
    }
}

} // verus!
