use vstd::prelude::*;
use crate::model::{Crate, Timestamp};

verus! {

/// What a caller already knows about one artifact.
#[derive(Copy, Clone, Debug, PartialEq, Eq, Structural)]
pub enum Freshness {
    /// Never loaded: load it whenever it is seen.
    Unseen,
    /// Loaded when its modification time was this: load it again only once
    /// it is strictly newer.
    KnownAt(Timestamp),
    /// Never load it again, whatever its modification time.
    Pinned,
}

/// Whether an artifact in state `state`, observed with modification time
/// `observed`, must be loaded.
pub open spec fn must_load(state: Freshness, observed: Timestamp) -> bool {
    match state {
        Freshness::Unseen => true,
        Freshness::KnownAt(t) => observed > t,
        Freshness::Pinned => false,
    }
}

/// The freshness policy.
pub fn needs_load(state: Freshness, observed: Timestamp) -> (r: bool)
    ensures
        r == must_load(state, observed),
{
    match state {
        Freshness::Unseen => true,
        Freshness::KnownAt(t) => observed > t,
        Freshness::Pinned => false,
    }
}

/// The state of path `p` in a snapshot: paths the snapshot does not hold are
/// unseen.
pub open spec fn state_in(m: Map<Seq<char>, Freshness>, p: Seq<char>) -> Freshness {
    if m.contains_key(p) {
        m[p]
    } else {
        Freshness::Unseen
    }
}

pub open spec fn entries_map(s: Seq<(String, Freshness)>) -> Map<Seq<char>, Freshness>
    decreases s.len(),
{
    if s.len() == 0 {
        Map::empty()
    } else {
        entries_map(s.drop_last()).insert(s.last().0@, s.last().1)
    }
}

/// `known` after recording, in order, each unit's path as known at the
/// unit's timestamp.
pub open spec fn recorded(known: Map<Seq<char>, Freshness>, units: Seq<Crate>) -> Map<Seq<char>, Freshness>
    decreases units.len(),
{
    if units.len() == 0 {
        known
    } else {
        recorded(known, units.drop_last()).insert(units.last().path@, Freshness::KnownAt(units.last().timestamp))
    }
}

/// A snapshot of what a caller knows about each artifact path. Later entries
/// for a path override earlier ones.
pub struct KnownTimestamps {
    entries: Vec<(String, Freshness)>,
}

impl View for KnownTimestamps {
    type V = Map<Seq<char>, Freshness>;

    closed spec fn view(&self) -> Map<Seq<char>, Freshness> {
        entries_map(self.entries@)
    }
}

impl KnownTimestamps {
    /// An empty snapshot: every path is unseen.
    pub fn new() -> (r: KnownTimestamps)
        ensures
            r@ == Map::<Seq<char>, Freshness>::empty(),
    {
        KnownTimestamps { entries: Vec::new() }
    }

    /// Sets the state of `path`.
    pub fn set(&mut self, path: String, state: Freshness)
        ensures
            final(self)@ == old(self)@.insert(path@, state),
    {
        self.entries.push((path, state));
        proof {
            assert(self.entries@.drop_last() == old(self).entries@);
        }
    }

    /// Records each loaded unit's path as known at the unit's timestamp.
    pub fn record(&mut self, units: &Vec<Crate>)
        ensures
            final(self)@ == recorded(old(self)@, units@),
    {
        let ghost start = self@;
        let mut i: usize = 0;
        while i < units.len()
            invariant
                i <= units@.len(),
                self@ == recorded(start, units@.take(i as int)),
            decreases units@.len() - i,
        {
            proof {
                assert(units@.take(i + 1).drop_last() == units@.take(i as int));
            }
            self.set(units[i].path.clone(), Freshness::KnownAt(units[i].timestamp));
            i = i + 1;
        }
        proof {
            assert(units@.take(i as int) == units@);
        }
    }

    /// The state of `path`.
    pub fn get(&self, path: &String) -> (r: Freshness)
        ensures
            r == state_in(self@, path@),
    {
        let mut i: usize = self.entries.len();
        proof {
            assert(self.entries@.take(i as int) == self.entries@);
        }
        while i > 0
            invariant
                i <= self.entries@.len(),
                forall|j: int| i <= j < self.entries@.len() ==> self.entries@[j].0@ != path@,
                state_in(self@, path@) == state_in(entries_map(self.entries@.take(i as int)), path@),
            decreases i,
        {
            proof {
                assert(self.entries@.take(i as int).drop_last() == self.entries@.take(i - 1));
            }
            if self.entries[i - 1].0 == *path {
                return self.entries[i - 1].1;
            }
            i = i - 1;
        }
        Freshness::Unseen
    }
}

/// What a directory listing says of one entry.
#[derive(Copy, Clone, Debug, PartialEq, Eq, Structural)]
pub enum ListingKind {
    Directory,
    /// A file, with its modification time.
    File(Timestamp),
}

/// One entry of a directory listing: its kind and its full path (the listed
/// directory joined with the entry's name).
#[derive(Debug)]
pub struct Listing {
    pub kind: ListingKind,
    pub path: String,
}

} // verus!
