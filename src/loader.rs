use vstd::prelude::*;
use crate::freshness::{must_load, needs_load, state_in, Freshness, KnownTimestamps, Listing, ListingKind};
use crate::model::{Analysis, Crate, Timestamp};

verus! {

/// The artifacts that a listing asks to load, in listing order: each file
/// entry whose state in `known` calls for a load, with its path and its
/// observed modification time. Directories are passed over.
pub open spec fn planned(entries: Seq<Listing>, known: Map<Seq<char>, Freshness>) -> Seq<(String, Timestamp)>
    decreases entries.len(),
{
    if entries.len() == 0 {
        seq![]
    } else {
        let rest = planned(entries.drop_last(), known);
        let e = entries.last();
        match e.kind {
            ListingKind::File(t) => if must_load(state_in(known, e.path@), t) {
                rest.push((e.path, t))
            } else {
                rest
            },
            ListingKind::Directory => rest,
        }
    }
}

/// The entries of all roots in order; a root whose listing failed has none.
pub open spec fn all_entries(roots: Seq<Option<Vec<Listing>>>) -> Seq<Listing>
    decreases roots.len(),
{
    if roots.len() == 0 {
        seq![]
    } else {
        all_entries(roots.drop_last()) + match roots.last() {
            Some(l) => l@,
            None => seq![],
        }
    }
}

/// The units made from a plan, given the outcome of decoding each planned
/// artifact: one unit for each success, in plan order; failures are skipped.
pub open spec fn assembled(plan: Seq<(String, Timestamp)>, outcomes: Seq<Option<Analysis>>) -> Seq<Crate>
    decreases plan.len(),
{
    if plan.len() == 0 || outcomes.len() == 0 {
        seq![]
    } else {
        let rest = assembled(plan.drop_last(), outcomes.drop_last());
        match outcomes.last() {
            Some(a) => rest.push(Crate { analysis: a, timestamp: plan.last().1, path: plan.last().0 }),
            None => rest,
        }
    }
}

/// `outcomes` holds one possible result of `decode` for each planned artifact.
pub open spec fn decoded_by<F: Fn(&String) -> Option<Analysis>>(
    decode: F,
    plan: Seq<(String, Timestamp)>,
    outcomes: Seq<Option<Analysis>>,
) -> bool {
    &&& outcomes.len() == plan.len()
    &&& forall|i: int| 0 <= i < plan.len() ==> decode.ensures((&plan[i].0,), #[trigger] outcomes[i])
}

pub proof fn lemma_planned_concat(a: Seq<Listing>, b: Seq<Listing>, known: Map<Seq<char>, Freshness>)
    ensures
        planned(a + b, known) == planned(a, known) + planned(b, known),
    decreases b.len(),
{
    if b.len() == 0 {
        assert(a + b == a);
        assert(planned(a, known) + planned(b, known) == planned(a, known));
    } else {
        assert((a + b).drop_last() == a + b.drop_last());
        lemma_planned_concat(a, b.drop_last(), known);
        let pa = planned(a, known);
        let pb = planned(b.drop_last(), known);
        assert((pa + pb).push((b.last().path, b.last().kind->File_0)) == pa + pb.push(
            (b.last().path, b.last().kind->File_0),
        ));
    }
}

pub proof fn lemma_assembled_concat(
    p1: Seq<(String, Timestamp)>,
    o1: Seq<Option<Analysis>>,
    p2: Seq<(String, Timestamp)>,
    o2: Seq<Option<Analysis>>,
)
    requires
        p1.len() == o1.len(),
        p2.len() == o2.len(),
    ensures
        assembled(p1 + p2, o1 + o2) == assembled(p1, o1) + assembled(p2, o2),
    decreases p2.len(),
{
    if p2.len() == 0 {
        assert(p1 + p2 == p1);
        assert(o1 + o2 == o1);
        assert(assembled(p1, o1) + assembled(p2, o2) == assembled(p1, o1));
    } else {
        assert((p1 + p2).drop_last() == p1 + p2.drop_last());
        assert((o1 + o2).drop_last() == o1 + o2.drop_last());
        lemma_assembled_concat(p1, o1, p2.drop_last(), o2.drop_last());
        let a1 = assembled(p1, o1);
        let a2 = assembled(p2.drop_last(), o2.drop_last());
        if let Some(a) = o2.last() {
            let c = Crate { analysis: a, timestamp: p2.last().1, path: p2.last().0 };
            assert((a1 + a2).push(c) == a1 + a2.push(c));
        }
    }
}

/// Loads, into `result`, the artifacts of one listing that `known` asks for.
fn append_root<F: Fn(&String) -> Option<Analysis>>(
    result: &mut Vec<Crate>,
    listing: &Vec<Listing>,
    known: &KnownTimestamps,
    decode: &F,
) -> (outs: Ghost<Seq<Option<Analysis>>>)
    requires
        forall|p: &String| decode.requires((p,)),
    ensures
        decoded_by(*decode, planned(listing@, known@), outs@),
        final(result)@ == old(result)@ + assembled(planned(listing@, known@), outs@),
{
    let ghost start = result@;
    let ghost mut outs: Seq<Option<Analysis>> = seq![];
    let mut j: usize = 0;
    while j < listing.len()
        invariant
            j <= listing@.len(),
            forall|p: &String| decode.requires((p,)),
            decoded_by(*decode, planned(listing@.take(j as int), known@), outs),
            result@ == start + assembled(planned(listing@.take(j as int), known@), outs),
        decreases listing@.len() - j,
    {
        let ghost plan0 = planned(listing@.take(j as int), known@);
        let ghost outs0 = outs;
        proof {
            assert(listing@.take(j + 1).drop_last() == listing@.take(j as int));
        }
        let e = &listing[j];
        match e.kind {
            ListingKind::File(t) => {
                if needs_load(known.get(&e.path), t) {
                    let o = decode(&e.path);
                    proof {
                        outs = outs.push(o);
                        let plan1 = plan0.push((e.path, t));
                        assert(planned(listing@.take(j + 1), known@) == plan1);
                        assert(plan1.drop_last() == plan0);
                        assert(outs.drop_last() == outs0);
                        assert(forall|i: int| 0 <= i < plan0.len() ==> plan1[i] == plan0[i] && outs[i] == outs0[i]);
                    }
                    match o {
                        Some(a) => {
                            result.push(Crate::new(a, t, e.path.clone()));
                        },
                        None => {},
                    }
                }
            },
            ListingKind::Directory => {},
        }
        j = j + 1;
    }
    proof {
        assert(listing@.take(j as int) == listing@);
    }
    Ghost(outs)
}

impl Analysis {
    /// Loads the artifacts of one root directory, given its listing: each
    /// file that `timestamps` calls for is decoded with `decode`; each success
    /// becomes a unit, each failure is skipped.
    pub fn load_root<F: Fn(&String) -> Option<Analysis>>(
        listing: &Vec<Listing>,
        timestamps: &KnownTimestamps,
        decode: F,
    ) -> (r: Vec<Crate>)
        requires
            forall|p: &String| decode.requires((p,)),
        ensures
            exists|outs: Seq<Option<Analysis>>|
                decoded_by(decode, planned(listing@, timestamps@), outs) && r@ == assembled(
                    planned(listing@, timestamps@),
                    outs,
                ),
    {
        let mut result: Vec<Crate> = Vec::new();
        let outs = append_root(&mut result, listing, timestamps, &decode);
        proof {
            assert(result@ == seq![] + assembled(planned(listing@, timestamps@), outs@));
            assert(seq![] + assembled(planned(listing@, timestamps@), outs@) == assembled(planned(listing@, timestamps@), outs@));
        }
        result
    }

    /// Loads the artifacts of every root, given each root's listing (`None`
    /// where the listing failed, so that the root contributes nothing). The
    /// result is the concatenation of what each root contributes, in order.
    pub fn read_incremental<F: Fn(&String) -> Option<Analysis>>(
        roots: &Vec<Option<Vec<Listing>>>,
        timestamps: &KnownTimestamps,
        decode: F,
    ) -> (r: Vec<Crate>)
        requires
            forall|p: &String| decode.requires((p,)),
        ensures
            exists|outs: Seq<Option<Analysis>>|
                decoded_by(decode, planned(all_entries(roots@), timestamps@), outs) && r@
                    == assembled(planned(all_entries(roots@), timestamps@), outs),
    {
        let mut result: Vec<Crate> = Vec::new();
        let ghost mut outs: Seq<Option<Analysis>> = seq![];
        let mut i: usize = 0;
        while i < roots.len()
            invariant
                i <= roots@.len(),
                forall|p: &String| decode.requires((p,)),
                decoded_by(decode, planned(all_entries(roots@.take(i as int)), timestamps@), outs),
                result@ == assembled(planned(all_entries(roots@.take(i as int)), timestamps@), outs),
            decreases roots@.len() - i,
        {
            let ghost before = all_entries(roots@.take(i as int));
            proof {
                assert(roots@.take(i + 1).drop_last() == roots@.take(i as int));
            }
            match &roots[i] {
                Some(listing) => {
                    let ghost r0 = result@;
                    let added = append_root(&mut result, listing, timestamps, &decode);
                    proof {
                        let p0 = planned(before, timestamps@);
                        let p1 = planned(listing@, timestamps@);
                        lemma_planned_concat(before, listing@, timestamps@);
                        lemma_assembled_concat(p0, outs, p1, added@);
                        let outs1 = outs + added@;
                        assert forall|k: int| 0 <= k < (p0 + p1).len() implies decode.ensures(
                            (&(p0 + p1)[k].0,),
                            #[trigger] outs1[k],
                        ) by {
                            if k >= p0.len() {
                                assert(p1[k - p0.len()] == (p0 + p1)[k]);
                                assert(added@[k - p0.len()] == outs1[k]);
                            }
                        }
                        outs = outs1;
                    }
                },
                None => {
                    proof {
                        assert(before + seq![] == before);
                    }
                },
            }
            i = i + 1;
        }
        proof {
            assert(roots@.take(i as int) == roots@);
        }
        result
    }

    /// Loads every artifact of every root, as for a snapshot in which every
    /// path is unseen.
    pub fn read<F: Fn(&String) -> Option<Analysis>>(roots: &Vec<Option<Vec<Listing>>>, decode: F) -> (r: Vec<Crate>)
        requires
            forall|p: &String| decode.requires((p,)),
        ensures
            exists|outs: Seq<Option<Analysis>>|
                decoded_by(decode, planned(all_entries(roots@), Map::empty()), outs) && r@
                    == assembled(planned(all_entries(roots@), Map::empty()), outs),
    {
        let known = KnownTimestamps::new();
        Self::read_incremental(roots, &known, decode)
    }
}

} // verus!
