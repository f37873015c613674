use vstd::prelude::*;
use crate::freshness::{must_load, recorded, state_in, Freshness, Listing, ListingKind};
use crate::loader::{all_entries, assembled, planned};
use crate::model::{Analysis, Crate, Timestamp};

verus! {

/// The number of units whose path is `q`.
pub open spec fn units_at(units: Seq<Crate>, q: Seq<char>) -> nat
    decreases units.len(),
{
    if units.len() == 0 {
        0
    } else {
        units_at(units.drop_last(), q) + if units.last().path@ == q { 1nat } else { 0nat }
    }
}

/// The number of planned artifacts whose path is `q`.
pub open spec fn planned_at(plan: Seq<(String, Timestamp)>, q: Seq<char>) -> nat
    decreases plan.len(),
{
    if plan.len() == 0 {
        0
    } else {
        planned_at(plan.drop_last(), q) + if plan.last().0@ == q { 1nat } else { 0nat }
    }
}

/// Whether a listing entry is a file at path `q`.
pub open spec fn is_file_at(e: Listing, q: Seq<char>) -> bool {
    e.kind is File && e.path@ == q
}

/// The number of file entries whose path is `q`.
pub open spec fn files_at(entries: Seq<Listing>, q: Seq<char>) -> nat
    decreases entries.len(),
{
    if entries.len() == 0 {
        0
    } else {
        files_at(entries.drop_last(), q) + if is_file_at(entries.last(), q) { 1nat } else { 0nat }
    }
}

/// The number of failed decodes.
pub open spec fn failures(outcomes: Seq<Option<Analysis>>) -> nat
    decreases outcomes.len(),
{
    if outcomes.len() == 0 {
        0
    } else {
        failures(outcomes.drop_last()) + if outcomes.last() is None { 1nat } else { 0nat }
    }
}

/// Units come only from planned artifacts, and every planned artifact at `q`
/// whose decode succeeded yields one.
pub proof fn lemma_units_at(plan: Seq<(String, Timestamp)>, outs: Seq<Option<Analysis>>, q: Seq<char>)
    requires
        plan.len() == outs.len(),
    ensures
        units_at(assembled(plan, outs), q) <= planned_at(plan, q),
        (forall|i: int| 0 <= i < plan.len() && plan[i].0@ == q ==> (#[trigger] outs[i]) is Some)
            ==> units_at(assembled(plan, outs), q) == planned_at(plan, q),
    decreases plan.len(),
{
    if plan.len() > 0 {
        let rest = assembled(plan.drop_last(), outs.drop_last());
        lemma_units_at(plan.drop_last(), outs.drop_last(), q);
        if let Some(a) = outs.last() {
            let c = Crate { analysis: a, timestamp: plan.last().1, path: plan.last().0 };
            assert(rest.push(c).drop_last() == rest);
        }
        if forall|i: int| 0 <= i < plan.len() && plan[i].0@ == q ==> (#[trigger] outs[i]) is Some {
            assert forall|i: int|
                0 <= i < plan.drop_last().len() && plan.drop_last()[i].0@ == q implies (
                #[trigger] outs.drop_last()[i]) is Some by {
                assert(outs.drop_last()[i] == outs[i]);
                assert(plan.drop_last()[i] == plan[i]);
            }
            assert(outs[plan.len() - 1] == outs.last());
        }
    }
}

/// The planned artifacts at `q` are the file entries at `q` whose state calls
/// for a load.
pub proof fn lemma_planned_at(entries: Seq<Listing>, known: Map<Seq<char>, Freshness>, q: Seq<char>)
    ensures
        planned_at(planned(entries, known), q) <= files_at(entries, q),
        (forall|i: int|
            0 <= i < entries.len() && is_file_at(#[trigger] entries[i], q) ==> !must_load(
                state_in(known, q),
                entries[i].kind->File_0,
            )) ==> planned_at(planned(entries, known), q) == 0,
        (forall|i: int|
            0 <= i < entries.len() && is_file_at(#[trigger] entries[i], q) ==> must_load(
                state_in(known, q),
                entries[i].kind->File_0,
            )) ==> planned_at(planned(entries, known), q) == files_at(entries, q),
    decreases entries.len(),
{
    if entries.len() > 0 {
        let init = entries.drop_last();
        let rest = planned(init, known);
        lemma_planned_at(init, known, q);
        let e = entries.last();
        assert(entries[entries.len() - 1] == e);
        assert forall|i: int| 0 <= i < init.len() implies #[trigger] init[i] == entries[i] by {}
        if let ListingKind::File(t) = e.kind {
            assert(rest.push((e.path, t)).drop_last() == rest);
        }
    }
}

/// The number of units is the number of planned artifacts less the number of
/// failed decodes.
pub proof fn lemma_assembled_len(plan: Seq<(String, Timestamp)>, outs: Seq<Option<Analysis>>)
    requires
        plan.len() == outs.len(),
    ensures
        assembled(plan, outs).len() + failures(outs) == plan.len(),
    decreases plan.len(),
{
    if plan.len() > 0 {
        lemma_assembled_len(plan.drop_last(), outs.drop_last());
    }
}

/// An artifact whose observed time is strictly newer than the known one, and
/// that appears once among the listed files, yields exactly one unit when its
/// decode succeeds.
pub proof fn law_newer_artifact_loaded_once(
    roots: Seq<Option<Vec<Listing>>>,
    known: Map<Seq<char>, Freshness>,
    outs: Seq<Option<Analysis>>,
    q: Seq<char>,
    t_known: Timestamp,
)
    requires
        outs.len() == planned(all_entries(roots), known).len(),
        state_in(known, q) == Freshness::KnownAt(t_known),
        files_at(all_entries(roots), q) == 1,
        forall|i: int|
            0 <= i < all_entries(roots).len() && is_file_at(#[trigger] all_entries(roots)[i], q)
                ==> all_entries(roots)[i].kind->File_0 > t_known,
        forall|i: int|
            0 <= i < outs.len() && planned(all_entries(roots), known)[i].0@ == q
                ==> (#[trigger] outs[i]) is Some,
    ensures
        units_at(assembled(planned(all_entries(roots), known), outs), q) == 1,
{
    lemma_planned_at(all_entries(roots), known, q);
    lemma_units_at(planned(all_entries(roots), known), outs, q);
}

/// An artifact in the never-refresh state never yields a unit, whatever its
/// observed time and whatever the decodes return.
pub proof fn law_pinned_never_loaded(
    roots: Seq<Option<Vec<Listing>>>,
    known: Map<Seq<char>, Freshness>,
    outs: Seq<Option<Analysis>>,
    q: Seq<char>,
)
    requires
        outs.len() == planned(all_entries(roots), known).len(),
        state_in(known, q) == Freshness::Pinned,
    ensures
        units_at(assembled(planned(all_entries(roots), known), outs), q) == 0,
{
    lemma_planned_at(all_entries(roots), known, q);
    lemma_units_at(planned(all_entries(roots), known), outs, q);
}

/// An artifact that was never seen, and that appears once among the listed
/// files, yields exactly one unit when its decode succeeds.
pub proof fn law_unseen_artifact_loaded_once(
    roots: Seq<Option<Vec<Listing>>>,
    known: Map<Seq<char>, Freshness>,
    outs: Seq<Option<Analysis>>,
    q: Seq<char>,
)
    requires
        outs.len() == planned(all_entries(roots), known).len(),
        !known.contains_key(q),
        files_at(all_entries(roots), q) == 1,
        forall|i: int|
            0 <= i < outs.len() && planned(all_entries(roots), known)[i].0@ == q
                ==> (#[trigger] outs[i]) is Some,
    ensures
        units_at(assembled(planned(all_entries(roots), known), outs), q) == 1,
{
    lemma_planned_at(all_entries(roots), known, q);
    lemma_units_at(planned(all_entries(roots), known), outs, q);
}

/// An artifact whose every observed time is at most the known one yields no
/// unit.
pub proof fn law_unchanged_artifact_skipped(
    roots: Seq<Option<Vec<Listing>>>,
    known: Map<Seq<char>, Freshness>,
    outs: Seq<Option<Analysis>>,
    q: Seq<char>,
    t_known: Timestamp,
)
    requires
        outs.len() == planned(all_entries(roots), known).len(),
        state_in(known, q) == Freshness::KnownAt(t_known),
        forall|i: int|
            0 <= i < all_entries(roots).len() && is_file_at(#[trigger] all_entries(roots)[i], q)
                ==> all_entries(roots)[i].kind->File_0 <= t_known,
    ensures
        units_at(assembled(planned(all_entries(roots), known), outs), q) == 0,
{
    lemma_planned_at(all_entries(roots), known, q);
    lemma_units_at(planned(all_entries(roots), known), outs, q);
}

/// Decode failures are isolated: every artifact that must be loaded is
/// decoded, and the number of units is the number of artifacts that must be
/// loaded less the number of failed decodes among them.
pub proof fn law_failures_only_drop_themselves(
    roots: Seq<Option<Vec<Listing>>>,
    known: Map<Seq<char>, Freshness>,
    outs: Seq<Option<Analysis>>,
)
    requires
        outs.len() == planned(all_entries(roots), known).len(),
    ensures
        assembled(planned(all_entries(roots), known), outs).len() == planned(all_entries(roots), known).len()
            - failures(outs),
{
    lemma_assembled_len(planned(all_entries(roots), known), outs);
}

/// Every planned artifact is a listed file whose state calls for a load.
pub proof fn lemma_plan_from_entries(entries: Seq<Listing>, known: Map<Seq<char>, Freshness>, i: int)
    requires
        0 <= i < planned(entries, known).len(),
    ensures
        exists|j: int|
            0 <= j < entries.len() && #[trigger] entries[j].kind == ListingKind::File(planned(entries, known)[i].1)
                && entries[j].path == planned(entries, known)[i].0 && must_load(
                state_in(known, entries[j].path@),
                planned(entries, known)[i].1,
            ),
    decreases entries.len(),
{
    let init = entries.drop_last();
    let rest = planned(init, known);
    let e = entries.last();
    assert(entries[entries.len() - 1] == e);
    if i < rest.len() {
        lemma_plan_from_entries(init, known, i);
        let j = choose|j: int|
            0 <= j < init.len() && #[trigger] init[j].kind == ListingKind::File(rest[i].1) && init[j].path
                == rest[i].0 && must_load(state_in(known, init[j].path@), rest[i].1);
        assert(init[j] == entries[j]);
        if let ListingKind::File(t) = e.kind {
            assert(rest.push((e.path, t))[i] == rest[i]);
        }
    } else {
        assert(entries[entries.len() - 1].kind == ListingKind::File(planned(entries, known)[i].1));
    }
}

/// Every unit carries the path and time of a planned artifact.
pub proof fn lemma_units_from_plan(plan: Seq<(String, Timestamp)>, outs: Seq<Option<Analysis>>, k: int)
    requires
        plan.len() == outs.len(),
        0 <= k < assembled(plan, outs).len(),
    ensures
        exists|i: int|
            0 <= i < plan.len() && (#[trigger] plan[i]).0 == assembled(plan, outs)[k].path && plan[i].1
                == assembled(plan, outs)[k].timestamp,
    decreases plan.len(),
{
    let rest = assembled(plan.drop_last(), outs.drop_last());
    if k < rest.len() {
        lemma_units_from_plan(plan.drop_last(), outs.drop_last(), k);
        let i = choose|i: int|
            0 <= i < plan.drop_last().len() && (#[trigger] plan.drop_last()[i]).0 == rest[k].path
                && plan.drop_last()[i].1 == rest[k].timestamp;
        assert(plan.drop_last()[i] == plan[i]);
        if let Some(a) = outs.last() {
            let c = Crate { analysis: a, timestamp: plan.last().1, path: plan.last().0 };
            assert(rest.push(c)[k] == rest[k]);
        }
    } else {
        assert(plan[plan.len() - 1] == plan.last());
    }
}

/// Recording leaves a path that no unit carries as it was, and marks a path
/// that some unit carries as known at that unit's time.
pub proof fn lemma_recorded(known: Map<Seq<char>, Freshness>, units: Seq<Crate>, q: Seq<char>)
    ensures
        (forall|k: int| 0 <= k < units.len() ==> (#[trigger] units[k]).path@ != q) ==> state_in(
            recorded(known, units),
            q,
        ) == state_in(known, q),
        (exists|k: int| 0 <= k < units.len() && (#[trigger] units[k]).path@ == q) ==> exists|k: int|
            0 <= k < units.len() && (#[trigger] units[k]).path@ == q && state_in(recorded(known, units), q)
                == Freshness::KnownAt(units[k].timestamp),
    decreases units.len(),
{
    if units.len() > 0 {
        let init = units.drop_last();
        lemma_recorded(known, init, q);
        assert(units[units.len() - 1] == units.last());
        assert forall|k: int| 0 <= k < init.len() implies #[trigger] init[k] == units[k] by {}
        if units.last().path@ != q {
            if exists|k: int| 0 <= k < units.len() && (#[trigger] units[k]).path@ == q {
                let k = choose|k: int| 0 <= k < units.len() && (#[trigger] units[k]).path@ == q;
                assert(init[k].path@ == q);
            }
        }
    }
}

/// A path with at least one unit is carried by some unit.
pub proof fn lemma_units_at_witness(units: Seq<Crate>, q: Seq<char>)
    requires
        units_at(units, q) > 0,
    ensures
        exists|k: int| 0 <= k < units.len() && (#[trigger] units[k]).path@ == q,
    decreases units.len(),
{
    if units.last().path@ == q {
        assert(units[units.len() - 1].path@ == q);
    } else {
        lemma_units_at_witness(units.drop_last(), q);
        let k = choose|k: int| 0 <= k < units.drop_last().len() && (#[trigger] units.drop_last()[k]).path@ == q;
        assert(units.drop_last()[k] == units[k]);
    }
}

/// A listed file at `q` counts among the files at `q`.
pub proof fn lemma_files_at_positive(entries: Seq<Listing>, q: Seq<char>, j: int)
    requires
        0 <= j < entries.len(),
        is_file_at(entries[j], q),
    ensures
        files_at(entries, q) > 0,
    decreases entries.len(),
{
    if j < entries.len() - 1 {
        assert(entries.drop_last()[j] == entries[j]);
        lemma_files_at_positive(entries.drop_last(), q, j);
    }
}

/// Loading again, with an unchanged set of listed files and a snapshot that
/// records each loaded unit at its observed time, yields only units whose
/// path is still never seen. Each path is listed with one modification time,
/// and the first load's decode failures are on never-seen paths only (a path
/// known at an older time whose decode failed is retried).
pub proof fn law_reload_after_recording(
    roots: Seq<Option<Vec<Listing>>>,
    known: Map<Seq<char>, Freshness>,
    outs: Seq<Option<Analysis>>,
    outs2: Seq<Option<Analysis>>,
)
    requires
        outs.len() == planned(all_entries(roots), known).len(),
        forall|i: int, j: int|
            0 <= i < all_entries(roots).len() && 0 <= j < all_entries(roots).len()
                && (#[trigger] all_entries(roots)[i]).kind is File && (#[trigger] all_entries(roots)[j]).kind is File
                && all_entries(roots)[i].path@ == all_entries(roots)[j].path@ ==> all_entries(roots)[i].kind
                == all_entries(roots)[j].kind,
        forall|i: int|
            0 <= i < outs.len() && (#[trigger] outs[i]) is None ==> state_in(
                known,
                planned(all_entries(roots), known)[i].0@,
            ) == Freshness::Unseen,
        outs2.len() == planned(
            all_entries(roots),
            recorded(known, assembled(planned(all_entries(roots), known), outs)),
        ).len(),
    ensures
        ({
            let known2 = recorded(known, assembled(planned(all_entries(roots), known), outs));
            let again = assembled(planned(all_entries(roots), known2), outs2);
            forall|k: int| 0 <= k < again.len() ==> state_in(known2, (#[trigger] again[k]).path@) == Freshness::Unseen
        }),
{
    let entries = all_entries(roots);
    let plan1 = planned(entries, known);
    let units1 = assembled(plan1, outs);
    let known2 = recorded(known, units1);
    let plan2 = planned(entries, known2);
    let again = assembled(plan2, outs2);
    assert forall|k: int| 0 <= k < again.len() implies state_in(known2, (#[trigger] again[k]).path@)
        == Freshness::Unseen by {
        let q = again[k].path@;
        lemma_units_from_plan(plan2, outs2, k);
        let i2 = choose|i: int|
            0 <= i < plan2.len() && (#[trigger] plan2[i]).0 == again[k].path && plan2[i].1 == again[k].timestamp;
        lemma_plan_from_entries(entries, known2, i2);
        let j = choose|j: int|
            0 <= j < entries.len() && #[trigger] entries[j].kind == ListingKind::File(plan2[i2].1)
                && entries[j].path == plan2[i2].0 && must_load(state_in(known2, entries[j].path@), plan2[i2].1);
        let t2 = plan2[i2].1;
        lemma_recorded(known, units1, q);
        if exists|u: int| 0 <= u < units1.len() && (#[trigger] units1[u]).path@ == q {
            let u = choose|u: int|
                0 <= u < units1.len() && (#[trigger] units1[u]).path@ == q && state_in(known2, q)
                    == Freshness::KnownAt(units1[u].timestamp);
            lemma_units_from_plan(plan1, outs, u);
            let i1 = choose|i: int|
                0 <= i < plan1.len() && (#[trigger] plan1[i]).0 == units1[u].path && plan1[i].1
                    == units1[u].timestamp;
            lemma_plan_from_entries(entries, known, i1);
            let j1 = choose|j: int|
                0 <= j < entries.len() && #[trigger] entries[j].kind == ListingKind::File(plan1[i1].1)
                    && entries[j].path == plan1[i1].0 && must_load(state_in(known, entries[j].path@), plan1[i1].1);
            assert(entries[j].kind == entries[j1].kind);
        } else {
            if let Freshness::KnownAt(t_known) = state_in(known, q) {
                assert forall|i: int| 0 <= i < entries.len() && is_file_at(#[trigger] entries[i], q) implies must_load(
                    state_in(known, q),
                    entries[i].kind->File_0,
                ) by {
                    assert(entries[i].kind == entries[j].kind);
                }
                lemma_planned_at(entries, known, q);
                lemma_files_at_positive(entries, q, j);
                assert forall|i: int| 0 <= i < plan1.len() && plan1[i].0@ == q implies (#[trigger] outs[i]) is Some by {
                    if outs[i] is None {
                        assert(state_in(known, plan1[i].0@) == Freshness::Unseen);
                    }
                }
                lemma_units_at(plan1, outs, q);
                lemma_units_at_witness(units1, q);
            }
        }
    }
}

} // verus!
