//! What a frame sends of the decal pool: one message listing exactly the
//! decals in use that are new or changed, each as recorded from the
//! engine's decal, and the recorder keeps them.

use vstd::prelude::*;
use crate::decals::{decal_changed, decal_from, Decal};
use crate::recorder::{decal_name_index, decals_fold, decals_step, RecorderView};
use crate::snapshot::DecalState;

verus! {

/// The decal slot `i` holds once the engine's decal `d` is recorded over
/// the recorded decals `dm`: the engine's surface, position, scale, texture,
/// flags and face, the name the cache gives its texture, and its recorded
/// slot (`i` for a slot not recorded yet).
pub open spec fn decal_entry(dm: Map<usize, Decal>, cache: Map<i16, u16>, i: int, d: DecalState) -> Decal {
    decal_from(
        d,
        if dm.contains_key(i as usize) { dm[i as usize].index } else { i as u16 },
        d.face as u16,
        decal_name_index(cache, d.texture),
    )
}

/// Decal `d`, in slot `i`, is in use and either not recorded in `dm` or
/// different from the one recorded.
pub open spec fn decal_slot_changed(dm: Map<usize, Decal>, i: int, d: DecalState) -> bool {
    d.psurface != 0 && (!dm.contains_key(i as usize) || decal_changed(dm[i as usize], d))
}

/// `e` is what one of the first `n` decals of `ds` that changed over `dm`
/// holds once recorded.
pub open spec fn decal_change_of(
    dm: Map<usize, Decal>,
    cache: Map<i16, u16>,
    ds: Seq<DecalState>,
    n: int,
    e: Decal,
) -> bool {
    exists|i: int| 0 <= i < n && decal_slot_changed(dm, i, ds[i]) && e == #[trigger] decal_entry(dm, cache, i, ds[i])
}

/// Slot `key` is one of the first `n` of `ds` and in use.
pub open spec fn decal_in_use(ds: Seq<DecalState>, n: int, key: usize) -> bool {
    key < n && ds[key as int].psurface != 0
}

/// What recording the first `n` decals of `ds` over `dm` gives, `f`, says
/// of them: each changed decal is listed with its new record, each listed
/// decal is that of a changed slot, each slot in use holds its new record
/// if it changed and its old one if not, and every other slot is as in
/// `dm`.
pub open spec fn decal_fold_records_changes(
    dm: Map<usize, Decal>,
    cache: Map<i16, u16>,
    ds: Seq<DecalState>,
    n: nat,
    f: (Map<usize, Decal>, Seq<Decal>, bool),
) -> bool {
    &&& forall|i: int|
        0 <= i < n && decal_slot_changed(dm, i, #[trigger] ds[i]) ==> f.1.contains(decal_entry(dm, cache, i, ds[i]))
    &&& forall|k: int| 0 <= k < f.1.len() ==> decal_change_of(dm, cache, ds, n as int, #[trigger] f.1[k])
    &&& forall|i: int|
        0 <= i < n && (#[trigger] ds[i]).psurface != 0 ==> f.0.contains_key(i as usize) && f.0[i as usize] == if decal_slot_changed(
            dm,
            i,
            ds[i],
        ) {
            decal_entry(dm, cache, i, ds[i])
        } else {
            dm[i as usize]
        }
    &&& forall|key: usize|
        !decal_in_use(ds, n as int, key) ==> (#[trigger] f.0.contains_key(key) == dm.contains_key(key) && (
        dm.contains_key(key) ==> f.0[key] == dm[key]))
}

/// Leaving the records as they are keeps `decal_fold_records_changes`
/// across a slot that is not in use or did not change.
#[verifier::spinoff_prover]
proof fn lemma_decal_records_kept(
    dm: Map<usize, Decal>,
    cache: Map<i16, u16>,
    ds: Seq<DecalState>,
    m: nat,
    f: (Map<usize, Decal>, Seq<Decal>, bool),
    ok: bool,
)
    requires
        m < ds.len(),
        ds.len() <= usize::MAX,
        decal_fold_records_changes(dm, cache, ds, m, f),
        !decal_slot_changed(dm, m as int, ds[m as int]),
    ensures
        decal_fold_records_changes(dm, cache, ds, m + 1, (f.0, f.1, ok)),
{
    let n: nat = m + 1;
    let g = (f.0, f.1, ok);
    let i = m as int;
    let key = i as usize;
    assert(!decal_in_use(ds, m as int, key));
    assert forall|j: int| 0 <= j < n && (#[trigger] ds[j]).psurface != 0 implies g.0.contains_key(j as usize)
        && g.0[j as usize] == if decal_slot_changed(dm, j, ds[j]) {
        decal_entry(dm, cache, j, ds[j])
    } else {
        dm[j as usize]
    } by {
        if j == i {
            assert(f.0.contains_key(key) == dm.contains_key(key));
            assert(f.0[key] == dm[key]);
        }
    }
    assert forall|j: int| 0 <= j < n && decal_slot_changed(dm, j, #[trigger] ds[j]) implies g.1.contains(
        decal_entry(dm, cache, j, ds[j]),
    ) by {
        assert(j < m);
    }
    assert forall|key2: usize| !decal_in_use(ds, n as int, key2) implies (#[trigger] g.0.contains_key(key2)
        == dm.contains_key(key2) && (dm.contains_key(key2) ==> g.0[key2] == dm[key2])) by {
        assert(!decal_in_use(ds, m as int, key2) || key2 == key);
    }
    assert forall|k: int| 0 <= k < g.1.len() implies decal_change_of(dm, cache, ds, n as int, #[trigger] g.1[k]) by {
        assert(decal_change_of(dm, cache, ds, m as int, f.1[k]));
        let j = choose|j: int|
            0 <= j < m && decal_slot_changed(dm, j, ds[j]) && f.1[k] == #[trigger] decal_entry(dm, cache, j, ds[j]);
        assert(0 <= j < n && decal_slot_changed(dm, j, ds[j]) && g.1[k] == decal_entry(dm, cache, j, ds[j]));
    }
    assert(decal_fold_records_changes(dm, cache, ds, n, g));
}

/// Recording the new record of a changed slot keeps
/// `decal_fold_records_changes`.
#[verifier::spinoff_prover]
proof fn lemma_decal_records_changed(
    dm: Map<usize, Decal>,
    cache: Map<i16, u16>,
    ds: Seq<DecalState>,
    m: nat,
    f: (Map<usize, Decal>, Seq<Decal>, bool),
    ok: bool,
)
    requires
        m < ds.len(),
        ds.len() <= usize::MAX,
        decal_fold_records_changes(dm, cache, ds, m, f),
        decal_slot_changed(dm, m as int, ds[m as int]),
    ensures
        ({
            let e = decal_entry(dm, cache, m as int, ds[m as int]);
            decal_fold_records_changes(dm, cache, ds, m + 1, (f.0.insert(m as usize, e), f.1.push(e), ok))
        }),
{
    let n: nat = m + 1;
    let i = m as int;
    let key = i as usize;
    let e = decal_entry(dm, cache, i, ds[i]);
    let g = (f.0.insert(key, e), f.1.push(e), ok);
    assert(g.1[f.1.len() as int] == e);
    assert forall|j: int| 0 <= j < n && decal_slot_changed(dm, j, #[trigger] ds[j]) implies g.1.contains(
        decal_entry(dm, cache, j, ds[j]),
    ) by {
        if j < m {
            let k = choose|k: int| 0 <= k < f.1.len() && f.1[k] == decal_entry(dm, cache, j, ds[j]);
            assert(g.1[k] == f.1[k]);
        }
    }
    assert forall|k: int| 0 <= k < g.1.len() implies decal_change_of(dm, cache, ds, n as int, #[trigger] g.1[k]) by {
        if k < f.1.len() {
            assert(g.1[k] == f.1[k]);
            assert(decal_change_of(dm, cache, ds, m as int, f.1[k]));
            let j = choose|j: int|
                0 <= j < m && decal_slot_changed(dm, j, ds[j]) && f.1[k] == #[trigger] decal_entry(dm, cache, j, ds[j]);
            assert(0 <= j < n && decal_slot_changed(dm, j, ds[j]) && g.1[k] == decal_entry(dm, cache, j, ds[j]));
        } else {
            assert(0 <= i < n && decal_slot_changed(dm, i, ds[i]) && g.1[k] == decal_entry(dm, cache, i, ds[i]));
        }
    }
    assert forall|j: int| 0 <= j < n && (#[trigger] ds[j]).psurface != 0 implies g.0.contains_key(j as usize)
        && g.0[j as usize] == if decal_slot_changed(dm, j, ds[j]) {
        decal_entry(dm, cache, j, ds[j])
    } else {
        dm[j as usize]
    } by {
        if j < m {
            assert(j as usize != key);
        }
    }
    assert forall|key2: usize| !decal_in_use(ds, n as int, key2) implies (#[trigger] g.0.contains_key(key2)
        == dm.contains_key(key2) && (dm.contains_key(key2) ==> g.0[key2] == dm[key2])) by {
        if key2 == key {
            assert(key2 as int == i);
            assert(decal_in_use(ds, n as int, key2));
        }
        assert(!decal_in_use(ds, m as int, key2));
    }
    assert(decal_fold_records_changes(dm, cache, ds, n, g));
}

#[verifier::spinoff_prover]
proof fn lemma_decals_fold_changes(dm: Map<usize, Decal>, cache: Map<i16, u16>, ds: Seq<DecalState>, n: nat)
    requires
        n <= ds.len(),
        ds.len() <= usize::MAX,
    ensures
        decal_fold_records_changes(dm, cache, ds, n, decals_fold(dm, cache, ds, n)),
    decreases n,
{
    if n == 0 {
        let f = decals_fold(dm, cache, ds, n);
        assert(f.0 == dm && f.1 == Seq::<Decal>::empty());
    } else {
        let m = (n - 1) as nat;
        lemma_decals_fold_changes(dm, cache, ds, m);
        let prev = decals_fold(dm, cache, ds, m);
        let f = decals_fold(dm, cache, ds, n);
        let i = m as int;
        let key = i as usize;
        assert(!decal_in_use(ds, m as int, key));
        assert(prev.0.contains_key(key) == dm.contains_key(key));
        if dm.contains_key(key) {
            assert(prev.0[key] == dm[key]);
        }
        if decal_slot_changed(dm, i, ds[i]) {
            let e = decal_entry(dm, cache, i, ds[i]);
            assert(f.0 == prev.0.insert(key, e));
            assert(f.1 == prev.1.push(e));
            lemma_decal_records_changed(dm, cache, ds, m, prev, f.2);
            assert(f == (prev.0.insert(key, e), prev.1.push(e), f.2));
        } else {
            assert(f.0 == prev.0 && f.1 == prev.1);
            lemma_decal_records_kept(dm, cache, ds, m, prev, f.2);
            assert(f == (prev.0, prev.1, f.2));
        }
    }
}

/// The decal messages of a frame, for the recorder `r` and the engine's
/// decals `ds`, list exactly the decals in use that are new or changed,
/// each as recorded, in one message sent only when there is one; and the
/// recorder the frame leaves holds their new records and keeps every slot
/// not in use.
pub open spec fn decals_step_sends_changes(r: RecorderView, ds: Seq<DecalState>) -> bool {
    ({
        let ms = decals_step(r, ds).1;
        let r1 = decals_step(r, ds).0;
        &&& ms.len() <= 1
        &&& forall|i: int|
            0 <= i < ds.len() && decal_slot_changed(r.decals, i, #[trigger] ds[i]) ==> ms.len() == 1
                && ms[0] is UpdateDecals && ms[0]->UpdateDecals_0.contains(decal_entry(r.decals, r.decal_cache_name_index_map, i, ds[i]))
        &&& ms.len() == 1 ==> ms[0] is UpdateDecals && ms[0]->UpdateDecals_0.len() > 0
        &&& ms.len() == 1 ==> forall|k: int|
            0 <= k < ms[0]->UpdateDecals_0.len() ==> decal_change_of(
                r.decals,
                r.decal_cache_name_index_map,
                ds,
                ds.len() as int,
                #[trigger] ms[0]->UpdateDecals_0[k],
            )
        &&& forall|i: int|
            0 <= i < ds.len() && decal_slot_changed(r.decals, i, #[trigger] ds[i]) ==> r1.decals.contains_key(
                i as usize,
            ) && r1.decals[i as usize] == decal_entry(r.decals, r.decal_cache_name_index_map, i, ds[i])
        &&& forall|key: usize|
            !decal_in_use(ds, ds.len() as int, key) ==> (#[trigger] r1.decals.contains_key(key)
                == r.decals.contains_key(key) && (r.decals.contains_key(key) ==> r1.decals[key] == r.decals[key]))
    })
}

/// The decal pool of a frame is sent as one message that lists exactly the
/// decals in use that are new or differ from the one recorded, each as
/// recorded from the engine's decal; when none is, nothing is sent. The
/// recorder then holds the new record of each such slot, and every other
/// slot as it was.
#[verifier::spinoff_prover]
pub proof fn lemma_decals_step_sends_changes(r: RecorderView, ds: Seq<DecalState>)
    requires
        ds.len() <= usize::MAX,
    ensures
        decals_step_sends_changes(r, ds),
{
    let cache = r.decal_cache_name_index_map;
    lemma_decals_fold_changes(r.decals, cache, ds, ds.len());
    let f = decals_fold(r.decals, cache, ds, ds.len());
    let ms = decals_step(r, ds).1;
    let r1 = decals_step(r, ds).0;
    assert(r1.decals == f.0);
    if f.1.len() != 0 {
        assert(ms == seq![crate::message::MessageView::UpdateDecals(f.1)]);
        assert(ms[0]->UpdateDecals_0 == f.1);
    } else {
        assert(ms.len() == 0);
    }
    assert forall|i: int| 0 <= i < ds.len() && decal_slot_changed(r.decals, i, #[trigger] ds[i]) implies r1.decals.contains_key(
        i as usize,
    ) && r1.decals[i as usize] == decal_entry(r.decals, cache, i, ds[i]) by {
        assert(ds[i].psurface != 0);
    }
    assert forall|i: int| 0 <= i < ds.len() && decal_slot_changed(r.decals, i, #[trigger] ds[i]) implies f.1.len()
        > 0 by {
        assert(f.1.contains(decal_entry(r.decals, cache, i, ds[i])));
    }
    assert(ms.len() <= 1);
    assert(forall|i: int|
                0 <= i < ds.len() && decal_slot_changed(r.decals, i, #[trigger] ds[i]) ==> ms.len() == 1
                    && ms[0] is UpdateDecals && ms[0]->UpdateDecals_0.contains(decal_entry(r.decals, cache, i, ds[i])));
    assert(ms.len() == 1 ==> ms[0] is UpdateDecals && ms[0]->UpdateDecals_0.len() > 0);
    assert(ms.len() == 1 ==> forall|k: int|
                0 <= k < ms[0]->UpdateDecals_0.len() ==> decal_change_of(
                    r.decals,
                    cache,
                    ds,
                    ds.len() as int,
                    #[trigger] ms[0]->UpdateDecals_0[k],
                ));
    assert(forall|i: int|
                0 <= i < ds.len() && decal_slot_changed(r.decals, i, #[trigger] ds[i]) ==> r1.decals.contains_key(
                    i as usize,
                ) && r1.decals[i as usize] == decal_entry(r.decals, cache, i, ds[i]));
    assert(forall|key: usize|
                !decal_in_use(ds, ds.len() as int, key) ==> (#[trigger] r1.decals.contains_key(key)
                    == r.decals.contains_key(key) && (r.decals.contains_key(key) ==> r1.decals[key] == r.decals[key])));
    assert(decals_step_sends_changes(r, ds));
}

} // verus!
