//! What a frame sends of the light styles: one message listing exactly the
//! styles in use that are new or whose pattern changed, each with its new
//! pattern, and the recorder keeps the new patterns.

use vstd::prelude::*;
use crate::decals::lightstyle_pattern;
use crate::message::MessageView;
use crate::recorder::{lightstyles_fold, lightstyles_step, RecorderView};
use crate::snapshot::LightstyleState;

verus! {

/// What slot `i` holds once style `l` is recorded over the recorded styles
/// `lm`: its recorded number (`i` for a slot not recorded yet) and the
/// engine's pattern.
pub open spec fn lightstyle_entry(lm: Map<usize, (u8, Seq<u8>)>, i: int, l: LightstyleState) -> (u8, Seq<u8>) {
    (if lm.contains_key(i as usize) { lm[i as usize].0 } else { i as u8 }, lightstyle_pattern(l))
}

/// Style `l`, in slot `i`, is in use and either not recorded in `lm` or
/// recorded with another pattern.
pub open spec fn lightstyle_changed(lm: Map<usize, (u8, Seq<u8>)>, i: int, l: LightstyleState) -> bool {
    l.length != 0 && (!lm.contains_key(i as usize) || lm[i as usize].1 != lightstyle_pattern(l))
}

/// `e` is what one of the first `n` styles of `ls` that changed over `lm`
/// holds once recorded.
pub open spec fn lightstyle_change_of(lm: Map<usize, (u8, Seq<u8>)>, ls: Seq<LightstyleState>, n: int, e: (u8, Seq<u8>)) -> bool {
    exists|i: int| 0 <= i < n && lightstyle_changed(lm, i, ls[i]) && e == #[trigger] lightstyle_entry(lm, i, ls[i])
}

/// Slot `key` is one of the first `n` of `ls` and in use.
pub open spec fn lightstyle_in_use(ls: Seq<LightstyleState>, n: int, key: usize) -> bool {
    key < n && ls[key as int].length != 0
}

/// What recording the first `n` styles of `ls` over `lm` gives, `f`, says
/// of them: each changed style is listed with its new entry, each listed
/// entry is that of a changed style, each style in use is recorded with
/// its entry, and every other slot is as in `lm`.
pub open spec fn fold_records_changes(
    lm: Map<usize, (u8, Seq<u8>)>,
    ls: Seq<LightstyleState>,
    n: nat,
    f: (Map<usize, (u8, Seq<u8>)>, Seq<(u8, Seq<u8>)>),
) -> bool {
    &&& forall|i: int|
                0 <= i < n && lightstyle_changed(lm, i, #[trigger] ls[i]) ==> f.1.contains(
                    lightstyle_entry(lm, i, ls[i]),
                )
            &&& forall|k: int| 0 <= k < f.1.len() ==> lightstyle_change_of(lm, ls, n as int, #[trigger] f.1[k])
            &&& forall|i: int|
                0 <= i < n && (#[trigger] ls[i]).length != 0 ==> f.0.contains_key(i as usize) && f.0[i as usize]
                    == lightstyle_entry(lm, i, ls[i])
            &&& forall|key: usize|
                !lightstyle_in_use(ls, n as int, key) ==> (#[trigger] f.0.contains_key(key) == lm.contains_key(key)
                    && (lm.contains_key(key) ==> f.0[key] == lm[key]))
}

/// Leaving the records as they are keeps `fold_records_changes` across a
/// style that is not in use or did not change.
#[verifier::spinoff_prover]
proof fn lemma_records_kept(
    lm: Map<usize, (u8, Seq<u8>)>,
    ls: Seq<LightstyleState>,
    m: nat,
    f: (Map<usize, (u8, Seq<u8>)>, Seq<(u8, Seq<u8>)>),
)
    requires
        m < ls.len(),
        ls.len() <= usize::MAX,
        fold_records_changes(lm, ls, m, f),
        !lightstyle_changed(lm, m as int, ls[m as int]),
        ls[m as int].length != 0 ==> lm.contains_key(m as usize),
    ensures
        fold_records_changes(lm, ls, m + 1, f),
{
    let n: nat = m + 1;
    let i = m as int;
    let key = i as usize;
    assert(!lightstyle_in_use(ls, m as int, key));
    assert forall|j: int| 0 <= j < n && (#[trigger] ls[j]).length != 0 implies f.0.contains_key(j as usize)
        && f.0[j as usize] == lightstyle_entry(lm, j, ls[j]) by {
        if j == i {
            assert(f.0.contains_key(key) == lm.contains_key(key));
            assert(f.0[key] == lm[key]);
            assert(lm[key].1 == lightstyle_pattern(ls[i]));
            assert(lm[key] == lightstyle_entry(lm, j, ls[j]));
        }
    }
    assert forall|j: int| 0 <= j < n && lightstyle_changed(lm, j, #[trigger] ls[j]) implies f.1.contains(
        lightstyle_entry(lm, j, ls[j]),
    ) by {
        assert(j < m);
    }
    assert forall|key2: usize| !lightstyle_in_use(ls, n as int, key2) implies (#[trigger] f.0.contains_key(key2)
        == lm.contains_key(key2) && (lm.contains_key(key2) ==> f.0[key2] == lm[key2])) by {
        assert(!lightstyle_in_use(ls, m as int, key2) || key2 == key);
    }
    assert forall|k: int| 0 <= k < f.1.len() implies lightstyle_change_of(lm, ls, n as int, #[trigger] f.1[k]) by {
        assert(lightstyle_change_of(lm, ls, m as int, f.1[k]));
        let j = choose|j: int|
            0 <= j < m && lightstyle_changed(lm, j, ls[j]) && f.1[k] == #[trigger] lightstyle_entry(lm, j, ls[j]);
        assert(0 <= j < n && lightstyle_changed(lm, j, ls[j]) && f.1[k] == lightstyle_entry(lm, j, ls[j]));
    }
    assert(fold_records_changes(lm, ls, n, f));
}

/// Recording the entry of a changed style keeps `fold_records_changes`.
#[verifier::spinoff_prover]
proof fn lemma_records_changed(
    lm: Map<usize, (u8, Seq<u8>)>,
    ls: Seq<LightstyleState>,
    m: nat,
    f: (Map<usize, (u8, Seq<u8>)>, Seq<(u8, Seq<u8>)>),
)
    requires
        m < ls.len(),
        ls.len() <= usize::MAX,
        fold_records_changes(lm, ls, m, f),
        lightstyle_changed(lm, m as int, ls[m as int]),
    ensures
        ({
            let entry = lightstyle_entry(lm, m as int, ls[m as int]);
            fold_records_changes(lm, ls, m + 1, (f.0.insert(m as usize, entry), f.1.push(entry)))
        }),
{
    let n: nat = m + 1;
    let i = m as int;
    let key = i as usize;
    let entry = lightstyle_entry(lm, i, ls[i]);
    let g = (f.0.insert(key, entry), f.1.push(entry));
    assert(g.1[f.1.len() as int] == entry);
    assert forall|j: int| 0 <= j < n && lightstyle_changed(lm, j, #[trigger] ls[j]) implies g.1.contains(
        lightstyle_entry(lm, j, ls[j]),
    ) by {
        if j < m {
            let k = choose|k: int| 0 <= k < f.1.len() && f.1[k] == lightstyle_entry(lm, j, ls[j]);
            assert(g.1[k] == f.1[k]);
        }
    }
    assert forall|k: int| 0 <= k < g.1.len() implies lightstyle_change_of(lm, ls, n as int, #[trigger] g.1[k]) by {
        if k < f.1.len() {
            assert(g.1[k] == f.1[k]);
            assert(lightstyle_change_of(lm, ls, m as int, f.1[k]));
            let j = choose|j: int|
                0 <= j < m && lightstyle_changed(lm, j, ls[j]) && f.1[k] == #[trigger] lightstyle_entry(lm, j, ls[j]);
            assert(0 <= j < n && lightstyle_changed(lm, j, ls[j]) && g.1[k] == lightstyle_entry(lm, j, ls[j]));
        } else {
            assert(0 <= i < n && lightstyle_changed(lm, i, ls[i]) && g.1[k] == lightstyle_entry(lm, i, ls[i]));
        }
    }
    assert forall|j: int| 0 <= j < n && (#[trigger] ls[j]).length != 0 implies g.0.contains_key(j as usize)
        && g.0[j as usize] == lightstyle_entry(lm, j, ls[j]) by {
        if j < m {
            assert(j as usize != key);
        }
    }
    assert forall|key2: usize| !lightstyle_in_use(ls, n as int, key2) implies (#[trigger] g.0.contains_key(key2)
        == lm.contains_key(key2) && (lm.contains_key(key2) ==> g.0[key2] == lm[key2])) by {
        if key2 == key {
            assert(key2 as int == i);
            assert(lightstyle_in_use(ls, n as int, key2));
        }
        assert(!lightstyle_in_use(ls, m as int, key2));
    }
    assert(fold_records_changes(lm, ls, n, g));
}

proof fn lemma_lightstyles_fold_changes(lm: Map<usize, (u8, Seq<u8>)>, ls: Seq<LightstyleState>, n: nat)
    requires
        n <= ls.len(),
        ls.len() <= usize::MAX,
    ensures
        fold_records_changes(lm, ls, n, lightstyles_fold(lm, ls, n)),
    decreases n,
{
    if n == 0 {
        let f = lightstyles_fold(lm, ls, n);
        assert(f.0 == lm && f.1 == Seq::<(u8, Seq<u8>)>::empty());
    } else {
        let m = (n - 1) as nat;
        lemma_lightstyles_fold_changes(lm, ls, m);
        let prev = lightstyles_fold(lm, ls, m);
        let f = lightstyles_fold(lm, ls, n);
        let i = m as int;
        let key = i as usize;
        assert(!lightstyle_in_use(ls, m as int, key));
        assert(prev.0.contains_key(key) == lm.contains_key(key));
        if ls[i].length != 0 && lm.contains_key(key) {
            assert(prev.0[key] == lm[key]);
        }
        if lightstyle_changed(lm, i, ls[i]) {
            let entry = lightstyle_entry(lm, i, ls[i]);
            assert(f == (prev.0.insert(key, entry), prev.1.push(entry)));
            lemma_records_changed(lm, ls, m, prev);
        } else {
            assert(f == prev);
            lemma_records_kept(lm, ls, m, prev);
        }
    }
}

/// The light styles of a frame are sent as one message that lists exactly
/// the styles in use that are new or whose pattern differs from the one
/// recorded, each with its number and new pattern; when none is, nothing
/// is sent. The recorder then holds each style in use with its new
/// pattern, and every other slot as it was.
pub proof fn lemma_lightstyles_step_sends_changes(r: RecorderView, ls: Seq<LightstyleState>)
    requires
        ls.len() <= usize::MAX,
    ensures
        ({
            let ms = lightstyles_step(r, ls).1;
            let r1 = lightstyles_step(r, ls).0;
            &&& ms.len() <= 1
            &&& forall|i: int|
                0 <= i < ls.len() && lightstyle_changed(r.lightstyles, i, #[trigger] ls[i]) ==> ms.len() == 1
                    && ms[0] is UpdateLightstyles && ms[0]->UpdateLightstyles_0.contains(
                    lightstyle_entry(r.lightstyles, i, ls[i]),
                )
            &&& ms.len() == 1 ==> ms[0] is UpdateLightstyles && ms[0]->UpdateLightstyles_0.len() > 0
            &&& ms.len() == 1 ==> forall|k: int|
                0 <= k < ms[0]->UpdateLightstyles_0.len() ==> lightstyle_change_of(
                    r.lightstyles,
                    ls,
                    ls.len() as int,
                    #[trigger] ms[0]->UpdateLightstyles_0[k],
                )
            &&& forall|i: int|
                0 <= i < ls.len() && (#[trigger] ls[i]).length != 0 ==> r1.lightstyles.contains_key(i as usize)
                    && r1.lightstyles[i as usize] == lightstyle_entry(r.lightstyles, i, ls[i])
            &&& forall|key: usize|
                !lightstyle_in_use(ls, ls.len() as int, key) ==> (#[trigger] r1.lightstyles.contains_key(key)
                    == r.lightstyles.contains_key(key) && (r.lightstyles.contains_key(key) ==> r1.lightstyles[key]
                    == r.lightstyles[key]))
        }),
{
    lemma_lightstyles_fold_changes(r.lightstyles, ls, ls.len());
    let f = lightstyles_fold(r.lightstyles, ls, ls.len());
    let ms = lightstyles_step(r, ls).1;
    let r1 = lightstyles_step(r, ls).0;
    assert(r1.lightstyles == f.0);
    if f.1.len() != 0 {
        assert(ms == seq![MessageView::UpdateLightstyles(f.1)]);
        assert(ms[0]->UpdateLightstyles_0 == f.1);
    } else {
        assert(ms.len() == 0);
    }
    assert forall|i: int| 0 <= i < ls.len() && lightstyle_changed(r.lightstyles, i, #[trigger] ls[i]) implies f.1.len()
        > 0 by {
        assert(f.1.contains(lightstyle_entry(r.lightstyles, i, ls[i])));
    }
}

} // verus!
