//! Recording the same active beams twice: the second time sends nothing.
//!
//! This holds where each engine beam appears with one state, no float the
//! check compares is a NaN, and no two engine beams share a tracked object.

use vstd::prelude::*;
use crate::fields::ObjectField;
use crate::float_bits::{f32_eq, f32x3_eq};
use crate::message::MessageView;
use crate::objects::{beam_candidates, beam_changes, beam_from, beam_updated, rgb_changed, Beam};
use crate::recorder::{
    beam_entities_fold, beam_entities_step, beam_entity_step, beam_model_index, beam_step, beams_fold, beams_step,
    hide_unseen_beams, indices_below, keep_seen, referenced, unmark_referenced, unseen_beam, unseen_beams,
    RecorderView,
};
use crate::entity_settle::injective;
use crate::settle::{beam_floats_ok, lemma_f32_taken_over, lemma_f32x3_taken_over, lemma_keep_changed_none};
use crate::snapshot::BeamState;

verus! {

/// Each address of `beams` comes with one state.
pub open spec fn consistent_beams(beams: Seq<(usize, BeamState)>) -> bool {
    forall|i: int, j: int|
        0 <= i < beams.len() && 0 <= j < beams.len() && (#[trigger] beams[i]).0 == (#[trigger] beams[j]).0
            ==> beams[i].1 == beams[j].1
}

/// Every field the beam check compares is equal between `b` and `s`.
pub open spec fn beam_quiet(b: Beam, s: BeamState) -> bool {
    &&& b.flags == s.flags
    &&& f32_eq(b.framerate, s.frame_rate)
    &&& f32_eq(b.frame, s.frame)
    &&& f32x3_eq(b.source, s.source)
    &&& f32x3_eq(b.delta, s.delta)
    &&& f32_eq(b.freq, s.freq)
    &&& f32_eq(b.width, s.width)
    &&& f32_eq(b.amplitude, s.amplitude)
    &&& f32_eq(b.speed, s.speed)
    &&& b.segments == s.segments
    &&& !rgb_changed(b.color, s)
    &&& f32_eq(b.brightness, s.brightness)
}

/// A beam that was recorded this frame with the state `s` and the model
/// `model_index`, and would send nothing more for it.
pub open spec fn beam_settled(b: Beam, s: BeamState, model_index: usize) -> bool {
    &&& b.seen
    &&& b.model_index == model_index
    &&& beam_quiet(b, s)
}

/// A quiet beam reports no change and takes over nothing.
proof fn lemma_quiet_beam(b: Beam, s: BeamState)
    requires
        beam_quiet(b, s),
    ensures
        beam_changes(b, s) == Seq::<ObjectField>::empty(),
        beam_updated(b, s) == b,
{
    let c = beam_candidates(b, s);
    assert forall|i: int| 0 <= i < c.len() implies !(#[trigger] c[i]).0 by {}
    lemma_keep_changed_none(c);
}

/// A beam that took over `s` is quiet against it, unless a float of `s` is
/// a NaN.
proof fn lemma_updated_beam_quiet(b: Beam, s: BeamState)
    requires
        beam_floats_ok(s),
    ensures
        beam_quiet(beam_updated(b, s), s),
{
    lemma_f32_taken_over(b.framerate, s.frame_rate);
    lemma_f32_taken_over(b.frame, s.frame);
    lemma_f32x3_taken_over(b.source, s.source);
    lemma_f32x3_taken_over(b.delta, s.delta);
    lemma_f32_taken_over(b.freq, s.freq);
    lemma_f32_taken_over(b.width, s.width);
    lemma_f32_taken_over(b.amplitude, s.amplitude);
    lemma_f32_taken_over(b.speed, s.speed);
    lemma_f32_taken_over(b.brightness, s.brightness);
    assert(!rgb_changed(beam_updated(b, s).color, s)) by {
        reveal(f32_eq);
    }
}

/// A beam made of `s` is quiet against it, unless a float of `s` is a NaN.
proof fn lemma_new_beam_quiet(s: BeamState, id: u32, model_index: usize)
    requires
        beam_floats_ok(s),
    ensures
        beam_quiet(beam_from(s, id, model_index), s),
{
    reveal(f32_eq);
}

/// `a` is the address of one of the first `k` beams.
pub open spec fn processed_beam(beams: Seq<(usize, BeamState)>, k: int, a: usize) -> bool {
    exists|j: int| 0 <= j < k && (#[trigger] beams[j]).0 == a
}

/// The conditions on the recorder and the frame under which recording the
/// same active beams twice sends nothing the second time.
pub open spec fn beams_settle_ok(r: RecorderView, beams: Seq<(usize, BeamState)>) -> bool {
    &&& indices_below(r.engine_beams, r.beams.len())
    &&& r.beams.len() + beams.len() < usize::MAX
    &&& injective(r.engine_beams)
    &&& consistent_beams(beams)
    &&& forall|i: int| 0 <= i < beams.len() ==> beam_floats_ok(#[trigger] beams[i].1)
}

/// What holds of the beams after the first `k` active beams of a frame are
/// recorded, starting from `b0` and `en0`.
pub open spec fn beams_first_inv(
    b0: Seq<Beam>,
    en0: Map<usize, usize>,
    map: Map<usize, usize>,
    precache: Seq<usize>,
    beams: Seq<(usize, BeamState)>,
    k: int,
    bs: Seq<Beam>,
    en: Map<usize, usize>,
) -> bool {
    &&& indices_below(en, bs.len())
    &&& b0.len() <= bs.len() <= b0.len() + k
    &&& injective(en)
    &&& forall|j: int|
        0 <= j < k ==> en.contains_key((#[trigger] beams[j]).0) && beam_settled(
            bs[en[beams[j].0] as int],
            beams[j].1,
            beam_model_index(map, precache, beams[j].1),
        )
    &&& forall|a: usize|
        #[trigger] en.contains_key(a) && !processed_beam(beams, k, a) ==> en0.contains_key(a) && en[a] == en0[a]
            && bs[en[a] as int] == b0[en0[a] as int]
}

/// One active beam of the first recording keeps the invariant.
#[verifier::spinoff_prover]
proof fn lemma_beams_first_step(
    r: RecorderView,
    map: Map<usize, usize>,
    precache: Seq<usize>,
    beams: Seq<(usize, BeamState)>,
    k: int,
)
    requires
        beams_settle_ok(r, beams),
        0 <= k < beams.len(),
        ({
            let b0 = unmark_referenced(r.beams, r.engine_beams);
            let f = beams_fold(b0, r.engine_beams, map, precache, beams.take(k));
            beams_first_inv(b0, r.engine_beams, map, precache, beams, k, f.0, f.1)
        }),
    ensures
        ({
            let b0 = unmark_referenced(r.beams, r.engine_beams);
            let f = beams_fold(b0, r.engine_beams, map, precache, beams.take(k + 1));
            beams_first_inv(b0, r.engine_beams, map, precache, beams, k + 1, f.0, f.1)
        }),
{
    let b0 = unmark_referenced(r.beams, r.engine_beams);
    let en0 = r.engine_beams;
    let f = beams_fold(b0, en0, map, precache, beams.take(k));
    let bs = f.0;
    let en = f.1;
    assert(beams.take(k + 1).drop_last() =~= beams.take(k));
    assert(beams.take(k + 1).last() == beams[k]);
    let a = beams[k].0;
    let s = beams[k].1;
    let mi = beam_model_index(map, precache, s);
    let step = beam_step(bs, en, map, precache, a, s);
    let bs2 = step.0;
    let en2 = step.1;
    assert(beam_floats_ok(beams[k].1));
    assert forall|b: usize| processed_beam(beams, k + 1, b) <==> (processed_beam(beams, k, b) || b == a) by {
        if processed_beam(beams, k + 1, b) {
            let j = choose|j: int| 0 <= j < k + 1 && (#[trigger] beams[j]).0 == b;
            if j < k {
                assert(processed_beam(beams, k, b));
            }
        }
        if b == a {
            assert(beams[k].0 == b);
        }
        if processed_beam(beams, k, b) {
            let j = choose|j: int| 0 <= j < k && (#[trigger] beams[j]).0 == b;
            assert(0 <= j < k + 1 && beams[j].0 == b);
        }
    }
    if en.contains_key(a) && bs[en[a] as int].model_index == mi {
        let idx = en[a] as int;
        let seen = Beam { seen: true, ..bs[idx] };
        let u = beam_updated(seen, s);
        lemma_updated_beam_quiet(seen, s);
        assert(bs2 == bs.update(idx, u));
        assert(en2 == en);
        assert(beams_first_inv(b0, en0, map, precache, beams, k + 1, bs2, en2)) by {
            assert forall|jj: int| 0 <= jj < k + 1 implies en2.contains_key((#[trigger] beams[jj]).0) && beam_settled(
                bs2[en2[beams[jj].0] as int],
                beams[jj].1,
                beam_model_index(map, precache, beams[jj].1),
            ) by {
                if jj < k && beams[jj].0 != a {
                    assert(en[beams[jj].0] != en[a]);
                } else if jj < k {
                    assert(beams[jj].1 == s);
                }
            }
            assert forall|b: usize| #[trigger] en2.contains_key(b) && !processed_beam(beams, k + 1, b) implies en0.contains_key(b)
                && en2[b] == en0[b] && bs2[en2[b] as int] == b0[en0[b] as int] by {
                assert(b != a);
                assert(en[b] != en[a]);
            }
        }
    } else {
        let n = beam_from(s, bs.len() as u32, mi);
        lemma_new_beam_quiet(s, bs.len() as u32, mi);
        assert(bs2 == bs.push(n));
        assert(en2 == en.insert(a, bs.len() as usize));
        assert(beams_first_inv(b0, en0, map, precache, beams, k + 1, bs2, en2)) by {
            assert forall|jj: int| 0 <= jj < k + 1 implies en2.contains_key((#[trigger] beams[jj]).0) && beam_settled(
                bs2[en2[beams[jj].0] as int],
                beams[jj].1,
                beam_model_index(map, precache, beams[jj].1),
            ) by {
                if jj < k && beams[jj].0 != a {
                    assert(en[beams[jj].0] < bs.len());
                } else if jj < k {
                    assert(beams[jj].1 == s);
                    assert(en.contains_key(a));
                    assert(bs[en[a] as int].model_index == mi);
                }
            }
            assert forall|b: usize| #[trigger] en2.contains_key(b) && !processed_beam(beams, k + 1, b) implies en0.contains_key(b)
                && en2[b] == en0[b] && bs2[en2[b] as int] == b0[en0[b] as int] by {
                assert(en.contains_key(b));
                assert(en[b] < bs.len());
            }
            assert forall|b1: usize, b2: usize|
                en2.contains_key(b1) && en2.contains_key(b2) && b1 != b2 implies en2[b1] != en2[b2] by {
                if b1 != a && b2 != a {
                } else if b1 == a {
                    assert(en[b2] < bs.len());
                } else {
                    assert(en[b1] < bs.len());
                }
            }
        }
    }
}

/// The first recording of the active beams keeps the invariant throughout.
proof fn lemma_beams_first_pass(
    r: RecorderView,
    map: Map<usize, usize>,
    precache: Seq<usize>,
    beams: Seq<(usize, BeamState)>,
    k: int,
)
    requires
        beams_settle_ok(r, beams),
        0 <= k <= beams.len(),
    ensures
        ({
            let b0 = unmark_referenced(r.beams, r.engine_beams);
            let f = beams_fold(b0, r.engine_beams, map, precache, beams.take(k));
            beams_first_inv(b0, r.engine_beams, map, precache, beams, k, f.0, f.1)
        }),
    decreases k,
{
    if k == 0 {
        assert(beams.take(0) =~= Seq::<(usize, BeamState)>::empty());
    } else {
        lemma_beams_first_pass(r, map, precache, beams, k - 1);
        lemma_beams_first_step(r, map, precache, beams, k - 1);
    }
}

/// Where hiding the unseen beams leaves each of the first `n`.
pub proof fn lemma_hide_unseen_beams_at(bs: Seq<Beam>, n: nat)
    requires
        n <= bs.len(),
    ensures
        hide_unseen_beams(bs, n).0.len() == bs.len(),
        forall|x: int|
            0 <= x < n ==> #[trigger] hide_unseen_beams(bs, n).0[x] == if !bs[x].seen && bs[x].draw {
                Beam { draw: false, ..bs[x] }
            } else {
                bs[x]
            },
        forall|x: int| n <= x < bs.len() ==> #[trigger] hide_unseen_beams(bs, n).0[x] == bs[x],
        (forall|x: int| 0 <= x < n ==> !(!(#[trigger] bs[x]).seen && bs[x].draw)) ==> hide_unseen_beams(bs, n).1
            == Seq::<MessageView>::empty(),
    decreases n,
{
    if n > 0 {
        lemma_hide_unseen_beams_at(bs, (n - 1) as nat);
    }
}

/// `x` is the object of one of the first `k` beams, by `en`.
pub open spec fn beam_index_processed(beams: Seq<(usize, BeamState)>, en: Map<usize, usize>, k: int, x: int) -> bool {
    exists|j: int| 0 <= j < k && en.contains_key((#[trigger] beams[j]).0) && en[beams[j].0] == x
}

/// What holds after the first `k` active beams are recorded a second time:
/// nothing was sent, no engine beam changed its object, the objects of the
/// beams recorded again are as the first time left them, and the others as
/// the second time started.
pub open spec fn beams_second_inv(
    b1: Seq<Beam>,
    f0: Seq<Beam>,
    en1: Map<usize, usize>,
    beams: Seq<(usize, BeamState)>,
    k: int,
    g: (Seq<Beam>, Map<usize, usize>, Seq<MessageView>, bool),
) -> bool {
    &&& g.1 == en1
    &&& g.2 == Seq::<MessageView>::empty()
    &&& g.0.len() == b1.len()
    &&& forall|x: int| 0 <= x < b1.len() && !beam_index_processed(beams, en1, k, x) ==> #[trigger] g.0[x] == b1[x]
    &&& forall|j: int| 0 <= j < k ==> #[trigger] g.0[en1[beams[j].0] as int] == f0[en1[beams[j].0] as int]
}

/// One active beam of the second recording keeps the invariant.
#[verifier::spinoff_prover]
proof fn lemma_beams_second_step(
    r: RecorderView,
    precache: Seq<usize>,
    beams: Seq<(usize, BeamState)>,
    k: int,
)
    requires
        beams_settle_ok(r, beams),
        0 <= k < beams.len(),
        ({
            let map = r.model_index_map;
            let b0 = unmark_referenced(r.beams, r.engine_beams);
            let f = beams_fold(b0, r.engine_beams, map, precache, beams);
            let h = hide_unseen_beams(f.0, f.0.len()).0;
            let en1 = keep_seen(f.1, h);
            let b1 = unmark_referenced(h, en1);
            let g = beams_fold(b1, en1, map, precache, beams.take(k));
            &&& beams_first_inv(b0, r.engine_beams, map, precache, beams, beams.len() as int, f.0, f.1)
            &&& beams_second_inv(b1, f.0, en1, beams, k, g)
        }),
    ensures
        ({
            let map = r.model_index_map;
            let b0 = unmark_referenced(r.beams, r.engine_beams);
            let f = beams_fold(b0, r.engine_beams, map, precache, beams);
            let h = hide_unseen_beams(f.0, f.0.len()).0;
            let en1 = keep_seen(f.1, h);
            let b1 = unmark_referenced(h, en1);
            let g = beams_fold(b1, en1, map, precache, beams.take(k + 1));
            beams_second_inv(b1, f.0, en1, beams, k + 1, g)
        }),
{
    let map = r.model_index_map;
    let b0 = unmark_referenced(r.beams, r.engine_beams);
    let f = beams_fold(b0, r.engine_beams, map, precache, beams);
    lemma_hide_unseen_beams_at(f.0, f.0.len());
    let h = hide_unseen_beams(f.0, f.0.len()).0;
    let en1 = keep_seen(f.1, h);
    let b1 = unmark_referenced(h, en1);
    let g = beams_fold(b1, en1, map, precache, beams.take(k));
    assert(beams.take(k + 1).drop_last() =~= beams.take(k));
    assert(beams.take(k + 1).last() == beams[k]);
    let a = beams[k].0;
    let s = beams[k].1;
    let mi = beam_model_index(map, precache, s);
    assert(f.1.contains_key(a) && beam_settled(f.0[f.1[a] as int], s, mi));
    let idx = f.1[a] as int;
    assert(h[idx] == f.0[idx]);
    assert(en1.contains_key(a) && en1[a] == f.1[a]);
    assert(referenced(en1, en1.dom(), idx));
    assert(b1[idx] == unseen_beam(f.0[idx]));
    let cur = g.0[idx];
    if beam_index_processed(beams, en1, k, idx) {
        let j = choose|j: int| 0 <= j < k && en1.contains_key((#[trigger] beams[j]).0) && en1[beams[j].0] == idx;
        assert(g.0[en1[beams[j].0] as int] == f.0[en1[beams[j].0] as int]);
        assert(cur == f.0[idx]);
    } else {
        assert(cur == b1[idx]);
    }
    assert(Beam { seen: true, ..cur } == f.0[idx]);
    lemma_quiet_beam(f.0[idx], s);
    let step = beam_step(g.0, g.1, map, precache, a, s);
    assert(step.0 == g.0.update(idx, f.0[idx]));
    assert(step.1 == g.1);
    assert(step.2 == Seq::<MessageView>::empty());
    let g2 = beams_fold(b1, en1, map, precache, beams.take(k + 1));
    assert(g2.2 =~= Seq::<MessageView>::empty());
    assert forall|x: int| 0 <= x < b1.len() && !beam_index_processed(beams, en1, k + 1, x) implies #[trigger] g2.0[x] == b1[x] by {
        if x == idx {
            assert(beam_index_processed(beams, en1, k + 1, x)) by {
                assert(0 <= k < k + 1 && en1.contains_key(beams[k].0) && en1[beams[k].0] == x);
            }
        }
        if beam_index_processed(beams, en1, k, x) {
            let j = choose|j: int| 0 <= j < k && en1.contains_key((#[trigger] beams[j]).0) && en1[beams[j].0] == x;
            assert(0 <= j < k + 1);
        }
    }
    assert forall|j: int| 0 <= j < k + 1 implies #[trigger] g2.0[en1[beams[j].0] as int] == f.0[en1[beams[j].0] as int] by {
        if j < k {
            assert(g.0[en1[beams[j].0] as int] == f.0[en1[beams[j].0] as int]);
        }
    }
}

/// The second recording of the active beams keeps the invariant throughout.
proof fn lemma_beams_second_pass(r: RecorderView, precache: Seq<usize>, beams: Seq<(usize, BeamState)>, k: int)
    requires
        beams_settle_ok(r, beams),
        0 <= k <= beams.len(),
    ensures
        ({
            let map = r.model_index_map;
            let b0 = unmark_referenced(r.beams, r.engine_beams);
            let f = beams_fold(b0, r.engine_beams, map, precache, beams);
            let h = hide_unseen_beams(f.0, f.0.len()).0;
            let en1 = keep_seen(f.1, h);
            let b1 = unmark_referenced(h, en1);
            let g = beams_fold(b1, en1, map, precache, beams.take(k));
            beams_second_inv(b1, f.0, en1, beams, k, g)
        }),
    decreases k,
{
    let map = r.model_index_map;
    lemma_beams_first_pass(r, map, precache, beams, beams.len() as int);
    assert(beams.take(beams.len() as int) =~= beams);
    if k == 0 {
        assert(beams.take(0) =~= Seq::<(usize, BeamState)>::empty());
        let b0 = unmark_referenced(r.beams, r.engine_beams);
        let f = beams_fold(b0, r.engine_beams, map, precache, beams);
        lemma_hide_unseen_beams_at(f.0, f.0.len());
    } else {
        lemma_beams_second_pass(r, precache, beams, k - 1);
        lemma_beams_second_step(r, precache, beams, k - 1);
    }
}

/// Recording the same active beams twice sends nothing the second time,
/// wherever each engine beam appears with one state, no compared float is a
/// NaN and no two engine beams share a tracked object.
#[verifier::spinoff_prover]
pub proof fn lemma_beams_step_settles(r: RecorderView, beams: Seq<(usize, BeamState)>, precache: Seq<usize>)
    requires
        beams_settle_ok(r, beams),
    ensures
        beams_step(beams_step(r, beams, precache).0, beams, precache).1 == Seq::<MessageView>::empty(),
        beams_step(beams_step(r, beams, precache).0, beams, precache).0 == beams_step(r, beams, precache).0,
{
    let map = r.model_index_map;
    let b0 = unmark_referenced(r.beams, r.engine_beams);
    let f = beams_fold(b0, r.engine_beams, map, precache, beams);
    lemma_beams_first_pass(r, map, precache, beams, beams.len() as int);
    lemma_beams_second_pass(r, precache, beams, beams.len() as int);
    assert(beams.take(beams.len() as int) =~= beams);
    lemma_hide_unseen_beams_at(f.0, f.0.len());
    let h = hide_unseen_beams(f.0, f.0.len()).0;
    let en1 = keep_seen(f.1, h);
    let b1 = unmark_referenced(h, en1);
    let r1 = beams_step(r, beams, precache).0;
    assert(r1.beams == h && r1.engine_beams == en1 && r1.model_index_map == map);
    let g = beams_fold(b1, en1, map, precache, beams);
    lemma_hide_unseen_beams_at(g.0, g.0.len());
    assert forall|x: int| 0 <= x < g.0.len() implies !(!(#[trigger] g.0[x]).seen && g.0[x].draw) by {
        if beam_index_processed(beams, en1, beams.len() as int, x) {
            let j = choose|j: int| 0 <= j < beams.len() && en1.contains_key((#[trigger] beams[j]).0) && en1[beams[j].0] == x;
            assert(g.0[en1[beams[j].0] as int] == f.0[en1[beams[j].0] as int]);
            assert(f.1.contains_key(beams[j].0));
        } else {
            assert(g.0[x] == b1[x]);
            if referenced(en1, en1.dom(), x) {
                let w = choose|w: usize| en1.dom().contains(w) && en1.contains_key(w) && en1[w] == x;
                assert(f.1.contains_key(w));
                if !processed_beam(beams, beams.len() as int, w) {
                    assert(f.0[f.1[w] as int] == b0[r.engine_beams[w] as int]);
                    assert(referenced(r.engine_beams, r.engine_beams.dom(), r.engine_beams[w] as int));
                    assert(!h[x].seen);
                    assert(false);
                } else {
                    let j = choose|j: int| 0 <= j < beams.len() && (#[trigger] beams[j]).0 == w;
                    assert(beam_index_processed(beams, en1, beams.len() as int, x));
                }
            } else {
                assert(b1[x] == h[x]);
            }
        }
    }
    assert forall|x: int| 0 <= x < g.0.len() implies #[trigger] g.0[x] == h[x] by {
        if beam_index_processed(beams, en1, beams.len() as int, x) {
            let j = choose|j: int| 0 <= j < beams.len() && en1.contains_key((#[trigger] beams[j]).0) && en1[beams[j].0] == x;
            assert(g.0[en1[beams[j].0] as int] == f.0[en1[beams[j].0] as int]);
            assert(f.1.contains_key(beams[j].0));
            assert(f.0[x].seen);
        } else {
            assert(g.0[x] == b1[x]);
            if referenced(en1, en1.dom(), x) {
                let w = choose|w: usize| en1.dom().contains(w) && en1.contains_key(w) && en1[w] == x;
                assert(f.1.contains_key(w));
                if !processed_beam(beams, beams.len() as int, w) {
                    assert(f.0[f.1[w] as int] == b0[r.engine_beams[w] as int]);
                    assert(referenced(r.engine_beams, r.engine_beams.dom(), r.engine_beams[w] as int));
                    assert(false);
                } else {
                    let j = choose|j: int| 0 <= j < beams.len() && (#[trigger] beams[j]).0 == w;
                    assert(beam_index_processed(beams, en1, beams.len() as int, x));
                }
            }
        }
    }
    assert(g.0 =~= h);
    let h2 = hide_unseen_beams(g.0, g.0.len()).0;
    assert(h2 =~= g.0);
    assert(keep_seen(en1, h2) =~= en1);
}

// ============================
// Beam entities
// ============================

/// Each address of `beams` comes with one state (or none).
pub open spec fn consistent_beam_entities(beams: Seq<(usize, Option<BeamState>)>) -> bool {
    forall|i: int, j: int|
        0 <= i < beams.len() && 0 <= j < beams.len() && (#[trigger] beams[i]).0 == (#[trigger] beams[j]).0
            ==> beams[i].1 == beams[j].1
}

/// Every beam entity of the frame that draws a beam and is not yet tracked
/// when its turn comes finds as many tracked engine beam entities as
/// recorded beams, so that the position it is tracked by is the one its
/// beam is recorded at.
pub open spec fn new_beam_entities_fit(
    r: RecorderView,
    beams: Seq<(usize, Option<BeamState>)>,
    precache: Seq<usize>,
) -> bool {
    forall|k: int|
        0 <= k < beams.len() && (#[trigger] beams[k]).1 is Some && !beam_entities_fold(
            unseen_beams(r.beam_entities),
            r.engine_beam_entities,
            r.model_index_map,
            precache,
            beams.take(k),
        ).1.contains_key(beams[k].0) ==> ({
            let f = beam_entities_fold(
                unseen_beams(r.beam_entities),
                r.engine_beam_entities,
                r.model_index_map,
                precache,
                beams.take(k),
            );
            f.1.dom().len() == f.0.len()
        })
}

/// The conditions on the recorder and the frame under which recording the
/// same beam entities twice sends nothing the second time: besides those
/// for active beams, each new beam entity is tracked by the position its
/// beam is recorded at (`new_beam_entities_fit`).
pub open spec fn beam_entities_settle_ok(
    r: RecorderView,
    beams: Seq<(usize, Option<BeamState>)>,
    precache: Seq<usize>,
) -> bool {
    &&& indices_below(r.engine_beam_entities, r.beam_entities.len())
    &&& r.engine_beam_entities.dom().finite()
    &&& r.beam_entities.len() + beams.len() < usize::MAX
    &&& injective(r.engine_beam_entities)
    &&& consistent_beam_entities(beams)
    &&& forall|i: int| 0 <= i < beams.len() && (#[trigger] beams[i]).1 is Some ==> beam_floats_ok(beams[i].1->0)
    &&& new_beam_entities_fit(r, beams, precache)
}

/// A beam entity that was recorded this frame with the state `s` and would
/// send nothing more for it.
pub open spec fn beam_entity_settled(b: Beam, s: BeamState, model_index: usize) -> bool {
    b.draw && beam_settled(b, s, model_index)
}

/// `a` is the address of one of the first `k` beam entities that draws a
/// beam.
pub open spec fn processed_drawn(beams: Seq<(usize, Option<BeamState>)>, k: int, a: usize) -> bool {
    exists|j: int| 0 <= j < k && (#[trigger] beams[j]).0 == a && beams[j].1 is Some
}

/// What holds of the beam entities after the first `k` of a frame are
/// recorded, starting from `b0` and `en0`.
pub open spec fn beam_entities_first_inv(
    b0: Seq<Beam>,
    en0: Map<usize, usize>,
    map: Map<usize, usize>,
    precache: Seq<usize>,
    beams: Seq<(usize, Option<BeamState>)>,
    k: int,
    bs: Seq<Beam>,
    en: Map<usize, usize>,
) -> bool {
    &&& indices_below(en, bs.len())
    &&& b0.len() <= bs.len() <= b0.len() + k
    &&& en.dom().finite()
    &&& injective(en)
    &&& forall|j: int|
        0 <= j < k && (#[trigger] beams[j]).1 is Some ==> en.contains_key(beams[j].0) && beam_entity_settled(
            bs[en[beams[j].0] as int],
            beams[j].1->0,
            beam_model_index(map, precache, beams[j].1->0),
        )
    &&& forall|x: int|
        0 <= x < bs.len() && (#[trigger] bs[x]).seen ==> exists|j: int|
            0 <= j < k && (#[trigger] beams[j]).1 is Some && en.contains_key(beams[j].0) && en[beams[j].0] == x
    &&& forall|a: usize|
        #[trigger] en.contains_key(a) && !processed_drawn(beams, k, a) ==> en0.contains_key(a) && en[a] == en0[a]
            && bs[en[a] as int] == b0[en0[a] as int]
}

/// One beam entity of the first recording keeps the invariant.
#[verifier::spinoff_prover]
proof fn lemma_beam_entities_first_step(
    r: RecorderView,
    precache: Seq<usize>,
    beams: Seq<(usize, Option<BeamState>)>,
    k: int,
)
    requires
        beam_entities_settle_ok(r, beams, precache),
        0 <= k < beams.len(),
        ({
            let f = beam_entities_fold(unseen_beams(r.beam_entities), r.engine_beam_entities, r.model_index_map, precache, beams.take(k));
            beam_entities_first_inv(unseen_beams(r.beam_entities), r.engine_beam_entities, r.model_index_map, precache, beams, k, f.0, f.1)
        }),
    ensures
        ({
            let f = beam_entities_fold(unseen_beams(r.beam_entities), r.engine_beam_entities, r.model_index_map, precache, beams.take(k + 1));
            beam_entities_first_inv(unseen_beams(r.beam_entities), r.engine_beam_entities, r.model_index_map, precache, beams, k + 1, f.0, f.1)
        }),
{
    let map = r.model_index_map;
    let b0 = unseen_beams(r.beam_entities);
    let en0 = r.engine_beam_entities;
    let f = beam_entities_fold(b0, en0, map, precache, beams.take(k));
    let bs = f.0;
    let en = f.1;
    assert(beams.take(k + 1).drop_last() =~= beams.take(k));
    assert(beams.take(k + 1).last() == beams[k]);
    let a = beams[k].0;
    let step = beam_entity_step(bs, en, map, precache, a, beams[k].1);
    let bs2 = step.0;
    let en2 = step.1;
    match beams[k].1 {
        None => {
            assert(bs2 == bs && en2 == en);
            assert forall|b: usize| processed_drawn(beams, k + 1, b) <==> processed_drawn(beams, k, b) by {
                if processed_drawn(beams, k + 1, b) {
                    let j = choose|j: int| 0 <= j < k + 1 && (#[trigger] beams[j]).0 == b && beams[j].1 is Some;
                    assert(j < k);
                }
                if processed_drawn(beams, k, b) {
                    let j = choose|j: int| 0 <= j < k && (#[trigger] beams[j]).0 == b && beams[j].1 is Some;
                    assert(0 <= j < k + 1);
                }
            }
            assert forall|x: int| 0 <= x < bs2.len() && (#[trigger] bs2[x]).seen implies exists|j: int|
                0 <= j < k + 1 && (#[trigger] beams[j]).1 is Some && en2.contains_key(beams[j].0) && en2[beams[j].0] == x by {
                let w = choose|w: int| 0 <= w < k && (#[trigger] beams[w]).1 is Some && en.contains_key(beams[w].0) && en[beams[w].0] == x;
                assert(0 <= w < k + 1);
            }
        },
        Some(s) => {
            let mi = beam_model_index(map, precache, s);
            assert(beam_floats_ok(s));
            assert forall|b: usize| processed_drawn(beams, k + 1, b) <==> (processed_drawn(beams, k, b) || b == a) by {
                if processed_drawn(beams, k + 1, b) {
                    let j = choose|j: int| 0 <= j < k + 1 && (#[trigger] beams[j]).0 == b && beams[j].1 is Some;
                    if j < k {
                        assert(processed_drawn(beams, k, b));
                    }
                }
                if b == a {
                    assert(beams[k].0 == b && beams[k].1 is Some);
                }
                if processed_drawn(beams, k, b) {
                    let j = choose|j: int| 0 <= j < k && (#[trigger] beams[j]).0 == b && beams[j].1 is Some;
                    assert(0 <= j < k + 1);
                }
            }
            if en.contains_key(a) && bs[en[a] as int].model_index != mi {
                let idx = en[a] as int;
                assert(!processed_drawn(beams, k, a)) by {
                    if processed_drawn(beams, k, a) {
                        let j = choose|j: int| 0 <= j < k && (#[trigger] beams[j]).0 == a && beams[j].1 is Some;
                        assert(beams[j].1 == beams[k].1);
                    }
                }
                let n = beam_from(s, bs.len() as u32, mi);
                lemma_new_beam_quiet(s, bs.len() as u32, mi);
                assert(bs2 == bs.push(n));
                assert(en2 == en.insert(a, bs.len() as usize));
                assert(en2.dom() =~= en.dom().insert(a));
                assert(beam_entities_first_inv(b0, en0, map, precache, beams, k + 1, bs2, en2)) by {
                    assert forall|jj: int| 0 <= jj < k + 1 && (#[trigger] beams[jj]).1 is Some implies en2.contains_key(beams[jj].0)
                        && beam_entity_settled(
                        bs2[en2[beams[jj].0] as int],
                        beams[jj].1->0,
                        beam_model_index(map, precache, beams[jj].1->0),
                    ) by {
                        if jj < k {
                            assert(processed_drawn(beams, k, beams[jj].0));
                            assert(beams[jj].0 != a);
                            assert(en[beams[jj].0] < bs.len());
                        }
                    }
                    assert forall|x: int| 0 <= x < bs2.len() && (#[trigger] bs2[x]).seen implies exists|j: int|
                        0 <= j < k + 1 && (#[trigger] beams[j]).1 is Some && en2.contains_key(beams[j].0) && en2[beams[j].0] == x by {
                        if x < bs.len() {
                            assert(bs2[x] == bs[x]);
                            let w = choose|w: int| 0 <= w < k && (#[trigger] beams[w]).1 is Some && en.contains_key(beams[w].0) && en[beams[w].0] == x;
                            assert(processed_drawn(beams, k, beams[w].0));
                            assert(beams[w].0 != a);
                            assert(0 <= w < k + 1 && en2.contains_key(beams[w].0) && en2[beams[w].0] == x);
                        } else {
                            assert(0 <= k < k + 1 && beams[k].1 is Some && en2.contains_key(beams[k].0) && en2[beams[k].0] == x);
                        }
                    }
                    assert forall|b: usize| #[trigger] en2.contains_key(b) && !processed_drawn(beams, k + 1, b) implies en0.contains_key(b)
                        && en2[b] == en0[b] && bs2[en2[b] as int] == b0[en0[b] as int] by {
                        assert(b != a);
                        assert(en.contains_key(b));
                        assert(en[b] < bs.len());
                    }
                    assert forall|b1: usize, b2: usize|
                        en2.contains_key(b1) && en2.contains_key(b2) && b1 != b2 implies en2[b1] != en2[b2] by {
                        if b1 != a && b2 != a {
                        } else if b1 == a {
                            assert(en[b2] < bs.len());
                        } else {
                            assert(en[b1] < bs.len());
                        }
                    }
                }
            } else if en.contains_key(a) {
                let idx = en[a] as int;
                let existing = bs[idx];
                let seen = Beam { seen: true, ..existing };
                let u = beam_updated(seen, s);
                let u2 = if !u.draw { Beam { draw: true, ..u } } else { u };
                lemma_updated_beam_quiet(seen, s);
                assert(beam_entity_settled(u2, s, mi));
                assert(bs2 == bs.update(idx, u2));
                assert(en2 == en);
                assert(beam_entities_first_inv(b0, en0, map, precache, beams, k + 1, bs2, en2)) by {
                    assert forall|jj: int| 0 <= jj < k + 1 && (#[trigger] beams[jj]).1 is Some implies en2.contains_key(beams[jj].0)
                        && beam_entity_settled(
                        bs2[en2[beams[jj].0] as int],
                        beams[jj].1->0,
                        beam_model_index(map, precache, beams[jj].1->0),
                    ) by {
                        if jj < k && beams[jj].0 != a {
                            assert(en[beams[jj].0] != en[a]);
                        } else if jj < k {
                            assert(beams[jj].1 == beams[k].1);
                        }
                    }
                    assert forall|x: int| 0 <= x < bs2.len() && (#[trigger] bs2[x]).seen implies exists|j: int|
                        0 <= j < k + 1 && (#[trigger] beams[j]).1 is Some && en2.contains_key(beams[j].0) && en2[beams[j].0] == x by {
                        if x != idx {
                            let w = choose|w: int| 0 <= w < k && (#[trigger] beams[w]).1 is Some && en.contains_key(beams[w].0) && en[beams[w].0] == x;
                            assert(0 <= w < k + 1);
                        } else {
                            assert(0 <= k < k + 1 && beams[k].1 is Some && en2.contains_key(beams[k].0) && en2[beams[k].0] == x);
                        }
                    }
                    assert forall|b: usize| #[trigger] en2.contains_key(b) && !processed_drawn(beams, k + 1, b) implies en0.contains_key(b)
                        && en2[b] == en0[b] && bs2[en2[b] as int] == b0[en0[b] as int] by {
                        assert(b != a);
                        assert(en[b] != en[a]);
                    }
                }
            } else {
                assert(en.dom().len() == bs.len());
                let n = beam_from(s, en.dom().len() as u32, mi);
                lemma_new_beam_quiet(s, en.dom().len() as u32, mi);
                assert(bs2 == bs.push(n));
                assert(en2 == en.insert(a, en.dom().len() as usize));
                assert(en2.dom() =~= en.dom().insert(a));
                assert(beam_entities_first_inv(b0, en0, map, precache, beams, k + 1, bs2, en2)) by {
                    assert forall|jj: int| 0 <= jj < k + 1 && (#[trigger] beams[jj]).1 is Some implies en2.contains_key(beams[jj].0)
                        && beam_entity_settled(
                        bs2[en2[beams[jj].0] as int],
                        beams[jj].1->0,
                        beam_model_index(map, precache, beams[jj].1->0),
                    ) by {
                        if jj < k && beams[jj].0 != a {
                            assert(en[beams[jj].0] < bs.len());
                        } else if jj < k {
                            assert(en.contains_key(beams[jj].0));
                        }
                    }
                    assert forall|x: int| 0 <= x < bs2.len() && (#[trigger] bs2[x]).seen implies exists|j: int|
                        0 <= j < k + 1 && (#[trigger] beams[j]).1 is Some && en2.contains_key(beams[j].0) && en2[beams[j].0] == x by {
                        if x < bs.len() {
                            assert(bs2[x] == bs[x]);
                            let w = choose|w: int| 0 <= w < k && (#[trigger] beams[w]).1 is Some && en.contains_key(beams[w].0) && en[beams[w].0] == x;
                            assert(beams[w].0 != a);
                            assert(0 <= w < k + 1 && en2.contains_key(beams[w].0) && en2[beams[w].0] == x);
                        } else {
                            assert(0 <= k < k + 1 && beams[k].1 is Some && en2.contains_key(beams[k].0) && en2[beams[k].0] == x);
                        }
                    }
                    assert forall|b: usize| #[trigger] en2.contains_key(b) && !processed_drawn(beams, k + 1, b) implies en0.contains_key(b)
                        && en2[b] == en0[b] && bs2[en2[b] as int] == b0[en0[b] as int] by {
                        assert(en.contains_key(b));
                        assert(en[b] < bs.len());
                    }
                    assert forall|b1: usize, b2: usize|
                        en2.contains_key(b1) && en2.contains_key(b2) && b1 != b2 implies en2[b1] != en2[b2] by {
                        if b1 != a && b2 != a {
                        } else if b1 == a {
                            assert(en[b2] < bs.len());
                        } else {
                            assert(en[b1] < bs.len());
                        }
                    }
                }
            }
        },
    }
}

/// The first recording of the beam entities keeps the invariant throughout.
proof fn lemma_beam_entities_first_pass(
    r: RecorderView,
    precache: Seq<usize>,
    beams: Seq<(usize, Option<BeamState>)>,
    k: int,
)
    requires
        beam_entities_settle_ok(r, beams, precache),
        0 <= k <= beams.len(),
    ensures
        ({
            let f = beam_entities_fold(unseen_beams(r.beam_entities), r.engine_beam_entities, r.model_index_map, precache, beams.take(k));
            beam_entities_first_inv(unseen_beams(r.beam_entities), r.engine_beam_entities, r.model_index_map, precache, beams, k, f.0, f.1)
        }),
    decreases k,
{
    if k == 0 {
        assert(beams.take(0) =~= Seq::<(usize, Option<BeamState>)>::empty());
    } else {
        lemma_beam_entities_first_pass(r, precache, beams, k - 1);
        lemma_beam_entities_first_step(r, precache, beams, k - 1);
    }
}

/// What holds after the first `k` beam entities are recorded a second
/// time: nothing was sent, no engine beam entity changed its object, and
/// each object differs from what the first time left only in being seen.
pub open spec fn beam_entities_second_inv(
    base: Seq<Beam>,
    b1s: Seq<Beam>,
    en1: Map<usize, usize>,
    beams: Seq<(usize, Option<BeamState>)>,
    k: int,
    g: (Seq<Beam>, Map<usize, usize>, Seq<MessageView>, bool),
) -> bool {
    &&& g.1 == en1
    &&& g.2 == Seq::<MessageView>::empty()
    &&& g.0.len() == base.len()
    &&& forall|x: int| 0 <= x < g.0.len() ==> unseen_beam(#[trigger] g.0[x]) == base[x]
    &&& forall|j: int| 0 <= j < k && (#[trigger] beams[j]).1 is Some ==> g.0[en1[beams[j].0] as int].seen
    &&& forall|x: int| 0 <= x < g.0.len() && (#[trigger] g.0[x]).seen ==> b1s[x].seen
}

/// One beam entity of the second recording keeps the invariant.
#[verifier::spinoff_prover]
proof fn lemma_beam_entities_second_step(
    r: RecorderView,
    precache: Seq<usize>,
    beams: Seq<(usize, Option<BeamState>)>,
    k: int,
)
    requires
        beam_entities_settle_ok(r, beams, precache),
        0 <= k < beams.len(),
        ({
            let map = r.model_index_map;
            let f = beam_entities_fold(unseen_beams(r.beam_entities), r.engine_beam_entities, map, precache, beams);
            let h = hide_unseen_beams(f.0, f.0.len()).0;
            let g = beam_entities_fold(unseen_beams(h), f.1, map, precache, beams.take(k));
            &&& beam_entities_first_inv(unseen_beams(r.beam_entities), r.engine_beam_entities, map, precache, beams, beams.len() as int, f.0, f.1)
            &&& beam_entities_second_inv(unseen_beams(h), f.0, f.1, beams, k, g)
        }),
    ensures
        ({
            let map = r.model_index_map;
            let f = beam_entities_fold(unseen_beams(r.beam_entities), r.engine_beam_entities, map, precache, beams);
            let h = hide_unseen_beams(f.0, f.0.len()).0;
            let g = beam_entities_fold(unseen_beams(h), f.1, map, precache, beams.take(k + 1));
            beam_entities_second_inv(unseen_beams(h), f.0, f.1, beams, k + 1, g)
        }),
{
    let map = r.model_index_map;
    let f = beam_entities_fold(unseen_beams(r.beam_entities), r.engine_beam_entities, map, precache, beams);
    let b1s = f.0;
    let en1 = f.1;
    lemma_hide_unseen_beams_at(b1s, b1s.len());
    let h = hide_unseen_beams(b1s, b1s.len()).0;
    let base = unseen_beams(h);
    let g = beam_entities_fold(base, en1, map, precache, beams.take(k));
    assert(beams.take(k + 1).drop_last() =~= beams.take(k));
    assert(beams.take(k + 1).last() == beams[k]);
    let a = beams[k].0;
    let step = beam_entity_step(g.0, g.1, map, precache, a, beams[k].1);
    let g2 = beam_entities_fold(base, en1, map, precache, beams.take(k + 1));
    assert(g2.0 == step.0 && g2.1 == step.1 && g2.2 == g.2 + step.2);
    match beams[k].1 {
        None => {
            assert(g2.2 =~= Seq::<MessageView>::empty());
        },
        Some(s) => {
            let mi = beam_model_index(map, precache, s);
            let idx = en1[a] as int;
            assert(en1.contains_key(a) && beam_entity_settled(b1s[idx], s, mi));
            assert(h[idx] == b1s[idx]);
            assert(unseen_beam(g.0[idx]) == base[idx]);
            let cur = g.0[idx];
            let seen = Beam { seen: true, ..cur };
            assert(seen == b1s[idx]);
            lemma_quiet_beam(b1s[idx], s);
            assert(step.2 == Seq::<MessageView>::empty());
            assert(g2.2 =~= Seq::<MessageView>::empty());
            assert(step.0 == g.0.update(idx, b1s[idx]));
            assert forall|x: int| 0 <= x < g2.0.len() implies unseen_beam(#[trigger] g2.0[x]) == base[x] by {
                if x != idx {
                    assert(g2.0[x] == g.0[x]);
                }
            }
            assert forall|j: int| 0 <= j < k + 1 && (#[trigger] beams[j]).1 is Some implies g2.0[en1[beams[j].0] as int].seen by {
                if en1[beams[j].0] as int != idx {
                    assert(j < k);
                }
            }
            assert forall|x: int| 0 <= x < g2.0.len() && (#[trigger] g2.0[x]).seen implies b1s[x].seen by {
                if x != idx {
                    assert(g2.0[x] == g.0[x]);
                }
            }
        },
    }
}

/// The second recording of the beam entities keeps the invariant throughout.
proof fn lemma_beam_entities_second_pass(
    r: RecorderView,
    precache: Seq<usize>,
    beams: Seq<(usize, Option<BeamState>)>,
    k: int,
)
    requires
        beam_entities_settle_ok(r, beams, precache),
        0 <= k <= beams.len(),
    ensures
        ({
            let map = r.model_index_map;
            let f = beam_entities_fold(unseen_beams(r.beam_entities), r.engine_beam_entities, map, precache, beams);
            let h = hide_unseen_beams(f.0, f.0.len()).0;
            let g = beam_entities_fold(unseen_beams(h), f.1, map, precache, beams.take(k));
            beam_entities_second_inv(unseen_beams(h), f.0, f.1, beams, k, g)
        }),
    decreases k,
{
    let map = r.model_index_map;
    let f = beam_entities_fold(unseen_beams(r.beam_entities), r.engine_beam_entities, map, precache, beams);
    lemma_beam_entities_first_pass(r, precache, beams, beams.len() as int);
    assert(beams.take(beams.len() as int) =~= beams);
    lemma_hide_unseen_beams_at(f.0, f.0.len());
    if k == 0 {
        assert(beams.take(0) =~= Seq::<(usize, Option<BeamState>)>::empty());
    } else {
        lemma_beam_entities_second_pass(r, precache, beams, k - 1);
        lemma_beam_entities_second_step(r, precache, beams, k - 1);
    }
}

/// Recording the same beam entities twice sends nothing the second time,
/// under the conditions of `beam_entities_settle_ok`.
#[verifier::spinoff_prover]
pub proof fn lemma_beam_entities_step_settles(
    r: RecorderView,
    beams: Seq<(usize, Option<BeamState>)>,
    precache: Seq<usize>,
)
    requires
        beam_entities_settle_ok(r, beams, precache),
    ensures
        beam_entities_step(beam_entities_step(r, beams, precache).0, beams, precache).1 == Seq::<MessageView>::empty(),
        beam_entities_step(beam_entities_step(r, beams, precache).0, beams, precache).0 == beam_entities_step(
            r,
            beams,
            precache,
        ).0,
{
    let map = r.model_index_map;
    let f = beam_entities_fold(unseen_beams(r.beam_entities), r.engine_beam_entities, map, precache, beams);
    lemma_beam_entities_first_pass(r, precache, beams, beams.len() as int);
    lemma_beam_entities_second_pass(r, precache, beams, beams.len() as int);
    assert(beams.take(beams.len() as int) =~= beams);
    lemma_hide_unseen_beams_at(f.0, f.0.len());
    let h = hide_unseen_beams(f.0, f.0.len()).0;
    let r1 = beam_entities_step(r, beams, precache).0;
    assert(r1.beam_entities == h && r1.engine_beam_entities == f.1 && r1.model_index_map == map);
    let g = beam_entities_fold(unseen_beams(h), f.1, map, precache, beams);
    lemma_hide_unseen_beams_at(g.0, g.0.len());
    assert forall|x: int| 0 <= x < g.0.len() implies !(!(#[trigger] g.0[x]).seen && g.0[x].draw) by {
        assert(unseen_beam(g.0[x]) == unseen_beams(h)[x]);
        if g.0[x].draw {
            assert(h[x].draw);
            assert(f.0[x].seen);
            let j = choose|j: int| 0 <= j < beams.len() && (#[trigger] beams[j]).1 is Some && f.1.contains_key(beams[j].0) && f.1[beams[j].0] == x;
            assert(g.0[f.1[beams[j].0] as int].seen);
        }
    }
    assert forall|x: int| 0 <= x < g.0.len() implies #[trigger] g.0[x] == h[x] by {
        assert(unseen_beam(g.0[x]) == unseen_beams(h)[x]);
        if f.0[x].seen {
            let j = choose|j: int| 0 <= j < beams.len() && (#[trigger] beams[j]).1 is Some && f.1.contains_key(beams[j].0) && f.1[beams[j].0] == x;
            assert(g.0[f.1[beams[j].0] as int].seen);
        }
        if g.0[x].seen {
            assert(f.0[x].seen);
        }
    }
    assert(g.0 =~= h);
    let h2 = hide_unseen_beams(g.0, g.0.len()).0;
    assert(h2 =~= g.0);
}

} // verus!
