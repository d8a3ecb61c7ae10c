//! What holds of the countdowns and of the scene over whole sequences of
//! frames.

use crate::scene::{
    deltas_of, holds, pressed_count, removal_requests, scene_marker, survivors, swept, without,
    EffectInstance, Frame, SceneView, INSTANCE_LIFETIME,
};
use crate::timer::{total, Lifetime, SpawnTimer};
use vstd::prelude::*;

verus! {

/// Adding `d` to `s` moves the quotient by `p` by the quotient of the remainder
/// plus `d`, and leaves the remainder of that sum.
proof fn lemma_div_mod_step(s: int, d: int, p: int)
    requires
        0 <= s,
        0 <= d,
        0 < p,
    ensures
        (s + d) / p == s / p + (s % p + d) / p,
        (s + d) % p == (s % p + d) % p,
{
    let q = s / p;
    let e = s % p;
    let q2 = (e + d) / p;
    let r2 = (e + d) % p;
    vstd::arithmetic::div_mod::lemma_fundamental_div_mod(s, p);
    vstd::arithmetic::div_mod::lemma_fundamental_div_mod(e + d, p);
    vstd::arithmetic::div_mod::lemma_mod_pos_bound(e + d, p);
    assert((q + q2) * p == p * q + p * q2) by (nonlinear_arith);
    vstd::arithmetic::div_mod::lemma_fundamental_div_mod_converse(s + d, p, q + q2, r2);
}

/// A sum below twice `p` holds `p` once if it reaches it, and not at all if it
/// does not; any sum that reaches `p` holds it at least once.
proof fn lemma_quotient_of_short_sum(x: int, p: int)
    requires
        0 <= x,
        0 < p,
    ensures
        x < p ==> x / p == 0,
        p <= x ==> x / p >= 1,
        p <= x < 2 * p ==> x / p == 1,
{
    let q = x / p;
    let r = x % p;
    vstd::arithmetic::div_mod::lemma_fundamental_div_mod(x, p);
    vstd::arithmetic::div_mod::lemma_mod_pos_bound(x, p);
    if x < p {
        assert(q <= 0) by (nonlinear_arith)
            requires
                x == p * q + r,
                0 <= r,
                x < p,
                0 < p,
        ;
        assert(q >= 0) by (nonlinear_arith)
            requires
                x == p * q + r,
                r < p,
                0 <= x,
                0 < p,
        ;
    } else {
        assert(q >= 1) by (nonlinear_arith)
            requires
                x == p * q + r,
                r < p,
                p <= x,
                0 < p,
        ;
        if x < 2 * p {
            assert(q <= 1) by (nonlinear_arith)
                requires
                    x == p * q + r,
                    0 <= r,
                    x < 2 * p,
                    0 < p,
            ;
        }
    }
}

/// The spawn countdown never drifts: after any sequence of frames it holds the
/// remainder, by the period, of all the time it was given, and it has fired at
/// most once for each full period of that time.
pub proof fn law_spawn_timer_keeps_remainder(timer: SpawnTimer, deltas: Seq<u64>)
    requires
        timer.wf(),
    ensures
        timer.after_all(deltas).wf(),
        timer.after_all(deltas).period() == timer.period(),
        timer.after_all(deltas).elapsed() == (timer.elapsed() + total(deltas)) as int % (
        timer.period() as int),
        timer.fire_count(deltas) <= (timer.elapsed() + total(deltas)) as int / (
        timer.period() as int),
    decreases deltas.len(),
{
    let p = timer.period() as int;
    timer.lemma_bounds();
    if deltas.len() == 0 {
        vstd::arithmetic::div_mod::lemma_small_mod(timer.elapsed(), timer.period());
        lemma_quotient_of_short_sum(timer.elapsed() as int, p);
    } else {
        let before = deltas.drop_last();
        let d = deltas.last();
        law_spawn_timer_keeps_remainder(timer, before);
        let mid = timer.after_all(before);
        mid.lemma_bounds();
        mid.lemma_after(d);
        let s = (timer.elapsed() + total(before)) as int;
        lemma_div_mod_step(s, d as int, p);
        lemma_quotient_of_short_sum(mid.elapsed() + d, p);
    }
}

/// Where no frame is longer than the period, the spawn countdown fires exactly
/// once for each full period of the time it was given: the number of frames it
/// fires in is the number of periods that the accumulated time holds.
pub proof fn law_spawn_timer_fires_once_per_period(timer: SpawnTimer, deltas: Seq<u64>)
    requires
        timer.wf(),
        forall|i: int| 0 <= i < deltas.len() ==> deltas[i] <= timer.period(),
    ensures
        timer.fire_count(deltas) == (timer.elapsed() + total(deltas)) as int / (
        timer.period() as int),
    decreases deltas.len(),
{
    let p = timer.period() as int;
    timer.lemma_bounds();
    if deltas.len() == 0 {
        lemma_quotient_of_short_sum(timer.elapsed() as int, p);
    } else {
        let before = deltas.drop_last();
        let d = deltas.last();
        law_spawn_timer_fires_once_per_period(timer, before);
        law_spawn_timer_keeps_remainder(timer, before);
        let mid = timer.after_all(before);
        mid.lemma_bounds();
        mid.lemma_after(d);
        let s = (timer.elapsed() + total(before)) as int;
        lemma_div_mod_step(s, d as int, p);
        lemma_quotient_of_short_sum(mid.elapsed() + d, p);
    }
}

/// A lifetime runs up to its duration and stops there, and over any sequence of
/// frames it reports its completion exactly once if the time given reaches the
/// duration and it had not completed before, and never otherwise.
pub proof fn law_lifetime_expires_once(lifetime: Lifetime, deltas: Seq<u64>)
    requires
        lifetime.wf(),
    ensures
        lifetime.after_all(deltas).wf(),
        lifetime.after_all(deltas).duration() == lifetime.duration(),
        lifetime.after_all(deltas).elapsed() == if lifetime.elapsed() + total(deltas)
            >= lifetime.duration() {
            lifetime.duration()
        } else {
            lifetime.elapsed() + total(deltas)
        },
        lifetime.expiry_count(deltas) == if !lifetime.is_finished() && lifetime.elapsed() + total(
            deltas,
        ) >= lifetime.duration() {
            1nat
        } else {
            0nat
        },
    decreases deltas.len(),
{
    if deltas.len() == 0 {
        lifetime.lemma_bounds();
    } else {
        let before = deltas.drop_last();
        law_lifetime_expires_once(lifetime, before);
        lifetime.after_all(before).lemma_after(deltas.last());
    }
}

/// The frame in which a lifetime reports its completion is the first at whose
/// end the time given has reached the duration: before that frame the time was
/// short of it, so the completion comes no earlier than the duration and less
/// than that one frame's time after it.
pub proof fn law_lifetime_expiry_time(lifetime: Lifetime, deltas: Seq<u64>, k: int)
    requires
        lifetime.wf(),
        0 <= k < deltas.len(),
        lifetime.after_all(deltas.take(k)).expires(deltas[k]),
    ensures
        lifetime.elapsed() + total(deltas.take(k)) < lifetime.duration(),
        lifetime.duration() <= lifetime.elapsed() + total(deltas.take(k + 1)),
        lifetime.elapsed() + total(deltas.take(k + 1)) < lifetime.duration() + deltas[k],
{
    law_lifetime_expires_once(lifetime, deltas.take(k));
    assert(deltas.take(k + 1).drop_last() =~= deltas.take(k));
    assert(deltas.take(k + 1).last() == deltas[k]);
}

/// Once a lifetime has reported its completion, no later frame reports it
/// again, whatever time it is given.
pub proof fn law_lifetime_expiry_is_final(lifetime: Lifetime, first: u64, later: Seq<u64>)
    requires
        lifetime.wf(),
        lifetime.expires(first),
    ensures
        lifetime.after(first).expiry_count(later) == 0,
{
    lifetime.lemma_after(first);
    law_lifetime_expires_once(lifetime.after(first), later);
}

/// The sweep asks for a handle's removal exactly when an instance with that
/// handle asks for it.
pub proof fn lemma_requests_are_asked(rows: Seq<EffectInstance>, delta: u64)
    ensures
        forall|e: u64|
            removal_requests(rows, delta).contains(e) <==> (exists|i: int|
                0 <= i < rows.len() && (#[trigger] rows[i]).entity == e
                    && rows[i].requests_removal(delta)),
    decreases rows.len(),
{
    let asked = removal_requests(rows, delta);
    if rows.len() == 0 {
        crate::scene::lemma_sweep_empty(delta);
    } else {
        let init = rows.drop_last();
        let last = rows.last();
        assert(rows =~= init.push(last));
        crate::scene::lemma_sweep_push(init, last, delta);
        lemma_requests_are_asked(init, delta);
        let asked_init = removal_requests(init, delta);
        assert forall|e: u64| asked.contains(e) implies (exists|i: int|
            0 <= i < rows.len() && (#[trigger] rows[i]).entity == e && rows[i].requests_removal(
                delta,
            )) by {
            let k = choose|k: int| 0 <= k < asked.len() && asked[k] == e;
            if k < asked_init.len() {
                assert(asked_init[k] == e);
                assert(asked_init.contains(e));
                let i = choose|i: int|
                    0 <= i < init.len() && (#[trigger] init[i]).entity == e
                        && init[i].requests_removal(delta);
                assert(rows[i].entity == e && rows[i].requests_removal(delta));
            } else {
                assert(rows[rows.len() - 1].entity == e);
            }
        }
        assert forall|e: u64|
            (exists|i: int|
                0 <= i < rows.len() && (#[trigger] rows[i]).entity == e
                    && rows[i].requests_removal(delta)) implies asked.contains(e) by {
            let i = choose|i: int|
                0 <= i < rows.len() && (#[trigger] rows[i]).entity == e
                    && rows[i].requests_removal(delta);
            if i < init.len() {
                assert(init[i].entity == e && init[i].requests_removal(delta));
                assert(asked_init.contains(e));
                let k = choose|k: int| 0 <= k < asked_init.len() && asked_init[k] == e;
                assert(asked[k] == e);
            } else {
                assert(asked[asked.len() - 1] == e);
            }
        }
    }
}

/// An instance whose removal a sweep has asked for is not asked for again by
/// any later sweep, whatever time it is given: a second sweep is a no-op for
/// it.
pub proof fn law_sweep_asks_once(row: EffectInstance, first: u64, second: u64)
    requires
        row.requests_removal(first),
    ensures
        !row.swept(first).requests_removal(second),
        !row.swept(first).live,
{
}

/// An instance that the store no longer holds is passed over by the sweep: its
/// removal is not asked for, however long it has run.
pub proof fn law_sweep_skips_removed(row: EffectInstance, delta: u64)
    requires
        !row.live,
    ensures
        !row.requests_removal(delta),
        !row.swept(delta).live,
{
}

/// Where no two instances share a handle, two sweeps in a row never ask for
/// the same handle twice.
pub proof fn law_cleanup_twice(rows: Seq<EffectInstance>, first: u64, second: u64, entity: u64)
    requires
        forall|i: int, j: int|
            0 <= i < rows.len() && 0 <= j < rows.len() && i != j ==> rows[i].entity
                != rows[j].entity,
        removal_requests(rows, first).contains(entity),
    ensures
        !removal_requests(swept(rows, first), second).contains(entity),
{
    let again = swept(rows, first);
    lemma_requests_are_asked(rows, first);
    lemma_requests_are_asked(again, second);
    let i = choose|i: int|
        0 <= i < rows.len() && (#[trigger] rows[i]).entity == entity && rows[i].requests_removal(
            first,
        );
    if removal_requests(again, second).contains(entity) {
        let j = choose|j: int|
            0 <= j < again.len() && (#[trigger] again[j]).entity == entity
                && again[j].requests_removal(second);
        assert(rows[j].entity == entity);
        assert(i == j);
    }
}

/// What a frame does to each instance in the store. If its countdown
/// completes in the frame, its removal is asked for and the frame leaves no
/// instance with its handle: none survives the frame in which it expires.
/// Otherwise its removal is not asked for, and it stays with its countdown
/// advanced by the frame's time.
pub proof fn law_frame_removes_expired(scene: SceneView, pressed: bool, delta: u64, i: int)
    requires
        scene.wf(),
        scene.has_room(),
        0 <= i < scene.instances.len(),
    ensures
        scene.instances[i].lifetime.expires(delta) ==> removal_requests(
            scene.instances,
            delta,
        ).contains(scene.instances[i].entity) && !holds(
            scene.step(pressed, delta).instances,
            scene.instances[i].entity,
        ),
        !scene.instances[i].lifetime.expires(delta) ==> !removal_requests(
            scene.instances,
            delta,
        ).contains(scene.instances[i].entity) && scene.step(pressed, delta).instances.contains(
            scene.instances[i].swept(delta),
        ),
{
    let row = scene.instances[i];
    let all = swept(scene.instances, delta);
    let kept = survivors(all);
    let after = scene.step(pressed, delta).instances;
    let held = |r: EffectInstance| r.live;
    lemma_requests_are_asked(scene.instances, delta);
    crate::scene::lemma_filter_keeps_order(all, held);
    assert(all[i] == row.swept(delta));
    if row.lifetime.expires(delta) {
        if holds(after, row.entity) {
            let k = choose|k: int| 0 <= k < after.len() && (#[trigger] after[k]).entity
                == row.entity;
            if k < kept.len() {
                assert(all.contains(kept[k]));
                let j = choose|j: int| 0 <= j < all.len() && all[j] == kept[k];
                assert(scene.instances[j].entity == row.entity);
                if j < i {
                    assert(scene.instances[j].entity < scene.instances[i].entity);
                } else if i < j {
                    assert(scene.instances[i].entity < scene.instances[j].entity);
                }
                assert(j == i);
                assert(kept[k].live);
            } else {
                assert(row.entity < scene.next_entity);
            }
        }
    } else {
        if removal_requests(scene.instances, delta).contains(row.entity) {
            let j = choose|j: int|
                0 <= j < scene.instances.len() && (#[trigger] scene.instances[j]).entity
                    == row.entity && scene.instances[j].requests_removal(delta);
            if j < i {
                assert(scene.instances[j].entity < scene.instances[i].entity);
            } else if i < j {
                assert(scene.instances[i].entity < scene.instances[j].entity);
            }
        }
        all.lemma_filter_contains(held, i);
        assert(kept.contains(all[i]));
        let k = choose|k: int| 0 <= k < kept.len() && kept[k] == all[i];
        assert(after[k] == all[i]);
    }
}

/// A frame asks for the removal of nothing but instances that were in the
/// store and whose countdown completed in it.
pub proof fn law_frame_removes_only_expired(scene: SceneView, delta: u64, entity: u64)
    requires
        scene.wf(),
        removal_requests(scene.instances, delta).contains(entity),
    ensures
        exists|i: int|
            0 <= i < scene.instances.len() && (#[trigger] scene.instances[i]).entity == entity
                && scene.instances[i].lifetime.expires(delta),
{
    lemma_requests_are_asked(scene.instances, delta);
    let i = choose|i: int|
        0 <= i < scene.instances.len() && (#[trigger] scene.instances[i]).entity == entity
            && scene.instances[i].requests_removal(delta);
    assert(scene.instances[i].lifetime.expires(delta));
}

/// A handle that has been given out and that no instance in the store has is
/// gone for good: no frame brings it back, and no frame asks for its removal.
/// So the removal of an instance is asked for in one frame only.
pub proof fn law_removed_never_returns(scene: SceneView, frames: Seq<Frame>, entity: u64)
    requires
        scene.wf(),
        scene.has_room_for(frames.len()),
        entity < scene.next_entity,
        !holds(scene.instances, entity),
    ensures
        !holds(scene.run(frames).instances, entity),
        forall|k: int|
            0 <= k < frames.len() ==> !removal_requests(
                scene.run(#[trigger] frames.take(k)).instances,
                frames[k].delta,
            ).contains(entity),
    decreases frames.len(),
{
    if frames.len() > 0 {
        let init = frames.drop_last();
        let last = frames.last();
        law_removed_never_returns(scene, init, entity);
        scene.lemma_run_wf(init);
        let mid = scene.run(init);
        let after = mid.step(last.pressed, last.delta);
        let all = swept(mid.instances, last.delta);
        let kept = survivors(all);
        let held = |r: EffectInstance| r.live;
        crate::scene::lemma_filter_keeps_order(all, held);
        if holds(after.instances, entity) {
            let k = choose|k: int|
                0 <= k < after.instances.len() && (#[trigger] after.instances[k]).entity == entity;
            if k < kept.len() {
                assert(all.contains(kept[k]));
                let j = choose|j: int| 0 <= j < all.len() && all[j] == kept[k];
                assert(mid.instances[j].entity == entity);
            }
        }
        lemma_requests_are_asked(mid.instances, last.delta);
        assert forall|k: int| 0 <= k < frames.len() implies !removal_requests(
            scene.run(#[trigger] frames.take(k)).instances,
            frames[k].delta,
        ).contains(entity) by {
            if k < init.len() {
                assert(frames.take(k) =~= init.take(k));
            } else {
                assert(frames.take(k) =~= init);
            }
        }
    }
}

/// The life of an instance in the store is the life of its countdown. Over any
/// sequence of frames, the frame that asks for its removal is the one in which
/// its countdown, advanced by the frames before, completes; and it is in the
/// store afterwards, with its countdown advanced by all the frames, exactly if
/// the time they brought has not reached what was left of its lifetime.
pub proof fn law_instance_lives_its_lifetime(scene: SceneView, frames: Seq<Frame>, i: int)
    requires
        scene.wf(),
        scene.has_room_for(frames.len()),
        0 <= i < scene.instances.len(),
    ensures
        forall|k: int|
            0 <= k < frames.len() ==> (removal_requests(
                scene.run(#[trigger] frames.take(k)).instances,
                frames[k].delta,
            ).contains(scene.instances[i].entity) <==> scene.instances[i].lifetime.after_all(
                deltas_of(frames.take(k)),
            ).expires(frames[k].delta)),
        holds(scene.run(frames).instances, scene.instances[i].entity) <==> scene.instances[i].lifetime.elapsed()
            + total(deltas_of(frames)) < scene.instances[i].lifetime.duration(),
        holds(scene.run(frames).instances, scene.instances[i].entity) ==> exists|j: int|
            0 <= j < scene.run(frames).instances.len() && (#[trigger] scene.run(
                frames,
            ).instances[j]).entity == scene.instances[i].entity && scene.run(
                frames,
            ).instances[j].lifetime == scene.instances[i].lifetime.after_all(deltas_of(frames)),
    decreases frames.len(),
{
    let row = scene.instances[i];
    let entity = row.entity;
    if frames.len() == 0 {
        assert(deltas_of(frames) =~= Seq::empty());
        row.lifetime.lemma_bounds();
        assert(scene.run(frames).instances[i].entity == entity);
    } else {
        let init = frames.drop_last();
        let last = frames.last();
        let mid = scene.run(init);
        let after = scene.run(frames);
        let past = deltas_of(init);
        let aged = row.lifetime.after_all(past);
        law_instance_lives_its_lifetime(scene, init, i);
        scene.lemma_run_wf(init);
        law_lifetime_expires_once(row.lifetime, past);
        assert(deltas_of(frames).drop_last() =~= past);
        assert(deltas_of(frames).last() == last.delta);
        assert(row.lifetime.after_all(deltas_of(frames)) == aged.after(last.delta));
        aged.lemma_after(last.delta);
        aged.lemma_bounds();
        mid.lemma_step_wf(last.pressed, last.delta);
        lemma_requests_are_asked(mid.instances, last.delta);
        if holds(mid.instances, entity) {
            let j = choose|j: int|
                0 <= j < mid.instances.len() && (#[trigger] mid.instances[j]).entity == entity
                    && mid.instances[j].lifetime == aged;
            law_frame_removes_expired(mid, last.pressed, last.delta, j);
            if !aged.expires(last.delta) {
                let kept = mid.instances[j].swept(last.delta);
                assert(after.instances.contains(kept));
                let m = choose|m: int| 0 <= m < after.instances.len() && after.instances[m] == kept;
                assert(after.instances[m].entity == entity);
            }
        } else {
            law_removed_never_returns(mid, seq![last], entity);
            assert(seq![last].drop_last() =~= Seq::<Frame>::empty());
            assert(seq![last].take(0) =~= Seq::<Frame>::empty());
            assert(mid.run(seq![last]) == after);
            assert(mid.run(seq![last].take(0)) == mid);
        }
        assert forall|k: int| 0 <= k < frames.len() implies (removal_requests(
            scene.run(#[trigger] frames.take(k)).instances,
            frames[k].delta,
        ).contains(entity) <==> row.lifetime.after_all(deltas_of(frames.take(k))).expires(
            frames[k].delta,
        )) by {
            if k < init.len() {
                assert(frames.take(k) =~= init.take(k));
            } else {
                assert(frames.take(k) =~= init);
            }
        }
    }
}

/// An effect instance that a frame creates is removed a lifetime later, to
/// within one frame: of the frames that follow, the one that asks for its
/// removal is the first at whose end the time since its creation has reached
/// the instance lifetime, and no other asks for it.
pub proof fn law_created_instance_is_removed_a_lifetime_later(
    scene: SceneView,
    pressed: bool,
    delta: u64,
    later: Seq<Frame>,
    k: int,
)
    requires
        scene.wf(),
        scene.has_room(),
        scene.step(pressed, delta).has_room_for(later.len()),
        scene.timer.fires(delta),
        0 <= k < later.len(),
    ensures
        removal_requests(
            scene.step(pressed, delta).run(later.take(k)).instances,
            later[k].delta,
        ).contains(scene.instance_handle(pressed)) <==> total(deltas_of(later.take(k)))
            < INSTANCE_LIFETIME <= total(deltas_of(later.take(k + 1))),
        total(deltas_of(later.take(k + 1))) == total(deltas_of(later.take(k))) + later[k].delta,
{
    let start = scene.step(pressed, delta);
    let last = start.instances.len() - 1;
    let fresh = Lifetime::fresh(INSTANCE_LIFETIME);
    scene.lemma_step_wf(pressed, delta);
    Lifetime::lemma_fresh(INSTANCE_LIFETIME);
    assert(start.instances[last].entity == scene.instance_handle(pressed));
    assert(start.instances[last].lifetime == fresh);
    law_instance_lives_its_lifetime(start, later, last);
    law_lifetime_expires_once(fresh, deltas_of(later.take(k)));
    assert(deltas_of(later.take(k + 1)).drop_last() =~= deltas_of(later.take(k)));
    assert(deltas_of(later.take(k + 1)).last() == later[k].delta);
}

/// The scene creates an effect instance in exactly the frames in which its
/// spawn countdown fires, and the countdown it holds is the countdown advanced
/// by the frames' times. What holds of the countdown's firings holds of the
/// scene's creations.
pub proof fn law_scene_spawns_when_its_timer_fires(scene: SceneView, frames: Seq<Frame>)
    ensures
        scene.run(frames).timer == scene.timer.after_all(deltas_of(frames)),
        forall|k: int|
            0 <= k < frames.len() ==> (scene.run(#[trigger] frames.take(k)).created_instance(
                frames[k].pressed,
                frames[k].delta,
            ).is_some() <==> scene.timer.after_all(deltas_of(frames.take(k))).fires(
                frames[k].delta,
            )),
    decreases frames.len(),
{
    if frames.len() == 0 {
        assert(deltas_of(frames) =~= Seq::empty());
    } else {
        let init = frames.drop_last();
        law_scene_spawns_when_its_timer_fires(scene, init);
        assert(deltas_of(frames).drop_last() =~= deltas_of(init));
        assert forall|k: int| 0 <= k < frames.len() implies (scene.run(
            #[trigger] frames.take(k),
        ).created_instance(frames[k].pressed, frames[k].delta).is_some()
            <==> scene.timer.after_all(deltas_of(frames.take(k))).fires(frames[k].delta)) by {
            if k < init.len() {
                assert(frames.take(k) =~= init.take(k));
            } else {
                assert(frames.take(k) =~= init);
            }
        }
    }
}

/// While the control is held, every frame creates one marker, and while it is
/// released, none: after a sequence of frames the store holds one more marker
/// for each frame in which the control was held. The markers it held before
/// are still there, in their places, and every marker stands at the spawn
/// point.
pub proof fn law_markers_count_held_frames(scene: SceneView, frames: Seq<Frame>)
    requires
        scene.wf(),
        scene.has_room_for(frames.len()),
    ensures
        scene.run(frames).markers.len() == scene.markers.len() + pressed_count(frames),
        scene.run(frames).markers.take(scene.markers.len() as int) == scene.markers,
        forall|i: int|
            0 <= i < scene.run(frames).markers.len() ==> (#[trigger] scene.run(
                frames,
            ).markers[i]).marker == scene_marker(),
    decreases frames.len(),
{
    if frames.len() == 0 {
        assert(scene.markers.take(scene.markers.len() as int) =~= scene.markers);
    } else {
        let init = frames.drop_last();
        let last = frames.last();
        law_markers_count_held_frames(scene, init);
        scene.lemma_run_wf(frames);
        let mid = scene.run(init);
        let after = mid.step(last.pressed, last.delta);
        assert(after.markers.take(scene.markers.len() as int) =~= mid.markers.take(
            scene.markers.len() as int,
        ));
    }
}

/// Removing an instance that is already removed is a no-op: after a removal no
/// instance has the handle, and a second removal leaves the scene as the first
/// left it.
pub proof fn law_despawn_twice(scene: SceneView, entity: u64)
    ensures
        !holds(scene.despawn(entity).instances, entity),
        scene.despawn(entity).despawn(entity) == scene.despawn(entity),
{
    let others = |r: EffectInstance| r.entity != entity;
    let once = without(scene.instances, entity);
    crate::scene::lemma_filter_keeps_order(scene.instances, others);
    if holds(once, entity) {
        let k = choose|k: int| 0 <= k < once.len() && (#[trigger] once[k]).entity == entity;
        assert(others(once[k]));
    }
    lemma_filter_all(once, others);
}

/// Taking out of a store what none of its instances is takes nothing out.
proof fn lemma_filter_all(rows: Seq<EffectInstance>, keep: spec_fn(EffectInstance) -> bool)
    requires
        forall|i: int| 0 <= i < rows.len() ==> keep(#[trigger] rows[i]),
    ensures
        rows.filter(keep) == rows,
    decreases rows.len(),
{
    if rows.len() == 0 {
        reveal(Seq::filter);
    } else {
        let init = rows.drop_last();
        assert(rows =~= init.push(rows.last()));
        init.lemma_filter_push(rows.last(), keep);
        lemma_filter_all(init, keep);
    }
}

} // verus!
