//! The scene: what each of its systems decides in a frame, and the store of
//! entities that a frame leaves behind.

use crate::effect::{ExplosionParticleEffect, Rgba, Vec3};
use crate::timer::{Lifetime, SpawnTimer};
use vstd::prelude::*;

verus! {

/// The period of the spawn scheduler: one second.
pub const SPAWN_PERIOD: u64 = 1_000_000_000;

/// The time an effect instance lives: one second.
pub const INSTANCE_LIFETIME: u64 = 1_000_000_000;

/// The radius of a marker's disc, in thousandths of a unit.
pub const MARKER_RADIUS: i32 = 4000;

/// The place where every effect instance and every marker is created.
pub open spec fn spawn_point() -> Vec3 {
    Vec3 { x: 0, y: 20000, z: 0 }
}

/// The place where every effect instance and every marker is created.
pub fn spawn_position() -> (p: Vec3)
    ensures
        p == spawn_point(),
{
    Vec3 { x: 0, y: 20000, z: 0 }
}

/// The view on the scene: where it is seen from, whether it is drawn with high
/// dynamic range, and the colour an empty frame has.
#[derive(Clone, Copy, Debug, PartialEq, Eq, Structural)]
pub struct Camera {
    pub position: Vec3,
    pub hdr: bool,
    pub clear_color: Rgba,
}

/// The camera of the scene: behind and level with the spawn point, with high
/// dynamic range, clearing to opaque black.
pub open spec fn scene_camera() -> Camera {
    Camera {
        position: Vec3 { x: 0, y: 20000, z: 50000 },
        hdr: true,
        clear_color: Rgba { r: 0, g: 0, b: 0, a: 1000 },
    }
}

/// What a marker looks like: a flat disc of one colour at a fixed place.
#[derive(Clone, Copy, Debug, PartialEq, Eq, Structural)]
pub struct Marker {
    pub position: Vec3,
    pub radius: i32,
    pub color: Rgba,
}

/// The marker of the scene: a white disc at the spawn point.
pub open spec fn scene_marker() -> Marker {
    Marker {
        position: spawn_point(),
        radius: MARKER_RADIUS,
        color: Rgba { r: 1000, g: 1000, b: 1000, a: 1000 },
    }
}

/// A marker in the store. It has no lifetime and is never removed.
#[derive(Clone, Copy, Debug, PartialEq, Eq, Structural)]
pub struct MarkerEntity {
    pub entity: u64,
    pub marker: Marker,
}

/// What the spawn scheduler asks for when it fires: one effect instance at a
/// place, with the countdown that bounds its life.
#[derive(Clone, Copy, Debug)]
pub struct SpawnRequest {
    pub position: Vec3,
    pub lifetime: Lifetime,
}

/// A particle-emitting entity as the cleanup sweep sees it: its handle, its
/// place, its countdown, and whether the store still holds it.
#[derive(Clone, Copy, Debug)]
pub struct EffectInstance {
    pub entity: u64,
    pub position: Vec3,
    pub lifetime: Lifetime,
    pub live: bool,
}

impl EffectInstance {
    /// Whether a sweep of `delta` nanoseconds asks for this instance's removal:
    /// its countdown completes in this frame and it has not been removed
    /// already.
    pub open spec fn requests_removal(self, delta: u64) -> bool {
        self.live && self.lifetime.expires(delta)
    }

    /// The instance after a sweep of `delta` nanoseconds: its countdown is
    /// advanced, and it no longer counts as held once its removal is asked for.
    pub open spec fn swept(self, delta: u64) -> EffectInstance {
        EffectInstance {
            entity: self.entity,
            position: self.position,
            lifetime: self.lifetime.after(delta),
            live: self.live && !self.lifetime.expires(delta),
        }
    }
}

/// Every instance after a sweep of `delta` nanoseconds.
pub open spec fn swept(rows: Seq<EffectInstance>, delta: u64) -> Seq<EffectInstance> {
    rows.map_values(|r: EffectInstance| r.swept(delta))
}

/// The handles whose removal a sweep of `delta` nanoseconds asks for, in the
/// order of the instances.
pub open spec fn removal_requests(rows: Seq<EffectInstance>, delta: u64) -> Seq<u64> {
    rows.filter(|r: EffectInstance| r.requests_removal(delta)).map_values(
        |r: EffectInstance| r.entity,
    )
}

/// A sweep over one more instance sweeps that instance too, and asks for its
/// removal after the others' if it asks at all.
pub proof fn lemma_sweep_push(rows: Seq<EffectInstance>, row: EffectInstance, delta: u64)
    ensures
        swept(rows.push(row), delta) == swept(rows, delta).push(row.swept(delta)),
        removal_requests(rows.push(row), delta) == if row.requests_removal(delta) {
            removal_requests(rows, delta).push(row.entity)
        } else {
            removal_requests(rows, delta)
        },
{
    let asks = |r: EffectInstance| r.requests_removal(delta);
    let handle = |r: EffectInstance| r.entity;
    assert(swept(rows.push(row), delta) =~= swept(rows, delta).push(row.swept(delta)));
    rows.lemma_filter_push(row, asks);
    if row.requests_removal(delta) {
        assert(rows.filter(asks).push(row).map_values(handle) =~= rows.filter(asks).map_values(
            handle,
        ).push(row.entity));
    }
}

/// A sweep over no instances leaves none and asks for nothing.
pub proof fn lemma_sweep_empty(delta: u64)
    ensures
        swept(Seq::empty(), delta) == Seq::<EffectInstance>::empty(),
        removal_requests(Seq::empty(), delta) == Seq::<u64>::empty(),
{
    reveal(Seq::filter);
    assert(swept(Seq::empty(), delta) =~= Seq::<EffectInstance>::empty());
    assert(removal_requests(Seq::empty(), delta) =~= Seq::<u64>::empty());
}

/// The input trigger: while the designated control is held, every frame asks
/// for one marker at the spawn point; while it is released, none.
pub fn keyboard_input_system(pressed: bool) -> (request: Option<Marker>)
    ensures
        request == if pressed {
            Some(scene_marker())
        } else {
            None
        },
{
    if !pressed {
        return None;
    }
    Some(
        Marker {
            position: spawn_position(),
            radius: MARKER_RADIUS,
            color: Rgba { r: 1000, g: 1000, b: 1000, a: 1000 },
        },
    )
}

/// The spawn scheduler: accumulates the frame's time on the repeating
/// countdown and, in a frame in which it fires, asks for one effect instance
/// at the spawn point with a fresh lifetime.
pub fn spawn(timer: &mut SpawnTimer, delta: u64) -> (request: Option<SpawnRequest>)
    ensures
        *final(timer) == old(timer).after(delta),
        request == if old(timer).fires(delta) {
            Some(
                SpawnRequest {
                    position: spawn_point(),
                    lifetime: Lifetime::fresh(INSTANCE_LIFETIME),
                },
            )
        } else {
            None
        },
{
    if !timer.tick(delta) {
        return None;
    }
    let lifetime = Lifetime::new(INSTANCE_LIFETIME).unwrap();
    Some(SpawnRequest { position: spawn_position(), lifetime })
}

/// The cleanup sweep: advances the countdown of every instance by the frame's
/// time and asks for the removal of each one whose countdown completes in this
/// frame and that the store still holds. An instance whose removal is asked
/// for no longer counts as held, so no later sweep asks again.
pub fn cleanup(q_values: &mut Vec<EffectInstance>, delta: u64) -> (removed: Vec<u64>)
    ensures
        final(q_values)@ == swept(old(q_values)@, delta),
        removed@ == removal_requests(old(q_values)@, delta),
{
    let mut removed: Vec<u64> = Vec::new();
    let n = q_values.len();
    let mut i: usize = 0;
    proof {
        assert(q_values@.take(0) =~= Seq::empty());
        lemma_sweep_empty(delta);
    }
    while i < n
        invariant
            i <= n,
            n == q_values.len(),
            n == old(q_values).len(),
            q_values@.take(i as int) == swept(old(q_values)@.take(i as int), delta),
            forall|j: int| i <= j < n ==> q_values@[j] == old(q_values)@[j],
            removed@ == removal_requests(old(q_values)@.take(i as int), delta),
        decreases n - i,
    {
        let mut row = q_values[i];
        let was_live = row.live;
        let just_finished = row.lifetime.tick(delta);
        if just_finished && was_live {
            row.live = false;
            removed.push(row.entity);
        }
        proof {
            let before = old(q_values)@.take(i as int);
            let given = old(q_values)@[i as int];
            lemma_sweep_push(before, given, delta);
            assert(old(q_values)@.take(i + 1) =~= before.push(given));
            assert(row == given.swept(delta));
        }
        let ghost prior = q_values@;
        q_values.set(i, row);
        proof {
            assert(q_values@.take(i + 1) =~= prior.take(i as int).push(row));
        }
        i = i + 1;
    }
    proof {
        assert(q_values@.take(n as int) =~= q_values@);
        assert(old(q_values)@.take(n as int) =~= old(q_values)@);
    }
    removed
}

/// The instances that the store still holds, in their order.
pub open spec fn survivors(rows: Seq<EffectInstance>) -> Seq<EffectInstance> {
    rows.filter(|r: EffectInstance| r.live)
}

/// The instances other than the one with the given handle, in their order.
pub open spec fn without(rows: Seq<EffectInstance>, entity: u64) -> Seq<EffectInstance> {
    rows.filter(|r: EffectInstance| r.entity != entity)
}

/// Whether an instance with the given handle is among the rows.
pub open spec fn holds(rows: Seq<EffectInstance>, entity: u64) -> bool {
    exists|i: int| 0 <= i < rows.len() && (#[trigger] rows[i]).entity == entity
}

/// What a frame reports: the handle of the marker it created, the handle of
/// the effect instance it created, and the handles whose removal the sweep
/// asked for, in the order of the instances.
#[derive(Clone, Debug)]
pub struct FrameReport {
    pub marker: Option<u64>,
    pub spawned: Option<u64>,
    pub removed: Vec<u64>,
}

/// The scene as a value: the camera, the spawn countdown, the instances and
/// markers in the order of their creation, and the next free handle.
pub struct SceneView {
    pub camera: Camera,
    pub timer: SpawnTimer,
    pub instances: Seq<EffectInstance>,
    pub markers: Seq<MarkerEntity>,
    pub next_entity: nat,
}

impl SceneView {
    /// The scene's invariant. The countdown runs on the spawn period. Every
    /// instance is held, has a well-formed countdown of the instance lifetime
    /// that has not completed, and stands at the spawn point; every marker is
    /// the scene's marker. Handles rise with creation within instances and
    /// within markers, lie below the next free handle, and none is both an
    /// instance's and a marker's.
    pub open spec fn wf(self) -> bool {
        &&& self.camera == scene_camera()
        &&& self.timer.wf()
        &&& self.timer.period() == SPAWN_PERIOD
        &&& forall|i: int|
            0 <= i < self.instances.len() ==> {
                let r = #[trigger] self.instances[i];
                &&& r.live
                &&& r.lifetime.wf()
                &&& r.lifetime.duration() == INSTANCE_LIFETIME
                &&& !r.lifetime.is_finished()
                &&& r.position == spawn_point()
                &&& r.entity < self.next_entity
            }
        &&& forall|i: int, j: int|
            0 <= i < j < self.instances.len() ==> self.instances[i].entity
                < self.instances[j].entity
        &&& forall|i: int|
            0 <= i < self.markers.len() ==> {
                let m = #[trigger] self.markers[i];
                &&& m.marker == scene_marker()
                &&& m.entity < self.next_entity
            }
        &&& forall|i: int, j: int|
            0 <= i < j < self.markers.len() ==> self.markers[i].entity < self.markers[j].entity
        &&& forall|i: int, j: int|
            0 <= i < self.instances.len() && 0 <= j < self.markers.len()
                ==> self.instances[i].entity != self.markers[j].entity
    }

    /// Whether two more handles can be given out, as one frame may need.
    pub open spec fn has_room(self) -> bool {
        self.next_entity + 2 <= u64::MAX
    }

    /// The handle that a marker created in this frame gets.
    pub open spec fn marker_handle(self) -> u64 {
        self.next_entity as u64
    }

    /// The handle that an effect instance created in this frame gets: the one
    /// after the marker's, if the frame creates a marker.
    pub open spec fn instance_handle(self, pressed: bool) -> u64 {
        if pressed {
            (self.next_entity + 1) as u64
        } else {
            self.next_entity as u64
        }
    }

    /// The scene after one frame in which the control is held or not and
    /// `delta` nanoseconds have passed. The input trigger, the spawn scheduler
    /// and the cleanup sweep each decide on the scene as the frame found it;
    /// then the instances whose removal was asked for leave, and what was
    /// asked for is created. An instance created in a frame is first swept in
    /// the next.
    pub open spec fn step(self, pressed: bool, delta: u64) -> SceneView {
        let kept = survivors(swept(self.instances, delta));
        SceneView {
            camera: self.camera,
            timer: self.timer.after(delta),
            instances: if self.timer.fires(delta) {
                kept.push(
                    EffectInstance {
                        entity: self.instance_handle(pressed),
                        position: spawn_point(),
                        lifetime: Lifetime::fresh(INSTANCE_LIFETIME),
                        live: true,
                    },
                )
            } else {
                kept
            },
            markers: if pressed {
                self.markers.push(
                    MarkerEntity { entity: self.marker_handle(), marker: scene_marker() },
                )
            } else {
                self.markers
            },
            next_entity: self.next_entity + if pressed {
                1nat
            } else {
                0nat
            } + if self.timer.fires(delta) {
                1nat
            } else {
                0nat
            },
        }
    }

    /// The handle of the marker that the frame creates, if it creates one.
    pub open spec fn created_marker(self, pressed: bool) -> Option<u64> {
        if pressed {
            Some(self.marker_handle())
        } else {
            None
        }
    }

    /// The handle of the effect instance that the frame creates, if it creates
    /// one.
    pub open spec fn created_instance(self, pressed: bool, delta: u64) -> Option<u64> {
        if self.timer.fires(delta) {
            Some(self.instance_handle(pressed))
        } else {
            None
        }
    }

    /// The scene once the instance with the given handle is removed.
    pub open spec fn despawn(self, entity: u64) -> SceneView {
        SceneView {
            camera: self.camera,
            timer: self.timer,
            instances: without(self.instances, entity),
            markers: self.markers,
            next_entity: self.next_entity,
        }
    }
}

/// The scene: its camera, the published particle template, the spawn
/// countdown, and the store of effect instances and markers.
pub struct Scene {
    camera: Camera,
    effect: ExplosionParticleEffect,
    timer: SpawnTimer,
    instances: Vec<EffectInstance>,
    markers: Vec<MarkerEntity>,
    next_entity: u64,
}

impl View for Scene {
    type V = SceneView;

    closed spec fn view(&self) -> SceneView {
        SceneView {
            camera: self.camera,
            timer: self.timer,
            instances: self.instances@,
            markers: self.markers@,
            next_entity: self.next_entity as nat,
        }
    }
}

/// What one frame brings: whether the designated control is held, and the
/// time since the frame before, in nanoseconds.
#[derive(Clone, Copy, Debug, PartialEq, Eq, Structural)]
pub struct Frame {
    pub pressed: bool,
    pub delta: u64,
}

/// In how many frames of a sequence the control is held.
pub open spec fn pressed_count(frames: Seq<Frame>) -> nat
    decreases frames.len(),
{
    if frames.len() == 0 {
        0
    } else {
        pressed_count(frames.drop_last()) + if frames.last().pressed {
            1nat
        } else {
            0nat
        }
    }
}

/// The times that the frames of a sequence bring, in their order.
pub open spec fn deltas_of(frames: Seq<Frame>) -> Seq<u64> {
    frames.map_values(|f: Frame| f.delta)
}

impl SceneView {
    /// The scene after a sequence of frames.
    pub open spec fn run(self, frames: Seq<Frame>) -> SceneView
        decreases frames.len(),
    {
        if frames.len() == 0 {
            self
        } else {
            self.run(frames.drop_last()).step(frames.last().pressed, frames.last().delta)
        }
    }

    /// Whether the handles last for `frames` more frames.
    pub open spec fn has_room_for(self, frames: nat) -> bool {
        self.next_entity + 2 * frames <= u64::MAX
    }
}

/// Taking instances out of a store keeps the order of the rest: each one left
/// was there before and passes the test, and handles that rose before still
/// rise.
pub proof fn lemma_filter_keeps_order(
    rows: Seq<EffectInstance>,
    keep: spec_fn(EffectInstance) -> bool,
)
    ensures
        forall|i: int|
            0 <= i < rows.filter(keep).len() ==> keep(#[trigger] rows.filter(keep)[i])
                && rows.contains(rows.filter(keep)[i]),
        (forall|i: int, j: int| 0 <= i < j < rows.len() ==> rows[i].entity < rows[j].entity)
            ==> (forall|i: int, j: int|
            0 <= i < j < rows.filter(keep).len() ==> rows.filter(keep)[i].entity
                < rows.filter(keep)[j].entity),
    decreases rows.len(),
{
    let kept = rows.filter(keep);
    if rows.len() == 0 {
        reveal(Seq::filter);
    } else {
        let init = rows.drop_last();
        let last = rows.last();
        assert(rows =~= init.push(last));
        init.lemma_filter_push(last, keep);
        lemma_filter_keeps_order(init, keep);
        let kept_init = init.filter(keep);
        assert forall|i: int| 0 <= i < kept.len() implies keep(#[trigger] kept[i])
            && rows.contains(kept[i]) by {
            if i < kept_init.len() {
                assert(init.contains(kept_init[i]));
                let k = choose|k: int| 0 <= k < init.len() && init[k] == kept_init[i];
                assert(rows[k] == kept[i]);
            } else {
                assert(rows[rows.len() - 1] == kept[i]);
            }
        }
        if forall|i: int, j: int| 0 <= i < j < rows.len() ==> rows[i].entity < rows[j].entity {
            assert forall|i: int, j: int| 0 <= i < j < init.len() implies init[i].entity
                < init[j].entity by {
                assert(rows[i].entity < rows[j].entity);
            }
            assert forall|i: int, j: int| 0 <= i < j < kept.len() implies kept[i].entity
                < kept[j].entity by {
                if j < kept_init.len() {
                    assert(kept_init[i].entity < kept_init[j].entity);
                } else {
                    assert(init.contains(kept_init[i]));
                    let k = choose|k: int| 0 <= k < init.len() && init[k] == kept_init[i];
                    assert(rows[k].entity < rows[rows.len() - 1].entity);
                }
            }
        }
    }
}

impl SceneView {
    /// A frame leaves a well-formed scene well formed.
    pub proof fn lemma_step_wf(self, pressed: bool, delta: u64)
        requires
            self.wf(),
            self.has_room(),
        ensures
            self.step(pressed, delta).wf(),
    {
        let after = self.step(pressed, delta);
        let all = swept(self.instances, delta);
        let kept = survivors(all);
        let held = |r: EffectInstance| r.live;
        self.timer.lemma_after(delta);
        Lifetime::lemma_fresh(INSTANCE_LIFETIME);
        lemma_filter_keeps_order(all, held);
        assert forall|i: int| 0 <= i < kept.len() implies {
            let r = #[trigger] kept[i];
            &&& r.live
            &&& r.lifetime.wf()
            &&& r.lifetime.duration() == INSTANCE_LIFETIME
            &&& !r.lifetime.is_finished()
            &&& r.position == spawn_point()
            &&& r.entity < self.next_entity
            &&& exists|k: int| 0 <= k < self.instances.len() && self.instances[k].entity == r.entity
        } by {
            assert(all.contains(kept[i]));
            let k = choose|k: int| 0 <= k < all.len() && all[k] == kept[i];
            let given = self.instances[k];
            given.lifetime.lemma_after(delta);
            given.lifetime.lemma_bounds();
        }
        assert forall|i: int, j: int| 0 <= i < j < all.len() implies all[i].entity
            < all[j].entity by {
            assert(self.instances[i].entity < self.instances[j].entity);
        }
        assert forall|i: int, j: int|
            0 <= i < after.instances.len() && 0 <= j < after.markers.len()
                implies after.instances[i].entity != after.markers[j].entity by {
            if i < kept.len() {
                let r = kept[i];
                let k = choose|k: int|
                    0 <= k < self.instances.len() && self.instances[k].entity == r.entity;
                if j < self.markers.len() {
                    assert(self.instances[k].entity != self.markers[j].entity);
                }
            } else if j < self.markers.len() {
                assert(self.markers[j].entity < self.next_entity);
            }
        }
        assert forall|i: int, j: int| 0 <= i < j < after.instances.len()
            implies after.instances[i].entity < after.instances[j].entity by {
            if j < kept.len() {
                assert(kept[i].entity < kept[j].entity);
            } else {
                assert(kept[i].entity < self.next_entity);
            }
        }
        assert forall|i: int, j: int| 0 <= i < j < after.markers.len()
            implies after.markers[i].entity < after.markers[j].entity by {
            if j < self.markers.len() {
                assert(self.markers[i].entity < self.markers[j].entity);
            } else {
                assert(self.markers[i].entity < self.next_entity);
            }
        }
    }

    /// A sequence of frames leaves a well-formed scene well formed, and gives
    /// out at most two handles a frame.
    pub proof fn lemma_run_wf(self, frames: Seq<Frame>)
        requires
            self.wf(),
            self.has_room_for(frames.len()),
        ensures
            self.run(frames).wf(),
            self.next_entity <= self.run(frames).next_entity <= self.next_entity + 2
                * frames.len(),
        decreases frames.len(),
    {
        if frames.len() > 0 {
            self.lemma_run_wf(frames.drop_last());
            self.run(frames.drop_last()).lemma_step_wf(frames.last().pressed, frames.last().delta);
        }
    }

    /// Removing an instance leaves a well-formed scene well formed.
    pub proof fn lemma_despawn_wf(self, entity: u64)
        requires
            self.wf(),
        ensures
            self.despawn(entity).wf(),
    {
        let after = self.despawn(entity);
        let others = |r: EffectInstance| r.entity != entity;
        lemma_filter_keeps_order(self.instances, others);
        assert forall|i: int| 0 <= i < after.instances.len() implies {
            let r = #[trigger] after.instances[i];
            &&& r.live
            &&& r.lifetime.wf()
            &&& r.lifetime.duration() == INSTANCE_LIFETIME
            &&& !r.lifetime.is_finished()
            &&& r.position == spawn_point()
            &&& r.entity < self.next_entity
            &&& self.instances.contains(r)
        } by {
            assert(self.instances.contains(after.instances[i]));
            let k = choose|k: int|
                0 <= k < self.instances.len() && self.instances[k] == after.instances[i];
        }
        assert forall|i: int, j: int|
            0 <= i < after.instances.len() && 0 <= j < after.markers.len()
                implies after.instances[i].entity != after.markers[j].entity by {
            let r = after.instances[i];
            let k = choose|k: int| 0 <= k < self.instances.len() && self.instances[k] == r;
            assert(self.instances[k].entity != self.markers[j].entity);
        }
    }
}

impl Scene {
    #[verifier::type_invariant]
    closed spec fn inv(self) -> bool {
        self@.wf()
    }

    /// The particle template that the scene was set up with.
    pub closed spec fn published(self) -> ExplosionParticleEffect {
        self.effect
    }

    /// Runs one frame: the input trigger, the spawn scheduler and the cleanup
    /// sweep, in this order, each on the scene as the frame found it; then
    /// removes the instances whose removal was asked for and creates what was
    /// asked for. The report names what was created and what was removed.
    pub fn update(&mut self, pressed: bool, delta: u64) -> (report: FrameReport)
        requires
            old(self)@.has_room(),
        ensures
            final(self)@ == old(self)@.step(pressed, delta),
            final(self)@.wf(),
            final(self).published() == old(self).published(),
            report.marker == old(self)@.created_marker(pressed),
            report.spawned == old(self)@.created_instance(pressed, delta),
            report.removed@ == removal_requests(old(self)@.instances, delta),
    {
        proof {
            use_type_invariant(&*self);
            self@.lemma_step_wf(pressed, delta);
            self.timer.lemma_after(delta);
        }
        let ghost before = self@;
        let marker = keyboard_input_system(pressed);
        let mut timer = self.timer;
        let request = spawn(&mut timer, delta);

        let mut rows: Vec<EffectInstance> = Vec::new();
        let n = self.instances.len();
        let mut i: usize = 0;
        while i < n
            invariant
                i <= n,
                n == self.instances.len(),
                rows@ == self.instances@.take(i as int),
            decreases n - i,
        {
            rows.push(self.instances[i]);
            proof {
                assert(self.instances@.take(i + 1) =~= self.instances@.take(i as int).push(
                    self.instances@[i as int],
                ));
            }
            i = i + 1;
        }
        proof {
            assert(self.instances@.take(n as int) =~= self.instances@);
        }
        let removed = cleanup(&mut rows, delta);
        let mut kept = retain_live(&rows);

        let first = self.next_entity;
        let mut next = first;
        let mut created: Option<u64> = None;
        if let Some(m) = marker {
            let mut markers: Vec<MarkerEntity> = Vec::new();
            core::mem::swap(&mut markers, &mut self.markers);
            markers.push(MarkerEntity { entity: first, marker: m });
            created = Some(first);
            next = next + 1;
            self.next_entity = next;
            self.markers = markers;
        }
        let mut spawned: Option<u64> = None;
        if let Some(r) = request {
            spawned = Some(next);
            kept.push(
                EffectInstance { entity: next, position: r.position, lifetime: r.lifetime, live: true },
            );
            next = next + 1;
            self.next_entity = next;
        }
        self.timer = timer;
        self.instances = kept;
        FrameReport { marker: created, spawned, removed }
    }

    /// Removes the instance with the given handle, whichever part of the
    /// program asks, and says whether there was one. Asking again for a handle
    /// that is gone changes nothing.
    pub fn despawn(&mut self, entity: u64) -> (removed: bool)
        ensures
            final(self)@ == old(self)@.despawn(entity),
            final(self)@.wf(),
            final(self).published() == old(self).published(),
            removed == holds(old(self)@.instances, entity),
    {
        proof {
            use_type_invariant(&*self);
            self@.lemma_despawn_wf(entity);
        }
        let others = Ghost(|r: EffectInstance| r.entity != entity);
        let mut kept: Vec<EffectInstance> = Vec::new();
        let mut removed = false;
        let n = self.instances.len();
        let mut i: usize = 0;
        proof {
            assert(self.instances@.take(0) =~= Seq::empty());
            reveal(Seq::filter);
        }
        while i < n
            invariant
                i <= n,
                n == self.instances.len(),
                others@ == (|r: EffectInstance| r.entity != entity),
                kept@ == self.instances@.take(i as int).filter(others@),
                removed == holds(self.instances@.take(i as int), entity),
            decreases n - i,
        {
            let row = self.instances[i];
            proof {
                let before = self.instances@.take(i as int);
                let with_row = self.instances@.take(i + 1);
                before.lemma_filter_push(row, others@);
                assert(with_row =~= before.push(row));
                if holds(before, entity) {
                    let k = choose|k: int| 0 <= k < before.len() && (#[trigger] before[k]).entity
                        == entity;
                    assert(with_row[k].entity == entity);
                }
                if row.entity == entity {
                    assert(with_row[i as int].entity == entity);
                }
                if holds(with_row, entity) && row.entity != entity {
                    let k = choose|k: int|
                        0 <= k < with_row.len() && (#[trigger] with_row[k]).entity == entity;
                    assert(before[k].entity == entity);
                }
            }
            if row.entity == entity {
                removed = true;
            } else {
                kept.push(row);
            }
            i = i + 1;
        }
        proof {
            assert(self.instances@.take(n as int) =~= self.instances@);
        }
        self.instances = kept;
        removed
    }

    /// Whether the scene can run another frame: two more handles can be given
    /// out.
    pub fn has_room(&self) -> (r: bool)
        ensures
            r == self@.has_room(),
    {
        self.next_entity <= u64::MAX - 2
    }

    /// The camera of the scene.
    pub fn camera(&self) -> (r: Camera)
        ensures
            r == self@.camera,
            r == scene_camera(),
    {
        proof {
            use_type_invariant(self);
        }
        self.camera
    }

    /// The particle template that the scene was set up with.
    pub fn effect(&self) -> (r: &ExplosionParticleEffect)
        ensures
            *r == self.published(),
    {
        &self.effect
    }

    /// The spawn countdown.
    pub fn timer(&self) -> (r: SpawnTimer)
        ensures
            r == self@.timer,
    {
        self.timer
    }

    /// The effect instances in the store, in the order of their creation.
    pub fn instances(&self) -> (r: &Vec<EffectInstance>)
        ensures
            r@ == self@.instances,
    {
        &self.instances
    }

    /// The markers in the store, in the order of their creation.
    pub fn markers(&self) -> (r: &Vec<MarkerEntity>)
        ensures
            r@ == self@.markers,
    {
        &self.markers
    }

    /// The handle that the next entity created gets.
    pub fn next_entity(&self) -> (r: u64)
        ensures
            r == self@.next_entity,
    {
        self.next_entity
    }
}

/// The scene at startup: the camera, the spawn countdown at zero, the
/// published template, and a store with nothing in it.
pub open spec fn initial_scene() -> SceneView {
    SceneView {
        camera: scene_camera(),
        timer: SpawnTimer::fresh(SPAWN_PERIOD),
        instances: Seq::empty(),
        markers: Seq::empty(),
        next_entity: 0,
    }
}

/// Sets the scene up: places the camera, starts the spawn countdown and takes
/// the particle template that instances will be made from.
pub fn setup(effect: ExplosionParticleEffect) -> (scene: Scene)
    ensures
        scene@ == initial_scene(),
        scene@.wf(),
        scene@.has_room(),
        scene.published() == effect,
{
    proof {
        SpawnTimer::lemma_fresh(SPAWN_PERIOD);
    }
    let timer = SpawnTimer::new(SPAWN_PERIOD).unwrap();
    Scene {
        camera: Camera {
            position: Vec3 { x: 0, y: 20000, z: 50000 },
            hdr: true,
            clear_color: Rgba { r: 0, g: 0, b: 0, a: 1000 },
        },
        effect,
        timer,
        instances: Vec::new(),
        markers: Vec::new(),
        next_entity: 0,
    }
}

/// The instances of a store that are still held, in their order.
fn retain_live(rows: &Vec<EffectInstance>) -> (kept: Vec<EffectInstance>)
    ensures
        kept@ == survivors(rows@),
{
    let held = Ghost(|r: EffectInstance| r.live);
    let mut kept: Vec<EffectInstance> = Vec::new();
    let n = rows.len();
    let mut i: usize = 0;
    proof {
        assert(rows@.take(0) =~= Seq::empty());
        reveal(Seq::filter);
    }
    while i < n
        invariant
            i <= n,
            n == rows.len(),
            kept@ == rows@.take(i as int).filter(held@),
            held@ == (|r: EffectInstance| r.live),
        decreases n - i,
    {
        let row = rows[i];
        proof {
            rows@.take(i as int).lemma_filter_push(row, held@);
            assert(rows@.take(i + 1) =~= rows@.take(i as int).push(row));
        }
        if row.live {
            kept.push(row);
        }
        i = i + 1;
    }
    proof {
        assert(rows@.take(n as int) =~= rows@);
    }
    kept
}

} // verus!
