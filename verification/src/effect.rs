//! The particle template of the scene, held as plain fixed-point values: lengths
//! and colour channels in thousandths of a unit, times in nanoseconds.

use vstd::prelude::*;

verus! {

/// One world unit, or a colour channel or a lifetime fraction of one, in
/// thousandths.
pub const UNIT: i32 = 1000;

/// The upper end of a gradient, in thousandths of a particle's lifetime.
pub const FULL_RATIO: u32 = 1000;

/// One second in nanoseconds.
pub const NANOS_PER_SECOND: u64 = 1_000_000_000;

/// A point or a direction in world space, in thousandths of a unit.
#[derive(Clone, Copy, Debug, PartialEq, Eq, Structural)]
pub struct Vec3 {
    pub x: i32,
    pub y: i32,
    pub z: i32,
}

/// A colour with alpha, each channel in thousandths.
#[derive(Clone, Copy, Debug, PartialEq, Eq, Structural)]
pub struct Rgba {
    pub r: u32,
    pub g: u32,
    pub b: u32,
    pub a: u32,
}

/// A colour at a fraction of a particle's lifetime, the fraction in
/// thousandths.
#[derive(Clone, Copy, Debug, PartialEq, Eq, Structural)]
pub struct GradientKey {
    pub ratio: u32,
    pub color: Rgba,
}

/// How a gradient's colour meets the colour a particle already has.
#[derive(Clone, Copy, Debug, PartialEq, Eq, Structural)]
pub enum ColorBlendMode {
    Overwrite,
    Add,
    Modulate,
}

/// The colour channels that a gradient writes.
#[derive(Clone, Copy, Debug, PartialEq, Eq, Structural)]
pub struct ColorBlendMask {
    pub r: bool,
    pub g: bool,
    pub b: bool,
    pub a: bool,
}

/// The description of one particle system: how many particles it may hold, how
/// many it emits at once when an instance is created, where and how fast they
/// start, how long they live, what accelerates them and how they are coloured
/// over their lifetime.
#[derive(Clone, Debug)]
pub struct EffectTemplate {
    /// The most particles that one instance simulates at a time.
    pub capacity: u32,
    /// The particles emitted in the one burst at an instance's creation.
    pub spawn_count: u32,
    /// The centre of the sphere on whose surface particles start, and away
    /// from which they move.
    pub center: Vec3,
    /// The radius of that sphere.
    pub radius: i32,
    /// The speed at which particles start, radially outward.
    pub speed: i32,
    /// The time for which a particle is simulated and drawn.
    pub particle_lifetime: u64,
    /// The constant acceleration on every particle.
    pub accel: Vec3,
    /// The colours over a particle's lifetime, by rising fraction.
    pub gradient: Vec<GradientKey>,
    /// How the gradient's colour is blended in.
    pub blend: ColorBlendMode,
    /// The channels that the gradient affects.
    pub mask: ColorBlendMask,
}

/// No key lies beyond the end of the lifetime.
pub open spec fn keys_in_range(keys: Seq<GradientKey>) -> bool {
    forall|i: int| 0 <= i < keys.len() ==> (#[trigger] keys[i]).ratio <= FULL_RATIO
}

/// The keys come by rising fraction of the lifetime.
pub open spec fn keys_ascending(keys: Seq<GradientKey>) -> bool {
    forall|i: int, j: int| 0 <= i < j < keys.len() ==> keys[i].ratio <= keys[j].ratio
}

/// The gradient of the explosion: from opaque red at a particle's birth to
/// transparent black at its death.
pub open spec fn explosion_gradient() -> Seq<GradientKey> {
    seq![
        GradientKey { ratio: 0, color: Rgba { r: 1000, g: 0, b: 0, a: 1000 } },
        GradientKey { ratio: 1000, color: Rgba { r: 0, g: 0, b: 0, a: 0 } },
    ]
}

impl EffectTemplate {
    /// A template that an engine can take: it has room for particles, a radius
    /// and a speed that are not negative, and gradient keys within the lifetime
    /// and in rising order.
    pub open spec fn valid(self) -> bool {
        &&& self.capacity > 0
        &&& self.radius >= 0
        &&& self.speed >= 0
        &&& keys_in_range(self.gradient@)
        &&& keys_ascending(self.gradient@)
    }

    /// The template of the explosion: room for 32768 particles, one burst of
    /// five, starting on a sphere of radius two around the origin and moving
    /// outward at six units a second, living one second under a downward
    /// acceleration of three, their colour multiplied in all four channels by a
    /// gradient from red to transparent black.
    pub open spec fn is_explosion(self) -> bool {
        &&& self.capacity == 32768
        &&& self.spawn_count == 5
        &&& self.center == Vec3 { x: 0, y: 0, z: 0 }
        &&& self.radius == 2000
        &&& self.speed == 6000
        &&& self.particle_lifetime == NANOS_PER_SECOND
        &&& self.accel == Vec3 { x: 0, y: -3000i32, z: 0 }
        &&& self.gradient@ == explosion_gradient()
        &&& self.blend == ColorBlendMode::Modulate
        &&& self.mask == ColorBlendMask { r: true, g: true, b: true, a: true }
    }

    /// Whether an engine can take the template.
    pub fn is_valid(&self) -> (r: bool)
        ensures
            r == self.valid(),
    {
        if self.capacity == 0 || self.radius < 0 || self.speed < 0 {
            return false;
        }
        let n = self.gradient.len();
        let mut i: usize = 0;
        while i < n
            invariant
                n == self.gradient.len(),
                i <= n,
                keys_in_range(self.gradient@.take(i as int)),
                keys_ascending(self.gradient@.take(i as int)),
            decreases n - i,
        {
            let key = self.gradient[i];
            if key.ratio > FULL_RATIO {
                return false;
            }
            if i > 0 && self.gradient[i - 1].ratio > key.ratio {
                return false;
            }
            proof {
                let before = self.gradient@.take(i as int);
                let with_key = self.gradient@.take(i + 1);
                assert forall|a: int, b: int| 0 <= a < b < with_key.len() implies with_key[a].ratio
                    <= with_key[b].ratio by {
                    if b == i && a < i - 1 {
                        assert(before[a].ratio <= before[i - 1].ratio);
                    } else if b < i {
                        assert(before[a].ratio <= before[b].ratio);
                    }
                }
                assert forall|a: int| 0 <= a < with_key.len() implies (
                #[trigger] with_key[a]).ratio <= FULL_RATIO by {
                    if a < i {
                        assert(before[a].ratio <= FULL_RATIO);
                    }
                }
            }
            i = i + 1;
        }
        proof {
            assert(self.gradient@.take(n as int) =~= self.gradient@);
        }
        true
    }
}

/// The template that the scene publishes once at startup and that every
/// spawned instance is made from.
#[derive(Clone, Debug)]
pub struct ExplosionParticleEffect {
    pub effect: EffectTemplate,
}

/// Declares the explosion's particle template. Its particles live exactly as
/// long as the instance that emits them.
pub fn setup_effect() -> (published: ExplosionParticleEffect)
    ensures
        published.effect.is_explosion(),
        published.effect.valid(),
{
    let mut gradient: Vec<GradientKey> = Vec::new();
    gradient.push(GradientKey { ratio: 0, color: Rgba { r: 1000, g: 0, b: 0, a: 1000 } });
    gradient.push(GradientKey { ratio: 1000, color: Rgba { r: 0, g: 0, b: 0, a: 0 } });
    proof {
        assert(gradient@ =~= explosion_gradient());
    }
    let effect = EffectTemplate {
        capacity: 32768,
        spawn_count: 5,
        center: Vec3 { x: 0, y: 0, z: 0 },
        radius: 2000,
        speed: 6000,
        particle_lifetime: NANOS_PER_SECOND,
        accel: Vec3 { x: 0, y: -3000, z: 0 },
        gradient,
        blend: ColorBlendMode::Modulate,
        mask: ColorBlendMask { r: true, g: true, b: true, a: true },
    };
    ExplosionParticleEffect { effect }
}

} // verus!
