//! The transient dynamic objects of the simulation: projectiles, thrown
//! explosives, cosmetic particles and hostile mobs. Each carries fixed-point
//! state and a well-formedness predicate that every tick preserves.

use vstd::prelude::*;

use crate::geom::Vec3;
use crate::geom::DIST_LIMIT;
use crate::geom::RADIUS_LIMIT;
use crate::geom::VEL_LIMIT;

verus! {

/// A fired projectile: destroyed on block impact, mob impact, or once it has
/// travelled its maximum distance.
#[derive(Clone, Copy, PartialEq, Eq, Structural, Debug)]
pub struct Bullet {
    pub position: Vec3,
    pub velocity: Vec3,
    pub damage: i64,
    pub max_distance: i64,
    pub traveled: i64,
}

impl Bullet {
    /// Bounded position, velocity, damage and travel budget.
    pub open spec fn wf(self) -> bool {
        &&& self.position.spec_in_pos_range()
        &&& self.velocity.spec_in_vel_range()
        &&& 0 <= self.damage <= 1000000
        &&& 0 <= self.traveled <= self.max_distance
        &&& self.max_distance <= DIST_LIMIT
    }
}

/// A thrown explosive: falls under gravity and converts into an area-damage
/// event on block contact or when its countdown expires.
#[derive(Clone, Copy, PartialEq, Eq, Structural, Debug)]
pub struct Explosive {
    pub position: Vec3,
    pub velocity: Vec3,
    pub timer: i64,
    pub radius: i64,
}

impl Explosive {
    /// Bounded position, velocity, countdown and blast radius.
    pub open spec fn wf(self) -> bool {
        &&& self.position.spec_in_pos_range()
        &&& self.velocity.spec_in_vel_range()
        &&& 0 <= self.timer <= 1000000
        &&& 0 <= self.radius <= RADIUS_LIMIT
    }
}

/// A purely cosmetic particle: never consulted by gameplay logic.
#[derive(Clone, Copy, Debug)]
pub struct Particle {
    pub position: Vec3,
    pub velocity: Vec3,
    pub life: i64,
    pub color: (i64, i64, i64),
    pub size: i64,
}

impl Particle {
    /// Bounded position, velocity, remaining life and size.
    pub open spec fn wf(self) -> bool {
        &&& self.position.spec_in_pos_range()
        &&& self.velocity.spec_in_vel_range()
        &&& 0 <= self.life <= 1000000
        &&& 0 <= self.size <= 1000000
    }
}

/// A hostile creature with chase-and-attack behaviour.
#[derive(Clone, Copy, PartialEq, Eq, Structural, Debug)]
pub struct Mob {
    pub position: Vec3,
    pub health: i64,
    pub radius: i64,
    pub height: i64,
    pub velocity_y: i64,
    pub grounded: bool,
    pub jump_cooldown: i64,
    pub attack_cooldown: i64,
}

impl Mob {
    /// Bounded position, body extents, vertical velocity and cooldowns.
    pub open spec fn wf(self) -> bool {
        &&& self.position.spec_in_pos_range()
        &&& 0 <= self.radius <= RADIUS_LIMIT
        &&& 0 <= self.height <= RADIUS_LIMIT
        &&& -VEL_LIMIT <= self.velocity_y <= VEL_LIMIT
        &&& 0 <= self.jump_cooldown <= 1000000
        &&& 0 <= self.attack_cooldown <= 1000000
        &&& -1000000000 <= self.health <= 1000000000
    }
}

} // verus!
