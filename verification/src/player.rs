//! The player: position, facing, health, energy, queued target, stun and
//! invisibility windows, and one cooldown counter per ability.

use vstd::prelude::*;

use crate::position::{Direction, Position};

verus! {

pub const MAX_PLAYER_HEALTH: u16 = 100;

pub const MAX_PLAYER_ENERGY: u16 = 100;

pub const PLAYER_MELEE_DAMAGE: u16 = 30;

pub const PLAYER_SLAM_DAMAGE: u16 = 50;

pub const PLAYER_PROJECTILE_DAMAGE: u16 = 10;

pub const PLAYER_PROJECTILE_SPEED: u16 = 1;

pub const PLAYER_INITIAL_SPEED: u16 = 1;

pub const PLAYER_INITIAL_ENERGY: u16 = 100;

/// Energy deducted by one ranged projectile shot.
pub const PROJECTILE_COST: u16 = 1;

pub const TELEPORTATION_COST: u16 = 5;

pub const HEAL_COST: u16 = 20;

pub const FIRE_COST: u16 = 30;

pub const SLAM_COST: u16 = 10;

pub const BUILD_COST: u16 = 2;

pub const LIGHTNING_COST: u16 = 25;

pub const INVISIBILITY_COST: u16 = 30;

pub const TRACKING_PROJECTILE_COST: u16 = 75;

/// Health restored by one heal, clamped at `MAX_PLAYER_HEALTH`.
pub const HEAL_ABILITY_RETURN: u16 = 10;

/// Energy restored per enemy struck by a melee attack.
pub const MELEE_ENERGY_RETURN: u16 = 2;

pub const INVISIBILITY_DURATION: u16 = 10;

pub const PROJECTILE_COOLDOWN: u16 = 1;

pub const LIGHTNING_COOLDOWN: u16 = 5;

pub const TELEPORT_COOLDOWN: u16 = 1;

pub const FIRE_COOLDOWN: u16 = 10;

pub const SLAM_COOLDOWN: u16 = 10;

pub const INVISIBILITY_COOLDOWN: u16 = 25 + INVISIBILITY_DURATION;

pub const TRACKING_PROJECTILE_COOLDOWN: u16 = 20;

/// The abilities that carry a cooldown counter.
#[derive(Clone, Copy, PartialEq, Eq, Structural, Debug)]
pub enum Ability {
    Projectile,
    Lightning,
    Slam,
    Fire,
    Teleport,
    Invisibility,
    TrackingProjectile,
}

/// One logical, already-decoded input event. Keyboard decoding is the
/// host's concern; the simulation consumes only these.
///
/// A `Move*` key moves one step and then restores the previous facing
/// (strafing); a `Turn*` key changes facing without moving.
#[derive(Clone, Copy, PartialEq, Eq, Structural, Debug)]
pub enum InputKey {
    MoveNorth,
    MoveSouth,
    MoveEast,
    MoveWest,
    TurnNorth,
    TurnSouth,
    TurnEast,
    TurnWest,
    Melee,
    Projectile,
    TrackingProjectile,
    Heal,
    Build,
    Slam,
    Fire,
    Lightning,
    Teleport,
    Invisibility,
}

/// `v` clamped into `0 ..= MAX_PLAYER_ENERGY`.
pub open spec fn clamped_energy(v: int) -> int {
    if v < 0 {
        0
    } else if v > MAX_PLAYER_ENERGY {
        MAX_PLAYER_ENERGY as int
    } else {
        v
    }
}

/// One tick of a cooldown or timer counter: down by one, floored at zero.
pub open spec fn ticked(v: u16) -> u16 {
    if v > 0 {
        (v - 1) as u16
    } else {
        0
    }
}

pub struct Player {
    pub pos: Position,
    /// The direction the player faces; projectiles and melee aim along it.
    pub direction: Direction,
    /// Tiles travelled per accepted move.
    pub speed: u16,
    pub health: u16,
    pub energy: u16,
    /// Target coordinate queued by pointer input; consumed, not cleared,
    /// by targeted abilities.
    pub queued_position: Option<Position>,
    /// Remaining ticks of invisibility; zero means visible.
    pub visible: u16,
    /// Remaining ticks during which movement fails.
    pub stun_timer: u16,
    pub alive: bool,
    pub projectile_cooldown: u16,
    pub lightning_cooldown: u16,
    pub slam_cooldown: u16,
    pub fire_cooldown: u16,
    pub teleport_cooldown: u16,
    pub invisibility_cooldown: u16,
    pub tracking_projectile_cooldown: u16,
}

impl Player {
    pub fn new() -> (p: Player)
        ensures
            p.pos == (Position { x: 0, y: 0 }),
            p.direction == Direction::South,
            p.speed == PLAYER_INITIAL_SPEED,
            p.health == MAX_PLAYER_HEALTH,
            p.energy == PLAYER_INITIAL_ENERGY,
            p.queued_position is None,
            p.visible == 0,
            p.stun_timer == 0,
            p.alive,
            p.projectile_cooldown == 0,
            p.lightning_cooldown == 0,
            p.slam_cooldown == 0,
            p.fire_cooldown == 0,
            p.teleport_cooldown == 0,
            p.invisibility_cooldown == 0,
            p.tracking_projectile_cooldown == 0,
    {
        Player {
            pos: Position { x: 0, y: 0 },
            direction: Direction::South,
            speed: PLAYER_INITIAL_SPEED,
            health: MAX_PLAYER_HEALTH,
            energy: PLAYER_INITIAL_ENERGY,
            queued_position: None,
            visible: 0,
            stun_timer: 0,
            alive: true,
            projectile_cooldown: 0,
            lightning_cooldown: 0,
            slam_cooldown: 0,
            fire_cooldown: 0,
            teleport_cooldown: 0,
            invisibility_cooldown: 0,
            tracking_projectile_cooldown: 0,
        }
    }

    pub fn is_alive(&self) -> (r: bool)
        ensures
            r == self.alive,
    {
        self.alive
    }

    pub fn health(&self) -> (r: u16)
        ensures
            r == self.health,
    {
        self.health
    }

    pub fn energy(&self) -> (r: u16)
        ensures
            r == self.energy,
    {
        self.energy
    }

    pub fn is_visible(&self) -> (r: bool)
        ensures
            r == (self.visible == 0),
    {
        self.visible == 0
    }

    /// Applies `damage` to the player. Damage at or above the remaining
    /// health empties it and clears the alive flag; state is never deleted.
    pub fn damage(&mut self, damage: u16)
        ensures
            damage >= old(self).health ==> final(self).health == 0 && !final(self).alive,
            damage < old(self).health ==> final(self).health == old(self).health - damage
                && final(self).alive == old(self).alive,
            *final(self) == (Player {
                health: final(self).health,
                alive: final(self).alive,
                ..*old(self)
            }),
    {
        if damage >= self.health {
            self.health = 0;
            self.alive = false;
        } else {
            self.health = self.health - damage;
        }
    }

    /// Adds `delta` to the energy counter, clamped into
    /// `0 ..= MAX_PLAYER_ENERGY`; never overflows or underflows.
    pub fn change_energy(&mut self, delta: i32)
        requires
            delta > -0x10000,
            delta < 0x10000,
        ensures
            final(self).energy == clamped_energy(old(self).energy + delta),
            *final(self) == (Player { energy: final(self).energy, ..*old(self) }),
    {
        let v: i32 = self.energy as i32 + delta;
        if v < 0 {
            self.energy = 0;
        } else if v > MAX_PLAYER_ENERGY as i32 {
            self.energy = MAX_PLAYER_ENERGY;
        } else {
            self.energy = v as u16;
        }
    }

    /// The shared global turn tick: every ability cooldown except the one
    /// just used goes down by one (floored at zero), and the invisibility
    /// window shortens unless invisibility was the ability used.
    pub fn advance_cooldowns(&mut self, used: Option<Ability>)
        ensures
            final(self).projectile_cooldown == if used == Some(Ability::Projectile) {
                old(self).projectile_cooldown
            } else {
                ticked(old(self).projectile_cooldown)
            },
            final(self).lightning_cooldown == if used == Some(Ability::Lightning) {
                old(self).lightning_cooldown
            } else {
                ticked(old(self).lightning_cooldown)
            },
            final(self).slam_cooldown == if used == Some(Ability::Slam) {
                old(self).slam_cooldown
            } else {
                ticked(old(self).slam_cooldown)
            },
            final(self).fire_cooldown == if used == Some(Ability::Fire) {
                old(self).fire_cooldown
            } else {
                ticked(old(self).fire_cooldown)
            },
            final(self).teleport_cooldown == if used == Some(Ability::Teleport) {
                old(self).teleport_cooldown
            } else {
                ticked(old(self).teleport_cooldown)
            },
            final(self).invisibility_cooldown == if used == Some(Ability::Invisibility) {
                old(self).invisibility_cooldown
            } else {
                ticked(old(self).invisibility_cooldown)
            },
            final(self).tracking_projectile_cooldown == if used == Some(Ability::TrackingProjectile) {
                old(self).tracking_projectile_cooldown
            } else {
                ticked(old(self).tracking_projectile_cooldown)
            },
            final(self).visible == if used == Some(Ability::Invisibility) {
                old(self).visible
            } else {
                ticked(old(self).visible)
            },
            *final(self) == (Player {
                projectile_cooldown: final(self).projectile_cooldown,
                lightning_cooldown: final(self).lightning_cooldown,
                slam_cooldown: final(self).slam_cooldown,
                fire_cooldown: final(self).fire_cooldown,
                teleport_cooldown: final(self).teleport_cooldown,
                invisibility_cooldown: final(self).invisibility_cooldown,
                tracking_projectile_cooldown: final(self).tracking_projectile_cooldown,
                visible: final(self).visible,
                ..*old(self)
            }),
    {
        if !matches!(used, Some(Ability::Projectile)) {
            self.projectile_cooldown = tick_counter(self.projectile_cooldown);
        }
        if !matches!(used, Some(Ability::Lightning)) {
            self.lightning_cooldown = tick_counter(self.lightning_cooldown);
        }
        if !matches!(used, Some(Ability::Slam)) {
            self.slam_cooldown = tick_counter(self.slam_cooldown);
        }
        if !matches!(used, Some(Ability::Fire)) {
            self.fire_cooldown = tick_counter(self.fire_cooldown);
        }
        if !matches!(used, Some(Ability::Teleport)) {
            self.teleport_cooldown = tick_counter(self.teleport_cooldown);
        }
        if !matches!(used, Some(Ability::Invisibility)) {
            self.invisibility_cooldown = tick_counter(self.invisibility_cooldown);
            self.visible = tick_counter(self.visible);
        }
        if !matches!(used, Some(Ability::TrackingProjectile)) {
            self.tracking_projectile_cooldown = tick_counter(self.tracking_projectile_cooldown);
        }
    }
}

/// One tick of a counter: down by one, floored at zero.
pub fn tick_counter(v: u16) -> (r: u16)
    ensures
        r == ticked(v),
{
    if v > 0 {
        v - 1
    } else {
        0
    }
}

} // verus!
