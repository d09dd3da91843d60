//! The player's abilities and the action/cooldown controller: one logical
//! input event becomes at most one validated, turn-consuming action.

use vstd::prelude::*;

use crate::enemy::Enemy;
use crate::player::{
    Ability, InputKey, Player, clamped_energy, ticked, BUILD_COST, FIRE_COOLDOWN, FIRE_COST,
    HEAL_ABILITY_RETURN, HEAL_COST, INVISIBILITY_COOLDOWN, INVISIBILITY_COST,
    INVISIBILITY_DURATION, LIGHTNING_COOLDOWN, LIGHTNING_COST, MAX_PLAYER_HEALTH,
    MELEE_ENERGY_RETURN, PLAYER_MELEE_DAMAGE, PLAYER_SLAM_DAMAGE, PROJECTILE_COOLDOWN,
    PROJECTILE_COST, SLAM_COOLDOWN, SLAM_COST, TELEPORTATION_COST, TELEPORT_COOLDOWN,
    TRACKING_PROJECTILE_COOLDOWN, TRACKING_PROJECTILE_COST,
};
use crate::position::{Direction, Position};
use crate::projectile::Projectile;
use crate::tile::{EntityKind, Tile};
use crate::world::{
    boss_blocks, entity_moved, is_boss_room, room_index_spec, spec_can_travel_to, step_position,
    valid_room_coord, Room, World,
};

verus! {

/// The candidate cell one tile ahead of the player along its facing.
pub open spec fn ahead_of_player(w: World) -> Position {
    step_position(w.player.pos, w.player.direction, w.player.speed)
}

/// The world after projectile `pr` was spawned with marker tile `marker`:
/// the projectile appended, the marker written into the active room's
/// atmosphere at the projectile's cell, nothing else changed.
pub open spec fn spawned_projectile(w0: World, w1: World, pr: Projectile, marker: Tile) -> bool {
    let ri = room_index_spec(w0.world_position);
    &&& w1 == (World { rooms: w1.rooms, projectiles: w1.projectiles, ..w0 })
    &&& w1.projectiles@ == w0.projectiles@.push(pr)
    &&& w1.rooms@ == w0.rooms@.update(ri, w1.rooms@[ri])
    &&& w1.rooms@[ri] == (Room { atmosphere: w1.rooms@[ri].atmosphere, ..w0.rooms@[ri] })
    &&& w1.rooms@[ri].atmosphere@ == w0.rooms@[ri].atmosphere@.insert(pr.pos, marker)
}

impl Player {
    /// Executable form of the resolver's collision policy, for callers
    /// validating a cell of room `world_pos`.
    pub fn can_travel_to(world: &World, position: Position, world_pos: Position) -> (r: bool)
        requires
            world.wf(),
            valid_room_coord(world_pos),
        ensures
            r == spec_can_travel_to(*world, position, world_pos),
    {
        world.passable(position, world_pos)
    }

    /// Spawns a tracking missile one tile ahead of the player, with its
    /// atmosphere marker.
    pub fn tracking_projectile_attack(world: &mut World)
        requires
            old(world).wf(),
        ensures
            final(world).wf(),
            spawned_projectile(
                *old(world),
                *final(world),
                (Projectile {
                    pos: ahead_of_player(*old(world)),
                    speed: crate::player::PLAYER_PROJECTILE_SPEED,
                    direction: Direction::North,
                    damage: crate::player::PLAYER_PROJECTILE_DAMAGE,
                    world_pos: old(world).world_position,
                    kind: crate::projectile::ProjectileKind::Tracking,
                }),
                Tile::TrackingProjectile,
            ),
    {
        let pos = world.new_position(world.player.pos, world.player.direction, world.player.speed);
        let rc = world.world_position;
        let pr = Projectile::tracking_projectile(pos.x, pos.y, rc);
        world.projectiles.push(pr);
        let idx = world.room_index(rc);
        let room = &mut world.rooms[idx];
        room.atmosphere.insert(pos, Tile::TrackingProjectile);
        proof {
            assert(world.rooms@ =~= old(world).rooms@.update(
                room_index_spec(rc),
                world.rooms@[room_index_spec(rc)],
            ));
        }
    }

    /// Spawns a flame wave one tile ahead of the player, moving along the
    /// player's facing, with its atmosphere marker.
    pub fn fire_attack(world: &mut World)
        requires
            old(world).wf(),
        ensures
            final(world).wf(),
            spawned_projectile(
                *old(world),
                *final(world),
                (Projectile {
                    pos: ahead_of_player(*old(world)),
                    speed: crate::player::PLAYER_PROJECTILE_SPEED,
                    direction: old(world).player.direction,
                    damage: crate::player::PLAYER_PROJECTILE_DAMAGE,
                    world_pos: old(world).world_position,
                    kind: crate::projectile::ProjectileKind::Fire,
                }),
                Tile::Fire,
            ),
    {
        let pos = world.new_position(world.player.pos, world.player.direction, world.player.speed);
        let rc = world.world_position;
        let pr = Projectile::player_fire(pos.x, pos.y, world.player.direction, rc);
        world.projectiles.push(pr);
        let idx = world.room_index(rc);
        let room = &mut world.rooms[idx];
        room.atmosphere.insert(pos, Tile::Fire);
        proof {
            assert(world.rooms@ =~= old(world).rooms@.update(
                room_index_spec(rc),
                world.rooms@[room_index_spec(rc)],
            ));
        }
    }

    /// Strikes the queued target cell with lightning: a stationary
    /// projectile and its atmosphere marker appear there. The queued
    /// position is consumed but deliberately not cleared.
    pub fn lightning(world: &mut World)
        requires
            old(world).wf(),
            old(world).player.queued_position is Some,
        ensures
            final(world).wf(),
            spawned_projectile(
                *old(world),
                *final(world),
                (Projectile {
                    pos: old(world).player.queued_position->Some_0,
                    speed: 0,
                    direction: Direction::North,
                    damage: crate::player::PLAYER_PROJECTILE_DAMAGE,
                    world_pos: old(world).world_position,
                    kind: crate::projectile::ProjectileKind::Lightning,
                }),
                Tile::Lightning,
            ),
    {
        let pos = match world.player.queued_position {
            Some(p) => p,
            None => {
                proof {
                    assert(false);
                }
                Position { x: 0, y: 0 }
            },
        };
        let rc = world.world_position;
        let pr = Projectile::lightning(pos.x, pos.y, rc);
        world.projectiles.push(pr);
        let idx = world.room_index(rc);
        let room = &mut world.rooms[idx];
        room.atmosphere.insert(pos, Tile::Lightning);
        proof {
            assert(world.rooms@ =~= old(world).rooms@.update(
                room_index_spec(rc),
                world.rooms@[room_index_spec(rc)],
            ));
        }
    }

    /// Teleports the player to the queued target cell when the collision
    /// policy admits it, paying the teleport cost; otherwise nothing
    /// changes. The queued position is consumed but not cleared.
    pub fn teleport(world: &mut World)
        requires
            old(world).wf(),
        ensures
            final(world).wf(),
            teleport_effect(*old(world), *final(world)),
    {
        if let Some(pos) = world.player.queued_position {
            let rc = world.world_position;
            if !(pos.x == world.player.pos.x && pos.y == world.player.pos.y) && world.passable(
                pos,
                rc,
            ) {
                let prev = world.player.pos;
                World::update_position(world, prev, pos);
                world.player.pos = pos;
                world.player.change_energy(-(TELEPORTATION_COST as i32));
                proof {
                    assert(teleport_effect(*old(world), *final(world)));
                }
            }
        }
    }
}

/// Whether a teleport to the queued cell goes through: a target must be
/// queued, differ from the player's cell, and pass the collision policy.
pub open spec fn teleport_goes(w: World) -> bool {
    &&& w.player.queued_position is Some
    &&& w.player.queued_position->Some_0 != w.player.pos
    &&& spec_can_travel_to(w, w.player.queued_position->Some_0, w.world_position)
}

/// What a teleport does: on a valid queued target, the player and its
/// entity-layer entry move there and the cost is paid; otherwise the
/// world is untouched.
pub open spec fn teleport_effect(w0: World, w1: World) -> bool {
    if teleport_goes(w0) {
        let target = w0.player.queued_position->Some_0;
        let ri = room_index_spec(w0.world_position);
        &&& w1 == (World { rooms: w1.rooms, player: w1.player, ..w0 })
        &&& w1.player == (Player { pos: target, energy: w1.player.energy, ..w0.player })
        &&& w1.player.energy == clamped_energy(w0.player.energy - TELEPORTATION_COST)
        &&& w1.rooms@ == w0.rooms@.update(ri, w1.rooms@[ri])
        &&& w1.rooms@[ri] == (Room { entity: w1.rooms@[ri].entity, ..w0.rooms@[ri] })
        &&& w1.rooms@[ri].entity@ == entity_moved(w0.rooms@[ri].entity@, w0.player.pos, target)
    } else {
        w1 == w0
    }
}

/// Whether the boss collaborator currently reports itself targetable.
pub open spec fn boss_targetable(w: World) -> bool {
    match w.boss {
        Some(b) => b.targetable,
        None => false,
    }
}

/// `v` less `d`, floored at zero: how damage lands on a health counter.
pub open spec fn damaged_health(v: u16, d: u16) -> u16 {
    if d >= v {
        0u16
    } else {
        (v - d) as u16
    }
}

/// Energy after the melee strikes on the first `k` enemies: one clamped
/// gain per enemy occupying the attack cell, in registry order.
pub open spec fn melee_energy(enemies: Seq<Enemy>, ap: Position, k: int, e: int) -> int
    decreases k,
{
    if k <= 0 {
        e
    } else {
        let prev = melee_energy(enemies, ap, k - 1, e);
        if enemies[k - 1].pos@.contains(ap) {
            clamped_energy(prev + MELEE_ENERGY_RETURN)
        } else {
            prev
        }
    }
}

/// Whether the entity layer of the active room reports an enemy on the
/// attack cell, which is what lets a melee strike connect.
pub open spec fn melee_connects(w: World) -> bool {
    let ap = ahead_of_player(w);
    let room = w.active_room_spec();
    room.entity@.contains_key(ap) && room.entity@[ap].kind == EntityKind::Enemy
}

/// What a melee attack does: every registry enemy on the attack cell one
/// tile ahead takes melee damage and returns a sip of energy; the boss is
/// struck when the cell lies in its hitbox while targetable.
pub open spec fn melee_effect(w0: World, w1: World, boss_damage: u16) -> bool {
    let ap = ahead_of_player(w0);
    let ri = room_index_spec(w0.world_position);
    let hit = melee_connects(w0);
    let olde = w0.rooms@[ri].enemies@;
    let newe = w1.rooms@[ri].enemies@;
    &&& w1 == (World { rooms: w1.rooms, player: w1.player, ..w0 })
    &&& w1.player == (Player { energy: w1.player.energy, ..w0.player })
    &&& w1.player.energy == if hit {
        melee_energy(olde, ap, olde.len() as int, w0.player.energy as int)
    } else {
        w0.player.energy as int
    }
    &&& w1.rooms@ == w0.rooms@.update(ri, w1.rooms@[ri])
    &&& w1.rooms@[ri] == (Room { enemies: w1.rooms@[ri].enemies, ..w0.rooms@[ri] })
    &&& newe.len() == olde.len()
    &&& forall|j: int|
        0 <= j < olde.len() ==> #[trigger] newe[j] == if hit && olde[j].pos@.contains(ap) {
            (Enemy { health: damaged_health(olde[j].health, PLAYER_MELEE_DAMAGE), ..olde[j] })
        } else {
            olde[j]
        }
    &&& boss_damage == if is_boss_room(w0.world_position) && boss_targetable(w0) && boss_blocks(
        w0,
        ap,
        w0.world_position,
    ) {
        PLAYER_MELEE_DAMAGE
    } else {
        0u16
    }
}

impl Player {
    /// Strikes the cell one tile ahead: each registry enemy on it takes
    /// melee damage and restores a sip of the player's energy; in a boss
    /// room a targetable boss hit by that cell takes melee damage, which
    /// is reported for the host to forward.
    #[verifier::loop_isolation(false)]
    pub fn melee_attack(world: &mut World) -> (boss_damage: u16)
        requires
            old(world).wf(),
        ensures
            final(world).wf(),
            melee_effect(*old(world), *final(world), boss_damage),
    {
        let ap = world.new_position(world.player.pos, world.player.direction, world.player.speed);
        let rc = world.world_position;
        let idx = world.room_index(rc);
        let hit = match world.rooms[idx].entity.get(ap) {
            Some(e) => matches!(e.kind, EntityKind::Enemy),
            None => false,
        };
        if hit {
            let ghost olde = old(world).rooms@[room_index_spec(rc)].enemies@;
            let n = world.rooms[idx].enemies.len();
            let mut i: usize = 0;
            while i < n
                invariant
                    world.wf(),
                    n == olde.len(),
                    i <= n,
                    world.rooms@[room_index_spec(rc)].enemies@.len() == olde.len(),
                    world.rooms@ == old(world).rooms@.update(
                        room_index_spec(rc),
                        world.rooms@[room_index_spec(rc)],
                    ),
                    world.rooms@[room_index_spec(rc)] == (Room {
                        enemies: world.rooms@[room_index_spec(rc)].enemies,
                        ..old(world).rooms@[room_index_spec(rc)]
                    }),
                    *world == (World { rooms: world.rooms, player: world.player, ..*old(world) }),
                    world.player == (Player { energy: world.player.energy, ..old(world).player }),
                    world.player.energy == melee_energy(
                        olde,
                        ap,
                        i as int,
                        old(world).player.energy as int,
                    ),
                    forall|j: int|
                        0 <= j < i ==> #[trigger] world.rooms@[room_index_spec(rc)].enemies@[j]
                            == if olde[j].pos@.contains(ap) {
                            (Enemy {
                                health: damaged_health(olde[j].health, PLAYER_MELEE_DAMAGE),
                                ..olde[j]
                            })
                        } else {
                            olde[j]
                        },
                    forall|j: int|
                        i <= j < n ==> #[trigger] world.rooms@[room_index_spec(rc)].enemies@[j]
                            == olde[j],
                decreases n - i,
            {
                let occupied = crate::world::enemy_occupies(&world.rooms[idx].enemies[i], ap);
                if occupied {
                    let room = &mut world.rooms[idx];
                    let enemy = &mut room.enemies[i];
                    enemy.damage(PLAYER_MELEE_DAMAGE);
                    world.player.change_energy(MELEE_ENERGY_RETURN as i32);
                    proof {
                        assert(world.rooms@ =~= old(world).rooms@.update(
                            room_index_spec(rc),
                            world.rooms@[room_index_spec(rc)],
                        ));
                    }
                }
                i += 1;
            }
            proof {
                assert(world.rooms@ =~= old(world).rooms@.update(
                    room_index_spec(rc),
                    world.rooms@[room_index_spec(rc)],
                ));
            }
        } else {
            proof {
                assert(world.rooms@ =~= old(world).rooms@.update(
                    room_index_spec(rc),
                    world.rooms@[room_index_spec(rc)],
                ));
            }
        }
        if is_boss_room_exec(rc) {
            let hit_info = world.boss_can_hit(ap, rc);
            if hit_info.0 && hit_info.1 {
                return PLAYER_MELEE_DAMAGE;
            }
        }
        0
    }
}

/// The 3-by-3 neighborhood a slam covers: the center cell and its eight
/// neighbors.
pub open spec fn in_slam_zone(center: Position, p: Position) -> bool {
    &&& -1 <= p.x - center.x <= 1
    &&& -1 <= p.y - center.y <= 1
}

/// Whether any cell of enemy `e` lies in the slam zone around `center`.
pub open spec fn enemy_in_zone(e: Enemy, center: Position) -> bool {
    exists|j: int| 0 <= j < e.pos.len() && in_slam_zone(center, #[trigger] e.pos@[j])
}

/// What a slam does: every enemy of the active room occupying any cell of
/// the 3-by-3 neighborhood around the player takes slam damage once; a
/// targetable boss whose hitbox meets the neighborhood takes slam damage,
/// reported for the host to forward. The energy cost is paid by the
/// dispatcher.
pub open spec fn slam_effect(w0: World, w1: World, boss_damage: u16) -> bool {
    let center = w0.player.pos;
    let ri = room_index_spec(w0.world_position);
    let olde = w0.rooms@[ri].enemies@;
    let newe = w1.rooms@[ri].enemies@;
    &&& w1 == (World { rooms: w1.rooms, ..w0 })
    &&& w1.rooms@ == w0.rooms@.update(ri, w1.rooms@[ri])
    &&& w1.rooms@[ri] == (Room { enemies: w1.rooms@[ri].enemies, ..w0.rooms@[ri] })
    &&& newe.len() == olde.len()
    &&& forall|j: int|
        0 <= j < olde.len() ==> #[trigger] newe[j] == if enemy_in_zone(olde[j], center) {
            (Enemy { health: damaged_health(olde[j].health, PLAYER_SLAM_DAMAGE), ..olde[j] })
        } else {
            olde[j]
        }
    &&& boss_damage == if is_boss_room(w0.world_position) && boss_targetable(w0) && (exists|
        c: Position,
    |
        in_slam_zone(w0.player.pos, c) && #[trigger] boss_blocks(w0, c, w0.world_position)) {
        PLAYER_SLAM_DAMAGE
    } else {
        0u16
    }
}

/// Executable test of `in_slam_zone` for one enemy.
fn enemy_zone_check(e: &Enemy, center: Position) -> (r: bool)
    ensures
        r == enemy_in_zone(*e, center),
{
    let n = e.pos.len();
    let mut i: usize = 0;
    while i < n
        invariant
            n == e.pos.len(),
            i <= n,
            forall|j: int| 0 <= j < i ==> !in_slam_zone(center, #[trigger] e.pos@[j]),
        decreases n - i,
    {
        let c = e.pos[i];
        let zx = (c.x as u32) + 1 >= (center.x as u32) && (c.x as u32) <= (center.x as u32) + 1;
        let zy = (c.y as u32) + 1 >= (center.y as u32) && (c.y as u32) <= (center.y as u32) + 1;
        if zx && zy {
            assert(in_slam_zone(center, e.pos@[i as int]));
            return true;
        }
        i += 1;
    }
    false
}

impl Player {
    /// Area melee: damages every enemy occupying the 3-by-3 neighborhood
    /// around the player, and a targetable boss whose hitbox meets it.
    #[verifier::loop_isolation(false)]
    pub fn slam(world: &mut World) -> (boss_damage: u16)
        requires
            old(world).wf(),
        ensures
            final(world).wf(),
            slam_effect(*old(world), *final(world), boss_damage),
    {
        let center = world.player.pos;
        let rc = world.world_position;
        let idx = world.room_index(rc);
        let ghost olde = old(world).rooms@[room_index_spec(rc)].enemies@;
        let n = world.rooms[idx].enemies.len();
        let mut i: usize = 0;
        while i < n
            invariant
                world.wf(),
                n == olde.len(),
                i <= n,
                world.rooms@[room_index_spec(rc)].enemies@.len() == olde.len(),
                world.rooms@ == old(world).rooms@.update(
                    room_index_spec(rc),
                    world.rooms@[room_index_spec(rc)],
                ),
                world.rooms@[room_index_spec(rc)] == (Room {
                    enemies: world.rooms@[room_index_spec(rc)].enemies,
                    ..old(world).rooms@[room_index_spec(rc)]
                }),
                *world == (World { rooms: world.rooms, ..*old(world) }),
                forall|j: int|
                    0 <= j < i ==> #[trigger] world.rooms@[room_index_spec(rc)].enemies@[j]
                        == if enemy_in_zone(olde[j], center) {
                        (Enemy {
                            health: damaged_health(olde[j].health, PLAYER_SLAM_DAMAGE),
                            ..olde[j]
                        })
                    } else {
                        olde[j]
                    },
                forall|j: int|
                    i <= j < n ==> #[trigger] world.rooms@[room_index_spec(rc)].enemies@[j]
                        == olde[j],
            decreases n - i,
        {
            let caught = enemy_zone_check(&world.rooms[idx].enemies[i], center);
            if caught {
                let room = &mut world.rooms[idx];
                let enemy = &mut room.enemies[i];
                enemy.damage(PLAYER_SLAM_DAMAGE);
                proof {
                    assert(world.rooms@ =~= old(world).rooms@.update(
                        room_index_spec(rc),
                        world.rooms@[room_index_spec(rc)],
                    ));
                }
            }
            i += 1;
        }
        proof {
            assert(world.rooms@ =~= old(world).rooms@.update(
                room_index_spec(rc),
                world.rooms@[room_index_spec(rc)],
            ));
        }
        proof {
            assert(world.boss == old(world).boss);
            assert(boss_targetable(*world) == boss_targetable(*old(world)));
            assert forall|c: Position|
                #![trigger boss_blocks(*world, c, rc)]
                #![trigger boss_blocks(*old(world), c, rc)]
                boss_blocks(*world, c, rc) == boss_blocks(*old(world), c, rc) by {}
        }
        if is_boss_room_exec(rc) {
            let found = boss_zone_hit(world, center, rc);
            if found {
                return PLAYER_SLAM_DAMAGE;
            }
        }
        0
    }
}

/// Whether any cell of the 3-by-3 neighborhood around `center` lies in
/// the boss hitbox while the boss is targetable.
fn boss_zone_hit(world: &World, center: Position, rc: Position) -> (r: bool)
    ensures
        r == (boss_targetable(*world) && exists|c: Position|
            in_slam_zone(center, c) && #[trigger] boss_blocks(*world, c, rc)),
{
    let targetable = match &world.boss {
        Some(b) => b.targetable,
        None => false,
    };
    if !targetable {
        proof {
            assert(!(boss_targetable(*world) && exists|c: Position|
                in_slam_zone(center, c) && #[trigger] boss_blocks(*world, c, rc)));
        }
        return false;
    }
    let mut found = false;
    let mut dx: u16 = 0;
    while dx < 3
        invariant
            dx <= 3,
            found ==> exists|c: Position|
                in_slam_zone(center, c) && #[trigger] boss_blocks(*world, c, rc),
            !found ==> forall|c: Position|
                (in_slam_zone(center, c) && c.x + 1 < center.x + dx) ==> !(#[trigger] boss_blocks(
                    *world,
                    c,
                    rc,
                )),
        decreases 3 - dx,
    {
        let mut dy: u16 = 0;
        while dy < 3
            invariant
                dx < 3,
                dy <= 3,
                found ==> exists|c: Position|
                    in_slam_zone(center, c) && #[trigger] boss_blocks(*world, c, rc),
                !found ==> forall|c: Position|
                    (in_slam_zone(center, c) && (c.x + 1 < center.x + dx || (c.x + 1 == center.x
                        + dx && c.y + 1 < center.y + dy))) ==> !(#[trigger] boss_blocks(
                        *world,
                        c,
                        rc,
                    )),
            decreases 3 - dy,
        {
            let cx = (center.x as u32) + (dx as u32);
            let cy = (center.y as u32) + (dy as u32);
            if cx >= 1 && cy >= 1 && cx - 1 <= u16::MAX as u32 && cy - 1 <= u16::MAX as u32 {
                let cell = Position { x: (cx - 1) as u16, y: (cy - 1) as u16 };
                if world.boss_pos_inside(cell, rc) {
                    proof {
                        assert(in_slam_zone(center, cell));
                    }
                    found = true;
                }
            }
            proof {
                if !found {
                    assert forall|c: Position|
                        (in_slam_zone(center, c) && (c.x + 1 < center.x + dx || (c.x + 1 == center.x
                            + dx && c.y + 1 < center.y + dy + 1))) implies !boss_blocks(
                        *world,
                        c,
                        rc,
                    ) by {
                        if c.x + 1 == center.x + dx && c.y + 1 == center.y + dy {
                            assert(c == (Position {
                                x: (center.x + dx - 1) as u16,
                                y: (center.y + dy - 1) as u16,
                            }));
                        }
                    }
                }
            }
            dy += 1;
        }
        dx += 1;
    }
    proof {
        if !found {
            assert forall|c: Position| in_slam_zone(center, c) implies !boss_blocks(
                *world,
                c,
                rc,
            ) by {
                assert(c.x + 1 < center.x + 3 || (c.x + 1 == center.x + 2));
            }
        }
    }
    found
}

/// What a ranged projectile attack does. At a board bound nothing
/// happens. A registry enemy already on the spawn cell takes the shot's
/// damage at once; failing that, in a boss room a targetable boss hit by
/// the spawn cell takes melee-strength damage, reported to the host;
/// otherwise a plain projectile spawns one tile ahead with its
/// atmosphere marker. The energy cost is paid by the dispatcher.
pub open spec fn projectile_attack_effect(w0: World, w1: World, boss_damage: u16) -> bool {
    let ap = ahead_of_player(w0);
    let ri = room_index_spec(w0.world_position);
    let olde = w0.rooms@[ri].enemies@;
    if ap == w0.player.pos {
        w1 == w0 && boss_damage == 0
    } else if exists|j: int| crate::projectile::first_enemy_at(olde, ap, j) {
        let newe = w1.rooms@[ri].enemies@;
        &&& w1 == (World { rooms: w1.rooms, ..w0 })
        &&& w1.rooms@ == w0.rooms@.update(ri, w1.rooms@[ri])
        &&& w1.rooms@[ri] == (Room { enemies: w1.rooms@[ri].enemies, ..w0.rooms@[ri] })
        &&& exists|j: int|
            #![trigger olde[j]]
            {
                &&& crate::projectile::first_enemy_at(olde, ap, j)
                &&& newe == olde.update(
                    j,
                    (Enemy {
                        health: damaged_health(
                            olde[j].health,
                            crate::player::PLAYER_PROJECTILE_DAMAGE,
                        ),
                        ..olde[j]
                    }),
                )
            }
        &&& boss_damage == 0
    } else if is_boss_room(w0.world_position) && boss_targetable(w0) && boss_blocks(
        w0,
        ap,
        w0.world_position,
    ) {
        w1 == w0 && boss_damage == PLAYER_MELEE_DAMAGE
    } else {
        &&& spawned_projectile(
            w0,
            w1,
            (Projectile {
                pos: ap,
                speed: crate::player::PLAYER_PROJECTILE_SPEED,
                direction: w0.player.direction,
                damage: crate::player::PLAYER_PROJECTILE_DAMAGE,
                world_pos: w0.world_position,
                kind: crate::projectile::ProjectileKind::Plain,
            }),
            Tile::Projectile,
        )
        &&& boss_damage == 0
    }
}

impl Player {
    /// Fires a plain projectile one tile ahead, or resolves it at once
    /// against an enemy or the boss already standing there.
    pub fn projectile_attack(world: &mut World) -> (boss_damage: u16)
        requires
            old(world).wf(),
        ensures
            final(world).wf(),
            projectile_attack_effect(*old(world), *final(world), boss_damage),
    {
        let ap = world.new_position(world.player.pos, world.player.direction, world.player.speed);
        let rc = world.world_position;
        if ap == world.player.pos {
            return 0;
        }
        let idx = world.room_index(rc);
        let found = world.rooms[idx].enemy_at(ap);
        if let Some(j) = found {
            let ghost olde = old(world).rooms@[room_index_spec(rc)].enemies@;
            let room = &mut world.rooms[idx];
            let enemy = &mut room.enemies[j];
            enemy.damage(crate::player::PLAYER_PROJECTILE_DAMAGE);
            proof {
                assert(world.rooms@ =~= old(world).rooms@.update(
                    room_index_spec(rc),
                    world.rooms@[room_index_spec(rc)],
                ));
                let newe = world.rooms@[room_index_spec(rc)].enemies@;
                assert(crate::projectile::first_enemy_at(olde, ap, j as int));
                assert(newe =~= olde.update(
                    j as int,
                    (Enemy { health: newe[j as int].health, ..olde[j as int] }),
                ));
            }
            return 0;
        }
        if is_boss_room_exec(rc) {
            let hit_info = world.boss_can_hit(ap, rc);
            if hit_info.0 && hit_info.1 {
                return PLAYER_MELEE_DAMAGE;
            }
        }
        let pr = Projectile::player_projectile(ap.x, ap.y, world.player.direction, rc);
        world.projectiles.push(pr);
        let room = &mut world.rooms[idx];
        room.atmosphere.insert(ap, Tile::Projectile);
        proof {
            assert(world.rooms@ =~= old(world).rooms@.update(
                room_index_spec(rc),
                world.rooms@[room_index_spec(rc)],
            ));
        }
        0
    }
}

/// Whether a build or unbuild at the queued cell goes through: a target
/// within one tile of the player, free of terrain and entities, and with
/// an atmosphere cell that is either empty (build) or already holds a
/// built structure (unbuild).
pub open spec fn build_goes(w: World) -> bool {
    match w.player.queued_position {
        Some(q) => {
            let room = w.active_room_spec();
            &&& -2 < q.x - w.player.pos.x < 2
            &&& -2 < q.y - w.player.pos.y < 2
            &&& !room.terrain@.contains_key(q)
            &&& !room.entity@.contains_key(q)
            &&& (!room.atmosphere@.contains_key(q) || room.atmosphere@[q] == Tile::Structure)
        },
        None => false,
    }
}

/// What a build does: on an empty admissible cell a structure marker is
/// placed and the cost paid; on a cell already holding a structure the
/// marker is removed for free; otherwise nothing changes.
pub open spec fn build_effect(w0: World, w1: World, built: bool) -> bool {
    let ri = room_index_spec(w0.world_position);
    if build_goes(w0) {
        let q = w0.player.queued_position->Some_0;
        &&& built
        &&& w1 == (World { rooms: w1.rooms, player: w1.player, ..w0 })
        &&& w1.rooms@ == w0.rooms@.update(ri, w1.rooms@[ri])
        &&& w1.rooms@[ri] == (Room { atmosphere: w1.rooms@[ri].atmosphere, ..w0.rooms@[ri] })
        &&& if !w0.rooms@[ri].atmosphere@.contains_key(q) {
            &&& w1.rooms@[ri].atmosphere@ == w0.rooms@[ri].atmosphere@.insert(q, Tile::Structure)
            &&& w1.player == (Player {
                energy: (w0.player.energy - BUILD_COST) as u16,
                ..w0.player
            })
        } else {
            &&& w1.rooms@[ri].atmosphere@ == w0.rooms@[ri].atmosphere@.remove(q)
            &&& w1.player == w0.player
        }
    } else {
        !built && w1 == w0
    }
}

impl Player {
    /// Places a structure marker on the queued cell within one tile of
    /// the player, or removes one already built there; reports whether
    /// anything was done, so a failed attempt costs no turn.
    pub fn build(world: &mut World) -> (built: bool)
        requires
            old(world).wf(),
            old(world).player.energy >= BUILD_COST,
        ensures
            final(world).wf(),
            build_effect(*old(world), *final(world), built),
    {
        let q = match world.player.queued_position {
            Some(q) => q,
            None => {
                return false;
            },
        };
        let px = world.player.pos.x;
        let py = world.player.pos.y;
        let near_x = (q.x as u32) + 1 >= (px as u32) && (q.x as u32) <= (px as u32) + 1;
        let near_y = (q.y as u32) + 1 >= (py as u32) && (q.y as u32) <= (py as u32) + 1;
        if !(near_x && near_y) {
            return false;
        }
        let rc = world.world_position;
        let idx = world.room_index(rc);
        if world.rooms[idx].terrain.contains(q) || world.rooms[idx].entity.contains(q) {
            return false;
        }
        let existing: Option<Tile> = match world.rooms[idx].atmosphere.get(q) {
            Some(t) => Some(*t),
            None => None,
        };
        match existing {
            None => {
                let room = &mut world.rooms[idx];
                room.atmosphere.insert(q, Tile::Structure);
                world.player.energy = world.player.energy - BUILD_COST;
                proof {
                    assert(world.rooms@ =~= old(world).rooms@.update(
                        room_index_spec(rc),
                        world.rooms@[room_index_spec(rc)],
                    ));
                }
                true
            },
            Some(Tile::Structure) => {
                let room = &mut world.rooms[idx];
                room.atmosphere.remove(q);
                proof {
                    assert(world.rooms@ =~= old(world).rooms@.update(
                        room_index_spec(rc),
                        world.rooms@[room_index_spec(rc)],
                    ));
                }
                true
            },
            Some(_) => false,
        }
    }
}

/// Executable test for a designated boss room.
pub fn is_boss_room_exec(rc: Position) -> (r: bool)
    ensures
        r == is_boss_room(rc),
{
    rc.x == crate::world::BOSS_ROOM_X && rc.y == crate::world::BOSS_ROOM_Y
}

/// What one dispatched input reports back to the host: whether the turn
/// was consumed, damage to forward to the external boss, and whether the
/// boss collaborator's own turn should advance.
#[derive(Clone, Copy, PartialEq, Eq, Structural, Debug)]
pub struct TurnOutcome {
    pub turn_used: bool,
    pub boss_damage: u16,
    pub advance_boss: bool,
}

/// The ability a key spends a cooldown on, if any.
pub open spec fn used_ability(key: InputKey) -> Option<Ability> {
    match key {
        InputKey::Projectile => Some(Ability::Projectile),
        InputKey::Lightning => Some(Ability::Lightning),
        InputKey::Slam => Some(Ability::Slam),
        InputKey::Fire => Some(Ability::Fire),
        InputKey::Teleport => Some(Ability::Teleport),
        InputKey::Invisibility => Some(Ability::Invisibility),
        InputKey::TrackingProjectile => Some(Ability::TrackingProjectile),
        _ => None,
    }
}

/// The preconditions of each action, evaluated on the pre-state: enough
/// energy, a lapsed cooldown, and for targeted abilities a usable queued
/// target. Movement, turning and melee are always accepted.
pub open spec fn accepts(w: World, key: InputKey) -> bool {
    match key {
        InputKey::MoveNorth => true,
        InputKey::MoveSouth => true,
        InputKey::MoveEast => true,
        InputKey::MoveWest => true,
        InputKey::TurnNorth => true,
        InputKey::TurnSouth => true,
        InputKey::TurnEast => true,
        InputKey::TurnWest => true,
        InputKey::Melee => true,
        InputKey::Projectile => w.player.energy > 0 && w.player.projectile_cooldown == 0,
        InputKey::Heal => w.player.energy >= HEAL_COST && w.player.health < MAX_PLAYER_HEALTH,
        InputKey::Build => w.player.energy > BUILD_COST && build_goes(w),
        InputKey::Lightning => w.player.energy >= LIGHTNING_COST && w.player.lightning_cooldown
            == 0 && w.player.queued_position is Some,
        InputKey::Teleport => w.player.energy >= TELEPORTATION_COST
            && w.player.teleport_cooldown == 0 && teleport_goes(w),
        InputKey::Slam => w.player.slam_cooldown == 0 && w.player.energy >= SLAM_COST,
        InputKey::Fire => w.player.fire_cooldown == 0 && w.player.energy >= FIRE_COST,
        InputKey::Invisibility => w.player.energy >= INVISIBILITY_COST
            && w.player.invisibility_cooldown == 0,
        InputKey::TrackingProjectile => w.player.energy >= TRACKING_PROJECTILE_COST
            && w.player.tracking_projectile_cooldown == 0,
    }
}

/// Cooldown bookkeeping of one accepted action: the used ability's
/// counter is set to its full duration, every other counter ticks down by
/// one, and the invisibility window either starts or shortens.
pub open spec fn cooldowns_after(p0: Player, p1: Player, used: Option<Ability>) -> bool {
    &&& p1.projectile_cooldown == if used == Some(Ability::Projectile) {
        PROJECTILE_COOLDOWN
    } else {
        ticked(p0.projectile_cooldown)
    }
    &&& p1.lightning_cooldown == if used == Some(Ability::Lightning) {
        LIGHTNING_COOLDOWN
    } else {
        ticked(p0.lightning_cooldown)
    }
    &&& p1.slam_cooldown == if used == Some(Ability::Slam) {
        SLAM_COOLDOWN
    } else {
        ticked(p0.slam_cooldown)
    }
    &&& p1.fire_cooldown == if used == Some(Ability::Fire) {
        FIRE_COOLDOWN
    } else {
        ticked(p0.fire_cooldown)
    }
    &&& p1.teleport_cooldown == if used == Some(Ability::Teleport) {
        TELEPORT_COOLDOWN
    } else {
        ticked(p0.teleport_cooldown)
    }
    &&& p1.invisibility_cooldown == if used == Some(Ability::Invisibility) {
        INVISIBILITY_COOLDOWN
    } else {
        ticked(p0.invisibility_cooldown)
    }
    &&& p1.tracking_projectile_cooldown == if used == Some(Ability::TrackingProjectile) {
        TRACKING_PROJECTILE_COOLDOWN
    } else {
        ticked(p0.tracking_projectile_cooldown)
    }
    &&& p1.visible == if used == Some(Ability::Invisibility) {
        INVISIBILITY_DURATION
    } else {
        ticked(p0.visible)
    }
}

/// `w` with the cooldown counters and invisibility window of `p`: used to
/// separate an action's world effect from the shared cooldown tick.
pub open spec fn with_cooldowns_of(w: World, p: Player) -> World {
    World {
        player: Player {
            projectile_cooldown: p.projectile_cooldown,
            lightning_cooldown: p.lightning_cooldown,
            slam_cooldown: p.slam_cooldown,
            fire_cooldown: p.fire_cooldown,
            teleport_cooldown: p.teleport_cooldown,
            invisibility_cooldown: p.invisibility_cooldown,
            tracking_projectile_cooldown: p.tracking_projectile_cooldown,
            visible: p.visible,
            ..w.player
        },
        ..w
    }
}

/// `w` after an energy cost was paid, clamped at zero.
pub open spec fn energy_paid(w: World, cost: u16) -> World {
    World {
        player: Player { energy: clamped_energy(w.player.energy - cost) as u16, ..w.player },
        ..w
    }
}

/// `w` facing the player toward `d`.
pub open spec fn turned(w: World, d: Direction) -> World {
    World { player: Player { direction: d, ..w.player }, ..w }
}

/// What a strafing move does, cooldown tick aside: one travel step facing
/// `d`, the facing restored afterwards; a stunned player loses a stun
/// tick instead of moving; at a board bound or against a blocked cell
/// nothing moves.
pub open spec fn move_effect(w0: World, w1: World, d: Direction) -> bool {
    let wd = turned(w0, d);
    let o = w0.player.pos;
    let c = crate::world::travel_candidate(wd, crate::world::Entity::Player);
    let ri = room_index_spec(w0.world_position);
    &&& w1 == (World { rooms: w1.rooms, player: w1.player, ..w0 })
    &&& w1.player == (Player { pos: w1.player.pos, stun_timer: w1.player.stun_timer, ..w0.player })
    &&& if c == o {
        w1.player.pos == o && w1.player.stun_timer == w0.player.stun_timer && w1.rooms == w0.rooms
    } else if w0.player.stun_timer > 0 {
        w1.player.pos == o && w1.player.stun_timer == w0.player.stun_timer - 1 && w1.rooms
            == w0.rooms
    } else if spec_can_travel_to(wd, c, w0.world_position) {
        &&& w1.player.pos == c
        &&& w1.player.stun_timer == w0.player.stun_timer
        &&& w1.rooms@ == w0.rooms@.update(ri, w1.rooms@[ri])
        &&& w1.rooms@[ri] == (Room { entity: w1.rooms@[ri].entity, ..w0.rooms@[ri] })
        &&& w1.rooms@[ri].entity@ == entity_moved(w0.rooms@[ri].entity@, o, c)
    } else {
        w1.player.pos == o && w1.player.stun_timer == w0.player.stun_timer && w1.rooms == w0.rooms
    }
}

/// One strafing move: face `d`, attempt the step, tick the cooldowns,
/// restore the facing.
#[verifier::loop_isolation(false)]
fn strafe(world: &mut World, d: Direction)
    requires
        old(world).wf(),
    ensures
        final(world).wf(),
        cooldowns_after(old(world).player, final(world).player, None),
        move_effect(*old(world), with_cooldowns_of(*final(world), old(world).player), d),
{
    let old_direction = world.player.direction;
    world.player.direction = d;
    let ghost wd = *world;
    let _moved = World::travel(world, crate::world::Entity::Player);
    let ghost wt = *world;
    world.player.advance_cooldowns(None);
    world.player.direction = old_direction;
    proof {
        assert(wd == turned(*old(world), d));
        let w1 = with_cooldowns_of(*final(world), old(world).player);
        assert(w1 == (World {
            player: (Player { direction: old_direction, ..wt.player }),
            ..wt
        }));
        assert(move_effect(*old(world), w1, d));
    }
}

impl Player {
    /// The action/cooldown controller: maps one logical input event to
    /// one action, checks that action's preconditions, and either
    /// rejects it — leaving the world untouched and consuming no turn —
    /// or applies its effect, pays its energy cost, starts its cooldown
    /// and advances every other cooldown by the shared turn tick. In a
    /// boss room an accepted action also asks the host to advance the
    /// external boss, and any damage dealt to it is reported back.
    pub fn use_input(world: &mut World, key: InputKey) -> (outcome: TurnOutcome)
        requires
            old(world).wf(),
        ensures
            final(world).wf(),
            outcome.turn_used == accepts(*old(world), key),
            !outcome.turn_used ==> *final(world) == *old(world) && outcome.boss_damage == 0
                && !outcome.advance_boss,
            outcome.advance_boss == (outcome.turn_used && is_boss_room(old(world).world_position)),
            outcome.turn_used ==> cooldowns_after(
                old(world).player,
                final(world).player,
                used_ability(key),
            ),
            outcome.turn_used ==> ({
                let w0 = *old(world);
                let wc = with_cooldowns_of(*final(world), old(world).player);
                match key {
                    InputKey::MoveNorth => move_effect(w0, wc, Direction::North)
                        && outcome.boss_damage == 0,
                    InputKey::MoveSouth => move_effect(w0, wc, Direction::South)
                        && outcome.boss_damage == 0,
                    InputKey::MoveEast => move_effect(w0, wc, Direction::East)
                        && outcome.boss_damage == 0,
                    InputKey::MoveWest => move_effect(w0, wc, Direction::West)
                        && outcome.boss_damage == 0,
                    InputKey::TurnNorth => wc == turned(w0, Direction::North)
                        && outcome.boss_damage == 0,
                    InputKey::TurnSouth => wc == turned(w0, Direction::South)
                        && outcome.boss_damage == 0,
                    InputKey::TurnEast => wc == turned(w0, Direction::East) && outcome.boss_damage
                        == 0,
                    InputKey::TurnWest => wc == turned(w0, Direction::West) && outcome.boss_damage
                        == 0,
                    InputKey::Melee => melee_effect(w0, wc, outcome.boss_damage),
                    InputKey::Projectile => projectile_attack_effect(
                        energy_paid(w0, PROJECTILE_COST),
                        wc,
                        outcome.boss_damage,
                    ),
                    InputKey::Heal => wc == (World {
                        player: (Player {
                            health: if w0.player.health + HEAL_ABILITY_RETURN
                                > MAX_PLAYER_HEALTH {
                                MAX_PLAYER_HEALTH
                            } else {
                                (w0.player.health + HEAL_ABILITY_RETURN) as u16
                            },
                            energy: (w0.player.energy - HEAL_COST) as u16,
                            ..w0.player
                        }),
                        ..w0
                    }) && outcome.boss_damage == 0,
                    InputKey::Build => build_effect(w0, wc, true) && outcome.boss_damage == 0,
                    InputKey::Lightning => spawned_projectile(
                        energy_paid(w0, LIGHTNING_COST),
                        wc,
                        (Projectile {
                            pos: w0.player.queued_position->Some_0,
                            speed: 0,
                            direction: Direction::North,
                            damage: crate::player::PLAYER_PROJECTILE_DAMAGE,
                            world_pos: w0.world_position,
                            kind: crate::projectile::ProjectileKind::Lightning,
                        }),
                        Tile::Lightning,
                    ) && outcome.boss_damage == 0,
                    InputKey::Teleport => teleport_effect(w0, wc) && outcome.boss_damage == 0,
                    InputKey::Slam => slam_effect(
                        energy_paid(w0, SLAM_COST),
                        wc,
                        outcome.boss_damage,
                    ),
                    InputKey::Fire => spawned_projectile(
                        energy_paid(w0, FIRE_COST),
                        wc,
                        (Projectile {
                            pos: ahead_of_player(w0),
                            speed: crate::player::PLAYER_PROJECTILE_SPEED,
                            direction: w0.player.direction,
                            damage: crate::player::PLAYER_PROJECTILE_DAMAGE,
                            world_pos: w0.world_position,
                            kind: crate::projectile::ProjectileKind::Fire,
                        }),
                        Tile::Fire,
                    ) && outcome.boss_damage == 0,
                    InputKey::Invisibility => wc == energy_paid(w0, INVISIBILITY_COST)
                        && outcome.boss_damage == 0,
                    InputKey::TrackingProjectile => spawned_projectile(
                        energy_paid(w0, TRACKING_PROJECTILE_COST),
                        wc,
                        (Projectile {
                            pos: ahead_of_player(w0),
                            speed: crate::player::PLAYER_PROJECTILE_SPEED,
                            direction: Direction::North,
                            damage: crate::player::PLAYER_PROJECTILE_DAMAGE,
                            world_pos: w0.world_position,
                            kind: crate::projectile::ProjectileKind::Tracking,
                        }),
                        Tile::TrackingProjectile,
                    ) && outcome.boss_damage == 0,
                }
            }),
    {
        let rejected = TurnOutcome { turn_used: false, boss_damage: 0, advance_boss: false };
        let mut boss_damage: u16 = 0;
        match key {
            InputKey::MoveNorth => {
                strafe(world, Direction::North);
            },
            InputKey::MoveSouth => {
                strafe(world, Direction::South);
            },
            InputKey::MoveEast => {
                strafe(world, Direction::East);
            },
            InputKey::MoveWest => {
                strafe(world, Direction::West);
            },
            InputKey::TurnNorth => {
                world.player.direction = Direction::North;
                world.player.advance_cooldowns(None);
            },
            InputKey::TurnSouth => {
                world.player.direction = Direction::South;
                world.player.advance_cooldowns(None);
            },
            InputKey::TurnEast => {
                world.player.direction = Direction::East;
                world.player.advance_cooldowns(None);
            },
            InputKey::TurnWest => {
                world.player.direction = Direction::West;
                world.player.advance_cooldowns(None);
            },
            InputKey::Melee => {
                boss_damage = Player::melee_attack(world);
                world.player.advance_cooldowns(None);
            },
            InputKey::Projectile => {
                if !(world.player.energy > 0 && world.player.projectile_cooldown == 0) {
                    return rejected;
                }
                world.player.change_energy(-(PROJECTILE_COST as i32));
                boss_damage = Player::projectile_attack(world);
                world.player.advance_cooldowns(Some(Ability::Projectile));
                world.player.projectile_cooldown = PROJECTILE_COOLDOWN;
            },
            InputKey::Heal => {
                if !(world.player.energy >= HEAL_COST && world.player.health
                    < MAX_PLAYER_HEALTH) {
                    return rejected;
                }
                let h = world.player.health + HEAL_ABILITY_RETURN;
                world.player.health = if h > MAX_PLAYER_HEALTH {
                    MAX_PLAYER_HEALTH
                } else {
                    h
                };
                world.player.energy = world.player.energy - HEAL_COST;
                world.player.advance_cooldowns(None);
            },
            InputKey::Build => {
                if !(world.player.energy > BUILD_COST) {
                    return rejected;
                }
                let built = Player::build(world);
                if !built {
                    return rejected;
                }
                world.player.advance_cooldowns(None);
            },
            InputKey::Lightning => {
                if !(world.player.energy >= LIGHTNING_COST && world.player.lightning_cooldown == 0
                    && world.player.queued_position.is_some()) {
                    return rejected;
                }
                world.player.change_energy(-(LIGHTNING_COST as i32));
                Player::lightning(world);
                world.player.advance_cooldowns(Some(Ability::Lightning));
                world.player.lightning_cooldown = LIGHTNING_COOLDOWN;
            },
            InputKey::Teleport => {
                let target_valid = match world.player.queued_position {
                    Some(q) => {
                        let rc = world.world_position;
                        !(q.x == world.player.pos.x && q.y == world.player.pos.y)
                            && world.passable(q, rc)
                    },
                    None => false,
                };
                if !(world.player.energy >= TELEPORTATION_COST && world.player.teleport_cooldown
                    == 0 && target_valid) {
                    return rejected;
                }
                Player::teleport(world);
                world.player.advance_cooldowns(Some(Ability::Teleport));
                world.player.teleport_cooldown = TELEPORT_COOLDOWN;
            },
            InputKey::Slam => {
                if !(world.player.slam_cooldown == 0 && world.player.energy >= SLAM_COST) {
                    return rejected;
                }
                world.player.change_energy(-(SLAM_COST as i32));
                boss_damage = Player::slam(world);
                world.player.advance_cooldowns(Some(Ability::Slam));
                world.player.slam_cooldown = SLAM_COOLDOWN;
            },
            InputKey::Fire => {
                if !(world.player.fire_cooldown == 0 && world.player.energy >= FIRE_COST) {
                    return rejected;
                }
                world.player.change_energy(-(FIRE_COST as i32));
                Player::fire_attack(world);
                world.player.advance_cooldowns(Some(Ability::Fire));
                world.player.fire_cooldown = FIRE_COOLDOWN;
            },
            InputKey::Invisibility => {
                if !(world.player.energy >= INVISIBILITY_COST
                    && world.player.invisibility_cooldown == 0) {
                    return rejected;
                }
                world.player.change_energy(-(INVISIBILITY_COST as i32));
                world.player.advance_cooldowns(Some(Ability::Invisibility));
                world.player.visible = INVISIBILITY_DURATION;
                world.player.invisibility_cooldown = INVISIBILITY_COOLDOWN;
            },
            InputKey::TrackingProjectile => {
                if !(world.player.energy >= TRACKING_PROJECTILE_COST
                    && world.player.tracking_projectile_cooldown == 0) {
                    return rejected;
                }
                world.player.change_energy(-(TRACKING_PROJECTILE_COST as i32));
                Player::tracking_projectile_attack(world);
                world.player.advance_cooldowns(Some(Ability::TrackingProjectile));
                world.player.tracking_projectile_cooldown = TRACKING_PROJECTILE_COOLDOWN;
            },
        }
        let advance_boss = is_boss_room_exec(world.world_position);
        TurnOutcome { turn_used: true, boss_damage, advance_boss }
    }
}

} // verus!
