//! Projectiles: global registry entries that move one step per tick and
//! resolve on contact.

use vstd::prelude::*;

use crate::enemy::Enemy;
use crate::player::{Player, PLAYER_PROJECTILE_DAMAGE, PLAYER_PROJECTILE_SPEED};
use crate::position::{Direction, Position};
use crate::tile::EntityKind;
use crate::world::{
    occupies, room_index_spec, spec_can_travel_to, step_position, Entity, Room, World,
};

verus! {

/// What fired the projectile and how it behaves in flight.
#[derive(Clone, Copy, PartialEq, Eq, Structural, Debug)]
pub enum ProjectileKind {
    Plain,
    Tracking,
    Fire,
    Lightning,
}

/// One projectile in flight. Its visual marker lives in the atmosphere
/// layer of its room, at `pos`.
#[derive(Clone, Copy, PartialEq, Eq, Structural, Debug)]
pub struct Projectile {
    pub pos: Position,
    pub speed: u16,
    pub direction: Direction,
    pub damage: u16,
    /// The room the projectile flies in.
    pub world_pos: Position,
    pub kind: ProjectileKind,
}

impl Projectile {
    pub fn new(
        x: u16,
        y: u16,
        speed: u16,
        direction: Direction,
        damage: u16,
        world_pos: Position,
        kind: ProjectileKind,
    ) -> (p: Projectile)
        ensures
            p == (Projectile { pos: Position { x, y }, speed, direction, damage, world_pos, kind }),
    {
        Projectile { pos: Position { x, y }, speed, direction, damage, world_pos, kind }
    }

    /// A plain player shot.
    pub fn player_projectile(x: u16, y: u16, direction: Direction, world_pos: Position) -> (p:
        Projectile)
        ensures
            p == (Projectile {
                pos: Position { x, y },
                speed: PLAYER_PROJECTILE_SPEED,
                direction,
                damage: PLAYER_PROJECTILE_DAMAGE,
                world_pos,
                kind: ProjectileKind::Plain,
            }),
    {
        Projectile {
            pos: Position { x, y },
            speed: PLAYER_PROJECTILE_SPEED,
            direction,
            damage: PLAYER_PROJECTILE_DAMAGE,
            world_pos,
            kind: ProjectileKind::Plain,
        }
    }

    /// A tracking missile.
    pub fn tracking_projectile(x: u16, y: u16, world_pos: Position) -> (p: Projectile)
        ensures
            p == (Projectile {
                pos: Position { x, y },
                speed: PLAYER_PROJECTILE_SPEED,
                direction: Direction::North,
                damage: PLAYER_PROJECTILE_DAMAGE,
                world_pos,
                kind: ProjectileKind::Tracking,
            }),
    {
        Projectile {
            pos: Position { x, y },
            speed: PLAYER_PROJECTILE_SPEED,
            direction: Direction::North,
            damage: PLAYER_PROJECTILE_DAMAGE,
            world_pos,
            kind: ProjectileKind::Tracking,
        }
    }

    /// A flame wave moving along `direction`.
    pub fn player_fire(x: u16, y: u16, direction: Direction, world_pos: Position) -> (p: Projectile)
        ensures
            p == (Projectile {
                pos: Position { x, y },
                speed: PLAYER_PROJECTILE_SPEED,
                direction,
                damage: PLAYER_PROJECTILE_DAMAGE,
                world_pos,
                kind: ProjectileKind::Fire,
            }),
    {
        Projectile {
            pos: Position { x, y },
            speed: PLAYER_PROJECTILE_SPEED,
            direction,
            damage: PLAYER_PROJECTILE_DAMAGE,
            world_pos,
            kind: ProjectileKind::Fire,
        }
    }

    /// Clears the atmosphere-layer marker of projectile `index`, in the
    /// projectile's own room. The list entry itself is removed by
    /// `update`, which calls this; together they are one atomic removal.
    pub fn kill(index: usize, world: &mut World)
        requires
            old(world).wf(),
            index < old(world).projectiles.len(),
        ensures
            final(world).wf(),
            ({
                let rc = old(world).projectiles@[index as int].world_pos;
                let ri = room_index_spec(rc);
                &&& final(world).rooms@ == old(world).rooms@.update(ri, final(world).rooms@[ri])
                &&& final(world).rooms@[ri] == (Room {
                    atmosphere: final(world).rooms@[ri].atmosphere,
                    ..old(world).rooms@[ri]
                })
                &&& final(world).rooms@[ri].atmosphere@ == old(world).rooms@[ri].atmosphere@.remove(
                    old(world).projectiles@[index as int].pos,
                )
            }),
            final(world).world_position == old(world).world_position,
            final(world).player == old(world).player,
            final(world).projectiles == old(world).projectiles,
            final(world).boss == old(world).boss,
            final(world).x_offset == old(world).x_offset,
            final(world).y_offset == old(world).y_offset,
    {
        let rc = world.projectiles[index].world_pos;
        let ppos = world.projectiles[index].pos;
        let idx = world.room_index(rc);
        let room = &mut world.rooms[idx];
        room.atmosphere.remove(ppos);
        proof {
            assert(final(world).rooms@ =~= old(world).rooms@.update(
                room_index_spec(rc),
                final(world).rooms@[room_index_spec(rc)],
            ));
        }
    }

    /// A lightning strike pinned to the queued target cell.
    pub fn lightning(x: u16, y: u16, world_pos: Position) -> (p: Projectile)
        ensures
            p == (Projectile {
                pos: Position { x, y },
                speed: 0,
                direction: Direction::North,
                damage: PLAYER_PROJECTILE_DAMAGE,
                world_pos,
                kind: ProjectileKind::Lightning,
            }),
    {
        Projectile {
            pos: Position { x, y },
            speed: 0,
            direction: Direction::North,
            damage: PLAYER_PROJECTILE_DAMAGE,
            world_pos,
            kind: ProjectileKind::Lightning,
        }
    }
}

/// How one projectile tick resolves.
#[derive(Clone, Copy, PartialEq, Eq, Structural, Debug)]
pub enum ProjectileFate {
    /// The projectile advanced one step and stays in flight.
    Moved,
    /// Blocked or at a board bound: destroyed without damage.
    Blocked,
    /// Overlapped an enemy: damage dealt, projectile destroyed.
    HitEnemy,
    /// Overlapped the player: damage dealt, projectile destroyed.
    HitPlayer,
}

/// The fate one tick of projectile `i` resolves to, read off the
/// pre-state: a clamped candidate equal to the current cell destroys the
/// projectile; an occupant decides between damage and plain blockage; an
/// empty cell is entered if the collision policy allows it.
pub open spec fn projectile_outcome(w: World, i: int) -> ProjectileFate {
    let p = w.projectiles@[i];
    let c = step_position(p.pos, p.direction, p.speed);
    let room = w.room_spec(p.world_pos);
    if c == p.pos {
        ProjectileFate::Blocked
    } else if room.entity@.contains_key(c) {
        if room.entity@[c].kind == EntityKind::Enemy {
            ProjectileFate::HitEnemy
        } else if room.entity@[c].kind == EntityKind::Player {
            ProjectileFate::HitPlayer
        } else {
            ProjectileFate::Blocked
        }
    } else if !spec_can_travel_to(w, c, p.world_pos) {
        ProjectileFate::Blocked
    } else {
        ProjectileFate::Moved
    }
}

/// Whether `j` is the first registry index whose enemy occupies `c`.
pub open spec fn first_enemy_at(enemies: Seq<Enemy>, c: Position, j: int) -> bool {
    &&& 0 <= j < enemies.len()
    &&& occupies(enemies[j], c)
    &&& forall|k: int| 0 <= k < j ==> !occupies(#[trigger] enemies[k], c)
}

/// Everything one verified tick of projectile `i` guarantees, as a
/// relation between the pre-state `w0` and the post-state `w1`; `step`
/// ensures exactly this, and the per-tick pass is its fold.
pub open spec fn projectile_step_effect(w0: World, w1: World, i: int) -> bool {
    let fate = projectile_outcome(w0, i);
    let p = w0.projectiles@[i];
    let c = step_position(p.pos, p.direction, p.speed);
    let ri = room_index_spec(p.world_pos);
    &&& w1.wf()
    &&& w1.world_position == w0.world_position
    &&& w1.boss == w0.boss
    &&& w1.x_offset == w0.x_offset
    &&& w1.y_offset == w0.y_offset
    &&& fate == ProjectileFate::Moved ==> {
        &&& w1.player == w0.player
        &&& w1.projectiles@ == w0.projectiles@.update(i, (Projectile { pos: c, ..p }))
        &&& w1.rooms@ == w0.rooms@.update(ri, w1.rooms@[ri])
        &&& w1.rooms@[ri] == (Room { atmosphere: w1.rooms@[ri].atmosphere, ..w0.rooms@[ri] })
        &&& w1.rooms@[ri].atmosphere@ == crate::world::marker_moved(
            w0.rooms@[ri].atmosphere@,
            p.pos,
            c,
        )
    }
    &&& fate != ProjectileFate::Moved ==> {
        &&& w1.projectiles@ == w0.projectiles@.remove(i)
        &&& w1.rooms@ == w0.rooms@.update(ri, w1.rooms@[ri])
        &&& w1.rooms@[ri] == (Room {
            atmosphere: w1.rooms@[ri].atmosphere,
            enemies: w1.rooms@[ri].enemies,
            ..w0.rooms@[ri]
        })
        &&& w1.rooms@[ri].atmosphere@ == w0.rooms@[ri].atmosphere@.remove(p.pos)
    }
    &&& fate == ProjectileFate::Blocked ==> {
        &&& w1.player == w0.player
        &&& w1.rooms@[ri].enemies == w0.rooms@[ri].enemies
    }
    &&& fate == ProjectileFate::HitPlayer ==> {
        &&& w1.rooms@[ri].enemies == w0.rooms@[ri].enemies
        &&& w1.player == (Player {
            health: w1.player.health,
            alive: w1.player.alive,
            ..w0.player
        })
        &&& w1.player.health == if p.damage >= w0.player.health {
            0u16
        } else {
            (w0.player.health - p.damage) as u16
        }
        &&& !w1.player.alive ==> (p.damage >= w0.player.health || !w0.player.alive)
    }
    &&& fate == ProjectileFate::HitEnemy ==> {
        &&& w1.player == w0.player
        &&& {
            let olde = w0.rooms@[ri].enemies@;
            let newe = w1.rooms@[ri].enemies@;
            if exists|j: int| first_enemy_at(olde, c, j) {
                exists|j: int|
                    #![trigger olde[j]]
                    {
                        &&& first_enemy_at(olde, c, j)
                        &&& newe == olde.update(
                            j,
                            (Enemy { health: newe[j].health, ..olde[j] }),
                        )
                        &&& newe[j].health == if p.damage >= olde[j].health {
                            0u16
                        } else {
                            (olde[j].health - p.damage) as u16
                        }
                    }
            } else {
                newe == olde
            }
        }
    }
}

impl Projectile {
    /// Resolves one tick of projectile `i`: moves it one step, or
    /// destroys it, dealing its damage to whatever it struck.
    pub fn step(world: &mut World, i: usize) -> (fate: ProjectileFate)
        requires
            old(world).wf(),
            i < old(world).projectiles.len(),
        ensures
            final(world).wf(),
            fate == projectile_outcome(*old(world), i as int),
            projectile_step_effect(*old(world), *final(world), i as int),
    {
        let p = world.projectiles[i];
        let cand = world.new_position(p.pos, p.direction, p.speed);
        let rc = p.world_pos;
        let idx = world.room_index(rc);
        if cand == p.pos {
            Projectile::kill(i, world);
            world.projectiles.remove(i);
            return ProjectileFate::Blocked;
        }
        let occupant: Option<EntityKind> = match world.rooms[idx].entity.get(cand) {
            Some(e) => Some(e.kind),
            None => None,
        };
        match occupant {
            Some(EntityKind::Enemy) => {
                let found = world.rooms[idx].enemy_at(cand);
                if let Some(j) = found {
                    let room = &mut world.rooms[idx];
                    let enemy = &mut room.enemies[j];
                    enemy.damage(p.damage);
                    proof {
                        assert(world.rooms@ =~= old(world).rooms@.update(
                            room_index_spec(rc),
                            world.rooms@[room_index_spec(rc)],
                        ));
                    }
                }
                Projectile::kill(i, world);
                world.projectiles.remove(i);
                proof {
                    assert(world.rooms@ =~= old(world).rooms@.update(
                        room_index_spec(rc),
                        world.rooms@[room_index_spec(rc)],
                    ));
                    if let Some(j) = found {
                        let olde = old(world).rooms@[room_index_spec(rc)].enemies@;
                        let newe = final(world).rooms@[room_index_spec(rc)].enemies@;
                        assert(first_enemy_at(olde, cand, j as int));
                        assert(newe =~= olde.update(
                            j as int,
                            (Enemy { health: newe[j as int].health, ..olde[j as int] }),
                        ));
                    }
                }
                ProjectileFate::HitEnemy
            },
            Some(EntityKind::Player) => {
                world.player.damage(p.damage);
                Projectile::kill(i, world);
                world.projectiles.remove(i);
                proof {
                    assert(world.rooms@ =~= old(world).rooms@.update(
                        room_index_spec(rc),
                        world.rooms@[room_index_spec(rc)],
                    ));
                }
                ProjectileFate::HitPlayer
            },
            Some(EntityKind::Projectile) => {
                Projectile::kill(i, world);
                world.projectiles.remove(i);
                ProjectileFate::Blocked
            },
            None => {
                if world.passable(cand, rc) {
                    let moved = World::travel(world, Entity::Projectile(i));
                    proof {
                        assert(moved);
                    }
                    ProjectileFate::Moved
                } else {
                    Projectile::kill(i, world);
                    world.projectiles.remove(i);
                    ProjectileFate::Blocked
                }
            },
        }
    }
}

/// The per-tick pass as a fold of the verified single step: `w1` results
/// from `w0` by resolving projectile indices `hi - 1` down to `lo`, each
/// tick related to the next world by `projectile_step_effect`.
pub open spec fn projectile_pass(w0: World, w1: World, hi: int, lo: int) -> bool
    decreases hi - lo,
{
    if hi <= lo {
        w1 == w0
    } else {
        exists|wm: World|
            #![trigger projectile_step_effect(w0, wm, hi - 1)]
            projectile_step_effect(w0, wm, hi - 1) && projectile_pass(wm, w1, hi - 1, lo)
    }
}

/// Extending a pass by one more step at its low end.
proof fn lemma_projectile_pass_extend(w0: World, wm: World, w1: World, hi: int, lo: int)
    requires
        lo >= 0,
        hi >= lo + 1,
        projectile_pass(w0, wm, hi, lo + 1),
        projectile_step_effect(wm, w1, lo),
    ensures
        projectile_pass(w0, w1, hi, lo),
    decreases hi - lo,
{
    if hi == lo + 1 {
        assert(wm == w0);
        assert(projectile_step_effect(w0, w1, lo));
        assert(projectile_pass(w1, w1, lo, lo));
        assert(projectile_pass(w0, w1, hi, lo));
    } else {
        let wx = choose|wx: World|
            #![trigger projectile_step_effect(w0, wx, hi - 1)]
            projectile_step_effect(w0, wx, hi - 1) && projectile_pass(wx, wm, hi - 1, lo + 1);
        lemma_projectile_pass_extend(wx, wm, w1, hi - 1, lo);
        assert(projectile_pass(w0, w1, hi, lo));
    }
}

/// Frame of one projectile tick on a room: terrain and entity layers are
/// untouched, and enemies change at most by losing health.
pub open spec fn tick_room_frame(cur: Room, orig: Room) -> bool {
    &&& cur.terrain == orig.terrain
    &&& cur.entity == orig.entity
    &&& cur.enemies@.len() == orig.enemies@.len()
    &&& forall|j: int|
        0 <= j < cur.enemies@.len() ==> (#[trigger] cur.enemies@[j]) == (Enemy {
            health: cur.enemies@[j].health,
            ..orig.enemies@[j]
        }) && cur.enemies@[j].health <= orig.enemies@[j].health
}

/// Frame of the projectile pass on the world: only atmosphere markers,
/// the projectile list, enemy healths and the player's health can change.
pub open spec fn projectile_tick_frame(cur: World, orig: World) -> bool {
    &&& cur.world_position == orig.world_position
    &&& cur.boss == orig.boss
    &&& cur.x_offset == orig.x_offset
    &&& cur.y_offset == orig.y_offset
    &&& cur.player == (Player {
        health: cur.player.health,
        alive: cur.player.alive,
        ..orig.player
    })
    &&& cur.player.health <= orig.player.health
    &&& cur.projectiles@.len() <= orig.projectiles@.len()
    &&& cur.rooms@.len() == orig.rooms@.len()
    &&& forall|r: int|
        0 <= r < cur.rooms@.len() ==> tick_room_frame(#[trigger] cur.rooms@[r], orig.rooms@[r])
}

impl Projectile {
    /// One tick of every projectile, in reverse index order so removal
    /// never corrupts the iteration: each attempts one step via the
    /// resolver and is destroyed when blocked, damaging whatever it
    /// overlaps.
    #[verifier::loop_isolation(false)]
    pub fn update(world: &mut World)
        requires
            old(world).wf(),
        ensures
            final(world).wf(),
            projectile_tick_frame(*final(world), *old(world)),
            projectile_pass(
                *old(world),
                *final(world),
                old(world).projectiles@.len() as int,
                0,
            ),
    {
        let mut i: usize = world.projectiles.len();
        proof {
            assert(projectile_pass(
                *old(world),
                *world,
                old(world).projectiles@.len() as int,
                i as int,
            ));
        }
        while i > 0
            invariant
                world.wf(),
                i <= world.projectiles@.len(),
                projectile_tick_frame(*world, *old(world)),
                projectile_pass(*old(world), *world, old(world).projectiles@.len() as int, i as int),
            decreases i,
        {
            i -= 1;
            let ghost pre = *world;
            let fate = Projectile::step(world, i);
            proof {
                assert(projectile_step_effect(pre, *world, i as int));
                lemma_projectile_pass_extend(
                    *old(world),
                    pre,
                    *world,
                    old(world).projectiles@.len() as int,
                    i as int,
                );
                let ri = room_index_spec(pre.projectiles@[i as int].world_pos);
                assert forall|r: int|
                    0 <= r < world.rooms@.len() implies tick_room_frame(
                    #[trigger] world.rooms@[r],
                    old(world).rooms@[r],
                ) by {
                    assert(tick_room_frame(pre.rooms@[r], old(world).rooms@[r]));
                    if r != ri {
                        assert(world.rooms@[r] == pre.rooms@[r]);
                    }
                }
            }
        }
    }
}

} // verus!
