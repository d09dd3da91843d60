//! The world: a fixed grid of rooms, each with three sparse tile layers and
//! an enemy registry, plus the player, the global projectile list, and the
//! movement and collision resolver shared by all mobile entities.

use vstd::prelude::*;

use crate::enemy::Enemy;
use crate::layer::Layer;
use crate::player::Player;
use crate::position::{Direction, Position};
use crate::projectile::Projectile;
use crate::tile::{is_permissible, permissible, EntityEntry, Tile};
use crate::{BOARD_HEIGHT, BOARD_WIDTH};

verus! {

/// Rooms per row of the room grid.
pub const GRID_WIDTH: u16 = 7;

/// Rooms per column of the room grid.
pub const GRID_HEIGHT: u16 = 7;

/// Width of the viewport window the renderer reads.
pub const VIEW_WIDTH: u16 = 50;

/// Height of the viewport window the renderer reads.
pub const VIEW_HEIGHT: u16 = 50;

/// Column of the designated boss room in the room grid.
pub const BOSS_ROOM_X: u16 = 3;

/// Row of the designated boss room in the room grid.
pub const BOSS_ROOM_Y: u16 = 3;

/// One room: three independent sparse layers and the room's enemy registry.
pub struct Room {
    /// Terrain: written by generation and by build/destroy actions.
    pub terrain: Layer<Tile>,
    /// Entity occupancy: the single source of truth for who stands where.
    pub entity: Layer<EntityEntry>,
    /// Transient markers: projectiles in flight, effects, built structures.
    pub atmosphere: Layer<Tile>,
    /// The enemies living in this room.
    pub enemies: Vec<Enemy>,
}

/// What the core mirrors of the external boss collaborator: the room it
/// fights in, its current hitbox rectangle (half-open), and whether it can
/// currently be targeted. The host refreshes this between turns.
pub struct BossZone {
    pub room: Position,
    pub top_left: Position,
    pub bottom_right: Position,
    pub targetable: bool,
}

/// Which mobile entity a resolver call moves; enemies and projectiles are
/// named by their index in the active room's registry or the global list.
#[derive(Clone, Copy, PartialEq, Eq, Structural, Debug)]
pub enum Entity {
    Player,
    Enemy(usize),
    Projectile(usize),
}

pub struct World {
    /// The room grid, row-major: `GRID_WIDTH * GRID_HEIGHT` rooms.
    pub rooms: Vec<Room>,
    /// The coordinate of the currently simulated room.
    pub world_position: Position,
    /// Viewport offset within the active room, read by the renderer only.
    pub x_offset: u16,
    pub y_offset: u16,
    pub player: Player,
    /// All projectiles in flight, across rooms.
    pub projectiles: Vec<Projectile>,
    /// The external boss collaborator's mirrored state, if one is active.
    pub boss: Option<BossZone>,
}

/// Whether `p` lies on the board of a room: inside
/// `[board_top_left, board_bottom_right)`, which is `[0, BOARD_*)`.
pub open spec fn in_board(p: Position) -> bool {
    p.x < BOARD_WIDTH && p.y < BOARD_HEIGHT
}

/// Whether `rc` names a room of the grid.
pub open spec fn valid_room_coord(rc: Position) -> bool {
    rc.x < GRID_WIDTH && rc.y < GRID_HEIGHT
}

/// Whether `rc` is a designated boss room.
pub open spec fn is_boss_room(rc: Position) -> bool {
    rc.x == BOSS_ROOM_X && rc.y == BOSS_ROOM_Y
}

/// Row-major index of room `rc` in the room vector.
pub open spec fn room_index_spec(rc: Position) -> int {
    rc.y * GRID_WIDTH + rc.x
}

/// Per-room invariant. The first clause says entity tiles are never on the
/// permissible allow-list; the second says a position never carries a hard
/// entity and hard terrain at once: terrain under an occupant is passable.
pub open spec fn room_wf(r: Room) -> bool {
    &&& forall|p: Position| #[trigger]
        r.entity@.contains_key(p) ==> !is_permissible(r.entity@[p].tile)
    &&& forall|p: Position| #[trigger]
        r.entity@.contains_key(p) && r.terrain@.contains_key(p) ==> is_permissible(r.terrain@[p])
    &&& forall|i: int, j: int|
        0 <= i < r.enemies.len() && 0 <= j < (#[trigger] r.enemies@[i]).pos.len() ==> in_board(
            #[trigger] r.enemies@[i].pos@[j],
        )
}

impl World {
    /// Well-formedness: full room grid, in-range counters, valid
    /// coordinates, and every room's obstacle invariant.
    pub open spec fn wf(self) -> bool {
        &&& self.rooms.len() == GRID_WIDTH * GRID_HEIGHT
        &&& valid_room_coord(self.world_position)
        &&& in_board(self.player.pos)
        &&& self.player.energy <= crate::player::MAX_PLAYER_ENERGY
        &&& self.player.health <= crate::player::MAX_PLAYER_HEALTH
        &&& forall|i: int| 0 <= i < self.rooms.len() ==> room_wf(#[trigger] self.rooms@[i])
        &&& forall|i: int|
            0 <= i < self.projectiles.len() ==> valid_room_coord(
                (#[trigger] self.projectiles@[i]).world_pos,
            ) && in_board(self.projectiles@[i].pos)
        &&& match self.player.queued_position {
            Some(q) => in_board(q),
            None => true,
        }
    }

    /// Selects which room of the grid is simulated: an O(1) change of the
    /// room index, never a data copy. A coordinate off the grid is
    /// refused.
    pub fn set_active_room(&mut self, rc: Position) -> (accepted: bool)
        requires
            old(self).wf(),
        ensures
            final(self).wf(),
            accepted == valid_room_coord(rc),
            accepted ==> *final(self) == (World { world_position: rc, ..*old(self) }),
            !accepted ==> *final(self) == *old(self),
    {
        if rc.x < GRID_WIDTH && rc.y < GRID_HEIGHT {
            self.world_position = rc;
            true
        } else {
            false
        }
    }

    /// Sets the player's queued target cell from pointer input; a
    /// coordinate off the board is refused.
    pub fn queue_position(world: &mut World, p: Position) -> (accepted: bool)
        requires
            old(world).wf(),
        ensures
            final(world).wf(),
            accepted == in_board(p),
            accepted ==> *final(world) == (World {
                player: (Player { queued_position: Some(p), ..old(world).player }),
                ..*old(world)
            }),
            !accepted ==> *final(world) == *old(world),
    {
        if world.coordinates_are_within_board(p) {
            world.player.queued_position = Some(p);
            true
        } else {
            false
        }
    }

    /// The room the given coordinate names.
    pub open spec fn room_spec(self, rc: Position) -> Room {
        self.rooms@[room_index_spec(rc)]
    }

    /// The currently simulated room.
    pub open spec fn active_room_spec(self) -> Room {
        self.room_spec(self.world_position)
    }

    /// Row-major index of room `rc`.
    pub fn room_index(&self, rc: Position) -> (i: usize)
        requires
            valid_room_coord(rc),
        ensures
            i == room_index_spec(rc),
    {
        // The literal grid width keeps the overflow check linear.
        assert(GRID_WIDTH == 7);
        rc.y as usize * 7 + rc.x as usize
    }

    /// Read access to room `rc`.
    pub fn room_at(&self, rc: Position) -> (r: &Room)
        requires
            self.wf(),
            valid_room_coord(rc),
        ensures
            *r == self.room_spec(rc),
    {
        let i = self.room_index(rc);
        &self.rooms[i]
    }

    /// Whether `position` lies inside the viewport window currently shown,
    /// as distinct from the board of the room.
    pub fn coordinates_are_within_world(&self, position: Position) -> (r: bool)
        ensures
            r == (self.x_offset <= position.x && position.x < self.x_offset + VIEW_WIDTH
                && self.y_offset <= position.y && position.y < self.y_offset + VIEW_HEIGHT),
    {
        position.x >= self.x_offset && (position.x as u32) < self.x_offset as u32
            + VIEW_WIDTH as u32 && position.y >= self.y_offset && (position.y as u32)
            < self.y_offset as u32 + VIEW_HEIGHT as u32
    }

    /// Whether `position` lies on the board of a room.
    pub fn coordinates_are_within_board(&self, position: Position) -> (r: bool)
        ensures
            r == in_board(position),
    {
        position.x < BOARD_WIDTH && position.y < BOARD_HEIGHT
    }
}

/// The candidate cell a mover at `pos` facing `direction` reaches with
/// travel distance `d`: clamped component-wise to the board, never wrapping
/// and never leaving `[board_top_left, board_bottom_right)`.
pub open spec fn step_position(pos: Position, direction: Direction, d: u16) -> Position {
    match direction {
        Direction::North => Position {
            x: pos.x,
            y: if pos.y >= d {
                (pos.y - d) as u16
            } else {
                0u16
            },
        },
        Direction::South => Position {
            x: pos.x,
            y: if pos.y + d < BOARD_HEIGHT {
                (pos.y + d) as u16
            } else {
                (BOARD_HEIGHT - 1) as u16
            },
        },
        Direction::East => Position {
            x: if pos.x + d < BOARD_WIDTH {
                (pos.x + d) as u16
            } else {
                (BOARD_WIDTH - 1) as u16
            },
            y: pos.y,
        },
        Direction::West => Position {
            x: if pos.x >= d {
                (pos.x - d) as u16
            } else {
                0u16
            },
            y: pos.y,
        },
    }
}

/// Whether the boss hitbox covers `p` while room `rc` is simulated.
pub open spec fn boss_blocks(w: World, p: Position, rc: Position) -> bool {
    match w.boss {
        Some(b) => b.room == rc && b.top_left.x <= p.x < b.bottom_right.x && b.top_left.y <= p.y
            < b.bottom_right.y,
        None => false,
    }
}

/// The collision policy for one candidate cell of room `rc`: an occupied
/// cell is enterable only through a permissible occupant; an empty cell is
/// enterable unless the boss hitbox covers it.
pub open spec fn spec_can_travel_to(w: World, p: Position, rc: Position) -> bool
    recommends
        w.wf(),
        valid_room_coord(rc),
{
    let r = w.room_spec(rc);
    if r.entity@.contains_key(p) || r.terrain@.contains_key(p) || r.atmosphere@.contains_key(p) {
        (r.entity@.contains_key(p) && is_permissible(r.entity@[p].tile)) || (
        r.terrain@.contains_key(p) && is_permissible(r.terrain@[p]))
    } else {
        !boss_blocks(w, p, rc)
    }
}

impl World {
    /// Computes the clamped candidate position for a mover; pure.
    pub fn new_position(&self, pos: Position, direction: Direction, travel_distance: u16) -> (np:
        Position)
        requires
            in_board(pos),
        ensures
            np == step_position(pos, direction, travel_distance),
            in_board(np),
    {
        let d = travel_distance;
        match direction {
            Direction::North => Position {
                x: pos.x,
                y: if pos.y >= d {
                    pos.y - d
                } else {
                    0
                },
            },
            Direction::South => Position {
                x: pos.x,
                y: if (pos.y as u32) + (d as u32) < BOARD_HEIGHT as u32 {
                    pos.y + d
                } else {
                    BOARD_HEIGHT - 1
                },
            },
            Direction::East => Position {
                x: if (pos.x as u32) + (d as u32) < BOARD_WIDTH as u32 {
                    pos.x + d
                } else {
                    BOARD_WIDTH - 1
                },
                y: pos.y,
            },
            Direction::West => Position {
                x: if pos.x >= d {
                    pos.x - d
                } else {
                    0
                },
                y: pos.y,
            },
        }
    }

    /// Executable collision policy; see `spec_can_travel_to`.
    pub fn passable(&self, p: Position, rc: Position) -> (r: bool)
        requires
            self.wf(),
            valid_room_coord(rc),
        ensures
            r == spec_can_travel_to(*self, p, rc),
    {
        let room = self.room_at(rc);
        let in_entity = room.entity.contains(p);
        let in_terrain = room.terrain.contains(p);
        let in_atmosphere = room.atmosphere.contains(p);
        if in_entity || in_terrain || in_atmosphere {
            if in_entity {
                if let Some(e) = room.entity.get(p) {
                    if permissible(e.tile) {
                        return true;
                    }
                }
            }
            if in_terrain {
                if let Some(t) = room.terrain.get(p) {
                    if permissible(*t) {
                        return true;
                    }
                }
            }
            false
        } else {
            !self.boss_pos_inside(p, rc)
        }
    }

    /// Whether `p` lies inside the boss hitbox while room `rc` is
    /// simulated; mirrors the boss collaborator's hitbox query.
    pub fn boss_pos_inside(&self, p: Position, rc: Position) -> (r: bool)
        ensures
            r == boss_blocks(*self, p, rc),
    {
        match &self.boss {
            Some(b) => b.room.x == rc.x && b.room.y == rc.y && b.top_left.x <= p.x && p.x
                < b.bottom_right.x && b.top_left.y <= p.y && p.y < b.bottom_right.y,
            None => false,
        }
    }

    /// Mirrors the boss collaborator's hit query: whether the boss is
    /// currently targetable, and whether `p` strikes its hitbox.
    pub fn boss_can_hit(&self, p: Position, rc: Position) -> (r: (bool, bool))
        ensures
            r.1 == boss_blocks(*self, p, rc),
            r.0 == match self.boss {
                Some(b) => b.targetable,
                None => false,
            },
    {
        match &self.boss {
            Some(b) => (b.targetable, self.boss_pos_inside(p, rc)),
            None => (false, false),
        }
    }
}

/// The entity map `m` after its entry at `o` (if any) has been moved to
/// `c`: insert at the destination, then delete the origin.
pub open spec fn entity_moved(m: Map<Position, EntityEntry>, o: Position, c: Position) -> Map<
    Position,
    EntityEntry,
> {
    if m.contains_key(o) {
        m.remove(o).insert(c, m[o])
    } else {
        m
    }
}

impl World {
    /// Moves the active room's entity-layer entry at `prev_position`, if
    /// one exists, to `new_position`; the single remove-and-reinsert step
    /// every committed move goes through.
    pub fn update_position(world: &mut World, prev_position: Position, new_position: Position)
        requires
            old(world).wf(),
            prev_position != new_position,
            old(world).active_room_spec().terrain@.contains_key(new_position) ==> is_permissible(
                old(world).active_room_spec().terrain@[new_position],
            ),
        ensures
            final(world).wf(),
            final(world).rooms@ == old(world).rooms@.update(
                room_index_spec(old(world).world_position),
                final(world).active_room_spec(),
            ),
            final(world).active_room_spec().entity@ == entity_moved(
                old(world).active_room_spec().entity@,
                prev_position,
                new_position,
            ),
            final(world).active_room_spec().terrain == old(world).active_room_spec().terrain,
            final(world).active_room_spec().atmosphere == old(
                world,
            ).active_room_spec().atmosphere,
            final(world).active_room_spec().enemies == old(world).active_room_spec().enemies,
            final(world).world_position == old(world).world_position,
            final(world).player == old(world).player,
            final(world).projectiles == old(world).projectiles,
            final(world).boss == old(world).boss,
            final(world).x_offset == old(world).x_offset,
            final(world).y_offset == old(world).y_offset,
    {
        let idx = world.room_index(world.world_position);
        let room = &mut world.rooms[idx];
        let entry: Option<EntityEntry> = match room.entity.get(prev_position) {
            Some(e) => Some(*e),
            None => None,
        };
        if let Some(contents) = entry {
            room.entity.insert(new_position, contents);
            room.entity.remove(prev_position);
        }
        proof {
            assert(final(world).rooms@ =~= old(world).rooms@.update(
                room_index_spec(old(world).world_position),
                final(world).active_room_spec(),
            ));
            assert(room_wf(final(world).active_room_spec()));
        }
    }

    /// First index of an enemy of the active room occupying `position`.
    pub fn get_enemy(position: Position, world: &World) -> (r: Option<usize>)
        requires
            world.wf(),
        ensures
            found_enemy_at(world.active_room_spec().enemies@, position, r),
    {
        let idx = world.room_index(world.world_position);
        world.rooms[idx].enemy_at(position)
    }
}

/// What a registry scan for an occupant of `position` reports: the first
/// occupying index, or that no enemy occupies the cell.
pub open spec fn found_enemy_at(enemies: Seq<Enemy>, position: Position, r: Option<usize>) -> bool {
    match r {
        Some(i) => i < enemies.len() && occupies(enemies[i as int], position) && forall|j: int|
            0 <= j < i ==> !occupies(#[trigger] enemies[j], position),
        None => forall|j: int| 0 <= j < enemies.len() ==> !occupies(#[trigger] enemies[j], position),
    }
}

impl Room {
    /// First index of an enemy of this room occupying `position`.
    pub fn enemy_at(&self, position: Position) -> (r: Option<usize>)
        ensures
            found_enemy_at(self.enemies@, position, r),
    {
        let n = self.enemies.len();
        let mut i: usize = 0;
        while i < n
            invariant
                n == self.enemies.len(),
                i <= n,
                forall|j: int| 0 <= j < i ==> !occupies(#[trigger] self.enemies@[j], position),
            decreases n - i,
        {
            if enemy_occupies(&self.enemies[i], position) {
                return Some(i);
            }
            i += 1;
        }
        None
    }
}

/// The cell a travel request starts from.
pub open spec fn travel_origin(w: World, e: Entity) -> Position {
    match e {
        Entity::Player => w.player.pos,
        Entity::Enemy(i) => w.active_room_spec().enemies@[i as int].pos@[0],
        Entity::Projectile(i) => w.projectiles@[i as int].pos,
    }
}

/// The clamped candidate cell a travel request aims for.
pub open spec fn travel_candidate(w: World, e: Entity) -> Position {
    match e {
        Entity::Player => step_position(w.player.pos, w.player.direction, w.player.speed),
        Entity::Enemy(i) => step_position(
            w.active_room_spec().enemies@[i as int].pos@[0],
            w.active_room_spec().enemies@[i as int].direction,
            w.active_room_spec().enemies@[i as int].speed,
        ),
        Entity::Projectile(i) => step_position(
            w.projectiles@[i as int].pos,
            w.projectiles@[i as int].direction,
            w.projectiles@[i as int].speed,
        ),
    }
}

/// The room a travel request resolves against.
pub open spec fn travel_room(w: World, e: Entity) -> Position {
    match e {
        Entity::Projectile(i) => w.projectiles@[i as int].world_pos,
        _ => w.world_position,
    }
}

/// Whether a travel request commits, evaluated on the pre-state: the
/// candidate must differ from the origin (a clamped move at a bound
/// fails), the player must not be stunned, a larger enemy never moves as
/// one cell, and the candidate cell must pass the collision policy.
pub open spec fn travel_allowed(w: World, e: Entity) -> bool {
    let o = travel_origin(w, e);
    let c = travel_candidate(w, e);
    let rc = travel_room(w, e);
    match e {
        Entity::Player => c != o && w.player.stun_timer == 0 && spec_can_travel_to(w, c, rc),
        Entity::Enemy(i) => w.active_room_spec().enemies@[i as int].pos.len() == 1 && c != o
            && spec_can_travel_to(w, c, rc),
        Entity::Projectile(i) => c != o && spec_can_travel_to(w, c, rc),
    }
}

impl World {
    /// Attempts to move one mobile entity one travel step along its facing
    /// direction, committing the move only when the collision policy
    /// allows it. A stunned player fails to move and the stun counter
    /// ticks down; every other failure leaves the world unchanged.
    pub fn travel(world: &mut World, entity_type: Entity) -> (moved: bool)
        requires
            old(world).wf(),
            match entity_type {
                Entity::Enemy(i) => i < old(world).active_room_spec().enemies.len(),
                Entity::Projectile(i) => i < old(world).projectiles.len(),
                Entity::Player => true,
            },
        ensures
            final(world).wf(),
            moved == travel_allowed(*old(world), entity_type),
            ({
                let o = travel_origin(*old(world), entity_type);
                let c = travel_candidate(*old(world), entity_type);
                let rc = travel_room(*old(world), entity_type);
                let ri = room_index_spec(rc);
                &&& (entity_type == Entity::Player && c != o && old(world).player.stun_timer > 0)
                    ==> *final(world) == (World {
                    player: (Player {
                        stun_timer: (old(world).player.stun_timer - 1) as u16,
                        ..old(world).player
                    }),
                    ..*old(world)
                })
                &&& (!moved && !(entity_type == Entity::Player && c != o && old(
                    world,
                ).player.stun_timer > 0)) ==> *final(world) == *old(world)
                &&& (moved && entity_type == Entity::Player) ==> {
                    &&& *final(world) == (World {
                        rooms: final(world).rooms,
                        player: (Player { pos: c, ..old(world).player }),
                        ..*old(world)
                    })
                    &&& final(world).rooms@ == old(world).rooms@.update(
                        ri,
                        final(world).rooms@[ri],
                    )
                    &&& final(world).rooms@[ri] == (Room {
                        entity: final(world).rooms@[ri].entity,
                        ..old(world).rooms@[ri]
                    })
                    &&& final(world).rooms@[ri].entity@ == entity_moved(
                        old(world).rooms@[ri].entity@,
                        o,
                        c,
                    )
                }
                &&& (moved && entity_type matches Entity::Enemy(i)) ==> {
                    let i = entity_type->Enemy_0;
                    &&& *final(world) == (World { rooms: final(world).rooms, ..*old(world) })
                    &&& final(world).rooms@ == old(world).rooms@.update(
                        ri,
                        final(world).rooms@[ri],
                    )
                    &&& final(world).rooms@[ri] == (Room {
                        entity: final(world).rooms@[ri].entity,
                        enemies: final(world).rooms@[ri].enemies,
                        ..old(world).rooms@[ri]
                    })
                    &&& final(world).rooms@[ri].entity@ == entity_moved(
                        old(world).rooms@[ri].entity@,
                        o,
                        c,
                    )
                    &&& final(world).rooms@[ri].enemies@.len() == old(
                        world,
                    ).rooms@[ri].enemies@.len()
                    &&& forall|j: int|
                        0 <= j < final(world).rooms@[ri].enemies@.len() && j != i
                            ==> final(world).rooms@[ri].enemies@[j] == old(
                            world,
                        ).rooms@[ri].enemies@[j]
                    &&& final(world).rooms@[ri].enemies@[i as int].pos@ =~= seq![c]
                    &&& final(world).rooms@[ri].enemies@[i as int] == (Enemy {
                        pos: final(world).rooms@[ri].enemies@[i as int].pos,
                        ..old(world).rooms@[ri].enemies@[i as int]
                    })
                }
                &&& (moved && entity_type matches Entity::Projectile(i)) ==> {
                    let i = entity_type->Projectile_0;
                    &&& *final(world) == (World {
                        rooms: final(world).rooms,
                        projectiles: final(world).projectiles,
                        ..*old(world)
                    })
                    &&& final(world).projectiles@ == old(world).projectiles@.update(
                        i as int,
                        (Projectile { pos: c, ..old(world).projectiles@[i as int] }),
                    )
                    &&& final(world).rooms@ == old(world).rooms@.update(
                        ri,
                        final(world).rooms@[ri],
                    )
                    &&& final(world).rooms@[ri] == (Room {
                        atmosphere: final(world).rooms@[ri].atmosphere,
                        ..old(world).rooms@[ri]
                    })
                    &&& final(world).rooms@[ri].atmosphere@ == marker_moved(
                        old(world).rooms@[ri].atmosphere@,
                        o,
                        c,
                    )
                }
            }),
    {
        match entity_type {
            Entity::Player => {
                let pos = world.player.pos;
                let cand = world.new_position(pos, world.player.direction, world.player.speed);
                if cand == pos {
                    return false;
                }
                if world.player.stun_timer > 0 {
                    world.player.stun_timer = world.player.stun_timer - 1;
                    return false;
                }
                let rc = world.world_position;
                if world.passable(cand, rc) {
                    World::update_position(world, pos, cand);
                    world.player.pos = cand;
                    true
                } else {
                    false
                }
            },
            Entity::Enemy(i) => {
                let rc = world.world_position;
                let idx = world.room_index(rc);
                if world.rooms[idx].enemies[i].pos.len() != 1 {
                    return false;
                }
                let epos = world.rooms[idx].enemies[i].pos[0];
                let cand = world.new_position(
                    epos,
                    world.rooms[idx].enemies[i].direction,
                    world.rooms[idx].enemies[i].speed,
                );
                if cand == epos {
                    return false;
                }
                if !world.passable(cand, rc) {
                    return false;
                }
                World::update_position(world, epos, cand);
                let room = &mut world.rooms[idx];
                let enemy = &mut room.enemies[i];
                enemy.pos[0] = cand;
                proof {
                    assert(final(enemy).pos@ =~= seq![cand]);
                    assert(final(world).rooms@ =~= old(world).rooms@.update(
                        room_index_spec(rc),
                        final(world).rooms@[room_index_spec(rc)],
                    ));
                    assert(room_wf(final(world).rooms@[room_index_spec(rc)]));
                }
                true
            },
            Entity::Projectile(i) => {
                let ppos = world.projectiles[i].pos;
                let rc = world.projectiles[i].world_pos;
                let cand = world.new_position(
                    ppos,
                    world.projectiles[i].direction,
                    world.projectiles[i].speed,
                );
                if cand == ppos {
                    return false;
                }
                if !world.passable(cand, rc) {
                    return false;
                }
                let idx = world.room_index(rc);
                let room = &mut world.rooms[idx];
                let marker: Option<Tile> = match room.atmosphere.get(ppos) {
                    Some(t) => Some(*t),
                    None => None,
                };
                if let Some(t) = marker {
                    room.atmosphere.insert(cand, t);
                    room.atmosphere.remove(ppos);
                }
                let slot = &mut world.projectiles[i];
                slot.pos = cand;
                proof {
                    assert(final(world).projectiles@ =~= old(world).projectiles@.update(
                        i as int,
                        (Projectile { pos: cand, ..old(world).projectiles@[i as int] }),
                    ));
                    assert(final(world).rooms@ =~= old(world).rooms@.update(
                        room_index_spec(rc),
                        final(world).rooms@[room_index_spec(rc)],
                    ));
                }
                true
            },
        }
    }
}

/// The atmosphere map `m` after its marker at `o` (if any) has been moved
/// to `c`.
pub open spec fn marker_moved(m: Map<Position, Tile>, o: Position, c: Position) -> Map<
    Position,
    Tile,
> {
    if m.contains_key(o) {
        m.remove(o).insert(c, m[o])
    } else {
        m
    }
}

/// Whether enemy `e` occupies cell `p`.
pub open spec fn occupies(e: Enemy, p: Position) -> bool {
    e.pos@.contains(p)
}

/// Executable occupancy test over an enemy's cells.
pub fn enemy_occupies(e: &Enemy, p: Position) -> (r: bool)
    ensures
        r == occupies(*e, p),
{
    let n = e.pos.len();
    let mut i: usize = 0;
    while i < n
        invariant
            n == e.pos.len(),
            i <= n,
            forall|j: int| 0 <= j < i ==> e.pos@[j] != p,
        decreases n - i,
    {
        if e.pos[i].x == p.x && e.pos[i].y == p.y {
            assert(e.pos@[i as int] == p);
            return true;
        }
        i += 1;
    }
    assert(!e.pos@.contains(p));
    false
}

} // verus!
