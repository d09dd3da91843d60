//! Enemies: per-room registry entries with one or more occupied cells.

use vstd::prelude::*;

use crate::position::{Direction, Position};
use crate::tile::EntityEntry;
use crate::world::{room_index_spec, room_wf, Room, World};

verus! {

pub const ENEMY_HEALTH: u16 = 5;

/// One enemy. A live enemy has exactly one registry entry in its room and
/// one entity-layer entry per occupied cell.
pub struct Enemy {
    /// The cells the enemy occupies; larger enemies span more than one.
    pub pos: Vec<Position>,
    pub direction: Direction,
    /// Tiles travelled per step.
    pub speed: u16,
    pub health: u16,
    /// The room the enemy belongs to.
    pub world_pos: Position,
}

impl Enemy {
    /// A fresh single-cell enemy at `(x, y)` in room `world_pos`.
    pub fn new(x: u16, y: u16, speed: u16, world_pos: Position) -> (e: Enemy)
        ensures
            e.pos@ == seq![Position { x, y }],
            e.direction == Direction::North,
            e.speed == speed,
            e.health == ENEMY_HEALTH,
            e.world_pos == world_pos,
    {
        let mut cells: Vec<Position> = Vec::new();
        cells.push(Position { x, y });
        Enemy { pos: cells, direction: Direction::North, speed, health: ENEMY_HEALTH, world_pos }
    }

    /// Applies `damage`; health is floored at zero and never wraps.
    pub fn damage(&mut self, damage: u16)
        ensures
            final(self).health == if damage >= old(self).health {
                0u16
            } else {
                (old(self).health - damage) as u16
            },
            *final(self) == (Enemy { health: final(self).health, ..*old(self) }),
    {
        if damage >= self.health {
            self.health = 0;
        } else {
            self.health = self.health - damage;
        }
    }
}

/// Whether an enemy is still alive and so belongs in its registry.
pub open spec fn enemy_live(e: Enemy) -> bool {
    e.health > 0
}

/// Whether some enemy with registry index at least `lo` is dead and covers
/// cell `p`: exactly the entity-layer entries the death sweep clears.
pub open spec fn dead_cell_from(enemies: Seq<Enemy>, lo: int, p: Position) -> bool {
    exists|j: int|
        lo <= j < enemies.len() && !enemy_live(#[trigger] enemies[j]) && enemies[j].pos@.contains(p)
}

proof fn lemma_dead_cell_from_unfold(enemies: Seq<Enemy>, i: int, p: Position)
    requires
        0 <= i < enemies.len(),
    ensures
        dead_cell_from(enemies, i, p) <==> ((!enemy_live(enemies[i]) && enemies[i].pos@.contains(p))
            || dead_cell_from(enemies, i + 1, p)),
{
    if dead_cell_from(enemies, i, p) {
        let j = choose|j: int|
            i <= j < enemies.len() && !enemy_live(#[trigger] enemies[j])
                && enemies[j].pos@.contains(p);
        if j != i {
            assert(i + 1 <= j < enemies.len() && !enemy_live(enemies[j])
                && enemies[j].pos@.contains(p));
        }
    }
    if !enemy_live(enemies[i]) && enemies[i].pos@.contains(p) {
        assert(i <= i < enemies.len() && !enemy_live(enemies[i]) && enemies[i].pos@.contains(p));
    }
}

/// How the sweep leaves an entity map: exactly the entries not covered by
/// a dead enemy with index at least `lo` survive, values kept.
pub open spec fn swept_entities(
    cur: Map<Position, EntityEntry>,
    orig: Map<Position, EntityEntry>,
    enemies: Seq<Enemy>,
    lo: int,
) -> bool {
    &&& forall|p: Position| #[trigger]
        cur.contains_key(p) <==> (orig.contains_key(p) && !dead_cell_from(enemies, lo, p))
    &&& forall|p: Position| #[trigger] cur.contains_key(p) ==> cur[p] == orig[p]
}

/// The entity map `m` after the given cells have been cleared, one by one.
pub open spec fn cells_cleared(m: Map<Position, EntityEntry>, cells: Seq<Position>) -> Map<
    Position,
    EntityEntry,
>
    decreases cells.len(),
{
    if cells.len() == 0 {
        m
    } else {
        cells_cleared(m, cells.drop_last()).remove(cells.last())
    }
}

/// Pointwise reading of `cells_cleared`: exactly the entries off the given
/// cells survive, with their values kept.
proof fn lemma_cells_cleared(m: Map<Position, EntityEntry>, cells: Seq<Position>)
    ensures
        forall|p: Position| #[trigger]
            cells_cleared(m, cells).contains_key(p) <==> (m.contains_key(p) && !cells.contains(p)),
        forall|p: Position| #[trigger]
            cells_cleared(m, cells).contains_key(p) ==> cells_cleared(m, cells)[p] == m[p],
    decreases cells.len(),
{
    if cells.len() > 0 {
        lemma_cells_cleared(m, cells.drop_last());
        assert forall|p: Position| #[trigger]
            cells.contains(p) <==> (cells.drop_last().contains(p) || p == cells.last()) by {
            if cells.contains(p) {
                let k = choose|k: int| 0 <= k < cells.len() && cells[k] == p;
                if k < cells.len() - 1 {
                    assert(cells.drop_last()[k] == p);
                }
            }
            if cells.drop_last().contains(p) {
                let k = choose|k: int| 0 <= k < cells.drop_last().len() && cells.drop_last()[k] == p;
                assert(cells[k] == p);
            }
            if p == cells.last() {
                assert(cells[cells.len() - 1] == p);
            }
        }
        let base = cells_cleared(m, cells.drop_last());
        assert(cells_cleared(m, cells) == base.remove(cells.last()));
        assert forall|p: Position| #[trigger]
            cells_cleared(m, cells).contains_key(p) <==> (m.contains_key(p) && !cells.contains(p)) by {
            assert(base.contains_key(p) <==> (m.contains_key(p) && !cells.drop_last().contains(p)));
        }
        assert forall|p: Position| #[trigger]
            cells_cleared(m, cells).contains_key(p) implies cells_cleared(m, cells)[p] == m[p] by {
            assert(base.contains_key(p));
            assert(base[p] == m[p]);
        }
    }
}

impl Enemy {
    /// Clears the entity-layer entries covering enemy `index` of the
    /// active room. The registry entry itself is removed by `update`,
    /// which calls this; the two deletions together are one atomic
    /// removal.
    pub fn kill(world: &mut World, index: usize)
        requires
            old(world).wf(),
            index < old(world).active_room_spec().enemies.len(),
        ensures
            final(world).wf(),
            final(world).rooms@ == old(world).rooms@.update(
                room_index_spec(old(world).world_position),
                final(world).active_room_spec(),
            ),
            final(world).active_room_spec() == (Room {
                entity: final(world).active_room_spec().entity,
                ..old(world).active_room_spec()
            }),
            forall|p: Position|
                final(world).active_room_spec().entity@.contains_key(p) <==> (old(
                    world,
                ).active_room_spec().entity@.contains_key(p) && !(#[trigger] old(
                    world,
                ).active_room_spec().enemies@[index as int].pos@.contains(p))),
            forall|p: Position|
                final(world).active_room_spec().entity@.contains_key(p)
                    ==> final(world).active_room_spec().entity@[p] == old(
                    world,
                ).active_room_spec().entity@[p],
            final(world).world_position == old(world).world_position,
            final(world).player == old(world).player,
            final(world).projectiles == old(world).projectiles,
            final(world).boss == old(world).boss,
            final(world).x_offset == old(world).x_offset,
            final(world).y_offset == old(world).y_offset,
    {
        let ghost cells = old(world).active_room_spec().enemies@[index as int].pos@;
        let ghost old_entity = old(world).active_room_spec().entity@;
        let idx = world.room_index(world.world_position);
        let room = &mut world.rooms[idx];
        let n = room.enemies[index].pos.len();
        let mut j: usize = 0;
        proof {
            assert(cells.take(0) =~= Seq::<Position>::empty());
        }
        while j < n
            invariant
                index < room.enemies.len(),
                n == room.enemies@[index as int].pos.len(),
                j <= n,
                cells == room.enemies@[index as int].pos@,
                *room == (Room { entity: room.entity, ..old(world).active_room_spec() }),
                room.entity@ == cells_cleared(old_entity, cells.take(j as int)),
                old_entity == old(world).active_room_spec().entity@,
            decreases n - j,
        {
            let c = room.enemies[index].pos[j];
            room.entity.remove(c);
            proof {
                assert(cells.take(j + 1).drop_last() =~= cells.take(j as int));
                assert(cells.take(j + 1).last() == cells[j as int]);
                assert(cells_cleared(old_entity, cells.take(j + 1)) == cells_cleared(
                    old_entity,
                    cells.take(j as int),
                ).remove(cells[j as int]));
            }
            j += 1;
        }
        proof {
            assert(cells.take(n as int) =~= cells);
            lemma_cells_cleared(old_entity, cells);
            let fr = final(world).active_room_spec();
            let or = old(world).active_room_spec();
            assert(final(world).rooms@ =~= old(world).rooms@.update(
                room_index_spec(old(world).world_position),
                fr,
            ));
            assert forall|p: Position| #[trigger]
                fr.entity@.contains_key(p) implies !crate::tile::is_permissible(fr.entity@[p].tile)
                && (fr.terrain@.contains_key(p) ==> crate::tile::is_permissible(
                fr.terrain@[p],
            )) by {
                assert(or.entity@.contains_key(p));
                assert(fr.entity@[p] == or.entity@[p]);
            }
            assert(room_wf(fr));
        }
    }

    /// Moves enemy `index` of the active room one travel step along its
    /// facing, through the shared resolver; multi-cell enemies stay put.
    /// On a committed move the enemy's single cell becomes the clamped
    /// candidate and its entity-layer entry moves with it.
    pub fn travel(world: &mut World, index: usize) -> (moved: bool)
        requires
            old(world).wf(),
            index < old(world).active_room_spec().enemies.len(),
        ensures
            final(world).wf(),
            moved == crate::world::travel_allowed(
                *old(world),
                crate::world::Entity::Enemy(index),
            ),
            !moved ==> *final(world) == *old(world),
            moved ==> ({
                let o = crate::world::travel_origin(
                    *old(world),
                    crate::world::Entity::Enemy(index),
                );
                let c = crate::world::travel_candidate(
                    *old(world),
                    crate::world::Entity::Enemy(index),
                );
                let ri = room_index_spec(old(world).world_position);
                &&& *final(world) == (World { rooms: final(world).rooms, ..*old(world) })
                &&& final(world).rooms@ == old(world).rooms@.update(ri, final(world).rooms@[ri])
                &&& final(world).rooms@[ri] == (Room {
                    entity: final(world).rooms@[ri].entity,
                    enemies: final(world).rooms@[ri].enemies,
                    ..old(world).rooms@[ri]
                })
                &&& final(world).rooms@[ri].entity@ == crate::world::entity_moved(
                    old(world).rooms@[ri].entity@,
                    o,
                    c,
                )
                &&& final(world).rooms@[ri].enemies@.len() == old(
                    world,
                ).rooms@[ri].enemies@.len()
                &&& forall|j: int|
                    0 <= j < final(world).rooms@[ri].enemies@.len() && j != index
                        ==> final(world).rooms@[ri].enemies@[j] == old(
                        world,
                    ).rooms@[ri].enemies@[j]
                &&& final(world).rooms@[ri].enemies@[index as int].pos@ =~= seq![c]
                &&& final(world).rooms@[ri].enemies@[index as int] == (Enemy {
                    pos: final(world).rooms@[ri].enemies@[index as int].pos,
                    ..old(world).rooms@[ri].enemies@[index as int]
                })
            }),
    {
        World::travel(world, crate::world::Entity::Enemy(index))
    }

    /// The once-per-tick batch sweep over the active room: every enemy
    /// whose health reached zero is removed from the registry and its
    /// entity-layer cells are cleared, iterating in reverse index order so
    /// removal never corrupts the iteration.
    #[verifier::loop_isolation(false)]
    pub fn update(world: &mut World)
        requires
            old(world).wf(),
        ensures
            final(world).wf(),
            final(world).rooms@ == old(world).rooms@.update(
                room_index_spec(old(world).world_position),
                final(world).active_room_spec(),
            ),
            final(world).active_room_spec() == (Room {
                entity: final(world).active_room_spec().entity,
                enemies: final(world).active_room_spec().enemies,
                ..old(world).active_room_spec()
            }),
            final(world).active_room_spec().enemies@ == old(
                world,
            ).active_room_spec().enemies@.filter(|e: Enemy| enemy_live(e)),
            swept_entities(
                final(world).active_room_spec().entity@,
                old(world).active_room_spec().entity@,
                old(world).active_room_spec().enemies@,
                0,
            ),
            final(world).world_position == old(world).world_position,
            final(world).player == old(world).player,
            final(world).projectiles == old(world).projectiles,
            final(world).boss == old(world).boss,
            final(world).x_offset == old(world).x_offset,
            final(world).y_offset == old(world).y_offset,
    {
        let ghost live = |e: Enemy| enemy_live(e);
        let ghost olds = old(world).active_room_spec().enemies@;
        let idx = world.room_index(world.world_position);
        let mut i: usize = world.rooms[idx].enemies.len();
        proof {
            assert(olds.skip(i as int) =~= Seq::<Enemy>::empty());
            reveal_with_fuel(Seq::<_>::filter, 2);
            assert(olds.take(i as int) =~= olds);
            assert(world.rooms@ =~= old(world).rooms@.update(
                room_index_spec(old(world).world_position),
                world.active_room_spec(),
            ));
        }
        while i > 0
            invariant
                world.wf(),
                idx == room_index_spec(old(world).world_position),
                world.world_position == old(world).world_position,
                i <= olds.len(),
                world.rooms@ == old(world).rooms@.update(
                    room_index_spec(old(world).world_position),
                    world.active_room_spec(),
                ),
                world.active_room_spec() == (Room {
                    entity: world.active_room_spec().entity,
                    enemies: world.active_room_spec().enemies,
                    ..old(world).active_room_spec()
                }),
                world.active_room_spec().enemies@ == olds.take(i as int) + olds.skip(
                    i as int,
                ).filter(live),
                swept_entities(
                    world.active_room_spec().entity@,
                    old(world).active_room_spec().entity@,
                    olds,
                    i as int,
                ),
                world.player == old(world).player,
                world.projectiles == old(world).projectiles,
                world.boss == old(world).boss,
                world.x_offset == old(world).x_offset,
                world.y_offset == old(world).y_offset,
            decreases i,
        {
            i -= 1;
            let ghost pre = *world;
            proof {
                assert(pre.active_room_spec().enemies@[i as int] == olds[i as int]);
            }
            if world.rooms[idx].enemies[i].health == 0 {
                proof {
                    assert(!enemy_live(olds[i as int]));
                }
                Enemy::kill(world, i);
                let ghost mid = *world;
                let room = &mut world.rooms[idx];
                room.enemies.remove(i);
                proof {
                    reveal_with_fuel(Seq::<_>::filter, 2);
                    assert(olds.skip(i as int) =~= seq![olds[i as int]] + olds.skip(i + 1));
                    Seq::<Enemy>::filter_distributes_over_add(
                        seq![olds[i as int]],
                        olds.skip(i + 1),
                        live,
                    );
                    assert(seq![olds[i as int]] =~= Seq::<Enemy>::empty().push(olds[i as int]));
                    Seq::<Enemy>::lemma_filter_push(Seq::<Enemy>::empty(), olds[i as int], live);
                    assert(Seq::<Enemy>::empty().filter(live) =~= Seq::<Enemy>::empty());
                    assert(seq![olds[i as int]].filter(live) =~= Seq::<Enemy>::empty());
                    assert(world.active_room_spec().enemies@ =~= olds.take(i as int) + olds.skip(
                        i as int,
                    ).filter(live));
                    let ghost cur = world.active_room_spec().entity@;
                    let ghost orig = old(world).active_room_spec().entity@;
                    assert forall|p: Position| #[trigger]
                        cur.contains_key(p) <==> (orig.contains_key(p) && !dead_cell_from(
                            olds,
                            i as int,
                            p,
                        )) by {
                        assert(mid.active_room_spec().entity@ == cur);
                        assert(pre.active_room_spec().enemies@[i as int].pos@.contains(p)
                            == olds[i as int].pos@.contains(p));
                        lemma_dead_cell_from_unfold(olds, i as int, p);
                    }
                    assert forall|p: Position| #[trigger]
                        cur.contains_key(p) implies cur[p] == orig[p] by {
                        assert(mid.active_room_spec().entity@.contains_key(p));
                        assert(pre.active_room_spec().enemies@[i as int].pos@.contains(p)
                            == olds[i as int].pos@.contains(p));
                        assert(pre.active_room_spec().entity@.contains_key(p));
                        assert(mid.active_room_spec().entity@[p]
                            == pre.active_room_spec().entity@[p]);
                    }
                    assert(swept_entities(cur, orig, olds, i as int));
                    assert(world.rooms@ =~= old(world).rooms@.update(
                        room_index_spec(old(world).world_position),
                        world.active_room_spec(),
                    ));
                }
            } else {
                proof {
                    reveal_with_fuel(Seq::<_>::filter, 2);
                    assert(enemy_live(olds[i as int]));
                    assert(olds.skip(i as int) =~= seq![olds[i as int]] + olds.skip(i + 1));
                    Seq::<Enemy>::filter_distributes_over_add(
                        seq![olds[i as int]],
                        olds.skip(i + 1),
                        live,
                    );
                    assert(seq![olds[i as int]] =~= Seq::<Enemy>::empty().push(olds[i as int]));
                    Seq::<Enemy>::lemma_filter_push(Seq::<Enemy>::empty(), olds[i as int], live);
                    assert(Seq::<Enemy>::empty().filter(live) =~= Seq::<Enemy>::empty());
                    assert(seq![olds[i as int]].filter(live) =~= seq![olds[i as int]]);
                    assert(world.active_room_spec().enemies@ =~= olds.take(i as int) + olds.skip(
                        i as int,
                    ).filter(live));
                    let ghost cur = world.active_room_spec().entity@;
                    let ghost orig = old(world).active_room_spec().entity@;
                    assert forall|p: Position| #[trigger]
                        cur.contains_key(p) <==> (orig.contains_key(p) && !dead_cell_from(
                            olds,
                            i as int,
                            p,
                        )) by {
                        lemma_dead_cell_from_unfold(olds, i as int, p);
                    }
                    assert(swept_entities(cur, orig, olds, i as int));
                }
            }
        }
        proof {
            assert(olds.take(0) =~= Seq::<Enemy>::empty());
            assert(olds.skip(0) =~= olds);
            assert(final(world).active_room_spec().enemies@ == olds.filter(live));
        }
    }
}

} // verus!
