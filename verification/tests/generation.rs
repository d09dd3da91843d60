//! Tests of the procedural generator: deterministic boss-room carving and
//! reproducible lake generation.

use rand_chacha::ChaCha8Rng;
use rand::SeedableRng;

use tilegame::enemy::ENEMY_HEALTH;
use tilegame::layer::Layer;
use tilegame::position::Position;
use tilegame::tile::Tile;
use tilegame::world::{Room, World};
use tilegame::{BOARD_HEIGHT, BOARD_WIDTH};

fn empty_room() -> Room {
    Room {
        terrain: Layer::new(),
        entity: Layer::new(),
        atmosphere: Layer::new(),
        enemies: Vec::new(),
    }
}

fn terrain_snapshot(room: &Room) -> Vec<(u16, u16, Tile)> {
    let mut out = Vec::new();
    for x in 0..BOARD_WIDTH {
        for y in 0..BOARD_HEIGHT {
            if let Some(t) = room.terrain.get(Position::new(x, y)) {
                out.push((x, y, *t));
            }
        }
    }
    out
}

#[test]
fn boss_carving_is_deterministic() {
    let mut a = empty_room();
    let mut b = empty_room();
    World::gen_boss(&mut a);
    World::gen_boss(&mut b);
    assert_eq!(terrain_snapshot(&a), terrain_snapshot(&b));
}

#[test]
fn boss_carving_exact_positions() {
    let mut room = empty_room();
    World::gen_boss(&mut room);
    for x in 0..BOARD_WIDTH {
        for y in 0..BOARD_HEIGHT {
            let p = Position::new(x, y);
            let got = room.terrain.get(p).copied();
            let in_wall = (19..=30).contains(&x) && (19..=30).contains(&y);
            let in_portal = (23..=26).contains(&x) && (23..=26).contains(&y);
            if in_portal {
                assert_eq!(got, Some(Tile::Portal));
            } else if in_wall {
                assert_eq!(got, Some(Tile::Wall));
            } else {
                assert_eq!(got, None);
            }
        }
    }
}

#[test]
fn boss_carving_overwrites_water_keeps_rest() {
    let mut room = empty_room();
    room.terrain.insert(Position::new(24, 24), Tile::Water);
    room.terrain.insert(Position::new(2, 2), Tile::Water);
    World::gen_boss(&mut room);
    assert_eq!(room.terrain.get(Position::new(24, 24)), Some(&Tile::Portal));
    assert_eq!(room.terrain.get(Position::new(2, 2)), Some(&Tile::Water));
}

#[test]
fn lakes_reproducible_from_same_seed() {
    let mut rng1 = ChaCha8Rng::seed_from_u64(1234);
    let mut rng2 = ChaCha8Rng::seed_from_u64(1234);
    let mut a = empty_room();
    let mut b = empty_room();
    World::gen_water(&mut a, &mut rng1);
    World::gen_water(&mut b, &mut rng2);
    let sa = terrain_snapshot(&a);
    let sb = terrain_snapshot(&b);
    assert!(!sa.is_empty());
    assert_eq!(sa, sb);
}

#[test]
fn lake_fill_deterministic_for_fixed_draws() {
    // The fill is a function of terrain, seed and draws alone: no
    // generator involved at all.
    let draws: Vec<u16> = vec![0, 4, 1, 3, 0, 0, 2, 4, 1, 0, 3, 2];
    let mut a: Layer<Tile> = Layer::new();
    let mut b: Layer<Tile> = Layer::new();
    World::gen_lake_helper(&mut a, Position::new(10, 10), &draws);
    World::gen_lake_helper(&mut b, Position::new(10, 10), &draws);
    for x in 0..BOARD_WIDTH {
        for y in 0..BOARD_HEIGHT {
            let p = Position::new(x, y);
            assert_eq!(a.get(p).copied(), b.get(p).copied());
        }
    }
    assert_eq!(a.get(Position::new(10, 10)), Some(&Tile::Water));
}

#[test]
fn lake_fill_with_no_draws_claims_only_seed() {
    let draws: Vec<u16> = Vec::new();
    let mut layer: Layer<Tile> = Layer::new();
    World::gen_lake_helper(&mut layer, Position::new(7, 9), &draws);
    let mut count = 0;
    for x in 0..BOARD_WIDTH {
        for y in 0..BOARD_HEIGHT {
            if layer.contains(Position::new(x, y)) {
                count += 1;
            }
        }
    }
    assert_eq!(count, 1);
    assert_eq!(layer.get(Position::new(7, 9)), Some(&Tile::Water));
}

#[test]
fn lake_fill_never_overwrites_terrain() {
    let draws: Vec<u16> = vec![0; 64];
    let mut layer: Layer<Tile> = Layer::new();
    layer.insert(Position::new(11, 10), Tile::Wall);
    World::gen_lake_helper(&mut layer, Position::new(10, 10), &draws);
    assert_eq!(layer.get(Position::new(11, 10)), Some(&Tile::Wall));
}

#[test]
fn water_only_added_never_removed() {
    let mut rng = ChaCha8Rng::seed_from_u64(99);
    let mut room = empty_room();
    room.terrain.insert(Position::new(30, 40), Tile::Portal);
    World::gen_water(&mut room, &mut rng);
    assert_eq!(room.terrain.get(Position::new(30, 40)), Some(&Tile::Portal));
    for (_, _, t) in terrain_snapshot(&room) {
        assert!(t == Tile::Water || t == Tile::Portal);
    }
}

#[test]
fn enemy_spawns_land_on_free_cells() {
    let mut rng = ChaCha8Rng::seed_from_u64(5);
    let mut room = empty_room();
    World::gen_water(&mut room, &mut rng);
    World::gen_enemies(&mut room, Position::new(0, 0), &mut rng);
    assert!(room.enemies.len() <= 10);
    assert!(!room.enemies.is_empty());
    for e in &room.enemies {
        assert_eq!(e.pos.len(), 1);
        assert_eq!(e.health, ENEMY_HEALTH);
        let cell = e.pos[0];
        assert!(cell.x < BOARD_WIDTH && cell.y < BOARD_HEIGHT);
        assert!(!room.terrain.contains(cell));
        assert!(room.entity.contains(cell));
    }
}

#[test]
fn generated_world_has_no_double_hard_obstacle() {
    // For every position of every room, a cell is never a hard obstacle
    // in the entity layer and the terrain layer at once.
    let mut rng = ChaCha8Rng::seed_from_u64(31);
    let w = World::new(&mut rng);
    for room in &w.rooms {
        for x in 0..BOARD_WIDTH {
            for y in 0..BOARD_HEIGHT {
                let p = Position::new(x, y);
                if room.entity.contains(p) && room.terrain.contains(p) {
                    assert_eq!(room.terrain.get(p), Some(&Tile::Grass));
                }
            }
        }
    }
}

#[test]
fn switching_rooms_is_an_index_change() {
    let mut rng = ChaCha8Rng::seed_from_u64(8);
    let mut w = World::new(&mut rng);
    assert!(w.set_active_room(Position::new(3, 3)));
    assert_eq!(w.world_position, Position::new(3, 3));
    assert!(!w.set_active_room(Position::new(7, 0)));
    assert_eq!(w.world_position, Position::new(3, 3));
}

#[test]
fn world_new_initial_state() {
    let mut rng = ChaCha8Rng::seed_from_u64(42);
    let w = World::new(&mut rng);
    assert_eq!(w.rooms.len(), 49);
    assert_eq!(w.world_position, Position::new(0, 0));
    assert!(w.projectiles.is_empty());
    assert!(w.boss.is_none());
    assert!(w.player.is_alive());
    assert_eq!(w.player.health(), 100);
    assert_eq!(w.player.energy(), 100);
    // The boss room carries its carved portal cluster.
    let boss_room = &w.rooms[24];
    assert_eq!(boss_room.terrain.get(Position::new(24, 24)), Some(&Tile::Portal));
    assert_eq!(boss_room.terrain.get(Position::new(19, 19)), Some(&Tile::Wall));
}

#[test]
fn world_new_places_player_entry_and_paired_enemies() {
    let mut rng = ChaCha8Rng::seed_from_u64(77);
    let w = World::new(&mut rng);
    // The player's entity-layer entry stands at the origin: lakes keep
    // the margin and cannot reach it.
    let start = w.rooms[0].entity.get(Position::new(0, 0));
    assert!(start.is_some());
    // Every spawned enemy of the starting room pairs with its own
    // entity-layer entry, and the cells are pairwise distinct.
    let enemies = &w.rooms[0].enemies;
    assert!(enemies.len() <= 10);
    for (i, e) in enemies.iter().enumerate() {
        assert_eq!(e.pos.len(), 1);
        assert_eq!(e.health, ENEMY_HEALTH);
        assert!(w.rooms[0].entity.contains(e.pos[0]));
        for other in enemies.iter().skip(i + 1) {
            assert_ne!(e.pos[0], other.pos[0]);
        }
    }
    // No room but the starting one holds entities or enemies yet.
    for room in w.rooms.iter().skip(1) {
        assert!(room.enemies.is_empty());
    }
}
