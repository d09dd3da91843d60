//! End-to-end scenarios over the simulation core.

use tilegame::enemy::Enemy;
use tilegame::layer::Layer;
use tilegame::player::{InputKey, Player, MAX_PLAYER_HEALTH};
use tilegame::position::{Direction, Position};
use tilegame::projectile::{Projectile, ProjectileKind};
use tilegame::tile::{EntityEntry, EntityKind, Tile};
use tilegame::world::{Room, World};

fn empty_world() -> World {
    let mut rooms = Vec::new();
    for _ in 0..49 {
        rooms.push(Room {
            terrain: Layer::new(),
            entity: Layer::new(),
            atmosphere: Layer::new(),
            enemies: Vec::new(),
        });
    }
    World {
        rooms,
        world_position: Position::new(0, 0),
        x_offset: 0,
        y_offset: 0,
        player: Player::new(),
        projectiles: Vec::new(),
        boss: None,
    }
}

#[test]
fn scenario_melee_kills_enemy_and_sweep_clears_cell() {
    let mut w = empty_world();
    w.player.pos = Position::new(5, 5);
    w.player.direction = Direction::South;
    let target = Position::new(5, 6);
    let mut enemy = Enemy::new(5, 6, 1, Position::new(0, 0));
    enemy.health = 30;
    w.rooms[0].enemies.push(enemy);
    w.rooms[0]
        .entity
        .insert(target, EntityEntry { tile: Tile::Enemy, kind: EntityKind::Enemy });

    let first = Player::use_input(&mut w, InputKey::Melee);
    assert!(first.turn_used);
    let second = Player::use_input(&mut w, InputKey::Melee);
    assert!(second.turn_used);
    assert_eq!(w.rooms[0].enemies[0].health, 0);

    Enemy::update(&mut w);
    assert_eq!(w.rooms[0].enemies.len(), 0);
    assert!(!w.rooms[0].entity.contains(target));
}

#[test]
fn scenario_heal_rejected_without_energy() {
    let mut w = empty_world();
    w.player.health = 50;
    w.player.energy = 10;
    let outcome = Player::use_input(&mut w, InputKey::Heal);
    assert!(!outcome.turn_used);
    assert_eq!(w.player.health, 50);
    assert_eq!(w.player.energy, 10);
    assert_eq!(w.player.projectile_cooldown, 0);
    assert_eq!(w.player.lightning_cooldown, 0);
}

#[test]
fn scenario_build_rejected_beyond_adjacency() {
    let mut w = empty_world();
    w.player.pos = Position::new(5, 5);
    let far = Position::new(8, 5);
    assert!(World::queue_position(&mut w, far));
    let outcome = Player::use_input(&mut w, InputKey::Build);
    assert!(!outcome.turn_used);
    assert!(!w.rooms[0].atmosphere.contains(far));
    assert_eq!(w.player.energy, 100);
}

#[test]
fn scenario_projectile_stopped_by_wall() {
    let mut w = empty_world();
    w.player.pos = Position::new(0, 0);
    w.rooms[0].terrain.insert(Position::new(15, 10), Tile::Wall);
    let start = Position::new(10, 10);
    w.projectiles.push(Projectile::new(
        10,
        10,
        1,
        Direction::East,
        10,
        Position::new(0, 0),
        ProjectileKind::Plain,
    ));
    w.rooms[0].atmosphere.insert(start, Tile::Projectile);

    for expected_x in [11u16, 12, 13, 14] {
        Projectile::update(&mut w);
        assert_eq!(w.projectiles.len(), 1);
        assert_eq!(w.projectiles[0].pos, Position::new(expected_x, 10));
        assert!(w
            .rooms[0]
            .atmosphere
            .contains(Position::new(expected_x, 10)));
    }
    // The next step would land on the wall: the projectile is destroyed
    // at (14, 10) and its marker cleared.
    Projectile::update(&mut w);
    assert_eq!(w.projectiles.len(), 0);
    assert!(!w.rooms[0].atmosphere.contains(Position::new(14, 10)));
    assert!(!w.rooms[0].atmosphere.contains(Position::new(15, 10)));
}

#[test]
fn projectile_hits_player_and_damages() {
    let mut w = empty_world();
    w.player.pos = Position::new(3, 3);
    w.rooms[0]
        .entity
        .insert(Position::new(3, 3), EntityEntry { tile: Tile::Player, kind: EntityKind::Player });
    w.projectiles.push(Projectile::new(
        2,
        3,
        1,
        Direction::East,
        10,
        Position::new(0, 0),
        ProjectileKind::Plain,
    ));
    w.rooms[0].atmosphere.insert(Position::new(2, 3), Tile::Projectile);
    Projectile::update(&mut w);
    assert_eq!(w.projectiles.len(), 0);
    assert_eq!(w.player.health(), MAX_PLAYER_HEALTH - 10);
    assert!(w.player.is_alive());
}

#[test]
fn projectile_hits_enemy_and_damages() {
    let mut w = empty_world();
    let mut enemy = Enemy::new(7, 3, 1, Position::new(0, 0));
    enemy.health = 30;
    w.rooms[0].enemies.push(enemy);
    w.rooms[0]
        .entity
        .insert(Position::new(7, 3), EntityEntry { tile: Tile::Enemy, kind: EntityKind::Enemy });
    w.projectiles.push(Projectile::new(
        6,
        3,
        1,
        Direction::East,
        10,
        Position::new(0, 0),
        ProjectileKind::Plain,
    ));
    w.rooms[0].atmosphere.insert(Position::new(6, 3), Tile::Projectile);
    Projectile::update(&mut w);
    assert_eq!(w.projectiles.len(), 0);
    assert_eq!(w.rooms[0].enemies[0].health, 20);
}

#[test]
fn rejection_leaves_world_identical_twice() {
    let mut w = empty_world();
    w.player.energy = 10;
    w.player.health = 40;
    w.player.slam_cooldown = 3;
    // Slam needs 10 energy and a lapsed cooldown: rejected twice, and the
    // observable state is identical after each attempt.
    for _ in 0..2 {
        let outcome = Player::use_input(&mut w, InputKey::Slam);
        assert!(!outcome.turn_used);
        assert_eq!(outcome.boss_damage, 0);
        assert!(!outcome.advance_boss);
        assert_eq!(w.player.energy, 10);
        assert_eq!(w.player.health, 40);
        assert_eq!(w.player.slam_cooldown, 3);
        assert_eq!(w.projectiles.len(), 0);
    }
}
