//! Tests of the action/cooldown controller and the player's abilities.

use tilegame::enemy::Enemy;
use tilegame::layer::Layer;
use tilegame::player::{
    InputKey, Player, FIRE_COOLDOWN, HEAL_COST, INVISIBILITY_COOLDOWN, INVISIBILITY_DURATION,
    LIGHTNING_COOLDOWN, MAX_PLAYER_ENERGY, SLAM_COOLDOWN,
};
use tilegame::position::{Direction, Position};
use tilegame::projectile::ProjectileKind;
use tilegame::tile::{EntityEntry, EntityKind, Tile};
use tilegame::world::{BossZone, Room, World};

fn empty_world() -> World {
    let mut rooms = Vec::new();
    for _ in 0..49 {
        rooms.push(Room {
            terrain: Layer::new(),
            entity: Layer::new(),
            atmosphere: Layer::new(),
            enemies: Vec::new(),
        });
    }
    World {
        rooms,
        world_position: Position::new(0, 0),
        x_offset: 0,
        y_offset: 0,
        player: Player::new(),
        projectiles: Vec::new(),
        boss: None,
    }
}

#[test]
fn energy_clamps_at_both_ends() {
    let mut p = Player::new();
    p.change_energy(50);
    assert_eq!(p.energy(), MAX_PLAYER_ENERGY);
    p.change_energy(-30);
    assert_eq!(p.energy(), 70);
    p.change_energy(-500);
    assert_eq!(p.energy(), 0);
    p.change_energy(7);
    assert_eq!(p.energy(), 7);
}

#[test]
fn player_damage_floors_and_kills() {
    let mut p = Player::new();
    p.damage(30);
    assert_eq!(p.health(), 70);
    assert!(p.is_alive());
    p.damage(70);
    assert_eq!(p.health(), 0);
    assert!(!p.is_alive());
}

#[test]
fn heal_restores_and_clamps_at_max() {
    let mut w = empty_world();
    w.player.health = 95;
    let outcome = Player::use_input(&mut w, InputKey::Heal);
    assert!(outcome.turn_used);
    assert_eq!(w.player.health, 100);
    assert_eq!(w.player.energy, 100 - HEAL_COST);
}

#[test]
fn heal_rejected_at_full_health() {
    let mut w = empty_world();
    let outcome = Player::use_input(&mut w, InputKey::Heal);
    assert!(!outcome.turn_used);
    assert_eq!(w.player.health, 100);
    assert_eq!(w.player.energy, 100);
}

#[test]
fn cooldowns_tick_and_own_cooldown_starts() {
    let mut w = empty_world();
    w.player.pos = Position::new(5, 5);
    w.player.fire_cooldown = 0;
    w.player.slam_cooldown = 4;
    w.player.lightning_cooldown = 1;
    let outcome = Player::use_input(&mut w, InputKey::Fire);
    assert!(outcome.turn_used);
    assert_eq!(w.player.fire_cooldown, FIRE_COOLDOWN);
    assert_eq!(w.player.slam_cooldown, 3);
    assert_eq!(w.player.lightning_cooldown, 0);
    assert_eq!(w.player.energy, 70);
    assert_eq!(w.projectiles.len(), 1);
    assert_eq!(w.projectiles[0].kind, ProjectileKind::Fire);
    assert_eq!(w.projectiles[0].pos, Position::new(5, 6));
    assert!(w.rooms[0].atmosphere.contains(Position::new(5, 6)));
}

#[test]
fn fire_rejected_while_cooling_down() {
    let mut w = empty_world();
    w.player.fire_cooldown = 2;
    let outcome = Player::use_input(&mut w, InputKey::Fire);
    assert!(!outcome.turn_used);
    assert_eq!(w.player.energy, 100);
    assert_eq!(w.player.fire_cooldown, 2);
    assert!(w.projectiles.is_empty());
}

#[test]
fn projectile_shot_costs_one_energy_and_spawns() {
    let mut w = empty_world();
    w.player.pos = Position::new(5, 5);
    w.player.direction = Direction::East;
    let outcome = Player::use_input(&mut w, InputKey::Projectile);
    assert!(outcome.turn_used);
    assert_eq!(w.player.energy, 99);
    assert_eq!(w.projectiles.len(), 1);
    assert_eq!(w.projectiles[0].pos, Position::new(6, 5));
    assert_eq!(w.projectiles[0].kind, ProjectileKind::Plain);
    assert!(w.rooms[0].atmosphere.contains(Position::new(6, 5)));
}

#[test]
fn projectile_shot_resolves_on_adjacent_enemy() {
    let mut w = empty_world();
    w.player.pos = Position::new(5, 5);
    w.player.direction = Direction::South;
    let mut enemy = Enemy::new(5, 6, 1, Position::new(0, 0));
    enemy.health = 30;
    w.rooms[0].enemies.push(enemy);
    w.rooms[0]
        .entity
        .insert(Position::new(5, 6), EntityEntry { tile: Tile::Enemy, kind: EntityKind::Enemy });
    let outcome = Player::use_input(&mut w, InputKey::Projectile);
    assert!(outcome.turn_used);
    assert_eq!(w.rooms[0].enemies[0].health, 20);
    assert!(w.projectiles.is_empty());
}

#[test]
fn invisibility_starts_window_and_counts_down() {
    let mut w = empty_world();
    w.player.pos = Position::new(5, 5);
    assert!(w.player.is_visible());
    let outcome = Player::use_input(&mut w, InputKey::Invisibility);
    assert!(outcome.turn_used);
    assert!(!w.player.is_visible());
    assert_eq!(w.player.visible, INVISIBILITY_DURATION);
    assert_eq!(w.player.invisibility_cooldown, INVISIBILITY_COOLDOWN);
    assert_eq!(w.player.energy, 70);
    // Each later action shortens the window by one tick.
    let _ = Player::use_input(&mut w, InputKey::TurnNorth);
    assert_eq!(w.player.visible, INVISIBILITY_DURATION - 1);
}

#[test]
fn invisibility_rejected_without_energy() {
    let mut w = empty_world();
    w.player.energy = 29;
    let outcome = Player::use_input(&mut w, InputKey::Invisibility);
    assert!(!outcome.turn_used);
    assert_eq!(w.player.energy, 29);
    assert!(w.player.is_visible());
}

#[test]
fn lightning_strikes_queued_cell() {
    let mut w = empty_world();
    let target = Position::new(20, 20);
    assert!(World::queue_position(&mut w, target));
    let outcome = Player::use_input(&mut w, InputKey::Lightning);
    assert!(outcome.turn_used);
    assert_eq!(w.player.energy, 75);
    assert_eq!(w.player.lightning_cooldown, LIGHTNING_COOLDOWN);
    assert_eq!(w.projectiles.len(), 1);
    assert_eq!(w.projectiles[0].pos, target);
    assert_eq!(w.projectiles[0].kind, ProjectileKind::Lightning);
    assert!(w.rooms[0].atmosphere.contains(target));
    // Consumed, not cleared.
    assert_eq!(w.player.queued_position, Some(target));
}

#[test]
fn lightning_rejected_without_target() {
    let mut w = empty_world();
    let outcome = Player::use_input(&mut w, InputKey::Lightning);
    assert!(!outcome.turn_used);
    assert!(w.projectiles.is_empty());
    assert_eq!(w.player.energy, 100);
}

#[test]
fn teleport_moves_player_and_pays() {
    let mut w = empty_world();
    w.player.pos = Position::new(5, 5);
    w.rooms[0]
        .entity
        .insert(Position::new(5, 5), EntityEntry { tile: Tile::Player, kind: EntityKind::Player });
    let target = Position::new(30, 12);
    assert!(World::queue_position(&mut w, target));
    let outcome = Player::use_input(&mut w, InputKey::Teleport);
    assert!(outcome.turn_used);
    assert_eq!(w.player.pos, target);
    assert_eq!(w.player.energy, 95);
    assert!(!w.rooms[0].entity.contains(Position::new(5, 5)));
    assert!(w.rooms[0].entity.contains(target));
    assert_eq!(w.player.queued_position, Some(target));
}

#[test]
fn teleport_onto_wall_rejected_without_turn() {
    let mut w = empty_world();
    w.player.pos = Position::new(5, 5);
    let target = Position::new(9, 9);
    w.rooms[0].terrain.insert(target, Tile::Wall);
    assert!(World::queue_position(&mut w, target));
    w.player.fire_cooldown = 4;
    let outcome = Player::use_input(&mut w, InputKey::Teleport);
    assert!(!outcome.turn_used);
    assert_eq!(w.player.pos, Position::new(5, 5));
    assert_eq!(w.player.energy, 100);
    // No cooldown advanced: the turn was not consumed.
    assert_eq!(w.player.fire_cooldown, 4);
    assert_eq!(w.player.teleport_cooldown, 0);
}

#[test]
fn build_places_structure_and_unbuild_removes_it() {
    let mut w = empty_world();
    w.player.pos = Position::new(5, 5);
    let spot = Position::new(6, 5);
    assert!(World::queue_position(&mut w, spot));
    let outcome = Player::use_input(&mut w, InputKey::Build);
    assert!(outcome.turn_used);
    assert_eq!(w.rooms[0].atmosphere.get(spot), Some(&Tile::Structure));
    assert_eq!(w.player.energy, 98);
    // Building again on the same spot removes the structure, for free.
    let outcome2 = Player::use_input(&mut w, InputKey::Build);
    assert!(outcome2.turn_used);
    assert!(!w.rooms[0].atmosphere.contains(spot));
    assert_eq!(w.player.energy, 98);
}

#[test]
fn build_rejected_on_terrain() {
    let mut w = empty_world();
    w.player.pos = Position::new(5, 5);
    let spot = Position::new(5, 6);
    w.rooms[0].terrain.insert(spot, Tile::Water);
    assert!(World::queue_position(&mut w, spot));
    let outcome = Player::use_input(&mut w, InputKey::Build);
    assert!(!outcome.turn_used);
    assert!(!w.rooms[0].atmosphere.contains(spot));
}

#[test]
fn slam_damages_all_neighbors_once() {
    let mut w = empty_world();
    w.player.pos = Position::new(10, 10);
    let mut close1 = Enemy::new(9, 9, 1, Position::new(0, 0));
    close1.health = 60;
    let mut close2 = Enemy::new(10, 11, 1, Position::new(0, 0));
    close2.health = 60;
    let mut far = Enemy::new(13, 10, 1, Position::new(0, 0));
    far.health = 60;
    w.rooms[0].enemies.push(close1);
    w.rooms[0].enemies.push(close2);
    w.rooms[0].enemies.push(far);
    let outcome = Player::use_input(&mut w, InputKey::Slam);
    assert!(outcome.turn_used);
    assert_eq!(w.player.energy, 90);
    assert_eq!(w.player.slam_cooldown, SLAM_COOLDOWN);
    assert_eq!(w.rooms[0].enemies[0].health, 10);
    assert_eq!(w.rooms[0].enemies[1].health, 10);
    assert_eq!(w.rooms[0].enemies[2].health, 60);
}

#[test]
fn melee_returns_energy_per_struck_enemy() {
    let mut w = empty_world();
    w.player.pos = Position::new(5, 5);
    w.player.direction = Direction::South;
    w.player.energy = 50;
    let mut enemy = Enemy::new(5, 6, 1, Position::new(0, 0));
    enemy.health = 60;
    w.rooms[0].enemies.push(enemy);
    w.rooms[0]
        .entity
        .insert(Position::new(5, 6), EntityEntry { tile: Tile::Enemy, kind: EntityKind::Enemy });
    let outcome = Player::use_input(&mut w, InputKey::Melee);
    assert!(outcome.turn_used);
    assert_eq!(w.rooms[0].enemies[0].health, 30);
    assert_eq!(w.player.energy, 52);
}

#[test]
fn boss_room_actions_report_boss_turn_and_damage() {
    let mut w = empty_world();
    w.world_position = Position::new(3, 3);
    w.player.pos = Position::new(5, 5);
    w.player.direction = Direction::East;
    w.boss = Some(BossZone {
        room: Position::new(3, 3),
        top_left: Position::new(6, 5),
        bottom_right: Position::new(9, 8),
        targetable: true,
    });
    let outcome = Player::use_input(&mut w, InputKey::Melee);
    assert!(outcome.turn_used);
    assert!(outcome.advance_boss);
    assert_eq!(outcome.boss_damage, 30);
}

#[test]
fn actions_outside_boss_room_do_not_advance_boss() {
    let mut w = empty_world();
    let outcome = Player::use_input(&mut w, InputKey::TurnNorth);
    assert!(outcome.turn_used);
    assert!(!outcome.advance_boss);
    assert_eq!(outcome.boss_damage, 0);
}

#[test]
fn slam_reaches_boss_through_neighborhood() {
    let mut w = empty_world();
    w.world_position = Position::new(3, 3);
    w.player.pos = Position::new(10, 10);
    w.boss = Some(BossZone {
        room: Position::new(3, 3),
        top_left: Position::new(11, 11),
        bottom_right: Position::new(14, 14),
        targetable: true,
    });
    let outcome = Player::use_input(&mut w, InputKey::Slam);
    assert!(outcome.turn_used);
    assert_eq!(outcome.boss_damage, 50);
}

#[test]
fn untargetable_boss_takes_no_damage() {
    let mut w = empty_world();
    w.world_position = Position::new(3, 3);
    w.player.pos = Position::new(5, 5);
    w.player.direction = Direction::East;
    w.boss = Some(BossZone {
        room: Position::new(3, 3),
        top_left: Position::new(6, 5),
        bottom_right: Position::new(9, 8),
        targetable: false,
    });
    let outcome = Player::use_input(&mut w, InputKey::Melee);
    assert!(outcome.turn_used);
    assert!(outcome.advance_boss);
    assert_eq!(outcome.boss_damage, 0);
}

#[test]
fn tracking_missile_costs_most_energy() {
    let mut w = empty_world();
    w.player.pos = Position::new(5, 5);
    let outcome = Player::use_input(&mut w, InputKey::TrackingProjectile);
    assert!(outcome.turn_used);
    assert_eq!(w.player.energy, 25);
    assert_eq!(w.projectiles.len(), 1);
    assert_eq!(w.projectiles[0].kind, ProjectileKind::Tracking);
}
