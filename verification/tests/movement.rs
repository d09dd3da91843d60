//! Tests of the movement and collision resolver.

use tilegame::enemy::Enemy;
use tilegame::layer::Layer;
use tilegame::player::{InputKey, Player};
use tilegame::position::{Direction, Position};
use tilegame::tile::{EntityEntry, EntityKind, Tile};
use tilegame::world::{Entity, Room, World};

fn empty_world() -> World {
    let mut rooms = Vec::new();
    for _ in 0..49 {
        rooms.push(Room {
            terrain: Layer::new(),
            entity: Layer::new(),
            atmosphere: Layer::new(),
            enemies: Vec::new(),
        });
    }
    World {
        rooms,
        world_position: Position::new(0, 0),
        x_offset: 0,
        y_offset: 0,
        player: Player::new(),
        projectiles: Vec::new(),
        boss: None,
    }
}

#[test]
fn candidate_positions_clamp_to_board() {
    let w = empty_world();
    assert_eq!(
        w.new_position(Position::new(5, 5), Direction::South, 1),
        Position::new(5, 6)
    );
    assert_eq!(
        w.new_position(Position::new(5, 5), Direction::North, 2),
        Position::new(5, 3)
    );
    assert_eq!(
        w.new_position(Position::new(0, 0), Direction::North, 3),
        Position::new(0, 0)
    );
    assert_eq!(
        w.new_position(Position::new(0, 0), Direction::West, 1),
        Position::new(0, 0)
    );
    assert_eq!(
        w.new_position(Position::new(49, 49), Direction::South, 5),
        Position::new(49, 49)
    );
    assert_eq!(
        w.new_position(Position::new(47, 10), Direction::East, 9),
        Position::new(49, 10)
    );
}

#[test]
fn player_move_commits_and_updates_entity_layer() {
    let mut w = empty_world();
    w.player.pos = Position::new(5, 5);
    w.player.direction = Direction::East;
    w.rooms[0]
        .entity
        .insert(Position::new(5, 5), EntityEntry { tile: Tile::Player, kind: EntityKind::Player });
    let moved = World::travel(&mut w, Entity::Player);
    assert!(moved);
    assert_eq!(w.player.pos, Position::new(6, 5));
    assert!(!w.rooms[0].entity.contains(Position::new(5, 5)));
    assert!(w.rooms[0].entity.contains(Position::new(6, 5)));
}

#[test]
fn player_move_blocked_by_wall() {
    let mut w = empty_world();
    w.player.pos = Position::new(5, 5);
    w.player.direction = Direction::East;
    w.rooms[0].terrain.insert(Position::new(6, 5), Tile::Wall);
    let moved = World::travel(&mut w, Entity::Player);
    assert!(!moved);
    assert_eq!(w.player.pos, Position::new(5, 5));
}

#[test]
fn player_move_onto_permissible_terrain_allowed() {
    let mut w = empty_world();
    w.player.pos = Position::new(5, 5);
    w.player.direction = Direction::East;
    w.rooms[0].terrain.insert(Position::new(6, 5), Tile::Grass);
    let moved = World::travel(&mut w, Entity::Player);
    assert!(moved);
    assert_eq!(w.player.pos, Position::new(6, 5));
}

#[test]
fn move_at_bound_fails_without_stun_tick() {
    let mut w = empty_world();
    w.player.pos = Position::new(0, 0);
    w.player.direction = Direction::North;
    w.player.stun_timer = 2;
    let moved = World::travel(&mut w, Entity::Player);
    assert!(!moved);
    assert_eq!(w.player.stun_timer, 2);
}

#[test]
fn stunned_player_loses_stun_tick_instead_of_moving() {
    let mut w = empty_world();
    w.player.pos = Position::new(5, 5);
    w.player.direction = Direction::South;
    w.player.stun_timer = 2;
    let moved = World::travel(&mut w, Entity::Player);
    assert!(!moved);
    assert_eq!(w.player.pos, Position::new(5, 5));
    assert_eq!(w.player.stun_timer, 1);
}

#[test]
fn boss_hitbox_blocks_movement() {
    let mut w = empty_world();
    w.boss = Some(tilegame::world::BossZone {
        room: Position::new(0, 0),
        top_left: Position::new(6, 5),
        bottom_right: Position::new(8, 7),
        targetable: true,
    });
    w.player.pos = Position::new(5, 5);
    w.player.direction = Direction::East;
    let moved = World::travel(&mut w, Entity::Player);
    assert!(!moved);
    assert_eq!(w.player.pos, Position::new(5, 5));
}

#[test]
fn strafe_restores_facing() {
    let mut w = empty_world();
    w.player.pos = Position::new(5, 5);
    w.player.direction = Direction::South;
    let outcome = Player::use_input(&mut w, InputKey::MoveEast);
    assert!(outcome.turn_used);
    assert_eq!(w.player.pos, Position::new(6, 5));
    assert_eq!(w.player.direction, Direction::South);
}

#[test]
fn turn_key_changes_facing_without_moving() {
    let mut w = empty_world();
    w.player.pos = Position::new(5, 5);
    w.player.direction = Direction::South;
    let outcome = Player::use_input(&mut w, InputKey::TurnWest);
    assert!(outcome.turn_used);
    assert_eq!(w.player.pos, Position::new(5, 5));
    assert_eq!(w.player.direction, Direction::West);
}

#[test]
fn enemy_travel_moves_single_cell_enemy() {
    let mut w = empty_world();
    let enemy = Enemy::new(9, 9, 1, Position::new(0, 0));
    w.rooms[0].enemies.push(enemy);
    w.rooms[0]
        .entity
        .insert(Position::new(9, 9), EntityEntry { tile: Tile::Enemy, kind: EntityKind::Enemy });
    let moved = Enemy::travel(&mut w, 0);
    assert!(moved);
    // New enemies face north.
    assert_eq!(w.rooms[0].enemies[0].pos[0], Position::new(9, 8));
    assert!(!w.rooms[0].entity.contains(Position::new(9, 9)));
    assert!(w.rooms[0].entity.contains(Position::new(9, 8)));
}

#[test]
fn get_enemy_finds_first_occupant() {
    let mut w = empty_world();
    w.rooms[0].enemies.push(Enemy::new(3, 3, 1, Position::new(0, 0)));
    w.rooms[0].enemies.push(Enemy::new(4, 3, 1, Position::new(0, 0)));
    assert_eq!(World::get_enemy(Position::new(4, 3), &w), Some(1));
    assert_eq!(World::get_enemy(Position::new(3, 3), &w), Some(0));
    assert_eq!(World::get_enemy(Position::new(9, 9), &w), None);
}

#[test]
fn viewport_and_board_checks() {
    let w = empty_world();
    assert!(w.coordinates_are_within_board(Position::new(0, 0)));
    assert!(w.coordinates_are_within_board(Position::new(49, 49)));
    assert!(!w.coordinates_are_within_board(Position::new(50, 0)));
    assert!(!w.coordinates_are_within_board(Position::new(0, 50)));
    assert!(w.coordinates_are_within_world(Position::new(10, 10)));
    assert!(!w.coordinates_are_within_world(Position::new(50, 10)));
}

#[test]
fn layer_window_reads_restricted_region() {
    let mut layer: Layer<Tile> = Layer::new();
    layer.insert(Position::new(2, 2), Tile::Water);
    layer.insert(Position::new(7, 7), Tile::Wall);
    layer.insert(Position::new(3, 4), Tile::Grass);
    let mut seen = layer.in_window(0, 0, 5, 5);
    seen.sort_by_key(|(p, _)| (p.x, p.y));
    assert_eq!(seen.len(), 2);
    assert_eq!(seen[0], (Position::new(2, 2), Tile::Water));
    assert_eq!(seen[1], (Position::new(3, 4), Tile::Grass));
}

#[test]
fn queue_position_rejects_off_board() {
    let mut w = empty_world();
    assert!(!World::queue_position(&mut w, Position::new(50, 2)));
    assert_eq!(w.player.queued_position, None);
    assert!(World::queue_position(&mut w, Position::new(4, 2)));
    assert_eq!(w.player.queued_position, Some(Position::new(4, 2)));
}
