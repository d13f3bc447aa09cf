use space_drive_game::game::{Game, GameStatus};
use space_drive_game::map::{Barrier, GameMap};
use space_drive_game::player::{Player, PlayerStatus};

const SEED: u64 = 12345;
const MISSILE_SPEED: i64 = 10_000;

fn empty_map(width: i64, height: i64) -> GameMap {
    GameMap::new(width, height, 0, 0, SEED, Vec::new())
}

#[test]
fn test_movement() {
    let p = Player::create_with_direction(
        10_000, 10_000, 10_000, 10_000, 600_000, 7, 0, MISSILE_SPEED,
    );
    let mut game = Game::create(empty_map(1_000_000, 1_000_000));
    game.register_player(p);
    game.players[0].set_speed(5_000);

    game.process(10_000);
    game.players[0].rotate(900_000);
    game.process(10_000);

    assert_eq!(game.players[0].get_x(), 15_000);
    assert_eq!(game.players[0].get_y(), 15_000);
}

#[test]
fn test_borders_collision() {
    let p = Player::create_with_direction(
        10_000, 10_000, 5_000, 10_000, 600_000, 7, -1_800_000, MISSILE_SPEED,
    );
    let mut game = Game::create(empty_map(1_000_000, 1_000_000));
    game.register_player(p);
    game.players[0].set_speed(10_000);

    game.process(10_000);
    game.players[0].rotate(900_000);
    game.process(10_000);

    assert_eq!(game.players[0].get_x(), 5_000);
    assert_eq!(game.players[0].get_y(), 5_000);
}

#[test]
fn test_barriers_collision() {
    let p = Player::create_with_direction(
        10_000, 10_000, 10_000, 10_000, 600_000, 7, 0, MISSILE_SPEED,
    );
    let mut map = empty_map(1_000_000, 1_000_000);
    map.barriers.push(Barrier { x: 10_000, y: 30_000, r: 10_000 });
    map.barriers.push(Barrier { x: 30_000, y: 10_000, r: 10_000 });
    let mut game = Game::create(map);
    game.register_player(p);
    game.players[0].set_speed(10_000);

    game.process(10_000);
    game.players[0].rotate(900_000);
    game.process(10_000);

    assert_eq!(game.players[0].get_x(), 10_000);
    assert_eq!(game.players[0].get_y(), 10_000);
}

#[test]
fn test_missiles_movement() {
    const START_X: i64 = 10_000;
    const START_Y: i64 = 10_000;

    let p = Player::create_with_direction(
        START_X, START_Y, 10_000, 10_000, 600_000, 7, 0, MISSILE_SPEED,
    );
    let mut game = Game::create(empty_map(1_000_000, 1_000_000));
    let id = game.register_player(p);

    assert_eq!(game.missiles.len(), 0);

    // Launch two missiles in different directions.
    game.fire(id);
    game.players[0].rotate(900_000);
    game.fire(id);
    game.process(10_000);

    assert_eq!(game.missiles[0].speed, MISSILE_SPEED);
    assert_eq!(game.missiles[0].x, START_X);
    assert_eq!(game.missiles[0].y, START_Y + MISSILE_SPEED);

    assert_eq!(game.missiles[1].speed, MISSILE_SPEED);
    assert_eq!(game.missiles[1].x, START_X + MISSILE_SPEED);
    assert_eq!(game.missiles[1].y, START_Y);

    game.process(40_000);

    assert_eq!(game.missiles[0].speed, MISSILE_SPEED);
    assert_eq!(game.missiles[0].x, START_X);
    assert_eq!(game.missiles[0].y, START_Y + MISSILE_SPEED * 5);

    assert_eq!(game.missiles[1].speed, MISSILE_SPEED);
    assert_eq!(game.missiles[1].x, START_X + MISSILE_SPEED * 5);
    assert_eq!(game.missiles[1].y, START_Y);
}

#[test]
fn test_missiles_borders_collision() {
    const START_X: i64 = 500_000;
    const START_Y: i64 = 500_000;
    const MAP_SIZE: i64 = 1_000_000;

    let p = Player::create_with_direction(
        START_X, START_Y, 10_000, 10_000, 600_000, 7, 0, MISSILE_SPEED,
    );
    let mut game = Game::create(empty_map(MAP_SIZE, MAP_SIZE));
    let id = game.register_player(p);

    // Launch missiles in all four directions, one per border.
    game.fire(id);
    game.players[0].rotate(900_000);
    game.fire(id);
    game.players[0].rotate(900_000);
    game.fire(id);
    game.players[0].rotate(900_000);
    game.fire(id);

    // Move until the last frame before the collisions.
    game.process(490_000);

    assert_eq!(game.missiles.len(), 4);

    assert_eq!(game.missiles[0].x, START_X);
    assert_eq!(game.missiles[0].y, START_Y + MISSILE_SPEED * 49);

    assert_eq!(game.missiles[1].x, START_X + MISSILE_SPEED * 49);
    assert_eq!(game.missiles[1].y, START_Y);

    assert_eq!(game.missiles[2].x, START_X);
    assert_eq!(game.missiles[2].y, START_Y - MISSILE_SPEED * 49);

    assert_eq!(game.missiles[3].x, START_X - MISSILE_SPEED * 49);
    assert_eq!(game.missiles[3].y, START_Y);

    game.process(20_000);

    assert_eq!(game.missiles.len(), 0);
}

#[test]
fn missile_stops_at_barrier() {
    // A missile flying at a barrier is dropped the first substep its
    // center comes strictly closer than the barrier's radius.
    let p = Player::create_with_direction(
        100_000, 100_000, 10_000, 10_000, 900_000, 7, 0, MISSILE_SPEED,
    );
    let mut map = empty_map(1_000_000, 1_000_000);
    map.barriers.push(Barrier { x: 100_000, y: 200_000, r: 10_000 });
    let mut game = Game::create(map);
    let id = game.register_player(p);

    game.fire(id);
    assert_eq!(game.missiles.len(), 1);

    // The last frames before the collision: at exactly radius distance
    // the missile still flies.
    game.process(80_000);
    assert_eq!(game.missiles[0].x, 100_000);
    assert_eq!(game.missiles[0].y, 180_000);
    game.process(10_000);
    assert_eq!(game.missiles.len(), 1);
    assert_eq!(game.missiles[0].y, 190_000);

    // One substep later it is strictly inside the barrier's disc.
    game.process(1_000);
    assert_eq!(game.missiles.len(), 0);
}

#[test]
fn missile_kills_other_agent_not_owner() {
    // One agent shoots another: the victim is marked killed by the
    // shooter, the projectile is gone, and the shooter wins.
    let a = Player::create_with_direction(
        100_000, 100_000, 10_000, 10_000, 600_000, 7, 0, MISSILE_SPEED,
    );
    let b = Player::create_with_direction(
        100_000, 200_000, 10_000, 10_000, 600_000, 7, 0, MISSILE_SPEED,
    );
    let mut game = Game::create(empty_map(1_000_000, 1_000_000));
    let a_id = game.register_player(a);
    let b_id = game.register_player(b);

    game.fire(a_id);
    // The missile starts inside its owner's disc and must not harm it.
    game.process(100_000);

    let a_idx = game.find_player_index(a_id).unwrap();
    let b_idx = game.find_player_index(b_id).unwrap();
    assert_eq!(game.players[b_idx].status, PlayerStatus::KilledBy(a_id));
    assert_eq!(game.players[a_idx].status, PlayerStatus::Win);
    assert_eq!(game.status, GameStatus::Over(a_id));
    assert_eq!(game.missiles.len(), 0);
}

#[test]
fn status_stays_terminal() {
    // Once the match is over its status never returns to running.
    let a = Player::create_with_direction(
        100_000, 100_000, 10_000, 10_000, 600_000, 7, 0, MISSILE_SPEED,
    );
    let b = Player::create_with_direction(
        100_000, 200_000, 10_000, 10_000, 600_000, 7, 0, MISSILE_SPEED,
    );
    let mut game = Game::create(empty_map(1_000_000, 1_000_000));
    let a_id = game.register_player(a);
    game.register_player(b);
    assert_eq!(game.status, GameStatus::On);

    game.fire(a_id);
    game.process(110_000);
    assert_eq!(game.status, GameStatus::Over(a_id));

    game.process(50_000);
    assert_ne!(game.status, GameStatus::On);
}

#[test]
fn missile_count_never_grows_during_advance() {
    let p = Player::create_with_direction(
        500_000, 500_000, 10_000, 10_000, 600_000, 7, 0, MISSILE_SPEED,
    );
    let mut game = Game::create(empty_map(1_000_000, 1_000_000));
    let id = game.register_player(p);
    game.fire(id);
    game.fire(id);
    let before = game.missiles.len();
    game.process(30_000);
    assert!(game.missiles.len() <= before);
    game.process(3_000_000);
    assert!(game.missiles.len() <= before);
    assert_eq!(game.missiles.len(), 0);
}

#[test]
fn register_assigns_fresh_ids() {
    let mut game = Game::create(empty_map(1_000_000, 1_000_000));
    let a = Player::create_with_direction(
        100_000, 100_000, 10_000, 10_000, 600_000, 7, 0, MISSILE_SPEED,
    );
    let b = Player::create_with_direction(
        200_000, 200_000, 10_000, 10_000, 600_000, 7, 0, MISSILE_SPEED,
    );
    let a_id = game.register_player(a);
    let b_id = game.register_player(b);
    assert_eq!(a_id, 1);
    assert_eq!(b_id, 2);
    game.fire(a_id);
    assert_eq!(game.missiles[0].id, 3);
    assert_eq!(game.missiles[0].player_id, a_id);
}

#[test]
fn get_missiles_reports_positions() {
    let p = Player::create_with_direction(
        100_000, 100_000, 10_000, 10_000, 600_000, 7, 0, MISSILE_SPEED,
    );
    let mut game = Game::create(empty_map(1_000_000, 1_000_000));
    let id = game.register_player(p);
    game.fire(id);
    let ms = game.get_missiles();
    assert_eq!(ms, vec![(100_000, 100_000)]);
}

#[test]
fn fire_needs_an_agent_in_play() {
    let mut game = Game::create(empty_map(1_000_000, 1_000_000));
    game.fire(7);
    assert_eq!(game.missiles.len(), 0);
}
