use space_drive_game::game::Game;
use space_drive_game::map::{Barrier, GameMap};
use space_drive_game::player::{Player, ViewHit};

const X: i64 = 500_000;
const Y: i64 = 500_000;
const R: i64 = 10_000;
const DIRECTION: i64 = 0;
const MAX_SPEED: i64 = 0;
const VIEW_ANGLE: i64 = 600_000;
const RAYS_AMOUNT: u16 = 7;
const MISSILE_SPEED: i64 = 10_000;

fn get_player() -> Player {
    Player::create_with_direction(
        X, Y, R, MAX_SPEED, VIEW_ANGLE, RAYS_AMOUNT, DIRECTION, MISSILE_SPEED,
    )
}

#[test]
fn player_test_attrs() {
    let p = get_player();
    assert_eq!(p.get_x(), X);
    assert_eq!(p.get_y(), Y);
    assert_eq!(p.get_direction(), DIRECTION);
    assert_eq!(p.get_speed(), 0);
}

#[test]
fn test_rotation() {
    let mut p = get_player();
    p.rotate(1_800_000);
    assert_eq!(p.get_direction(), 1_800_000);
    p.rotate(-3_600_000);
    assert_eq!(p.get_direction(), -1_800_000);
}

#[test]
fn test_view() {
    let mut map = GameMap::new(1_000_000, 1_000_000, 0, 0, 12345, Vec::new());
    map.barriers.push(Barrier { x: 500_000, y: 1_000_000, r: 100_000 });
    let mut game = Game::create(map);
    let p = Player::create_with_direction(
        500_000,
        500_000,
        100_000,
        MAX_SPEED,
        VIEW_ANGLE,
        1,
        DIRECTION,
        MISSILE_SPEED,
    );
    let p2 = Player::create(1_000_000, 500_000, 100_000, MAX_SPEED, VIEW_ANGLE, 0, MISSILE_SPEED);
    let id = game.register_player(p);
    game.register_player(p2);

    assert_eq!(game.view(id).first().unwrap(), &ViewHit::Barrier(300_000));
    let idx = game.find_player_index(id).unwrap();
    game.players[idx].rotate(900_000);
    assert_eq!(game.view(id).first().unwrap(), &ViewHit::Enemy(300_000));
    game.players[idx].rotate(900_000);
    assert_eq!(game.view(id).first().unwrap(), &ViewHit::Border(400_000));
}

#[test]
fn test_fire() {
    let map = GameMap::new(1_000_000, 1_000_000, 0, 0, space_drive_game::map::fresh_seed(), Vec::new());
    let mut game = Game::create(map);
    let id = game.register_player(get_player());

    game.fire(id);

    let missile = game.missiles.first().unwrap();
    let idx = game.find_player_index(id).unwrap();
    let player = &game.players[idx];

    assert_eq!(missile.player_id, player.id);
    assert_eq!(missile.direction, player.direction);
    assert_eq!(missile.x, player.x);
    assert_eq!(missile.y, player.y);
}

#[test]
fn set_speed_clamps_both_ends() {
    let mut p = Player::create_with_direction(X, Y, R, 10_000, VIEW_ANGLE, 7, 0, MISSILE_SPEED);
    p.set_speed(5_000);
    assert_eq!(p.get_speed(), 5_000);
    p.set_speed(20_000);
    assert_eq!(p.get_speed(), 10_000);
    p.set_speed(-3_000);
    assert_eq!(p.get_speed(), 0);
}

#[test]
fn created_player_draws_a_heading_in_range() {
    let p = Player::create(X, Y, R, MAX_SPEED, VIEW_ANGLE, RAYS_AMOUNT, MISSILE_SPEED);
    assert!(-1_800_000 <= p.get_direction() && p.get_direction() < 1_800_000);
    assert_eq!(p.get_speed(), 0);
}
