use space_drive_game::config::{
    default_backend, default_history_optimization_rate, default_map_barriers_amount,
    default_map_seed, default_player_rays_amount, default_players_amount, GameConfig,
};
use space_drive_game::fixed::{clamp_coord, dist2_i64, isqrt_u128, scaled_step, sq_u128};
use space_drive_game::game::Game;
use space_drive_game::history::{History, SnapshotObject};
use space_drive_game::map::GameMap;
use space_drive_game::player::{Player, ViewHit};
use space_drive_game::session::{
    make_response_from_view, session_step, SessionCommand, SessionEvent, SessionState,
};
use space_drive_game::trig::{cos_fx, sin_fx};

#[test]
fn sine_is_exact_at_cardinal_headings() {
    assert_eq!(sin_fx(0), 0);
    assert_eq!(sin_fx(900_000), 10_000);
    assert_eq!(sin_fx(1_800_000), 0);
    assert_eq!(sin_fx(2_700_000), -10_000);
    assert_eq!(sin_fx(3_600_000), 0);
    assert_eq!(sin_fx(-900_000), -10_000);
    assert_eq!(cos_fx(0), 10_000);
    assert_eq!(cos_fx(900_000), 0);
    assert_eq!(cos_fx(1_800_000), -10_000);
    assert_eq!(cos_fx(2_700_000), 0);
    // Thirty degrees is exact too: one half.
    assert_eq!(sin_fx(300_000), 5_000);
    assert_eq!(sin_fx(1_500_000), 5_000);
}

#[test]
fn integer_square_root_brackets() {
    assert_eq!(isqrt_u128(0), 0);
    assert_eq!(isqrt_u128(1), 1);
    assert_eq!(isqrt_u128(15), 3);
    assert_eq!(isqrt_u128(16), 4);
    assert_eq!(isqrt_u128(10_000 * 10_000), 10_000);
    assert_eq!(isqrt_u128(u128::from(u64::MAX)) as u64, 4_294_967_295);
}

#[test]
fn squared_distance_and_reach() {
    assert_eq!(dist2_i64(0, 0, 30_000, 40_000), 2_500_000_000);
    assert_eq!(sq_u128(50_000), 2_500_000_000);
    assert_eq!(dist2_i64(-10_000, -10_000, 10_000, 10_000), 800_000_000);
}

#[test]
fn clamp_pushes_back_inside() {
    assert_eq!(clamp_coord(-5_000, 10_000, 1_000_000), 10_000);
    assert_eq!(clamp_coord(999_999, 10_000, 1_000_000), 990_000);
    assert_eq!(clamp_coord(500_000, 10_000, 1_000_000), 500_000);
}

#[test]
fn scaled_step_truncates_toward_zero() {
    // A full-speed step along the heading: one unit per second for a
    // tenth of a second.
    assert_eq!(scaled_step(10_000, 10_000, 1_000), 1_000);
    assert_eq!(scaled_step(-10_000, 10_000, 1_000), -1_000);
    assert_eq!(scaled_step(5_000, 10_000, 1_000), 500);
    assert_eq!(scaled_step(10_000, 0, 1_000), 0);
    assert_eq!(scaled_step(3, 3, 1_000), 0);
}

#[test]
fn session_follows_the_lifecycle() {
    let (s, c) = session_step(SessionState::Opened, SessionEvent::NameReceived);
    assert_eq!(s, SessionState::Waiting);
    assert_eq!(c, SessionCommand::AwaitPlayers);

    let (s, c) = session_step(s, SessionEvent::MatchReady);
    assert_eq!(s, SessionState::Playing);
    assert_eq!(c, SessionCommand::SpawnAndSendView);

    let (s, c) = session_step(s, SessionEvent::ActionReceived);
    assert_eq!(s, SessionState::Playing);
    assert_eq!(c, SessionCommand::ApplyAndRespond);

    let (s, c) = session_step(s, SessionEvent::TerminalKilled);
    assert_eq!(s, SessionState::Ended);
    assert_eq!(c, SessionCommand::SendKilled);

    let (s, _) = session_step(s, SessionEvent::ActionReceived);
    assert_eq!(s, SessionState::Ended);
}

#[test]
fn session_ends_on_decode_failure_and_win() {
    let (s, c) = session_step(SessionState::Waiting, SessionEvent::DecodeFailed);
    assert_eq!(s, SessionState::Ended);
    assert_eq!(c, SessionCommand::Close);

    let (s, c) = session_step(SessionState::Playing, SessionEvent::TerminalWin);
    assert_eq!(s, SessionState::Ended);
    assert_eq!(c, SessionCommand::SendWin);

    let (s, c) = session_step(SessionState::Opened, SessionEvent::MatchReady);
    assert_eq!(s, SessionState::Opened);
    assert_eq!(c, SessionCommand::Ignore);
}

#[test]
fn view_records_take_wire_labels() {
    let view = vec![
        ViewHit::Border(15_000),
        ViewHit::Barrier(25_000),
        ViewHit::Enemy(35_000),
    ];
    let r = make_response_from_view(&view);
    assert_eq!(r, vec![("BORDER", 15_000), ("BARRIER", 25_000), ("ENEMY", 35_000)]);
}

#[test]
fn history_decimates_snapshots() {
    let map = GameMap::new(1_000_000, 1_000_000, 0, 0, 7, Vec::new());
    let mut game = Game::create(map);
    let id = game.register_player(Player::create_with_direction(
        100_000, 100_000, 10_000, 10_000, 600_000, 7, 0, 10_000,
    ));
    game.fire(id);

    let mut h = History::new(&game.map, 2);
    h.write_state(&game, 1_000_000);
    h.write_state(&game, 2_000_000);
    h.write_state(&game, 3_000_000);
    h.write_state(&game, 4_000_000);

    // A rate of two keeps every other snapshot, the first one included.
    assert_eq!(h.history.len(), 2);
    assert_eq!(h.history[0].time, 1_000_000);
    assert_eq!(h.history[1].time, 3_000_000);

    // Projectiles come first, then agents.
    match h.history[0].objects[0] {
        SnapshotObject::Missile { x, y, player_id, .. } => {
            assert_eq!((x, y), (100_000, 100_000));
            assert_eq!(player_id, id);
        }
        _ => panic!("expected the projectile first"),
    }
    match h.history[0].objects[1] {
        SnapshotObject::Player { x, y, r, .. } => {
            assert_eq!((x, y, r), (100_000, 100_000, 10_000));
        }
        _ => panic!("expected the agent second"),
    }
}

#[test]
fn history_records_roster_and_winner() {
    let map = GameMap::new(1_000_000, 1_000_000, 0, 0, 7, Vec::new());
    let mut h = History::new(&map, 1);
    h.add_player(1, "ada", "10.0.0.1");
    h.add_player(2, "bob", "10.0.0.2");
    h.set_winner(2, "bob", "10.0.0.2");
    assert_eq!(h.players.len(), 2);
    assert_eq!(h.players[0].name, "ada");
    let w = h.winner.as_ref().unwrap();
    assert_eq!(w.id, 2);
    assert_eq!(w.name, "bob");
}

#[test]
fn defaults_match_the_documented_configuration() {
    assert_eq!(default_backend(), "0.0.0.0:3334");
    assert_eq!(default_map_barriers_amount(), 30);
    assert_eq!(default_map_seed(), None);
    assert_eq!(default_player_rays_amount(), 21);
    assert_eq!(default_players_amount(), 2);
    assert_eq!(default_history_optimization_rate(), 30);
}

#[test]
fn configuration_bounds_are_checked() {
    let good = GameConfig::defaults();
    assert!(good.validate());

    let mut bad = GameConfig::defaults();
    bad.map_width = 0;
    assert!(!bad.validate());

    let mut bad = GameConfig::defaults();
    bad.player_radius = bad.map_width / 2;
    assert!(!bad.validate());

    let mut bad = GameConfig::defaults();
    bad.history_optimization_rate = 0;
    assert!(!bad.validate());
}
