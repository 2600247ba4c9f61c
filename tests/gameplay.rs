use pig_farm::countdown::Countdown;
use pig_farm::farm::{Farm, PIG_COST, PIG_LIFETIME_NANOS, PIG_SALE_PRICE};
use pig_farm::money::Money;
use pig_farm::movement::{can_move, character_movement, MoveKeys, Player, Position};
use pig_farm::status::money_text;

const SECOND: u64 = 1_000_000_000;

fn origin() -> Position {
    Position { x: 0, y: 0 }
}

#[test]
fn new_game_starts_with_one_hundred() {
    let farm = Farm::new();
    assert_eq!(farm.money.0, 100);
    assert!(farm.pigs.is_empty());
    assert!(farm.parent.children.is_empty());
    assert_eq!(Money::default(), Money(100));
}

#[test]
fn three_spawns_then_all_sold() {
    let mut farm = Farm::new();
    let at = Position { x: 5, y: -7 };
    assert_eq!(farm.spawn_pig(true, &at), Some(0));
    assert_eq!(farm.spawn_pig(true, &at), Some(1));
    assert_eq!(farm.spawn_pig(true, &at), Some(2));
    assert_eq!(farm.money.0, 70);
    assert_eq!(farm.pigs.len(), 3);
    assert_eq!(farm.parent.children, vec![0, 1, 2]);
    assert!(farm.pigs.iter().all(|p| p.position == at));
    let sold = farm.pig_lifetime(SECOND + 1);
    assert_eq!(sold, vec![0, 1, 2]);
    assert_eq!(sold.len(), 3);
    assert_eq!(farm.money.0, 130);
    assert!(farm.pigs.is_empty());
    assert!(farm.parent.children.is_empty());
}

#[test]
fn spawn_with_five_does_nothing() {
    let mut farm = Farm::new();
    farm.money = Money(5);
    assert_eq!(farm.spawn_pig(true, &origin()), None);
    assert_eq!(farm.money.0, 5);
    assert!(farm.pigs.is_empty());
    assert!(farm.parent.children.is_empty());
    assert_eq!(farm.next_id, 0);
}

#[test]
fn spawn_without_fresh_press_does_nothing() {
    let mut farm = Farm::new();
    assert_eq!(farm.spawn_pig(false, &origin()), None);
    assert_eq!(farm.money.0, 100);
    assert!(farm.pigs.is_empty());
}

#[test]
fn spawn_with_exact_cost_empties_balance() {
    let mut farm = Farm::new();
    farm.money = Money(PIG_COST);
    assert_eq!(farm.spawn_pig(true, &origin()), Some(0));
    assert_eq!(farm.money.0, 0);
    assert_eq!(farm.spawn_pig(true, &origin()), None);
    assert_eq!(farm.money.0, 0);
    assert_eq!(farm.pigs.len(), 1);
}

#[test]
fn repeated_spawns_never_overdraw() {
    let mut farm = Farm::new();
    farm.money = Money(25);
    let mut seen = Vec::new();
    for _ in 0..5 {
        farm.spawn_pig(true, &origin());
        assert!(farm.money.0 >= 0);
        seen.push(farm.money.0);
    }
    assert_eq!(seen, vec![15, 5, 5, 5, 5]);
    assert_eq!(farm.pigs.len(), 2);
}

#[test]
fn pig_sold_once_its_lifetime_is_reached() {
    let mut farm = Farm::new();
    farm.spawn_pig(true, &origin());
    assert_eq!(farm.money.0, 90);
    assert!(farm.pig_lifetime(SECOND / 2).is_empty());
    assert_eq!(farm.money.0, 90);
    assert_eq!(farm.pigs[0].pig.lifetime.elapsed, SECOND / 2);
    assert_eq!(farm.pig_lifetime(SECOND / 2), vec![0]);
    assert_eq!(farm.money.0, 90 + PIG_SALE_PRICE);
    assert!(farm.pigs.is_empty());
    assert!(farm.pig_lifetime(SECOND).is_empty());
    assert_eq!(farm.money.0, 110);
}

#[test]
fn sweep_sells_only_expired_pigs() {
    let mut farm = Farm::new();
    farm.spawn_pig(true, &origin());
    farm.pig_lifetime(SECOND * 6 / 10);
    farm.spawn_pig(true, &Position { x: 3, y: 4 });
    let sold = farm.pig_lifetime(SECOND * 6 / 10);
    assert_eq!(sold, vec![0]);
    assert_eq!(farm.money.0, 100);
    assert_eq!(farm.pigs.len(), 1);
    assert_eq!(farm.pigs[0].id, 1);
    assert_eq!(farm.pigs[0].position, Position { x: 3, y: 4 });
    assert_eq!(farm.pigs[0].pig.lifetime.elapsed, SECOND * 6 / 10);
    assert_eq!(farm.parent.children, vec![1]);
    assert_eq!(farm.pig_lifetime(SECOND), vec![1]);
    assert_eq!(farm.money.0, 120);
    assert_eq!(farm.spawn_pig(true, &origin()), Some(2));
}

#[test]
fn countdown_stops_at_its_duration() {
    let mut c = Countdown::once(PIG_LIFETIME_NANOS);
    assert_eq!(c.elapsed, 0);
    assert!(!c.finished());
    c.tick(SECOND - 1);
    assert!(!c.finished());
    c.tick(u64::MAX);
    assert_eq!(c.elapsed, PIG_LIFETIME_NANOS);
    assert!(c.finished());
    let mut zero = Countdown::once(0);
    assert!(zero.finished());
    zero.tick(5);
    assert_eq!(zero.elapsed, 0);
}

#[test]
fn no_keys_keep_player_in_place() {
    let player = Player::new();
    assert_eq!(player.speed, 100);
    let mut p = Position { x: 12, y: -3 };
    let keys = MoveKeys { up: false, down: false, left: false, right: false };
    character_movement(&mut p, &player, &keys, SECOND / 60);
    assert_eq!(p, Position { x: 12, y: -3 });
}

#[test]
fn single_keys_move_along_their_axis() {
    let player = Player { speed: 100 };
    let delta = SECOND / 100;
    let step = 100 * (SECOND / 100) as i64;
    let none = MoveKeys { up: false, down: false, left: false, right: false };
    let mut p = origin();
    character_movement(&mut p, &player, &MoveKeys { up: true, ..none }, delta);
    assert_eq!(p, Position { x: 0, y: step });
    character_movement(&mut p, &player, &MoveKeys { left: true, ..none }, delta);
    assert_eq!(p, Position { x: -step, y: step });
    character_movement(&mut p, &player, &MoveKeys { down: true, ..none }, delta);
    assert_eq!(p, Position { x: -step, y: 0 });
    character_movement(&mut p, &player, &MoveKeys { right: true, ..none }, delta);
    assert_eq!(p, origin());
}

#[test]
fn orthogonal_keys_move_diagonally_without_normalising() {
    let player = Player { speed: 100 };
    let mut p = origin();
    let keys = MoveKeys { up: true, down: false, left: false, right: true };
    character_movement(&mut p, &player, &keys, SECOND);
    assert_eq!(p, Position { x: 100 * SECOND as i64, y: 100 * SECOND as i64 });
}

#[test]
fn opposite_keys_cancel() {
    let player = Player { speed: 7 };
    let mut p = Position { x: 1, y: 1 };
    let keys = MoveKeys { up: true, down: true, left: true, right: true };
    character_movement(&mut p, &player, &keys, SECOND);
    assert_eq!(p, Position { x: 1, y: 1 });
}

#[test]
fn movement_that_does_not_fit_is_detected() {
    let player = Player { speed: 100 };
    let keys = MoveKeys { up: true, down: false, left: false, right: false };
    assert!(can_move(&origin(), &player, &keys, SECOND));
    assert!(!can_move(&Position { x: 0, y: i64::MAX }, &player, &keys, 1));
    assert!(can_move(&Position { x: 0, y: i64::MAX - 100 }, &player, &keys, 1));
    assert!(!can_move(&origin(), &Player { speed: u64::MAX }, &keys, 2));
    let still = MoveKeys { up: false, down: false, left: false, right: false };
    assert!(can_move(&Position { x: i64::MIN, y: i64::MAX }, &player, &still, 1));
}

#[test]
fn money_text_shows_balance() {
    assert_eq!(money_text(&Money(100)), "Money: £100");
    assert_eq!(money_text(&Money(0)), "Money: £0");
    assert_eq!(money_text(&Money(130)), "Money: £130");
    assert_eq!(money_text(&Money(-5)), "Money: £-5");
    assert_eq!(money_text(&Money(i64::MAX)), "Money: £9223372036854775807");
    assert_eq!(money_text(&Money(i64::MIN)), "Money: £-9223372036854775808");
}
