use artifacts_bot::behaviors::crafting::{CraftingBehavior, CraftingState};
use artifacts_bot::behaviors::deposit_bank::{DepositBankBehavior, DepositState};
use artifacts_bot::behaviors::fight::{FightBehavior, FightState};
use artifacts_bot::behaviors::gathering::{GatheringBehavior, GatheringState};
use artifacts_bot::behaviors::moving::{MovingBehavior, MovingState};
use artifacts_bot::behaviors::withdraw_bank::{WithdrawBankBehavior, WithdrawState};
use artifacts_bot::characters::{Character, Slot};
use artifacts_bot::effects::{Action, Reply, Step};
use artifacts_bot::errors::{Error, ErrorWithCode};
use artifacts_bot::shared::Position;
use artifacts_bot::time::Timestamp;

fn at(secs: i64) -> Timestamp {
    Timestamp::from_parts(secs, 0).unwrap()
}

/// The instant at which the test characters' cooldowns are long over.
fn now() -> Timestamp {
    at(10_000)
}

fn slot(code: &str, quantity: u32) -> Slot {
    Slot { code: code.to_string(), quantity }
}

fn character_at(x: i32, y: i32, inventory: Vec<Slot>) -> Character {
    Character {
        name: "ScalaMan".to_string(),
        position: Position::new(x, y),
        cooldown_expiration: at(1_000),
        inventory_max_items: 10,
        inventory,
    }
}

fn busy(mut c: Character) -> Character {
    c.cooldown_expiration = at(10_005);
    c
}

fn ok() -> Reply {
    Reply::Completed(Ok(()))
}

fn failed(status: Option<i32>) -> Reply {
    Reply::Completed(Err(Error::WithCode(ErrorWithCode {
        code: "00ERR".to_string(),
        title: "refused".to_string(),
        description: None,
        status,
    })))
}

fn server_down() -> Reply {
    Reply::Completed(Err(Error::Simple("connection refused".to_string())))
}

fn next<B: std::fmt::Debug>(s: Step<B>) -> B {
    match s {
        Step::Next(Ok(b)) => b,
        other => panic!("expected a next state, got {:?}", other),
    }
}

fn is_invalid_transition<B>(s: &Step<B>) -> bool {
    matches!(s, Step::Next(Err(Error::Simple(t))) if t == "invalid transition")
}

#[test]
fn moving_asks_for_a_move_then_finishes() {
    let b = MovingBehavior::new();
    let c = character_at(0, 0, vec![]);
    let dest = Position::new(4, 1);
    assert!(matches!(b.next_behavior(&c, &dest, &now(), &[]), Step::Perform(Action::Move(p)) if p == dest));
    assert_eq!(next(b.next_behavior(&c, &dest, &now(), &[ok()])).current_state, MovingState::Finish);
    assert_eq!(next(b.next_behavior(&c, &dest, &now(), &[failed(Some(490))])), b);
}

#[test]
fn moving_in_place_finishes_at_once() {
    let b = MovingBehavior::new();
    let c = character_at(4, 1, vec![]);
    let r = next(b.next_behavior(&c, &Position::new(4, 1), &now(), &[]));
    assert_eq!(r.current_state, MovingState::Finish);
}

#[test]
fn moving_waits_during_cooldown() {
    let b = MovingBehavior::new();
    let c = busy(character_at(0, 0, vec![]));
    assert_eq!(next(b.next_behavior(&c, &Position::new(4, 1), &now(), &[])), b);
}

#[test]
fn finished_moving_refuses_to_go_on() {
    let b = MovingBehavior { current_state: MovingState::Finish };
    let c = character_at(0, 0, vec![]);
    assert!(is_invalid_transition(&b.next_behavior(&c, &Position::new(4, 1), &now(), &[])));
    assert_eq!(b.reset(), MovingBehavior::new());
}

#[test]
fn fight_finishes_after_a_won_fight() {
    let b = FightBehavior::new();
    let c = character_at(0, 1, vec![]);
    assert!(matches!(b.next_behavior(&c, &now(), &[]), Step::Perform(Action::Fight)));
    assert_eq!(next(b.next_behavior(&c, &now(), &[ok()])).current_state, FightState::Finish);
    assert_eq!(next(b.next_behavior(&c, &now(), &[failed(Some(497))])), b);
    assert_eq!(next(b.next_behavior(&busy(c.clone()), &now(), &[])), b);
    let done = FightBehavior { current_state: FightState::Finish };
    assert!(is_invalid_transition(&done.next_behavior(&c, &now(), &[])));
    assert_eq!(done.reset(), b);
}

#[test]
fn gathering_reports_a_full_inventory() {
    let b = GatheringBehavior::new();
    let c = character_at(2, 0, vec![]);
    assert!(matches!(b.next_behavior(&c, &now(), &[]), Step::Perform(Action::Gathering)));
    assert_eq!(next(b.next_behavior(&c, &now(), &[ok()])).current_state, GatheringState::Finish);
    match b.next_behavior(&c, &now(), &[failed(Some(497))]) {
        Step::Next(Err(e)) => assert!(e.has_status(497)),
        other => panic!("unexpected {:?}", other),
    }
    assert_eq!(next(b.next_behavior(&c, &now(), &[failed(Some(486))])), b);
    assert_eq!(next(b.next_behavior(&c, &now(), &[server_down()])), b);
    let done = GatheringBehavior { current_state: GatheringState::Finish };
    assert!(is_invalid_transition(&done.next_behavior(&c, &now(), &[])));
}

#[test]
fn deposit_walks_to_the_bank_then_deposits_the_first_stack() {
    let b = DepositBankBehavior::new(MovingBehavior::new());
    let c = character_at(0, 1, vec![slot("", 0), slot("raw_chicken", 3), slot("egg", 1)]);
    assert!(matches!(b.next_behavior(&c, &now(), &[]), Step::Perform(Action::Move(p)) if p == Position::new(4, 1)));
    let in_bank = next(b.next_behavior(&c, &now(), &[ok()]));
    assert_eq!(in_bank.current_state, DepositState::InBank);
    assert_eq!(in_bank.moving_behavior, MovingBehavior::new());
    let there = character_at(4, 1, c.inventory.clone());
    match in_bank.next_behavior(&there, &now(), &[]) {
        Step::Perform(Action::Deposit { code, quantity }) => {
            assert_eq!(code, "raw_chicken");
            assert_eq!(quantity, 3);
        },
        other => panic!("unexpected {:?}", other),
    }
    assert_eq!(next(in_bank.next_behavior(&there, &now(), &[ok()])).current_state, DepositState::Finish);
    assert_eq!(next(in_bank.next_behavior(&there, &now(), &[server_down()])), in_bank);
    let empty = character_at(4, 1, vec![slot("", 0)]);
    assert_eq!(next(in_bank.next_behavior(&empty, &now(), &[])).current_state, DepositState::Finish);
    let done = next(in_bank.next_behavior(&empty, &now(), &[]));
    assert!(is_invalid_transition(&done.next_behavior(&empty, &now(), &[])));
    assert_eq!(done.reset().current_state, DepositState::Empty);
}

#[test]
fn deposit_at_the_bank_needs_no_move() {
    let b = DepositBankBehavior::new(MovingBehavior::new());
    let c = character_at(4, 1, vec![slot("egg", 1)]);
    assert_eq!(next(b.next_behavior(&c, &now(), &[])).current_state, DepositState::InBank);
    assert_eq!(next(b.next_behavior(&busy(c.clone()), &now(), &[])), b);
}

#[test]
fn withdraw_takes_the_asked_quantity() {
    let b = WithdrawBankBehavior::new(MovingBehavior::new());
    let c = character_at(4, 1, vec![]);
    let in_bank = next(b.next_behavior(&c, &"ash_plank".to_string(), 5, &now(), &[]));
    assert_eq!(in_bank.current_state, WithdrawState::InBank);
    match in_bank.next_behavior(&c, &"ash_plank".to_string(), 5, &now(), &[]) {
        Step::Perform(Action::Withdraw { code, quantity }) => {
            assert_eq!(code, "ash_plank");
            assert_eq!(quantity, 5);
        },
        other => panic!("unexpected {:?}", other),
    }
    let done = next(in_bank.next_behavior(&c, &"ash_plank".to_string(), 5, &now(), &[ok()]));
    assert_eq!(done.current_state, WithdrawState::Finish);
    assert_eq!(next(in_bank.next_behavior(&c, &"ash_plank".to_string(), 5, &now(), &[failed(None)])), in_bank);
    assert!(is_invalid_transition(&done.next_behavior(&c, &"ash_plank".to_string(), 5, &now(), &[])));
}

fn costs(list: &[(&str, u32)]) -> Vec<(String, u32)> {
    list.iter().map(|(c, q)| (c.to_string(), *q)).collect()
}

fn at_workshop() -> CraftingBehavior {
    CraftingBehavior { current_state: CraftingState::InCraftPosition, moving_behavior: MovingBehavior::new() }
}

fn craft_request(s: Step<CraftingBehavior>) -> (String, u32) {
    match s {
        Step::Perform(Action::Craft { code, quantity }) => (code, quantity),
        other => panic!("expected a craft, got {:?}", other),
    }
}

#[test]
fn crafting_walks_to_the_workshop_first() {
    let b = CraftingBehavior::new(MovingBehavior::new());
    let c = character_at(0, 0, vec![]);
    let workshop = Position::new(2, 1);
    let recipe = costs(&[("ash_plank", 3)]);
    let code = "wooden_stick".to_string();
    assert!(matches!(
        b.next_behavior(&c, &workshop, &recipe, &code, None, &now(), &[]),
        Step::Perform(Action::Move(p)) if p == workshop
    ));
    let r = next(b.next_behavior(&c, &workshop, &recipe, &code, None, &now(), &[ok()]));
    assert_eq!(r, at_workshop());
}

#[test]
fn crafting_a_given_quantity() {
    let b = at_workshop();
    let c = character_at(2, 1, vec![]);
    let (code, quantity) = craft_request(b.next_behavior(
        &c,
        &Position::new(2, 1),
        &costs(&[("ash_plank", 3)]),
        &"wooden_stick".to_string(),
        Some(4),
        &now(),
        &[],
    ));
    assert_eq!(code, "wooden_stick");
    assert_eq!(quantity, 4);
}

#[test]
fn crafting_computes_the_quantity_from_the_inventory() {
    let b = at_workshop();
    let c = character_at(
        2,
        1,
        vec![slot("red_slimeball", 7), slot("feather", 1), slot("ash_plank", 10)],
    );
    let recipe = costs(&[("red_slimeball", 2), ("ash_plank", 3)]);
    let code = "fire_staff".to_string();
    let pos = Position::new(2, 1);
    assert_eq!(craft_request(b.next_behavior(&c, &pos, &recipe, &code, None, &now(), &[])), (code.clone(), 3));
    let scarce = character_at(2, 1, vec![slot("red_slimeball", 1), slot("ash_plank", 10)]);
    assert_eq!(craft_request(b.next_behavior(&scarce, &pos, &recipe, &code, None, &now(), &[])).1, 0);
    // two stacks of one ingredient do not match the recipe's two costs
    let split = character_at(2, 1, vec![slot("red_slimeball", 7), slot("ash_plank", 10), slot("red_slimeball", 50)]);
    let r = next(b.next_behavior(&split, &pos, &recipe, &code, None, &now(), &[]));
    assert_eq!(r.current_state, CraftingState::Finish);
}

#[test]
fn crafting_without_an_ingredient_finishes() {
    let b = at_workshop();
    let c = character_at(2, 1, vec![slot("ash_plank", 10)]);
    let recipe = costs(&[("red_slimeball", 2), ("ash_plank", 3)]);
    let r = next(b.next_behavior(&c, &Position::new(2, 1), &recipe, &"fire_staff".to_string(), None, &now(), &[]));
    assert_eq!(r.current_state, CraftingState::Finish);
}

#[test]
fn crafting_ends_on_success_or_full_inventory() {
    let b = at_workshop();
    let c = character_at(2, 1, vec![]);
    let recipe = costs(&[("ash_plank", 3)]);
    let code = "wooden_stick".to_string();
    let pos = Position::new(2, 1);
    let step = |reply: Reply| next(b.next_behavior(&c, &pos, &recipe, &code, Some(1), &now(), &[reply]));
    assert_eq!(step(ok()).current_state, CraftingState::Finish);
    assert_eq!(step(failed(Some(478))).current_state, CraftingState::Finish);
    assert_eq!(step(failed(Some(493))), b);
    assert_eq!(step(server_down()), b);
    let done = step(ok());
    assert!(is_invalid_transition(&done.next_behavior(&c, &pos, &recipe, &code, Some(1), &now(), &[])));
    assert_eq!(done.reset().current_state, CraftingState::Empty);
}

#[test]
fn single_action_behaviors_end_their_step_after_one_reply() {
    let c = character_at(0, 0, vec![slot("egg", 1)]);
    let replies = [server_down(), ok()];
    assert!(matches!(MovingBehavior::new().next_behavior(&c, &Position::new(1, 1), &now(), &replies), Step::Next(_)));
    assert!(matches!(FightBehavior::new().next_behavior(&c, &now(), &replies), Step::Next(_)));
    assert!(matches!(GatheringBehavior::new().next_behavior(&c, &now(), &replies), Step::Next(_)));
    let d = DepositBankBehavior { current_state: DepositState::InBank, moving_behavior: MovingBehavior::new() };
    assert!(matches!(d.next_behavior(&c, &now(), &replies), Step::Next(_)));
}
