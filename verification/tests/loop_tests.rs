use artifacts_bot::behaviors::crafting::{CraftingBehavior, CraftingState};
use artifacts_bot::behaviors::deposit_bank::{DepositBankBehavior, DepositState};
use artifacts_bot::behaviors::fight::{FightBehavior, FightState};
use artifacts_bot::behaviors::gathering::{GatheringBehavior, GatheringState};
use artifacts_bot::behaviors::go_deposit_bank::{GoDepositBankBehavior, GoDepositState};
use artifacts_bot::behaviors::go_infinit_fight::{GoFightState, GoInfinitFight};
use artifacts_bot::behaviors::go_infinit_gathering::{GoGatheringState, GoInfinitGateringBehavior};
use artifacts_bot::behaviors::infinit_craft::{InfinitCraftBehavior, InfinitCraftState};
use artifacts_bot::behaviors::infinit_fight::{InfinitFight, InfinitFightStates};
use artifacts_bot::behaviors::infinit_gathering::{GatheringLoopState, InfinitGateringBehavior, InfinitGateringStates};
use artifacts_bot::behaviors::infinit_gathering_cooper::{InfinitGateringCooperStates, InfinitGatheringCooper};
use artifacts_bot::behaviors::moving::MovingBehavior;
use artifacts_bot::behaviors::withdraw_bank::WithdrawBankBehavior;
use artifacts_bot::behaviors::Behavior;
use artifacts_bot::characters::{Character, Slot};
use artifacts_bot::effects::{Action, Reply, Step};
use artifacts_bot::errors::{Error, ErrorWithCode};
use artifacts_bot::shared::Position;
use artifacts_bot::time::Timestamp;

fn at(secs: i64) -> Timestamp {
    Timestamp::from_parts(secs, 0).unwrap()
}

fn now() -> Timestamp {
    at(10_000)
}

fn slot(code: &str, quantity: u32) -> Slot {
    Slot { code: code.to_string(), quantity }
}

fn character_at(x: i32, y: i32, inventory: Vec<Slot>, max: u32) -> Character {
    Character {
        name: "Jeanne".to_string(),
        position: Position::new(x, y),
        cooldown_expiration: at(1_000),
        inventory_max_items: max,
        inventory,
    }
}

fn ok() -> Reply {
    Reply::Completed(Ok(()))
}

fn failed(status: Option<i32>) -> Reply {
    Reply::Completed(Err(Error::WithCode(ErrorWithCode {
        code: "00ERR".to_string(),
        title: "refused".to_string(),
        description: None,
        status,
    })))
}

fn bank(items: &[(&str, u32)]) -> Reply {
    Reply::BankItems(Ok(items.iter().map(|(c, q)| (c.to_string(), *q)).collect()))
}

fn next<B: std::fmt::Debug>(s: Step<B>) -> B {
    match s {
        Step::Next(Ok(b)) => b,
        other => panic!("expected a next state, got {:?}", other),
    }
}

fn deposit() -> DepositBankBehavior {
    DepositBankBehavior::new(MovingBehavior::new())
}

fn go_fight() -> GoInfinitFight {
    GoInfinitFight::new(&Position::new(0, 1), FightBehavior::new(), deposit(), MovingBehavior::new())
}

#[test]
fn go_infinit_fight_walks_then_fights_forever() {
    let b = go_fight();
    let away = character_at(3, 3, vec![], 10);
    assert!(matches!(b.next_behavior(&away, &now(), &[]), Step::Perform(Action::Move(p)) if p == Position::new(0, 1)));
    let zone = next(b.next_behavior(&away, &now(), &[ok()]));
    assert_eq!(zone.current_state, GoFightState::InFightZone);
    let here = character_at(0, 1, vec![], 10);
    assert!(matches!(zone.next_behavior(&here, &now(), &[]), Step::Perform(Action::Fight)));
    let again = next(zone.next_behavior(&here, &now(), &[ok()]));
    assert_eq!(again.current_state, GoFightState::Empty);
    assert_eq!(again.fight_behavior.current_state, FightState::Empty);
    assert_eq!(next(zone.next_behavior(&here, &now(), &[failed(Some(497))])), zone);
}

#[test]
fn go_infinit_fight_empties_a_full_inventory_first() {
    let b = go_fight();
    let full = character_at(0, 1, vec![slot("feather", 6), slot("raw_chicken", 4)], 10);
    assert!(!b.is_in_workflow_deposit());
    let deposit_mode = next(b.next_behavior(&full, &now(), &[]));
    assert_eq!(deposit_mode.current_state, GoFightState::FullInventory);
    assert!(deposit_mode.is_in_workflow_deposit());
    assert!(matches!(deposit_mode.next_behavior(&full, &now(), &[]), Step::Perform(Action::Move(p)) if p == Position::new(4, 1)));
    let in_bank = next(deposit_mode.next_behavior(&full, &now(), &[ok()]));
    assert_eq!(in_bank.deposit_bank.current_state, DepositState::InBank);
    let at_bank = character_at(4, 1, full.inventory.clone(), 10);
    assert!(matches!(in_bank.next_behavior(&at_bank, &now(), &[]), Step::Perform(Action::Deposit { .. })));
    let restart = next(in_bank.next_behavior(&at_bank, &now(), &[ok()]));
    assert_eq!(restart.current_state, GoFightState::Empty);
    assert_eq!(restart.deposit_bank.current_state, DepositState::Empty);
}

#[test]
fn go_infinit_fight_waits_during_cooldown() {
    let b = go_fight();
    let mut c = character_at(0, 1, vec![slot("feather", 10)], 10);
    c.cooldown_expiration = at(20_000);
    assert_eq!(next(b.next_behavior(&c, &now(), &[])), b);
}

#[test]
fn go_infinit_gathering_gathers_when_ready() {
    let b = GoInfinitGateringBehavior::new(&Position::new(2, 0), deposit(), MovingBehavior::new());
    let c = character_at(2, 0, vec![], 10);
    let zone = next(b.next_behavior(&c, &now(), &[]));
    assert_eq!(zone.current_state, GoGatheringState::InGatheringZone);
    assert!(matches!(zone.next_behavior(&c, &now(), &[]), Step::Perform(Action::Gathering)));
    assert_eq!(next(zone.next_behavior(&c, &now(), &[ok()])).current_state, GoGatheringState::Empty);
    assert_eq!(next(zone.next_behavior(&c, &now(), &[failed(Some(497))])).current_state, GoGatheringState::Empty);
    assert_eq!(next(zone.next_behavior(&c, &now(), &[failed(Some(499))])), zone);
    let full = character_at(2, 0, vec![slot("copper_ore", 10)], 10);
    assert!(matches!(zone.next_behavior(&full, &now(), &[]), Step::Perform(Action::Move(p)) if p == Position::new(4, 1)));
}

#[test]
fn infinit_gathering_cycles_through_the_bank() {
    let b = InfinitGateringBehavior::new(&Position::new(2, 6), GatheringBehavior::new(), deposit(), MovingBehavior::new());
    let c = character_at(2, 6, vec![], 10);
    let zone = next(b.next_behavior(&c, &now(), &[]));
    assert_eq!(zone.current_state, GatheringLoopState::InGatheringZone);
    assert!(matches!(zone.next_behavior(&c, &now(), &[]), Step::Perform(Action::Gathering)));
    let done = next(zone.next_behavior(&c, &now(), &[ok()]));
    assert_eq!(done.current_state, GatheringLoopState::Empty);
    assert_eq!(done.gathering_behavior.current_state, GatheringState::Empty);
    let refused = next(zone.next_behavior(&c, &now(), &[failed(Some(497))]));
    assert_eq!(refused.current_state, GatheringLoopState::FullInventory);
    assert_eq!(next(zone.next_behavior(&c, &now(), &[failed(Some(404))])), zone);
    let full = character_at(2, 6, vec![slot("spruce_wood", 10)], 10);
    assert_eq!(next(b.next_behavior(&full, &now(), &[])).current_state, GatheringLoopState::FullInventory);
    let stages = [
        InfinitGateringStates::Empty,
        InfinitGateringStates::GoingGathering,
        InfinitGateringStates::EndGathering,
        InfinitGateringStates::FullInventory,
        InfinitGateringStates::GoingBank,
        InfinitGateringStates::Deposit,
    ];
    assert_eq!(stages.len(), 6);
}

#[test]
fn infinit_fight_runs_its_loop() {
    let c = character_at(3, 3, vec![], 10);
    let b = InfinitFight::new(c.clone());
    assert!(matches!(b.run(&now(), &[]), Step::Perform(Action::Move(p)) if p == Position::new(0, 1)));
    let going = next(b.run(&now(), &[ok()]));
    assert_eq!(going.current_state, InfinitFightStates::GoingFight);
    assert_eq!(next(b.run(&now(), &[failed(None)])).current_state, InfinitFightStates::Empty);
    assert!(matches!(going.run(&now(), &[]), Step::Perform(Action::Fight)));
    assert_eq!(next(going.run(&at(500), &[])).current_state, InfinitFightStates::GoingFight);
    let end = next(going.run(&now(), &[ok()]));
    assert_eq!(end.current_state, InfinitFightStates::EndFight);
    assert_eq!(next(end.run(&now(), &[])).current_state, InfinitFightStates::GoingFight);
}

#[test]
fn infinit_fight_deposits_until_the_inventory_is_empty() {
    let full = character_at(0, 1, vec![slot("", 0), slot("egg", 10)], 10);
    let b = InfinitFight::new(full.clone());
    let f = next(b.run(&now(), &[]));
    assert_eq!(f.current_state, InfinitFightStates::FullInventory);
    let g = next(f.run(&now(), &[]));
    assert_eq!(g.current_state, InfinitFightStates::GoingBank);
    let d = next(g.run(&now(), &[ok()]));
    assert_eq!(d.current_state, InfinitFightStates::Deposit);
    match d.run(&now(), &[]) {
        Step::Perform(Action::Deposit { code, quantity }) => {
            assert_eq!(code, "egg");
            assert_eq!(quantity, 10);
        },
        other => panic!("unexpected {:?}", other),
    }
    assert_eq!(next(d.run(&now(), &[ok()])).current_state, InfinitFightStates::Deposit);
    let emptied = InfinitFight { current_state: InfinitFightStates::Deposit, character_info: character_at(4, 1, vec![], 10) };
    assert_eq!(next(emptied.run(&now(), &[])).current_state, InfinitFightStates::Empty);
    assert_eq!(next(emptied.run(&now(), &[])).character_info.name, "Jeanne");
}

#[test]
fn cooper_gathers_forever() {
    let b = InfinitGatheringCooper::new(character_at(2, 0, vec![], 10));
    let going = next(b.run(&now(), &[]));
    assert_eq!(going.current_state, InfinitGateringCooperStates::GoingGathering);
    assert!(matches!(going.run(&now(), &[]), Step::Perform(Action::Gathering)));
    let end = next(going.run(&now(), &[ok()]));
    assert_eq!(end.current_state, InfinitGateringCooperStates::EndGathering);
    assert_eq!(next(end.run(&now(), &[])).current_state, InfinitGateringCooperStates::GoingGathering);
    assert_eq!(next(going.run(&at(10), &[])).current_state, InfinitGateringCooperStates::GoingGathering);
    let away = InfinitGatheringCooper::new(character_at(0, 0, vec![], 10));
    assert!(matches!(away.run(&now(), &[]), Step::Perform(Action::Move(p)) if p == Position::new(2, 0)));
}

fn go_deposit_state(s: Step<Option<Behavior>>) -> GoDepositState {
    match s {
        Step::Next(Ok(Some(Behavior::GoDepositBankBehavior(b)))) => b.current_state,
        other => panic!("unexpected {:?}", other),
    }
}

#[test]
fn go_deposit_bank_cycles() {
    let b = GoDepositBankBehavior::new(character_at(0, 0, vec![slot("egg", 2)], 10), Position::new(4, 1));
    assert!(matches!(b.next_behavior(&[]), Step::Perform(Action::Move(p)) if p == Position::new(4, 1)));
    assert_eq!(go_deposit_state(b.next_behavior(&[ok()])), GoDepositState::InBank);
    assert_eq!(go_deposit_state(b.next_behavior(&[failed(None)])), GoDepositState::Empty);
    let in_bank = GoDepositBankBehavior { current_state: GoDepositState::InBank, ..b.clone() };
    assert!(matches!(in_bank.next_behavior(&[]), Step::Perform(Action::Deposit { quantity: 2, .. })));
    assert_eq!(go_deposit_state(in_bank.next_behavior(&[ok()])), GoDepositState::Finish);
    let done = GoDepositBankBehavior { current_state: GoDepositState::Finish, ..b.clone() };
    assert_eq!(go_deposit_state(done.next_behavior(&[])), GoDepositState::Empty);
    let dispatched = Behavior::GoDepositBankBehavior(done);
    assert_eq!(go_deposit_state(dispatched.next_behavior(&character_at(0, 0, vec![], 10), &now(), &[])), GoDepositState::Empty);
}

#[test]
fn behavior_dispatches_to_the_gathering_loop() {
    let g = GoInfinitGateringBehavior::new(&Position::new(2, 0), deposit(), MovingBehavior::new());
    let b = Behavior::GoInfinitGateringBehavior(g);
    let c = character_at(2, 0, vec![], 10);
    match b.next_behavior(&c, &now(), &[]) {
        Step::Next(Ok(Some(Behavior::GoInfinitGateringBehavior(n)))) => {
            assert_eq!(n.current_state, GoGatheringState::InGatheringZone)
        },
        other => panic!("unexpected {:?}", other),
    }
}

fn infinit_craft() -> InfinitCraftBehavior {
    InfinitCraftBehavior::new(
        MovingBehavior::new(),
        deposit(),
        WithdrawBankBehavior::new(MovingBehavior::new()),
        CraftingBehavior::new(MovingBehavior::new()),
    )
}

fn recipe() -> Vec<(String, u32)> {
    vec![("red_slimeball".to_string(), 2), ("ash_plank".to_string(), 3)]
}

#[test]
fn infinit_craft_goes_to_the_bank_and_empties_the_inventory() {
    let b = infinit_craft();
    let code = "fire_staff".to_string();
    let (bank_pos, shop) = (Position::new(4, 1), Position::new(2, 1));
    let c = character_at(4, 1, vec![slot("egg", 3)], 100);
    let in_bank = next(b.next_behavior(&c, &bank_pos, &shop, &recipe(), &code, &now(), &[]));
    assert_eq!(in_bank.current_state, InfinitCraftState::InBank);
    let in_bank2 = next(in_bank.next_behavior(&c, &bank_pos, &shop, &recipe(), &code, &now(), &[]));
    assert_eq!(in_bank2.deposit_bank_behavior.current_state, DepositState::InBank);
    assert!(matches!(
        in_bank2.next_behavior(&c, &bank_pos, &shop, &recipe(), &code, &now(), &[]),
        Step::Perform(Action::Deposit { .. })
    ));
    // one finished deposit ends the stage
    let all = next(in_bank2.next_behavior(&c, &bank_pos, &shop, &recipe(), &code, &now(), &[ok()]));
    assert_eq!(all.current_state, InfinitCraftState::DepositAll);
    assert_eq!(all.deposit_bank_behavior.current_state, DepositState::Empty);
}

#[test]
fn infinit_craft_fills_the_inventory_in_the_recipe_proportions() {
    let b = InfinitCraftBehavior { current_state: InfinitCraftState::DepositAll, ..infinit_craft() };
    let code = "fire_staff".to_string();
    let (bank_pos, shop) = (Position::new(4, 1), Position::new(2, 1));
    let c = character_at(4, 1, vec![], 100);
    assert!(matches!(b.next_behavior(&c, &bank_pos, &shop, &recipe(), &code, &now(), &[]), Step::Perform(Action::GetBankItems)));
    // 100 items in proportions 2:3 are 40 slimeballs and 60 planks
    let stock = bank(&[("red_slimeball", 40), ("ash_plank", 60)]);
    let w = next(b.next_behavior(&c, &bank_pos, &shop, &recipe(), &code, &now(), &[stock]));
    assert_eq!(w.current_state, InfinitCraftState::DepositAll);
    let ready = InfinitCraftBehavior {
        withdraw_bank_behavior: w.withdraw_bank_behavior,
        ..b
    };
    match ready.next_behavior(&c, &bank_pos, &shop, &recipe(), &code, &now(), &[bank(&[("red_slimeball", 40)])]) {
        Step::Perform(Action::Withdraw { code, quantity }) => {
            assert_eq!(code, "red_slimeball");
            assert_eq!(quantity, 40);
        },
        other => panic!("unexpected {:?}", other),
    }
    let short = bank(&[("red_slimeball", 39)]);
    let finished = next(b.next_behavior(&c, &bank_pos, &shop, &recipe(), &code, &now(), &[short]));
    assert_eq!(finished.current_state, InfinitCraftState::Finish);
    let failed_lookup = Reply::BankItems(Err(Error::Simple("timeout".to_string())));
    assert_eq!(next(b.next_behavior(&c, &bank_pos, &shop, &recipe(), &code, &now(), &[failed_lookup])).current_state, InfinitCraftState::Finish);
    let stocked = character_at(4, 1, vec![slot("red_slimeball", 40), slot("ash_plank", 60)], 100);
    let go_craft = next(b.next_behavior(&stocked, &bank_pos, &shop, &recipe(), &code, &now(), &[bank(&[])]));
    assert_eq!(go_craft.current_state, InfinitCraftState::WithdrawAll);
    assert!(matches!(
        finished.next_behavior(&c, &bank_pos, &shop, &recipe(), &code, &now(), &[]),
        Step::Next(Err(Error::Simple(_)))
    ));
}

#[test]
fn infinit_craft_asks_for_at_most_two_actions() {
    let b = InfinitCraftBehavior { current_state: InfinitCraftState::DepositAll, ..infinit_craft() };
    let c = character_at(0, 0, vec![], 100);
    let replies = [bank(&[]), ok()];
    let r = b.next_behavior(&c, &Position::new(4, 1), &Position::new(2, 1), &recipe(), &"fire_staff".to_string(), &now(), &replies);
    assert!(matches!(r, Step::Next(_)));
    let one = [bank(&[])];
    let moving = b.next_behavior(&c, &Position::new(4, 1), &Position::new(2, 1), &recipe(), &"fire_staff".to_string(), &now(), &one);
    assert!(matches!(moving, Step::Perform(Action::Move(p)) if p == Position::new(4, 1)));
}

#[test]
fn infinit_craft_crafts_then_starts_over() {
    let b = InfinitCraftBehavior {
        current_state: InfinitCraftState::WithdrawAll,
        crafting_behavior: CraftingBehavior { current_state: CraftingState::InCraftPosition, moving_behavior: MovingBehavior::new() },
        ..infinit_craft()
    };
    let c = character_at(2, 1, vec![slot("red_slimeball", 40), slot("ash_plank", 60)], 100);
    let code = "fire_staff".to_string();
    match b.next_behavior(&c, &Position::new(4, 1), &Position::new(2, 1), &recipe(), &code, &now(), &[]) {
        Step::Perform(Action::Craft { code, quantity }) => {
            assert_eq!(code, "fire_staff");
            assert_eq!(quantity, 20);
        },
        other => panic!("unexpected {:?}", other),
    }
    let over = next(b.next_behavior(&c, &Position::new(4, 1), &Position::new(2, 1), &recipe(), &code, &now(), &[ok()]));
    assert_eq!(over.current_state, InfinitCraftState::Empty);
    assert_eq!(over.crafting_behavior.current_state, CraftingState::Empty);
    assert_eq!(over.reset(), over);
}

#[test]
fn every_cooldown_aware_behavior_waits() {
    let mut c = character_at(0, 0, vec![slot("egg", 10)], 10);
    c.cooldown_expiration = at(10_003);
    let t = now();
    let code = "fire_staff".to_string();
    let g = GatheringBehavior::new();
    assert_eq!(next(g.next_behavior(&c, &t, &[])), g);
    let w = WithdrawBankBehavior::new(MovingBehavior::new());
    assert_eq!(next(w.next_behavior(&c, &code, 1, &t, &[])), w);
    let cr = CraftingBehavior::new(MovingBehavior::new());
    assert_eq!(next(cr.next_behavior(&c, &Position::new(1, 1), &recipe(), &code, None, &t, &[])), cr);
    let ic = infinit_craft();
    assert_eq!(next(ic.next_behavior(&c, &Position::new(4, 1), &Position::new(1, 1), &recipe(), &code, &t, &[])), ic);
    let ig = InfinitGateringBehavior::new(&Position::new(2, 6), GatheringBehavior::new(), deposit(), MovingBehavior::new());
    assert_eq!(next(ig.next_behavior(&c, &t, &[])), ig);
    let gg = GoInfinitGateringBehavior::new(&Position::new(2, 0), deposit(), MovingBehavior::new());
    assert_eq!(next(gg.next_behavior(&c, &t, &[])), gg);
}

#[test]
fn infinit_gathering_may_try_to_gather_with_a_full_inventory() {
    let zone = InfinitGateringBehavior {
        current_state: GatheringLoopState::InGatheringZone,
        ..InfinitGateringBehavior::new(&Position::new(2, 6), GatheringBehavior::new(), deposit(), MovingBehavior::new())
    };
    let full = character_at(2, 6, vec![slot("spruce_wood", 10)], 10);
    assert!(matches!(zone.next_behavior(&full, &now(), &[]), Step::Perform(Action::Gathering)));
    let refused = next(zone.next_behavior(&full, &now(), &[failed(Some(497))]));
    assert_eq!(refused.current_state, GatheringLoopState::FullInventory);
}

/// Runs one step with the given answer to every action.
fn drive<B: std::fmt::Debug>(step: impl Fn(&[Reply]) -> Step<B>, answer: impl Fn() -> Reply) -> Result<B, Error> {
    let mut replies: Vec<Reply> = Vec::new();
    loop {
        match step(&replies) {
            Step::Next(r) => return r,
            Step::Perform(_) => replies.push(answer()),
        }
    }
}

#[test]
fn the_fight_loop_never_stops_on_an_error() {
    let answers: [fn() -> Reply; 4] = [ok, || failed(Some(497)), || failed(None), || Reply::Completed(Err(Error::Simple("down".to_string())))];
    let characters = [
        character_at(0, 0, vec![], 10),
        character_at(0, 1, vec![], 10),
        character_at(0, 1, vec![slot("feather", 10)], 10),
        character_at(4, 1, vec![slot("feather", 10)], 10),
    ];
    for answer in answers {
        let mut b = go_fight();
        for round in 0..40 {
            let c = &characters[round % characters.len()];
            b = drive(|r| b.next_behavior(c, &now(), r), answer).expect("the loop goes on");
        }
    }
}

#[test]
fn the_gathering_loops_never_stop_on_an_error() {
    let answers: [fn() -> Reply; 3] = [ok, || failed(Some(497)), || failed(Some(486))];
    let characters = [
        character_at(0, 0, vec![], 10),
        character_at(2, 6, vec![], 10),
        character_at(2, 6, vec![slot("spruce_wood", 10)], 10),
        character_at(4, 1, vec![slot("spruce_wood", 10)], 10),
    ];
    for answer in answers {
        let mut a = InfinitGateringBehavior::new(&Position::new(2, 6), GatheringBehavior::new(), deposit(), MovingBehavior::new());
        let mut b = GoInfinitGateringBehavior::new(&Position::new(2, 6), deposit(), MovingBehavior::new());
        for round in 0..40 {
            let c = &characters[round % characters.len()];
            a = drive(|r| a.next_behavior(c, &now(), r), answer).expect("the loop goes on");
            b = drive(|r| b.next_behavior(c, &now(), r), answer).expect("the loop goes on");
        }
    }
}

#[test]
fn infinit_craft_with_an_empty_recipe() {
    let b = InfinitCraftBehavior { current_state: InfinitCraftState::DepositAll, ..infinit_craft() };
    let c = character_at(4, 1, vec![], 100);
    let none: Vec<(String, u32)> = vec![];
    let code = "nothing".to_string();
    let (bank_pos, shop) = (Position::new(4, 1), Position::new(2, 1));
    assert!(matches!(b.next_behavior(&c, &bank_pos, &shop, &none, &code, &now(), &[]), Step::Perform(Action::GetBankItems)));
    let crafting = next(b.next_behavior(&c, &bank_pos, &shop, &none, &code, &now(), &[bank(&[])]));
    assert_eq!(crafting.current_state, InfinitCraftState::WithdrawAll);
    let finished = next(b.next_behavior(&c, &bank_pos, &shop, &none, &code, &now(), &[bank(&[("egg", 3)])]));
    assert_eq!(finished.current_state, InfinitCraftState::Finish);
}
