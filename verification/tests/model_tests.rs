use artifacts_bot::api::{
    bank_items, maps_query, CharacterApi, Content, GameMapApi, ItemApi, SlotApi,
};
use artifacts_bot::characters::{Character, Slot};
use artifacts_bot::errors::{Error, ErrorWithCode};
use artifacts_bot::shared::{Many, Pagination, Position, Single};
use artifacts_bot::time::Timestamp;

fn at(secs: i64, nanos: u32) -> Timestamp {
    Timestamp::from_parts(secs, nanos).unwrap()
}

fn slot(code: &str, quantity: u32) -> Slot {
    Slot { code: code.to_string(), quantity }
}

fn character(inventory: Vec<Slot>, max: u32) -> Character {
    Character {
        name: "RustBoy".to_string(),
        position: Position::new(0, 0),
        cooldown_expiration: at(1_000, 0),
        inventory_max_items: max,
        inventory,
    }
}

#[test]
fn timestamp_from_parts_checks_its_range() {
    assert!(Timestamp::from_parts(0, 0).is_some());
    assert!(Timestamp::from_parts(1_700_000_000, 999_999_999).is_some());
    assert!(Timestamp::from_parts(1_700_000_000, 1_000_000_000).is_none());
    assert!(Timestamp::from_parts(i64::MAX, 0).is_none());
    assert!(Timestamp::from_parts(i64::MIN, 0).is_none());
    let t = at(-5, 7);
    assert_eq!(t.secs(), -5);
    assert_eq!(t.subsec_nanos(), 7);
}

#[test]
fn seconds_until_rounds_toward_zero() {
    let now = at(100, 0);
    assert_eq!(at(101, 500_000_000).seconds_until(&now), 1);
    assert_eq!(at(98, 500_000_000).seconds_until(&now), -1);
    assert_eq!(at(99, 500_000_000).seconds_until(&now), 0);
    assert_eq!(at(100, 0).seconds_until(&now), 0);
    assert_eq!(at(99, 0).seconds_until(&now), -1);
    assert_eq!(at(130, 999_999_999).seconds_until(&now), 30);
    assert_eq!(at(100, 0).seconds_until(&at(99, 999_999_999)), 0);
}

#[test]
fn is_not_after_compares_instants() {
    assert!(at(5, 10).is_not_after(&at(5, 10)));
    assert!(at(5, 10).is_not_after(&at(5, 11)));
    assert!(!at(5, 11).is_not_after(&at(5, 10)));
    assert!(at(4, 999_999_999).is_not_after(&at(5, 0)));
    assert!(!at(6, 0).is_not_after(&at(5, 999_999_999)));
}

#[test]
fn the_clock_reads_a_recent_instant() {
    let now = Timestamp::now();
    assert!(now.secs() > 1_600_000_000);
    let later = Timestamp::now();
    assert!(now.is_not_after(&later));
}

#[test]
fn cooldown_sec_uses_the_clock() {
    let mut c = character(vec![], 10);
    c.cooldown_expiration = at(4_000_000_000, 0);
    let left = c.cooldown_sec();
    assert!(left > 1_000_000_000);
    assert!(left < 4_000_000_000);
    c.cooldown_expiration = at(0, 0);
    assert!(c.cooldown_sec() < -1_600_000_000);
}

#[test]
fn cooldown_sign_agrees_with_readiness() {
    let c = character(vec![], 10);
    let before = at(999, 500_000_000);
    let after = at(1_001, 0);
    assert_eq!(c.cooldown_sec_at(&before), 0);
    assert!(!c.is_ready_at(&before));
    assert_eq!(c.cooldown_sec_at(&after), -1);
    assert!(c.is_ready_at(&after));
    assert!(c.is_ready_at(&at(1_000, 0)));
}

#[test]
fn full_inventory_counts_items_of_all_slots() {
    assert!(!character(vec![slot("a", 3), slot("b", 4)], 8).is_full_inventory());
    assert!(character(vec![slot("a", 3), slot("b", 5)], 8).is_full_inventory());
    assert!(character(vec![slot("a", 3), slot("b", 6)], 8).is_full_inventory());
    assert!(character(vec![], 0).is_full_inventory());
    assert!(!character(vec![], 1).is_full_inventory());
    assert!(character(vec![slot("a", u32::MAX), slot("b", u32::MAX)], u32::MAX).is_full_inventory());
}

#[test]
fn first_item_skips_empty_slots() {
    let c = character(vec![slot("", 0), slot("copper_ore", 0), slot("ash_wood", 4), slot("egg", 2)], 10);
    let first = c.get_first_item().unwrap();
    assert_eq!(first.code, "ash_wood");
    assert_eq!(first.quantity, 4);
    assert!(character(vec![slot("", 0)], 10).get_first_item().is_none());
    assert!(character(vec![], 10).get_first_item().is_none());
}

#[test]
fn character_clone_keeps_everything() {
    let c = character(vec![slot("egg", 2)], 10);
    let d = c.clone();
    assert_eq!(d.name, "RustBoy");
    assert_eq!(d.position, Position::new(0, 0));
    assert_eq!(d.inventory.len(), 1);
    assert_eq!(d.inventory[0].code, "egg");
    assert_eq!(d.inventory_max_items, 10);
}

#[test]
fn characters_come_from_the_api() {
    let api = CharacterApi {
        name: "Cerise".to_string(),
        x: -2,
        y: 3,
        cooldown_expiration: at(12, 34),
        inventory_max_items: 100,
        inventory: vec![
            SlotApi { code: "egg".to_string(), quantity: 5 },
            SlotApi { code: "".to_string(), quantity: 0 },
            SlotApi { code: "odd".to_string(), quantity: -1 },
        ],
    };
    let c = Character::from_api(api);
    assert_eq!(c.name, "Cerise");
    assert_eq!(c.position, Position::new(-2, 3));
    assert_eq!(c.cooldown_expiration.secs(), 12);
    assert_eq!(c.cooldown_expiration.subsec_nanos(), 34);
    assert_eq!(c.inventory_max_items, 100);
    assert_eq!(c.inventory.len(), 3);
    assert_eq!(c.inventory[0].code, "egg");
    assert_eq!(c.inventory[0].quantity, 5);
    assert_eq!(c.inventory[1].quantity, 0);
    assert_eq!(c.inventory[2].quantity, u32::MAX);
    let s = Slot::from_api(SlotApi { code: "ash_wood".to_string(), quantity: 7 });
    assert_eq!(s.code, "ash_wood");
    assert_eq!(s.quantity, 7);
}

#[test]
fn map_cells_give_their_position() {
    let cell = GameMapApi {
        name: "Forest".to_string(),
        skin: "forest_1".to_string(),
        x: 2,
        y: 6,
        content: Some(Content { content_type: "resource".to_string(), code: "spruce_tree".to_string() }),
    };
    assert_eq!(cell.get_position(), Position::new(2, 6));
    assert_eq!(Position::new(-2, -3), Position { x: -2, y: -3 });
}

#[test]
fn bank_items_keep_codes_and_quantities() {
    let items = vec![
        ItemApi { code: "copper".to_string(), quantity: 12 },
        ItemApi { code: "egg".to_string(), quantity: 0 },
    ];
    assert_eq!(bank_items(&items), vec![("copper".to_string(), 12), ("egg".to_string(), 0)]);
    assert!(bank_items(&vec![]).is_empty());
}

#[test]
fn maps_query_joins_parameters() {
    assert_eq!(maps_query(&None), "");
    assert_eq!(maps_query(&Some(vec![])), "?");
    assert_eq!(
        maps_query(&Some(vec![("content_code".to_string(), "copper_rocks".to_string())])),
        "?content_code=copper_rocks"
    );
    assert_eq!(
        maps_query(&Some(vec![
            ("content_type".to_string(), "resource".to_string()),
            ("page".to_string(), "2".to_string()),
        ])),
        "?content_type=resource&page=2"
    );
}

#[test]
fn dmap_maps_every_value_and_keeps_pagination() {
    let many = Many {
        data: vec![1u32, 2, 3],
        pagination: Some(Pagination { total: 3, page: 1, size: 50, pages: Some(1) }),
    };
    let doubled = many.dmap(|x: u32| (x as u64) * 2);
    assert_eq!(doubled.data, vec![2u64, 4, 6]);
    assert_eq!(doubled.pagination, many.pagination);
    let none: Many<u32> = Many { data: vec![], pagination: None };
    assert!(none.dmap(|x: u32| x).data.is_empty());
    let single = Single { data: 5 };
    assert_eq!(single.data, 5);
}

#[test]
fn errors_print_as_the_game_reports_them() {
    let simple = Error::Simple("invalid transition".to_string());
    assert_eq!(simple.to_string(), "invalid transition");
    let coded = Error::WithCode(ErrorWithCode {
        code: "00GATERR".to_string(),
        title: "Erreur lors du gathering".to_string(),
        description: Some("http status : 497".to_string()),
        status: Some(497),
    });
    assert_eq!(
        coded.to_string(),
        "(code: 00GATERR, title: Erreur lors du gathering, description: http status : 497)"
    );
    let bare = Error::WithCode(ErrorWithCode {
        code: "00CBTERR".to_string(),
        title: "Erreur lors du combat".to_string(),
        description: None,
        status: None,
    });
    assert_eq!(bare.to_string(), "(code: 00CBTERR, title: Erreur lors du combat, description: )");
}

#[test]
fn errors_report_their_status() {
    let coded = |status: Option<i32>| {
        Error::WithCode(ErrorWithCode {
            code: "c".to_string(),
            title: "t".to_string(),
            description: None,
            status,
        })
    };
    assert!(coded(Some(497)).has_status(497));
    assert!(!coded(Some(498)).has_status(497));
    assert!(coded(None).has_status(0));
    assert!(!coded(None).has_status(497));
    assert!(!Error::Simple("x".to_string()).has_status(0));
    assert!(matches!(Error::invalid_transition(), Error::Simple(t) if t == "invalid transition"));
    let copy = coded(Some(478)).clone();
    assert!(copy.has_status(478));
}

#[test]
fn lowest_cooldown_over_the_characters() {
    let now = at(1_000, 0);
    let mut a = character(vec![], 10);
    a.cooldown_expiration = at(1_030, 0);
    let mut b = character(vec![], 10);
    b.cooldown_expiration = at(1_004, 500_000_000);
    let mut c = character(vec![], 10);
    c.cooldown_expiration = at(990, 0);
    assert_eq!(artifacts_bot::characters::lowest_cooldown(&vec![a.clone(), b.clone()], &now), 4);
    assert_eq!(artifacts_bot::characters::lowest_cooldown(&vec![a, b, c], &now), -10);
    assert_eq!(artifacts_bot::characters::lowest_cooldown(&vec![], &now), 1);
}

#[test]
fn find_character_by_name() {
    let mut a = character(vec![], 10);
    a.name = "Cerise".to_string();
    let b = character(vec![], 10);
    let players = vec![a, b.clone(), b];
    assert_eq!(artifacts_bot::characters::find_character(&players, &"RustBoy".to_string()), Some(1));
    assert_eq!(artifacts_bot::characters::find_character(&players, &"Cerise".to_string()), Some(0));
    assert_eq!(artifacts_bot::characters::find_character(&players, &"Jeanne".to_string()), None);
}

#[test]
fn dmap_with_the_identity_keeps_the_list() {
    let many = Many {
        data: vec![7i32, -3, 0],
        pagination: Some(Pagination { total: 3, page: 2, size: 3, pages: None }),
    };
    let same = many.dmap(|x: i32| x);
    assert_eq!(same.data, many.data);
    assert_eq!(same.pagination, many.pagination);
}

#[test]
fn dmap_twice_is_dmap_of_the_composition() {
    let many = Many { data: vec![1u32, 5, 9], pagination: None };
    let f = |x: u32| (x as u64) + 1;
    let g = |y: u64| y * 10;
    let twice = many.dmap(f).dmap(g);
    let once = many.dmap(|x: u32| g(f(x)));
    assert_eq!(twice.data, once.data);
    assert_eq!(twice.data, vec![20u64, 60, 100]);
    assert_eq!(twice.pagination, once.pagination);
}

fn chrono_at(secs: i64, nanos: u32) -> chrono::DateTime<chrono::Utc> {
    chrono::DateTime::from_timestamp(secs, nanos).unwrap()
}

#[test]
fn leap_seconds_are_instants() {
    assert!(Timestamp::from_parts(59, 1_500_000_000).is_some());
    assert!(Timestamp::from_parts(86_399, 1_999_999_999).is_some());
    assert!(Timestamp::from_parts(-1, 1_000_000_000).is_some());
    assert!(Timestamp::from_parts(58, 1_500_000_000).is_none());
    assert!(Timestamp::from_parts(59, 2_000_000_000).is_none());
    assert!(Timestamp::from_parts(-2, 1_000_000_000).is_none());
    for (secs, nanos) in [(59, 1_500_000_000u32), (86_399, 1_000_000_000), (-1, 1_000_000_000), (58, 1_500_000_000)] {
        assert_eq!(
            Timestamp::from_parts(secs, nanos).is_some(),
            chrono::DateTime::from_timestamp(secs, nanos).is_some()
        );
    }
}

#[test]
fn seconds_until_agrees_with_chrono() {
    let instants: [(i64, u32); 12] = [
        (0, 0),
        (59, 0),
        (59, 1_500_000_000),
        (60, 0),
        (60, 400_000_000),
        (86_399, 999_999_999),
        (86_399, 1_200_000_000),
        (86_400, 0),
        (86_400, 700_000_000),
        (172_799, 1_000_000_000),
        (-1, 1_300_000_000),
        (-86_401, 5),
    ];
    for &(s1, n1) in &instants {
        for &(s2, n2) in &instants {
            let (a, b) = (at(s1, n1), at(s2, n2));
            let (ca, cb) = (chrono_at(s1, n1), chrono_at(s2, n2));
            assert_eq!(a.seconds_until(&b), (ca - cb).num_seconds(), "{:?} until {:?}", (s1, n1), (s2, n2));
            assert_eq!(a.is_not_after(&b), ca <= cb, "{:?} <= {:?}", (s1, n1), (s2, n2));
        }
    }
}

#[test]
fn the_clock_never_reads_a_leap_second() {
    assert!(Timestamp::now().subsec_nanos() < 1_000_000_000);
}
