use druum::character::{BaseStats, Class, DerivedStats, PartyRow, Race};
use druum::combat::ai::EnemyAi;
use druum::data::classes::{ClassDef, ClassTable};
use druum::data::encounters::{EncounterEntry, EncounterTable, EnemyGroup, EnemySpec};
use druum::data::enemies::{EnemyDb, EnemyDefinition};
use druum::data::items::{EquipSlot, ItemAsset, ItemDb, ItemKind, ItemStatBlock};
use druum::data::races::{stat_modifier, RaceData, RaceTable};
use druum::data::skills::{
    clamp_skill_tree, node_ids_unique, validate_no_cycles, CycleError, NodeGrant, SkillNode, SkillTree,
    MAX_SKILL_NODE_COST, MAX_SKILL_TREE_NODES,
};
use druum::data::spells::{
    clamp_known_spells, SpellAsset, SpellDb, SpellEffect, SpellSchool, SpellTarget, KNOWN_SPELLS_MAX,
};
use druum::data::town::{
    clamp_recruit_pool, clamp_shop_stock, RecruitDef, RecruitPool, ShopEntry, ShopStock,
    MAX_RECRUIT_POOL, MAX_SHOP_ITEMS,
};
use rand::rngs::SmallRng;
use rand::SeedableRng;

fn node(id: &str, prereqs: &[&str]) -> SkillNode {
    SkillNode {
        id: id.to_string(),
        display_name: id.to_uppercase(),
        cost: 1,
        min_level: 1,
        prerequisites: prereqs.iter().map(|p| p.to_string()).collect(),
        grant: NodeGrant::StatBoost(BaseStats { strength: 1, ..BaseStats::zero() }),
        description: String::new(),
    }
}

fn make_linear_tree() -> SkillTree {
    SkillTree { class_id: "Fighter".into(), nodes: vec![node("a", &[]), node("b", &["a"]), node("c", &["b"])] }
}

#[test]
fn node_ids_unique_detects_shared_id() {
    let mut tree = make_linear_tree();
    assert!(node_ids_unique(&tree));
    tree.nodes.push(node("b", &[]));
    assert!(!node_ids_unique(&tree));
    let empty = SkillTree { class_id: "Fighter".into(), nodes: vec![] };
    assert!(node_ids_unique(&empty));
}

#[test]
fn validate_no_cycles_accepts_linear() {
    assert!(validate_no_cycles(&make_linear_tree()).is_ok());
}

#[test]
fn validate_no_cycles_rejects_self_loop() {
    let mut tree = make_linear_tree();
    tree.nodes[0].prerequisites.push("a".into());
    match validate_no_cycles(&tree) {
        Err(CycleError::CycleDetected { involved }) => {
            // a loops on itself; b and c wait behind it.
            assert_eq!(involved, vec!["a".to_string(), "b".to_string(), "c".to_string()]);
        }
        other => panic!("expected a cycle, got {:?}", other),
    }
}

#[test]
fn validate_no_cycles_rejects_two_node_cycle() {
    let tree = SkillTree { class_id: "Test".into(), nodes: vec![node("x", &["y"]), node("y", &["x"])] };
    assert!(matches!(validate_no_cycles(&tree), Err(CycleError::CycleDetected { .. })));
}

#[test]
fn validate_no_cycles_rejects_three_node_cycle() {
    let tree = SkillTree { class_id: "Test".into(), nodes: vec![node("a", &["c"]), node("b", &["a"]), node("c", &["b"])] };
    assert!(matches!(validate_no_cycles(&tree), Err(CycleError::CycleDetected { .. })));
}

#[test]
fn validate_no_cycles_rejects_unknown_prereq() {
    let tree = SkillTree { class_id: "Test".into(), nodes: vec![node("a", &["nonexistent"])] };
    match validate_no_cycles(&tree) {
        Err(CycleError::UnknownPrerequisite { node, prereq }) => {
            assert_eq!(node, "a");
            assert_eq!(prereq, "nonexistent");
        }
        other => panic!("expected an unknown prerequisite, got {:?}", other),
    }
}

#[test]
fn cycle_reports_only_blocked_nodes() {
    // d is free; x and y form a cycle; z waits behind y.
    let tree = SkillTree {
        class_id: "Test".into(),
        nodes: vec![node("d", &[]), node("x", &["y"]), node("y", &["x", "d"]), node("z", &["y"])],
    };
    match validate_no_cycles(&tree) {
        Err(CycleError::CycleDetected { involved }) => {
            assert_eq!(involved, vec!["x".to_string(), "y".to_string(), "z".to_string()]);
        }
        other => panic!("expected a cycle, got {:?}", other),
    }
}

#[test]
fn validate_no_cycles_counts_repeated_prerequisite_once() {
    let tree = SkillTree { class_id: "Test".into(), nodes: vec![node("a", &[]), node("b", &["a", "a"])] };
    assert!(validate_no_cycles(&tree).is_ok());
    let chain = SkillTree {
        class_id: "Test".into(),
        nodes: vec![node("a", &[]), node("b", &["a", "a"]), node("c", &["b", "a", "b"])],
    };
    assert!(validate_no_cycles(&chain).is_ok());
}

#[test]
fn clamp_skill_tree_truncates_oversized() {
    let mut tree = SkillTree {
        class_id: "Test".into(),
        nodes: (0..=MAX_SKILL_TREE_NODES).map(|i| node(&format!("n{i}"), &[])).collect(),
    };
    assert!(tree.nodes.len() > MAX_SKILL_TREE_NODES);
    clamp_skill_tree(&mut tree);
    assert_eq!(tree.nodes.len(), MAX_SKILL_TREE_NODES);
}

#[test]
fn clamp_skill_tree_caps_per_node_cost() {
    let mut n = node("a", &[]);
    n.cost = u32::MAX;
    let mut tree = SkillTree { class_id: "Test".into(), nodes: vec![n] };
    clamp_skill_tree(&mut tree);
    assert_eq!(tree.nodes[0].cost, MAX_SKILL_NODE_COST);
}

#[test]
fn skill_tree_lookup_and_roots() {
    let tree = make_linear_tree();
    assert_eq!(tree.get("b").unwrap().display_name, "B");
    assert!(tree.get("zz").is_none());
    let roots = tree.root_nodes();
    assert_eq!(roots.len(), 1);
    assert_eq!(roots[0].id, "a");
}

fn rusty_sword() -> ItemAsset {
    ItemAsset {
        id: "rusty_sword".to_string(),
        display_name: "Rusty Sword".to_string(),
        kind: ItemKind::Weapon,
        slot: EquipSlot::Weapon,
        stats: ItemStatBlock { attack: 5, ..ItemStatBlock::default() },
        weight: 2,
        value: 10,
        icon_path: String::new(),
        stackable: false,
        ..Default::default()
    }
}

#[test]
fn item_db_get_returns_authored_item() {
    let db = ItemDb { items: vec![rusty_sword()] };
    let found = db.get("rusty_sword");
    assert!(found.is_some(), "rusty_sword should be found");
    assert_eq!(found.unwrap().id, "rusty_sword");
    assert!(db.get("nonexistent_item").is_none(), "missing item should return None");
}

#[test]
fn item_db_get_returns_first_duplicate() {
    let mut second = rusty_sword();
    second.value = 99;
    let db = ItemDb { items: vec![rusty_sword(), second] };
    assert_eq!(db.get("rusty_sword").unwrap().value, 10);
}

#[test]
fn spell_db_get_returns_authored_spell() {
    let db = SpellDb {
        spells: vec![SpellAsset {
            id: "dios".into(),
            display_name: "Dios".into(),
            school: SpellSchool::Priest,
            target: SpellTarget::SingleAlly,
            effect: SpellEffect::Heal { amount: 8 },
            ..Default::default()
        }],
    };
    let found = db.get("dios").expect("dios is authored");
    assert_eq!(found.display_name, "Dios");
    assert_eq!(found.school, SpellSchool::Priest);
}

#[test]
fn spell_db_get_returns_none_for_unknown() {
    let db = SpellDb { spells: vec![] };
    assert!(db.get("nonexistent_spell").is_none());
}

#[test]
fn clamp_known_spells_truncates_oversized() {
    let mut spells: Vec<String> = (0..KNOWN_SPELLS_MAX + 10).map(|i| format!("spell_{}", i)).collect();
    clamp_known_spells(&mut spells);
    assert_eq!(spells.len(), KNOWN_SPELLS_MAX);
    assert_eq!(spells[KNOWN_SPELLS_MAX - 1], format!("spell_{}", KNOWN_SPELLS_MAX - 1));
    let mut few = vec!["a".to_string()];
    clamp_known_spells(&mut few);
    assert_eq!(few, vec!["a".to_string()]);
}

fn shop_entry(id: &str, min_floor: u32) -> ShopEntry {
    ShopEntry { item_id: id.to_string(), buy_price: None, min_floor }
}

#[test]
fn stock_filters_by_min_floor() {
    let stock = ShopStock { items: vec![shop_entry("rusty_sword", 0), shop_entry("iron_sword", 1), shop_entry("steel_sword", 2)] };
    let f0 = stock.items_for_floor(0);
    assert_eq!(f0.len(), 1);
    assert_eq!(f0[0].item_id, "rusty_sword");
    let f1 = stock.items_for_floor(1);
    assert_eq!(f1.len(), 2);
    assert_eq!(f1[1].item_id, "iron_sword");
    assert_eq!(stock.items_for_floor(10).len(), 3);
}

#[test]
fn clamp_shop_stock_truncates_oversized() {
    let stock = ShopStock { items: (0..MAX_SHOP_ITEMS + 50).map(|i| shop_entry(&format!("item_{i}"), 0)).collect() };
    let clamped = clamp_shop_stock(&stock, MAX_SHOP_ITEMS);
    assert_eq!(clamped.len(), MAX_SHOP_ITEMS);
}

#[test]
fn clamp_shop_stock_passes_through_small_stock() {
    let stock = ShopStock { items: vec![shop_entry("a", 0), shop_entry("b", 0)] };
    let clamped = clamp_shop_stock(&stock, MAX_SHOP_ITEMS);
    assert_eq!(clamped.len(), 2);
}

fn recruit(name: &str) -> RecruitDef {
    RecruitDef { name: name.to_string(), race: Race::Human, class: Class::Fighter, base_stats: BaseStats::zero(), default_row: PartyRow::Front }
}

#[test]
fn recruit_pool_size_clamped_truncates_oversized() {
    let pool = RecruitPool { recruits: (0..MAX_RECRUIT_POOL + 10).map(|i| recruit(&format!("r{i}"))).collect() };
    assert_eq!(clamp_recruit_pool(&pool, MAX_RECRUIT_POOL).len(), MAX_RECRUIT_POOL);
}

#[test]
fn clamp_recruit_pool_passes_through_small_pool() {
    let pool = RecruitPool { recruits: vec![recruit("Aldo"), recruit("Mira")] };
    let clamped = clamp_recruit_pool(&pool, MAX_RECRUIT_POOL);
    assert_eq!(clamped.len(), 2);
    assert_eq!(clamped[1].name, "Mira");
}

fn class_def(id: Class, name: &str) -> ClassDef {
    ClassDef {
        id,
        display_name: name.to_string(),
        starting_stats: BaseStats::zero(),
        growth_per_level: BaseStats::zero(),
        hp_per_level: 8,
        mp_per_level: 0,
        xp_to_level_2: 100,
        xp_curve_factor: 1.5f32.to_bits(),
        min_stats: BaseStats::zero(),
        allowed_races: vec![],
        advancement_requirements: vec![],
        bonus_pool_min: 5,
        bonus_pool_max: 9,
        stat_penalty_on_change: BaseStats::zero(),
    }
}

#[test]
fn class_table_get_returns_authored_class() {
    let table = ClassTable { classes: vec![class_def(Class::Fighter, "Fighter"), class_def(Class::Mage, "Mage")] };
    assert_eq!(table.get(Class::Fighter).unwrap().display_name, "Fighter");
    assert_eq!(table.get(Class::Mage).unwrap().display_name, "Mage");
    assert!(table.get(Class::Thief).is_none(), "Thief not authored");
}

fn race(id: Race, name: &str, strength: u16, intelligence: u16, vitality: u16) -> RaceData {
    RaceData {
        id,
        display_name: name.to_string(),
        stat_modifiers: BaseStats { strength, intelligence, vitality, ..BaseStats::zero() },
        description: String::new(),
    }
}

#[test]
fn race_table_get_returns_authored_race() {
    let table = RaceTable { races: vec![race(Race::Human, "Human", 0, 0, 0), race(Race::Elf, "Elf", 65535, 2, 65534)] };
    assert!(table.get(Race::Human).is_some(), "Human should be found");
    assert!(table.get(Race::Elf).is_some(), "Elf should be found");
    assert!(table.get(Race::Dwarf).is_none(), "Dwarf not in this table — should return None");
}

#[test]
fn race_stat_modifier_i16_encoding() {
    let elf = race(Race::Elf, "Elf", 65535, 2, 65534);
    assert_eq!(stat_modifier(elf.stat_modifiers.strength), -1, "65535u16 as i16 must be -1");
    assert_eq!(stat_modifier(elf.stat_modifiers.vitality), -2, "65534u16 as i16 must be -2");
    assert_eq!(stat_modifier(elf.stat_modifiers.intelligence), 2, "2u16 as i16 must be 2");
    assert_eq!(stat_modifier(0x8000), i16::MIN);
}

fn mk_def(id: &str, color: [f32; 3]) -> EnemyDefinition {
    EnemyDefinition {
        id: id.to_string(),
        display_name: id.to_string(),
        base_stats: BaseStats::zero(),
        derived_stats: DerivedStats::zero(),
        ai: EnemyAi::RandomAttack,
        placeholder_color: [color[0].to_bits(), color[1].to_bits(), color[2].to_bits()],
        sprite_path: None,
    }
}

#[test]
fn find_returns_some_for_known_id() {
    let db = EnemyDb { enemies: vec![mk_def("goblin", [0.4, 0.6, 0.3]), mk_def("kobold", [0.5, 0.5, 0.5])] };
    let goblin = db.find("goblin").expect("goblin present");
    assert_eq!(goblin.display_name, "goblin");
    assert_eq!(f32::from_bits(goblin.placeholder_color[0]), 0.4);
}

#[test]
fn find_returns_none_for_unknown_id() {
    let db = EnemyDb { enemies: vec![mk_def("goblin", [0.4, 0.6, 0.3])] };
    assert!(db.find("dragon").is_none());
}

#[test]
fn find_returns_none_for_empty_id() {
    let db = EnemyDb { enemies: vec![mk_def("", [0.4, 0.6, 0.3])] };
    assert!(db.find("").is_none());
}

fn mk_spec(name: &str, hp: u32) -> EnemySpec {
    let mut d = DerivedStats::zero();
    d.current_hp = hp;
    d.max_hp = hp;
    EnemySpec { id: name.to_lowercase(), name: name.into(), base_stats: BaseStats::zero(), derived_stats: d, ai: EnemyAi::RandomAttack }
}

#[test]
fn pick_group_returns_none_on_empty_table() {
    let table = EncounterTable { id: "t".into(), entries: vec![] };
    let mut rng = SmallRng::seed_from_u64(42);
    assert!(table.pick_group(&mut rng).is_none());
}

#[test]
fn pick_group_returns_only_entry_when_single() {
    let table = EncounterTable {
        id: "test".into(),
        entries: vec![EncounterEntry { weight: 50, group: EnemyGroup { enemies: vec![mk_spec("Goblin", 30)] } }],
    };
    let mut rng = SmallRng::seed_from_u64(42);
    let group = table.pick_group(&mut rng).expect("table non-empty");
    assert_eq!(group.enemies[0].name, "Goblin");
}

#[test]
fn pick_group_proportions_match_weights_with_seed() {
    let weights = [50u32, 30, 15, 5];
    let table = EncounterTable {
        id: "test".into(),
        entries: weights
            .iter()
            .enumerate()
            .map(|(i, w)| EncounterEntry { weight: *w, group: EnemyGroup { enemies: vec![mk_spec(&format!("G{i}"), 10)] } })
            .collect(),
    };
    let mut rng = SmallRng::seed_from_u64(12345);
    let mut counts = [0u32; 4];
    for _ in 0..10_000 {
        let g = table.pick_group(&mut rng).unwrap();
        let idx: usize = g.enemies[0].name[1..].parse().unwrap();
        counts[idx] += 1;
    }
    for (i, w) in weights.iter().enumerate() {
        let expected = *w as f64 / 100.0;
        let actual = counts[i] as f64 / 10_000.0;
        assert!((actual - expected).abs() < 0.05, "group {i}: {actual} vs {expected}");
    }
}

#[test]
fn all_zero_weights_give_no_group() {
    let table = EncounterTable {
        id: "t".into(),
        entries: vec![
            EncounterEntry { weight: 0, group: EnemyGroup { enemies: vec![] } },
            EncounterEntry { weight: 0, group: EnemyGroup { enemies: vec![] } },
        ],
    };
    let mut rng = SmallRng::seed_from_u64(42);
    assert!(table.pick_group(&mut rng).is_none());
}

#[test]
fn zero_weight_beside_positive_still_drawn_after_clamp() {
    // Beside a positive weight, a weight of 0 counts as 1.
    let table = EncounterTable {
        id: "z".into(),
        entries: vec![
            EncounterEntry { weight: 0, group: EnemyGroup { enemies: vec![mk_spec("Bat", 5)] } },
            EncounterEntry { weight: 1, group: EnemyGroup { enemies: vec![mk_spec("Rat", 5)] } },
        ],
    };
    let mut seen_bat = false;
    let mut seen_rat = false;
    for seed in 0..200 {
        let mut rng = SmallRng::seed_from_u64(seed);
        match table.pick_group(&mut rng).unwrap().enemies[0].name.as_str() {
            "Bat" => seen_bat = true,
            _ => seen_rat = true,
        }
    }
    assert!(seen_bat && seen_rat);
}

#[test]
fn node_grant_default_learns_the_empty_spell() {
    match NodeGrant::default() {
        NodeGrant::LearnSpell(id) => assert!(id.is_empty()),
        other => panic!("unexpected default grant {:?}", other),
    }
}
