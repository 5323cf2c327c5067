//! The item table: what each item is, what it adds to the stats of whoever
//! equips it, and lookup by identifier.

use crate::data::lookup::{first_with_key, has_key, position_of_key, Keyed};
use vstd::prelude::*;

verus! {

/// What kind of thing an item is; decides which rules can act on it.
#[derive(Clone, Copy, Debug, PartialEq, Eq, Structural)]
pub enum ItemKind {
    Weapon,
    Armor,
    Shield,
    Helm,
    Gloves,
    Boots,
    Accessory,
    Consumable,
    KeyItem,
}

impl Default for ItemKind {
    fn default() -> (r: Self)
        ensures
            r == ItemKind::Weapon,
    {
        ItemKind::Weapon
    }
}

/// The equipment slot an item occupies; `NoSlot` for items that are not worn.
#[derive(Clone, Copy, Debug, PartialEq, Eq, Structural)]
pub enum EquipSlot {
    NoSlot,
    Weapon,
    Armor,
    Shield,
    Helm,
    Gloves,
    Boots,
    Accessory,
}

impl Default for EquipSlot {
    fn default() -> (r: Self)
        ensures
            r == EquipSlot::NoSlot,
    {
        EquipSlot::NoSlot
    }
}

/// What an equipped item adds to its wearer's stats.
#[derive(Clone, Copy, Debug, PartialEq, Eq, Structural)]
pub struct ItemStatBlock {
    pub attack: u32,
    pub defense: u32,
    pub magic_attack: u32,
    pub magic_defense: u32,
    pub accuracy: u32,
    pub evasion: u32,
    pub hp_bonus: u32,
    pub mp_bonus: u32,
}

impl Default for ItemStatBlock {
    fn default() -> (r: Self)
        ensures
            r.attack == 0 && r.defense == 0 && r.magic_attack == 0 && r.magic_defense == 0,
            r.accuracy == 0 && r.evasion == 0 && r.hp_bonus == 0 && r.mp_bonus == 0,
    {
        ItemStatBlock {
            attack: 0,
            defense: 0,
            magic_attack: 0,
            magic_defense: 0,
            accuracy: 0,
            evasion: 0,
            hp_bonus: 0,
            mp_bonus: 0,
        }
    }
}

/// One authored item.
#[derive(Clone, Debug)]
pub struct ItemAsset {
    /// Unique identifier, such as `"rusty_sword"`.
    pub id: String,
    /// The name shown to the player.
    pub display_name: String,
    pub stats: ItemStatBlock,
    pub kind: ItemKind,
    pub slot: EquipSlot,
    pub weight: u32,
    pub value: u32,
    pub icon_path: String,
    pub stackable: bool,
    /// For a key: the identifier of the doors it opens.
    pub key_id: Option<String>,
}

impl Default for ItemAsset {
    fn default() -> (r: Self)
        ensures
            r.id@.len() == 0 && r.display_name@.len() == 0 && r.icon_path@.len() == 0,
            r.stats.attack == 0 && r.stats.defense == 0 && r.stats.accuracy == 0,
            r.stats.evasion == 0 && r.stats.magic_attack == 0 && r.stats.magic_defense == 0,
            r.stats.hp_bonus == 0 && r.stats.mp_bonus == 0,
            r.kind == ItemKind::Weapon && r.slot == EquipSlot::NoSlot,
            r.weight == 0 && r.value == 0 && !r.stackable && r.key_id is None,
    {
        ItemAsset {
            id: String::new(),
            display_name: String::new(),
            stats: ItemStatBlock::default(),
            kind: ItemKind::default(),
            slot: EquipSlot::default(),
            weight: 0,
            value: 0,
            icon_path: String::new(),
            stackable: false,
            key_id: None,
        }
    }
}

impl Keyed for ItemAsset {
    open spec fn key(&self) -> Seq<char> {
        self.id@
    }

    fn key_ref(&self) -> (r: &String) {
        &self.id
    }
}

/// All authored items.
#[derive(Clone, Debug)]
pub struct ItemDb {
    pub items: Vec<ItemAsset>,
}

impl ItemDb {
    /// The first item with identifier `id`, or `None` when there is none.
    pub fn get(&self, id: &str) -> (r: Option<&ItemAsset>)
        ensures
            r is None <==> !has_key(self.items@, id@),
            r matches Some(it) ==> *it == self.items@[first_with_key(self.items@, id@)],
    {
        match position_of_key(&self.items, id) {
            Some(j) => Some(&self.items[j]),
            None => None,
        }
    }
}

} // verus!
