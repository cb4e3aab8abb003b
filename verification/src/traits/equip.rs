//! Where equipment is worn.
use vstd::prelude::*;

verus! {

/// A slot for equipment.
#[derive(Clone, Copy, Debug, PartialEq, Eq, Structural)]
pub enum EquipSlot {
    Weapon,
    Armor,
    Helmet,
    Boots,
    Accessory,
}

} // verus!
