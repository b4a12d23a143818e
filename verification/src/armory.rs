//! Picking a weapon by name and letting it attack. The closed set of
//! weapon kinds is a tagged union, chosen at construction time; each
//! kind answers an attack with its own fixed line. Shields block in the
//! same fashion.

use vstd::prelude::*;
use crate::text::str_eq;

verus! {

/// A weapon that announces its attack.
pub trait Weapon: Sized {
    spec fn attack_message(&self) -> Seq<char>;

    fn attack(&self) -> (m: String)
        ensures
            m@ == self.attack_message(),
    ;
}

#[derive(Debug)]
pub struct Sword;

#[derive(Debug)]
pub struct Bow;

impl Weapon for Sword {
    open spec fn attack_message(&self) -> Seq<char> {
        "Attack by sword"@
    }

    fn attack(&self) -> (m: String) {
        String::from_str("Attack by sword")
    }
}

impl Weapon for Bow {
    open spec fn attack_message(&self) -> Seq<char> {
        "Attack by bow"@
    }

    fn attack(&self) -> (m: String) {
        String::from_str("Attack by bow")
    }
}

/// One of the known weapon kinds, picked at run time by name.
#[derive(Debug)]
pub enum AnyWeapon {
    Sword(Sword),
    Bow(Bow),
}

/// The attack line of a picked weapon.
pub open spec fn any_weapon_message(w: AnyWeapon) -> Seq<char> {
    match w {
        AnyWeapon::Sword(sword) => sword.attack_message(),
        AnyWeapon::Bow(bow) => bow.attack_message(),
    }
}

/// Look a weapon up by its name. Only the known names are accepted;
/// anything else has no weapon behind it.
pub fn get_weapon(weapon_type: &str) -> (w: AnyWeapon)
    requires
        weapon_type@ == "sword"@ || weapon_type@ == "bow"@,
    ensures
        weapon_type@ == "sword"@ ==> w is Sword,
        weapon_type@ == "bow"@ ==> w is Bow,
{
    proof {
        // The two accepted names differ, so at most one branch applies.
        reveal_strlit("sword");
        reveal_strlit("bow");
        assert("sword"@.len() == 5);
        assert("bow"@.len() == 3);
        assert("sword"@ != "bow"@);
    }
    if str_eq(weapon_type, "sword") {
        AnyWeapon::Sword(Sword)
    } else {
        AnyWeapon::Bow(Bow)
    }
}

/// Dispatch an attack through whichever weapon was picked.
pub fn weapon_attack(weapon: AnyWeapon) -> (m: String)
    ensures
        m@ == any_weapon_message(weapon),
{
    match weapon {
        AnyWeapon::Sword(sword) => sword.attack(),
        AnyWeapon::Bow(bow) => bow.attack(),
    }
}

/// Attack through a weapon whose kind is fixed at compile time.
pub fn generic_weapon_attack<T: Weapon>(weapon: T) -> (m: String)
    ensures
        m@ == weapon.attack_message(),
{
    weapon.attack()
}

/// A shield that announces its block.
pub trait Shield: Sized {
    spec fn block_message(&self) -> Seq<char>;

    fn block(&self) -> (m: String)
        ensures
            m@ == self.block_message(),
    ;
}

pub struct WoodShield;

impl Shield for WoodShield {
    open spec fn block_message(&self) -> Seq<char> {
        "Defend by wood shield"@
    }

    fn block(&self) -> (m: String) {
        String::from_str("Defend by wood shield")
    }
}

/// The shield handed to every new adventurer.
pub fn get_shield() -> (s: WoodShield)
    ensures
        s.block_message() == "Defend by wood shield"@,
{
    WoodShield
}

/// Block with a shield taken by value.
pub fn shield_block<S: Shield>(shield: S) -> (m: String)
    ensures
        m@ == shield.block_message(),
{
    shield.block()
}

/// Block with a borrowed shield.
pub fn borrow_shield_block<S: Shield>(shield: &S) -> (m: String)
    ensures
        m@ == shield.block_message(),
{
    shield.block()
}

} // verus!
