//! Weapons carried by the characters. Each weapon announces its attack
//! with a fixed message; the message is the weapon's whole observable
//! behavior, so the trait pins it down exactly.

use vstd::prelude::*;

verus! {

/// A weapon that can perform one kind of attack. `attack_message` is the
/// specification-level text of that attack; `attack` returns it.
pub trait Weapon: Sized {
    spec fn attack_message(&self) -> Seq<char>;

    fn attack(&self) -> (m: String)
        ensures
            m@ == self.attack_message(),
    ;
}

pub struct Sword;

pub struct Staff;

pub struct Mace;

impl Weapon for Sword {
    open spec fn attack_message(&self) -> Seq<char> {
        "Sword Attack"@
    }

    fn attack(&self) -> (m: String) {
        String::from_str("Sword Attack")
    }
}

impl Weapon for Staff {
    open spec fn attack_message(&self) -> Seq<char> {
        "Staff Attack"@
    }

    fn attack(&self) -> (m: String) {
        String::from_str("Staff Attack")
    }
}

impl Weapon for Mace {
    open spec fn attack_message(&self) -> Seq<char> {
        "Mace Attack"@
    }

    fn attack(&self) -> (m: String) {
        String::from_str("Mace Attack")
    }
}

} // verus!
