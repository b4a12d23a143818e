//! The three character classes. Every character starts at full health,
//! carries the weapon of its class, and can gain or lose health: gains
//! are capped at 100, losses saturate at 0.

use vstd::prelude::*;
use crate::weapons::Mace;
use crate::weapons::Staff;
use crate::weapons::Sword;
use crate::weapons::Weapon;

verus! {

/// Anything with a health pool. Healing never raises health above 100
/// and damage never drops it below 0.
pub trait Character: Sized {
    spec fn current_health(&self) -> u8;

    fn health_increase(&mut self, value: u8)
        ensures
            final(self).current_health() == if old(self).current_health() + value > 100 {
                100int
            } else {
                old(self).current_health() + value
            },
    ;

    fn health_decrease(&mut self, value: u8)
        ensures
            final(self).current_health() == if old(self).current_health() >= value {
                old(self).current_health() - value
            } else {
                0int
            },
    ;
}

pub struct Warrior {
    pub health: u8,
    pub strength: u8,
    pub intelligent: u8,
    pub weapon: Sword,
}

impl Warrior {
    pub fn new() -> (c: Self)
        ensures
            c.health == 100,
            c.strength == 10,
            c.intelligent == 0,
    {
        Self { health: 100, strength: 10, intelligent: 0, weapon: Sword }
    }
}

impl Character for Warrior {
    open spec fn current_health(&self) -> u8 {
        self.health
    }

    fn health_increase(&mut self, value: u8) {
        if self.health >= 100 || value > 100 - self.health {
            self.health = 100;
        } else {
            self.health += value;
        }
    }

    fn health_decrease(&mut self, value: u8) {
        self.health = if self.health >= value {
            self.health - value
        } else {
            0
        };
    }
}

pub struct Mage {
    pub health: u8,
    pub strength: u8,
    pub intelligent: u8,
    pub weapon: Staff,
}

impl Mage {
    pub fn new() -> (c: Self)
        ensures
            c.health == 100,
            c.strength == 0,
            c.intelligent == 10,
    {
        Self { health: 100, strength: 0, intelligent: 10, weapon: Staff }
    }
}

impl Character for Mage {
    open spec fn current_health(&self) -> u8 {
        self.health
    }

    fn health_increase(&mut self, value: u8) {
        if self.health >= 100 || value > 100 - self.health {
            self.health = 100;
        } else {
            self.health += value;
        }
    }

    fn health_decrease(&mut self, value: u8) {
        self.health = if self.health >= value {
            self.health - value
        } else {
            0
        };
    }
}

pub struct Healer {
    pub health: u8,
    pub strength: u8,
    pub intelligent: u8,
    pub weapon: Mace,
}

impl Healer {
    pub fn new() -> (c: Self)
        ensures
            c.health == 100,
            c.strength == 5,
            c.intelligent == 5,
    {
        Self { health: 100, strength: 5, intelligent: 5, weapon: Mace }
    }
}

impl Character for Healer {
    open spec fn current_health(&self) -> u8 {
        self.health
    }

    fn health_increase(&mut self, value: u8) {
        if self.health >= 100 || value > 100 - self.health {
            self.health = 100;
        } else {
            self.health += value;
        }
    }

    fn health_decrease(&mut self, value: u8) {
        self.health = if self.health >= value {
            self.health - value
        } else {
            0
        };
    }
}

/// A character unleashes its weapon's special attack.
pub fn special_attack<W: Weapon>(weapon: W) -> (m: String)
    ensures
        m@ == weapon.attack_message(),
{
    weapon.attack()
}

/// Heal any character, capped at full health.
pub fn health_increase<T: Character>(character: &mut T, value: u8)
    ensures
        final(character).current_health() == if old(character).current_health() + value > 100 {
            100int
        } else {
            old(character).current_health() + value
        },
{
    character.health_increase(value)
}

/// Damage any character, saturating at zero health.
pub fn health_decrease<T: Character>(character: &mut T, value: u8)
    ensures
        final(character).current_health() == if old(character).current_health() >= value {
            old(character).current_health() - value
        } else {
            0int
        },
{
    character.health_decrease(value)
}

} // verus!
