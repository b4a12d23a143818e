//! Crabby the treasure hunter: a mood (state) and a health pool, with
//! messages describing what Crabby is up to.

use vstd::prelude::*;
use crate::text::decimal_rep;
use crate::text::u64_to_decimal;

verus! {

#[derive(Clone, Copy, Debug, PartialEq, Eq, Structural)]
pub enum CrabbyState {
    Resting,
    Fighting,
    Collecting(u32),
    Defending,
}

/// The short name of a state, with the collected amount spelled out.
pub open spec fn state_label(s: CrabbyState) -> Seq<char> {
    match s {
        CrabbyState::Resting => "Resting"@,
        CrabbyState::Fighting => "Fighting"@,
        CrabbyState::Collecting(amount) => "Collecting "@ + decimal_rep(amount as nat),
        CrabbyState::Defending => "Defending"@,
    }
}

/// The full sentence describing a state.
pub open spec fn state_message(s: CrabbyState) -> Seq<char> {
    match s {
        CrabbyState::Resting => "Crabby is resting"@,
        CrabbyState::Fighting => "Crabby is fighting"@,
        CrabbyState::Collecting(amount) => "Crabby is collecting "@ + decimal_rep(amount as nat)
            + " treasures"@,
        CrabbyState::Defending => "Crabby is defending"@,
    }
}

impl CrabbyState {
    /// The state's short name, e.g. for a status line.
    pub fn label(&self) -> (m: String)
        ensures
            m@ == state_label(*self),
    {
        match self {
            CrabbyState::Resting => String::from_str("Resting"),
            CrabbyState::Fighting => String::from_str("Fighting"),
            CrabbyState::Collecting(amount) => {
                let mut s = String::from_str("Collecting ");
                let digits = u64_to_decimal(*amount as u64);
                s.append(digits.as_str());
                s
            },
            CrabbyState::Defending => String::from_str("Defending"),
        }
    }
}

pub struct Crabby {
    pub name: String,
    pub health: u8,
    pub state: CrabbyState,
}

impl Crabby {
    /// Damage saturates at zero health and always leaves Crabby fighting.
    pub fn take_damage(&mut self, damage: u8)
        ensures
            final(self).health == if old(self).health >= damage {
                old(self).health - damage
            } else {
                0int
            },
            final(self).state == CrabbyState::Fighting,
            final(self).name == old(self).name,
    {
        self.health = if self.health >= damage {
            self.health - damage
        } else {
            0
        };
        self.state = CrabbyState::Fighting;
    }

    /// Healing caps at full health and always leaves Crabby resting.
    pub fn heal(&mut self, health: u8)
        ensures
            final(self).health == if old(self).health + health >= 100 {
                100int
            } else {
                old(self).health + health
            },
            final(self).state == CrabbyState::Resting,
            final(self).name == old(self).name,
    {
        if self.health >= 100 || health >= 100 - self.health {
            self.health = 100;
        } else {
            self.health += health;
        }
        self.state = CrabbyState::Resting;
    }

    /// Crabby turns to collecting the given amount of treasure.
    pub fn collecting(&mut self, amount: u32)
        ensures
            final(self).state == CrabbyState::Collecting(amount),
            final(self).health == old(self).health,
            final(self).name == old(self).name,
    {
        self.state = CrabbyState::Collecting(amount);
    }

    /// The sentence describing Crabby's current state.
    pub fn state_represent(&self) -> (m: String)
        ensures
            m@ == state_message(self.state),
    {
        match &self.state {
            CrabbyState::Resting => String::from_str("Crabby is resting"),
            CrabbyState::Fighting => String::from_str("Crabby is fighting"),
            CrabbyState::Collecting(amount) => {
                let mut s = String::from_str("Crabby is collecting ");
                let digits = u64_to_decimal(*amount as u64);
                s.append(digits.as_str());
                s.append(" treasures");
                s
            },
            CrabbyState::Defending => String::from_str("Crabby is defending"),
        }
    }
}

} // verus!
