//! Quest bookkeeping: marking a quest as completed.

use vstd::prelude::*;

verus! {

/// The completion line for one quest.
pub fn complete_quest(quest: &str) -> (m: String)
    ensures
        m@ == "Completed: "@ + quest@,
{
    let mut s = String::from_str("Completed: ");
    s.append(quest);
    s
}

/// The completion lines for a whole quest log, in order.
pub fn complete_quests(quests: &Vec<String>) -> (completed: Vec<String>)
    ensures
        completed@.len() == quests@.len(),
        forall|i: int| 0 <= i < quests@.len() ==> (#[trigger] completed@[i])@ == "Completed: "@
            + quests@[i]@,
{
    let mut completed: Vec<String> = Vec::new();
    let mut i: usize = 0;
    while i < quests.len()
        invariant
            i <= quests@.len(),
            completed@.len() == i,
            forall|j: int| 0 <= j < i ==> (#[trigger] completed@[j])@ == "Completed: "@
                + quests@[j]@,
        decreases quests@.len() - i,
    {
        let line = complete_quest(quests[i].as_str());
        completed.push(line);
        i = i + 1;
    }
    completed
}

} // verus!
