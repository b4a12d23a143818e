//! Treasure chests and weapon upgrades: success and failure are explicit
//! values, and each message is pinned to the input that produced it.

use vstd::prelude::*;
use crate::text::str_eq;

verus! {

/// Opening a chest succeeds exactly when the right key is offered.
pub fn open_treasure(key: &str) -> (r: Result<String, String>)
    ensures
        r is Ok <==> key@ == "correct-key"@,
        r matches Ok(m) ==> m@ == "You got 10$"@,
        r matches Err(e) ==> e@ == "Invalid key"@,
{
    if str_eq(key, "correct-key") {
        Ok(String::from_str("You got 10$"))
    } else {
        Err(String::from_str("Invalid key"))
    }
}

/// Opens the chest and keeps only whether it worked, handing any failure
/// up to the caller unchanged.
pub fn open_treasure_propagating_errors_with_question_mark(key: &str) -> (r: Result<(), String>)
    ensures
        r is Ok <==> key@ == "correct-key"@,
        r matches Err(e) ==> e@ == "Invalid key"@,
{
    let chest_result = open_treasure(key);
    match chest_result {
        Ok(_message) => Ok(()),
        Err(error) => Err(error),
    }
}

/// Upgrading takes at least ten units of material; with fewer there is
/// no result at all, and the caller substitutes its own message.
pub fn upgrade_weapon(weapon: &str, material_count: i32) -> (r: Option<String>)
    ensures
        r is Some <==> material_count >= 10,
        r matches Some(m) ==> m@ == weapon@ + " upgraded successfully"@,
{
    if material_count >= 10 {
        let mut s: String = weapon.to_owned();
        s.append(" upgraded successfully");
        Some(s)
    } else {
        None
    }
}

} // verus!
