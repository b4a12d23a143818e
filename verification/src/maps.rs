//! Maps that lead to treasure: picking the more detailed of two maps,
//! and putting one to use.

use vstd::prelude::*;
use vstd::string::StringSliceAdditionalSpecFns;

verus! {

/// The longer of the two maps, measured in bytes; ties go to the second.
pub fn longest_map<'a>(map1: &'a str, map2: &'a str) -> (r: &'a str)
    ensures
        r@ == if map1.spec_bytes().len() > map2.spec_bytes().len() {
            map1@
        } else {
            map2@
        },
{
    let len1: usize = map1.as_bytes().len();
    let len2: usize = map2.as_bytes().len();
    if len1 > len2 {
        map1
    } else {
        map2
    }
}

/// Using a map just announces it.
pub fn use_item() -> (m: String)
    ensures
        m@ == "Use a map"@,
{
    String::from_str("Use a map")
}

} // verus!
