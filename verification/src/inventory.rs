//! A generic inventory slot and the line it shows for its item. Numbers
//! are shown bare; text is shown quoted.

use vstd::prelude::*;
use crate::text::i64_to_decimal;
use crate::text::int_decimal_rep;

verus! {

pub struct Inventory<T> {
    pub item: T,
}

/// A slot that can describe its item on one line.
pub trait DisplayItem: Sized {
    spec fn display_message(&self) -> Seq<char>;

    fn display(&self) -> (m: String)
        ensures
            m@ == self.display_message(),
    ;
}

impl DisplayItem for Inventory<i64> {
    open spec fn display_message(&self) -> Seq<char> {
        "Item: "@ + int_decimal_rep(self.item as int)
    }

    fn display(&self) -> (m: String) {
        let mut s = String::from_str("Item: ");
        let digits = i64_to_decimal(self.item);
        s.append(digits.as_str());
        s
    }
}

impl DisplayItem for Inventory<String> {
    open spec fn display_message(&self) -> Seq<char> {
        "Item: \""@ + self.item@ + "\""@
    }

    fn display(&self) -> (m: String) {
        let mut s = String::from_str("Item: \"");
        s.append(self.item.as_str());
        s.append("\"");
        s
    }
}

} // verus!
