use rust_101::inventory::DisplayItem;
use rust_101::inventory::Inventory;

#[test]
fn numeric_items_are_shown_bare() {
    let gold = Inventory { item: 100i64 };
    assert_eq!(gold.display(), "Item: 100");
    let debt = Inventory { item: -5i64 };
    assert_eq!(debt.display(), "Item: -5");
}

#[test]
fn text_items_are_shown_quoted() {
    let armor = Inventory { item: "Iron Armor".to_string() };
    assert_eq!(armor.display(), "Item: \"Iron Armor\"");
}
