use rust_101::coordination::worker_message;
use rust_101::maps::longest_map;
use rust_101::maps::use_item;
use rust_101::quests::complete_quest;
use rust_101::quests::complete_quests;
use rust_101::text::i64_to_decimal;
use rust_101::text::str_eq;
use rust_101::text::u64_to_decimal;

#[test]
fn str_eq_compares_contents() {
    assert!(str_eq("treasure", "treasure"));
    assert!(!str_eq("treasure", "Treasure"));
    assert!(!str_eq("map", "maps"));
    assert!(str_eq("", ""));
}

#[test]
fn unsigned_decimal_formatting() {
    assert_eq!(u64_to_decimal(0), "0");
    assert_eq!(u64_to_decimal(7), "7");
    assert_eq!(u64_to_decimal(160), "160");
    assert_eq!(u64_to_decimal(12345), "12345");
    assert_eq!(u64_to_decimal(u64::MAX), "18446744073709551615");
}

#[test]
fn signed_decimal_formatting() {
    assert_eq!(i64_to_decimal(0), "0");
    assert_eq!(i64_to_decimal(42), "42");
    assert_eq!(i64_to_decimal(-42), "-42");
    assert_eq!(i64_to_decimal(i64::MIN), "-9223372036854775808");
    assert_eq!(i64_to_decimal(i64::MAX), "9223372036854775807");
}

#[test]
fn worker_messages_name_their_item() {
    assert_eq!(worker_message("sword"), "Worker sword: Task complete!");
    assert_eq!(worker_message("cloth"), "Worker cloth: Task complete!");
}

#[test]
fn completed_quests_are_prefixed() {
    assert_eq!(complete_quest("Find the treasure"), "Completed: Find the treasure");
    let quests = vec![
        "Find the treasure".to_string(),
        "Defeat the dragon".to_string(),
        "Save the princess".to_string(),
    ];
    let completed = complete_quests(&quests);
    assert_eq!(
        completed,
        vec![
            "Completed: Find the treasure".to_string(),
            "Completed: Defeat the dragon".to_string(),
            "Completed: Save the princess".to_string(),
        ]
    );
}

#[test]
fn longest_map_picks_the_longer() {
    let map1 = "Ancient map of the sea";
    let map2 = "Map to hidden gold";
    assert_eq!(longest_map(map1, map2), map1);
    assert_eq!(longest_map("a", "bc"), "bc");
    // Ties go to the second map.
    assert_eq!(longest_map("ab", "cd"), "cd");
}

#[test]
fn using_a_map_announces_it() {
    assert_eq!(use_item(), "Use a map");
}
