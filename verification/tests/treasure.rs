use rust_101::treasure::open_treasure;
use rust_101::treasure::open_treasure_propagating_errors_with_question_mark;
use rust_101::treasure::upgrade_weapon;

#[test]
fn the_correct_key_opens_the_chest() {
    let treasure = open_treasure("correct-key");
    assert_eq!(treasure, Ok("You got 10$".to_string()));
}

#[test]
fn a_wrong_key_is_rejected() {
    let treasure = open_treasure("incorrect-key");
    assert_eq!(treasure, Err("Invalid key".to_string()));
}

#[test]
fn propagation_keeps_the_error() {
    assert_eq!(open_treasure_propagating_errors_with_question_mark("correct-key"), Ok(()));
    assert_eq!(
        open_treasure_propagating_errors_with_question_mark("incorrect-key"),
        Err("Invalid key".to_string())
    );
}

#[test]
fn upgrading_takes_ten_materials() {
    assert_eq!(upgrade_weapon("Sword", 10), Some("Sword upgraded successfully".to_string()));
    assert_eq!(upgrade_weapon("Axe", 25), Some("Axe upgraded successfully".to_string()));
    assert_eq!(upgrade_weapon("Bow", 5), None);
    assert_eq!(upgrade_weapon("Bow", 9), None);
}
