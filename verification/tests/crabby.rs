use rust_101::crabby::Crabby;
use rust_101::crabby::CrabbyState;

fn fresh_crabby() -> Crabby {
    Crabby { name: "Crabby".to_string(), health: 100, state: CrabbyState::Resting }
}

#[test]
fn damage_saturates_and_sets_fighting() {
    let mut crabby = fresh_crabby();
    crabby.take_damage(100);
    assert_eq!(crabby.health, 0);
    assert_eq!(crabby.state, CrabbyState::Fighting);
    crabby.take_damage(10);
    assert_eq!(crabby.health, 0);
    assert_eq!(crabby.state, CrabbyState::Fighting);
}

#[test]
fn healing_caps_and_sets_resting() {
    let mut crabby = fresh_crabby();
    crabby.take_damage(100);
    crabby.heal(60);
    assert_eq!(crabby.health, 60);
    assert_eq!(crabby.state, CrabbyState::Resting);
    crabby.heal(60);
    assert_eq!(crabby.health, 100);
    assert_eq!(crabby.state, CrabbyState::Resting);
}

#[test]
fn collecting_keeps_the_amount() {
    let mut crabby = fresh_crabby();
    crabby.collecting(15);
    assert_eq!(crabby.state, CrabbyState::Collecting(15));
    assert_eq!(crabby.health, 100);
}

#[test]
fn state_messages_spell_out_the_state() {
    let mut crabby = fresh_crabby();
    assert_eq!(crabby.state_represent(), "Crabby is resting");
    crabby.take_damage(10);
    assert_eq!(crabby.state_represent(), "Crabby is fighting");
    crabby.collecting(15);
    assert_eq!(crabby.state_represent(), "Crabby is collecting 15 treasures");
    crabby.state = CrabbyState::Defending;
    assert_eq!(crabby.state_represent(), "Crabby is defending");
}

#[test]
fn state_labels_are_short() {
    assert_eq!(CrabbyState::Resting.label(), "Resting");
    assert_eq!(CrabbyState::Fighting.label(), "Fighting");
    assert_eq!(CrabbyState::Collecting(15).label(), "Collecting 15");
    assert_eq!(CrabbyState::Defending.label(), "Defending");
}
