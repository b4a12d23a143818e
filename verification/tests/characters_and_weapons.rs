use rust_101::characters::Character;
use rust_101::characters::Healer;
use rust_101::characters::Mage;
use rust_101::characters::Warrior;
use rust_101::characters::health_decrease;
use rust_101::characters::health_increase;
use rust_101::characters::special_attack;
use rust_101::weapons::Mace;
use rust_101::weapons::Staff;
use rust_101::weapons::Sword;
use rust_101::weapons::Weapon;

#[test]
fn warrior_starts_at_full_strength() {
    let w = Warrior::new();
    assert_eq!(w.health, 100);
    assert_eq!(w.strength, 10);
    assert_eq!(w.intelligent, 0);
}

#[test]
fn mage_starts_with_intelligence() {
    let m = Mage::new();
    assert_eq!(m.health, 100);
    assert_eq!(m.strength, 0);
    assert_eq!(m.intelligent, 10);
}

#[test]
fn healer_is_balanced() {
    let h = Healer::new();
    assert_eq!(h.health, 100);
    assert_eq!(h.strength, 5);
    assert_eq!(h.intelligent, 5);
}

#[test]
fn healing_caps_at_one_hundred() {
    let mut w = Warrior::new();
    w.health_decrease(30);
    assert_eq!(w.health, 70);
    w.health_increase(20);
    assert_eq!(w.health, 90);
    w.health_increase(50);
    assert_eq!(w.health, 100);
}

#[test]
fn damage_saturates_at_zero() {
    let mut m = Mage::new();
    m.health_decrease(250);
    assert_eq!(m.health, 0);
    m.health_decrease(1);
    assert_eq!(m.health, 0);
}

#[test]
fn free_functions_dispatch_through_the_trait() {
    let mut h = Healer::new();
    health_decrease(&mut h, 40);
    assert_eq!(h.health, 60);
    health_increase(&mut h, 10);
    assert_eq!(h.health, 70);
    health_increase(&mut h, 200);
    assert_eq!(h.health, 100);
}

#[test]
fn each_weapon_has_its_own_attack() {
    assert_eq!(Sword.attack(), "Sword Attack");
    assert_eq!(Staff.attack(), "Staff Attack");
    assert_eq!(Mace.attack(), "Mace Attack");
}

#[test]
fn special_attack_uses_the_given_weapon() {
    assert_eq!(special_attack(Sword), "Sword Attack");
    assert_eq!(special_attack(Staff), "Staff Attack");
    assert_eq!(special_attack(Mace), "Mace Attack");
}
