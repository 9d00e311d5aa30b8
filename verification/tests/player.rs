use meltdown::collision::PlayerCollideEvent;
use meltdown::commands::Command;
use meltdown::player::{apply_damage, Damaging};
use meltdown::types::{CollisionDamage, Health};

fn damaging(entity: u64, damage: u32, remove: bool) -> Damaging {
    Damaging { entity, damage: CollisionDamage(damage), remove }
}

fn touch(with: u64) -> PlayerCollideEvent {
    PlayerCollideEvent { with }
}

#[test]
fn new_health_is_full() {
    let health = Health::new(5000, -40);
    assert_eq!(health.total(), 5000);
    assert_eq!(health.current(), 5000);
    assert_eq!(health.offset(), -40);
    assert!(health.is_full());
    assert!(!health.is_depleted());
    assert_eq!(health.ratio(), 1000);
}

#[test]
fn health_stays_between_none_and_the_total() {
    let mut health = Health::new(5000, 0);
    health.set_current(1234);
    assert_eq!(health.current(), 1234);
    assert!(!health.is_full());
    assert!(!health.is_depleted());
    // 1234 / 5000 = 0.2468
    assert_eq!(health.ratio(), 246);
    health.set_current(-1);
    assert_eq!(health.current(), 0);
    assert!(health.is_depleted());
    assert_eq!(health.ratio(), 0);
    health.set_current(5001);
    assert_eq!(health.current(), 5000);
    assert!(health.is_full());
    health.set_current(i64::MIN);
    assert_eq!(health.current(), 0);
    health.set_current(i64::MAX);
    assert_eq!(health.current(), 5000);
    assert_eq!(health.total(), 5000);
    let mut none = Health::new(0, 3);
    none.set_current(7);
    assert_eq!(none.current(), 0);
    assert!(none.is_full());
    assert!(none.is_depleted());
    let mut most = Health::new(u32::MAX, 0);
    most.set_current(u32::MAX as i64 - 1);
    assert_eq!(most.ratio(), 999);
}

#[test]
fn touching_something_harmful_costs_health() {
    let mut health = Health::new(3000, 0);
    let mut commands = vec![Command::Despawn(99)];
    let harmful = vec![damaging(1, 1000, false), damaging(2, 500, true), damaging(2, 3000, false)];
    apply_damage(&mut health, &harmful, &vec![touch(1), touch(7), touch(2)], &mut commands);
    assert_eq!(health.current(), 1500);
    assert_eq!(health.total(), 3000);
    assert_eq!(commands, vec![Command::Despawn(99), Command::Despawn(2)]);
}

#[test]
fn health_does_not_fall_below_none() {
    let mut health = Health::new(3000, 0);
    let mut commands = vec![];
    let harmful = vec![damaging(1, 2000, true), damaging(2, u32::MAX, true)];
    apply_damage(&mut health, &harmful, &vec![touch(1), touch(1), touch(1)], &mut commands);
    assert_eq!(health.current(), 0);
    assert_eq!(commands, vec![Command::Despawn(1), Command::Despawn(1), Command::Despawn(1)]);
    let mut health = Health::new(3000, 0);
    apply_damage(&mut health, &harmful, &vec![touch(2)], &mut commands);
    assert!(health.is_depleted());
}

#[test]
fn no_touch_no_damage() {
    let mut health = Health::new(3000, 5);
    let mut commands = vec![];
    apply_damage(&mut health, &vec![damaging(1, 2000, true)], &vec![], &mut commands);
    apply_damage(&mut health, &vec![], &vec![touch(1)], &mut commands);
    assert!(health.is_full());
    assert_eq!(health.offset(), 5);
    assert_eq!(commands, vec![]);
}
