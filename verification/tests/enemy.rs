use meltdown::bullet::spawner::{Lifespan, Uptime};
use meltdown::bullet::{NeutronBundle, Progenitor, RadialVelocity};
use meltdown::collision::{CircleCollider, Collider, EnemyCollideEvent};
use meltdown::commands::Command;
use meltdown::enemy::{update_regular, Regular, BURST_SPEED, REGULAR_RADIUS};
use meltdown::transform::{Rotation, Transform};
use meltdown::types::{ChildOffset, CollisionDamage, Velocity};
use meltdown::vector::{Vec2u, Vec3i};

fn regular(entity: u64) -> Regular {
    Regular {
        entity,
        position: Vec3i::new(100, -200, 0),
        cloud: vec![entity + 1, entity + 2, entity + 3, entity + 4],
        spokes: vec![
            Vec3i::new(1000, 0, 0),
            Vec3i::new(0, 1000, 0),
            Vec3i::new(-1000, 0, 0),
            Vec3i::new(707, -707, 0),
        ],
    }
}

fn neutron(vx: i32, vy: i32) -> Command {
    Command::SpawnNeutron(NeutronBundle {
        transform: Transform {
            translation: Vec3i::new(100, -200, 0),
            rotation: Rotation { cos: 1000, sin: 0 },
            scale: Vec2u::new(100, 100),
        },
        velocity: Velocity(Vec3i::new(vx, vy, 0)),
        collider: Collider::Circle(CircleCollider { position: Vec3i::new(0, -50, 0), radius: 30 }),
        damage: CollisionDamage(1000),
        lifespan: Lifespan(4000),
        uptime: Uptime(0),
        radial_velocity: RadialVelocity::new(1000),
        progenitor: Progenitor(None),
        hit_player: true,
    })
}

#[test]
fn constants_of_the_regular_enemy() {
    assert_eq!(REGULAR_RADIUS, 50);
    assert_eq!(BURST_SPEED, 4);
}

#[test]
fn regular_enemy_that_is_hit_bursts_into_neutrons() {
    let mut commands = vec![Command::Despawn(99)];
    let events = vec![EnemyCollideEvent { enemy: 3, with: 10 }, EnemyCollideEvent { enemy: 10, with: 70 }];
    update_regular(&vec![regular(10)], &events, &mut commands);
    assert_eq!(
        commands,
        vec![
            Command::Despawn(99),
            Command::Despawn(10),
            neutron(4000, 0),
            neutron(0, 4000),
            neutron(-4000, 0),
            neutron(2828, -2828)
        ]
    );
}

#[test]
fn regular_enemy_that_is_not_hit_moves_its_cloud_along_the_ring() {
    let mut commands = vec![];
    // the event names the enemy as what was run into, not as the one hit
    let events = vec![EnemyCollideEvent { enemy: 3, with: 10 }];
    update_regular(&vec![regular(10)], &events, &mut commands);
    assert_eq!(
        commands,
        vec![
            Command::Offset(11, ChildOffset(Vec3i::new(50, 0, 0))),
            Command::Offset(12, ChildOffset(Vec3i::new(0, 50, 0))),
            Command::Offset(13, ChildOffset(Vec3i::new(-50, 0, 0))),
            // 0.707 * 50 = 35.35
            Command::Offset(14, ChildOffset(Vec3i::new(35, -35, 0)))
        ]
    );
}

#[test]
fn each_regular_enemy_is_judged_by_itself() {
    let mut commands = vec![];
    let mut bare = regular(30);
    bare.cloud = vec![];
    bare.spokes = vec![];
    let mut small = regular(20);
    small.cloud = vec![21];
    small.spokes = vec![Vec3i::new(600, 800, 0)];
    let events = vec![EnemyCollideEvent { enemy: 30, with: 1 }, EnemyCollideEvent { enemy: 30, with: 2 }];
    update_regular(&vec![small, bare, regular(40)], &events, &mut commands);
    assert_eq!(commands.len(), 1 + 1 + 4);
    assert_eq!(commands[0], Command::Offset(21, ChildOffset(Vec3i::new(30, 40, 0))));
    assert_eq!(commands[1], Command::Despawn(30));
    assert_eq!(commands[2], Command::Offset(41, ChildOffset(Vec3i::new(50, 0, 0))));
}

#[test]
fn spokes_beyond_one_whole_count_as_one_whole() {
    let mut wild = regular(10);
    wild.cloud = vec![11];
    wild.spokes = vec![Vec3i::new(i32::MAX, i32::MIN, 1001)];
    let mut commands = vec![];
    update_regular(&vec![wild], &vec![], &mut commands);
    assert_eq!(commands, vec![Command::Offset(11, ChildOffset(Vec3i::new(50, -50, 50)))]);
    let mut wild = regular(10);
    wild.cloud = vec![11];
    wild.spokes = vec![Vec3i::new(i32::MAX, i32::MIN, -999)];
    let mut commands = vec![];
    update_regular(&vec![wild], &vec![EnemyCollideEvent { enemy: 10, with: 0 }], &mut commands);
    match commands[1] {
        Command::SpawnNeutron(n) => assert_eq!(n.velocity, Velocity(Vec3i::new(4000, -4000, -3996))),
        _ => panic!("expected a neutron"),
    }
}

#[test]
fn no_regular_enemies_no_commands() {
    let mut commands = vec![];
    update_regular(&vec![], &vec![EnemyCollideEvent { enemy: 10, with: 0 }], &mut commands);
    assert_eq!(commands, vec![]);
}
