use meltdown::collision::systems::{update_enemy_collision, update_player_collision, CELL_SIZE};
use meltdown::collision::{
    Body, CircleCollider, Collider, EnemyCollideEvent, EnemyCollisionMap, PlayerCollideEvent,
    PlayerCollisionMap, RectCollider,
};
use meltdown::transform::Transform;
use meltdown::vector::{Vec2u, Vec3i};

fn ball(entity: u64, x: i32, y: i32, radius: u32) -> Body {
    Body {
        entity,
        transform: Transform::at(Vec3i::new(x, y, 0)),
        collider: Collider::Circle(CircleCollider { position: Vec3i::zero(), radius }),
    }
}

fn block(entity: u64, x: i32, y: i32, w: u32, h: u32) -> Body {
    Body {
        entity,
        transform: Transform::at(Vec3i::new(x, y, 0)),
        collider: Collider::Rect(RectCollider { tl: Vec3i::zero(), size: Vec2u::new(w, h) }),
    }
}

#[test]
fn player_contact_is_told_on_entry_only() {
    let player = ball(0, 0, 0, 10);
    let mut map = PlayerCollisionMap::new();
    // apart
    let events = update_player_collision(&vec![ball(7, 100, 0, 10)], Some(player), &mut map);
    assert!(events.is_empty());
    assert!(!map.contains(7));
    // overlapping
    let events = update_player_collision(&vec![ball(7, 10, 0, 10)], Some(player), &mut map);
    assert_eq!(events, vec![PlayerCollideEvent { with: 7 }]);
    assert!(map.contains(7));
    // still overlapping, for several ticks
    for x in [9, 5, 0, -5, 14] {
        let events = update_player_collision(&vec![ball(7, x, 0, 10)], Some(player), &mut map);
        assert!(events.is_empty());
        assert!(map.contains(7));
    }
    // apart again: silent
    let events = update_player_collision(&vec![ball(7, 15, 0, 10)], Some(player), &mut map);
    assert!(events.is_empty());
    assert!(!map.contains(7));
    // and a second contact is told again
    let events = update_player_collision(&vec![ball(7, 14, 0, 10)], Some(player), &mut map);
    assert_eq!(events, vec![PlayerCollideEvent { with: 7 }]);
}

#[test]
fn player_pass_without_a_player_does_nothing() {
    let mut map = PlayerCollisionMap::default();
    map.insert(3);
    let events = update_player_collision(&vec![ball(7, 0, 0, 10)], None, &mut map);
    assert!(events.is_empty());
    assert!(map.contains(3));
    assert!(!map.contains(7));
}

#[test]
fn player_pass_tells_of_each_collider_in_order() {
    let player = block(0, -10, -10, 20, 20);
    let mut map = PlayerCollisionMap::new();
    let colliders = vec![
        ball(5, 0, 0, 1),
        ball(6, 500, 0, 1),
        block(7, 10, 10, 5, 5),
        ball(8, 13, 14, 5),
        ball(9, 14, 14, 5),
    ];
    let events = update_player_collision(&colliders, Some(player), &mut map);
    assert_eq!(
        events,
        vec![
            PlayerCollideEvent { with: 5 },
            PlayerCollideEvent { with: 7 },
            PlayerCollideEvent { with: 8 }
        ]
    );
    for (entity, touching) in [(5, true), (6, false), (7, true), (8, true), (9, false)] {
        assert_eq!(map.contains(entity), touching);
    }
}

#[test]
fn player_pass_leaves_untested_entities_as_they_were() {
    let player = ball(0, 0, 0, 10);
    let mut map = PlayerCollisionMap::new();
    update_player_collision(&vec![ball(7, 0, 0, 10), ball(8, 0, 0, 10)], Some(player), &mut map);
    // 8 has left the query, as a despawned entity does
    let events = update_player_collision(&vec![ball(7, 0, 0, 10)], Some(player), &mut map);
    assert!(events.is_empty());
    assert!(map.contains(7));
    assert!(map.contains(8));
}

#[test]
fn player_pass_resolves_shapes_with_their_transforms() {
    let mut player = ball(0, 0, 0, 40);
    player.transform.scale = Vec2u::new(500, 500);
    let mut map = PlayerCollisionMap::new();
    // radii 20 and 20: 28² = 784 <= 800 < 29²
    let mut other = ball(7, 28, 0, 40);
    other.transform.scale = Vec2u::new(500, 500);
    assert_eq!(update_player_collision(&vec![other], Some(player), &mut map).len(), 1);
    let mut map = PlayerCollisionMap::new();
    other.transform.translation.x = 29;
    assert!(update_player_collision(&vec![other], Some(player), &mut map).is_empty());
}

#[test]
fn player_map_records_and_forgets() {
    let mut map = PlayerCollisionMap::new();
    assert!(!map.contains(1));
    assert!(map.insert(1));
    assert!(!map.insert(1));
    assert!(map.insert(2));
    assert!(map.contains(1));
    assert!(map.contains(2));
    assert!(map.remove(1));
    assert!(!map.remove(1));
    assert!(!map.contains(1));
    assert!(map.contains(2));
}

#[test]
fn enemy_contact_is_told_on_entry_only() {
    assert_eq!(CELL_SIZE, 100);
    let enemy = ball(1, 0, 0, 20);
    let mut map = EnemyCollisionMap::new();
    // apart, yet in the cells around
    let events = update_enemy_collision(&vec![ball(7, 60, 0, 20)], &vec![enemy], &mut map);
    assert!(events.is_empty());
    assert!(!map.contains(1, 7));
    // overlapping: 28² = 784 <= 400 + 400
    let events = update_enemy_collision(&vec![ball(7, 28, 0, 20)], &vec![enemy], &mut map);
    assert_eq!(events, vec![EnemyCollideEvent { enemy: 1, with: 7 }]);
    assert!(map.contains(1, 7));
    assert!(!map.contains(7, 1));
    for x in [27, 0, -28] {
        let events = update_enemy_collision(&vec![ball(7, x, 0, 20)], &vec![enemy], &mut map);
        assert!(events.is_empty());
        assert!(map.contains(1, 7));
    }
    // apart again: silent
    let events = update_enemy_collision(&vec![ball(7, 29, 0, 20)], &vec![enemy], &mut map);
    assert!(events.is_empty());
    assert!(!map.contains(1, 7));
}

#[test]
fn each_enemy_has_a_contact_set_of_its_own() {
    let enemies = vec![ball(1, 0, 0, 20), ball(2, 1000, 1000, 20), ball(3, 10, 0, 20)];
    let colliders = vec![ball(7, 5, 0, 1), ball(8, 1000, 1010, 1), ball(9, 5000, 0, 1)];
    let mut map = EnemyCollisionMap::default();
    let events = update_enemy_collision(&colliders, &enemies, &mut map);
    assert_eq!(
        events,
        vec![
            EnemyCollideEvent { enemy: 1, with: 7 },
            EnemyCollideEvent { enemy: 2, with: 8 },
            EnemyCollideEvent { enemy: 3, with: 7 }
        ]
    );
    assert!(map.contains(1, 7));
    assert!(map.contains(3, 7));
    assert!(map.contains(2, 8));
    assert!(!map.contains(1, 8));
    assert!(!map.contains(2, 7));
    assert!(!map.contains(1, 9));
    // 7 moves away from enemy 1 only
    // 25² = 625 > 401 for enemy 1, 15² = 225 <= 401 for enemy 3
    let colliders = vec![ball(7, 25, 0, 1), ball(8, 1000, 1010, 1)];
    let events = update_enemy_collision(&colliders, &enemies, &mut map);
    assert!(events.is_empty());
    assert!(!map.contains(1, 7));
    assert!(map.contains(3, 7));
    assert!(map.contains(2, 8));
}

#[test]
fn enemy_pass_tests_only_what_is_filed_nearby() {
    // A collider that overlaps the enemy but is filed two cells away is not
    // tested at all.
    let enemy = ball(1, 50, 50, 500);
    let mut map = EnemyCollisionMap::new();
    let events = update_enemy_collision(&vec![ball(7, 250, 50, 1)], &vec![enemy], &mut map);
    assert!(events.is_empty());
    assert!(!map.contains(1, 7));
    // one cell away it is
    let events = update_enemy_collision(&vec![ball(7, 199, 50, 1)], &vec![enemy], &mut map);
    assert_eq!(events, vec![EnemyCollideEvent { enemy: 1, with: 7 }]);
    // and a contact that moves out of the cells around stays on record
    let events = update_enemy_collision(&vec![ball(7, 5000, 50, 1)], &vec![enemy], &mut map);
    assert!(events.is_empty());
    assert!(map.contains(1, 7));
}

#[test]
fn enemy_pass_with_nothing_to_do() {
    let mut map = EnemyCollisionMap::new();
    assert!(update_enemy_collision(&vec![], &vec![], &mut map).is_empty());
    assert!(update_enemy_collision(&vec![ball(7, 0, 0, 1)], &vec![], &mut map).is_empty());
    assert!(update_enemy_collision(&vec![], &vec![ball(1, 0, 0, 1)], &mut map).is_empty());
    assert!(!map.contains(1, 7));
}

#[test]
fn enemy_pass_files_a_rect_by_its_top_left_corner() {
    let enemy = ball(1, 150, 150, 10);
    let mut map = EnemyCollisionMap::new();
    let events =
        update_enemy_collision(&vec![block(7, 90, 90, 100, 100)], &vec![enemy], &mut map);
    assert_eq!(events, vec![EnemyCollideEvent { enemy: 1, with: 7 }]);
    // filed in cell (-1, -1), two cells from the enemy's, though it overlaps
    let mut map = EnemyCollisionMap::new();
    let events =
        update_enemy_collision(&vec![block(7, -10, -10, 200, 200)], &vec![enemy], &mut map);
    assert!(events.is_empty());
}
