use meltdown::collision::spatial::{SpatialData, SpatialHash};
use meltdown::collision::{AbsoluteCollider, CircleCollider};
use meltdown::vector::Vec3i;

fn entry(entity: u64, x: i32, y: i32) -> SpatialData {
    let position = Vec3i::new(x, y, 0);
    SpatialData {
        entity,
        position,
        collider: AbsoluteCollider::Circle(CircleCollider { position, radius: 1 }),
    }
}

fn ids(found: &Vec<SpatialData>) -> Vec<u64> {
    found.iter().map(|d| d.entity).collect()
}

#[test]
fn spatial_hash_neighbor_lookup() {
    let mut grid = SpatialHash::new(100);
    grid.insert(entry(1, 5, 5));
    grid.insert(entry(2, 150, 150));
    grid.insert(entry(3, 250, 250));
    let found = grid.nearby_objects(&Vec3i::new(50, 50, 0));
    assert!(found.contains(&entry(1, 5, 5)));
    // (150, 150) lies in cell (1, 1), which is next to the queried cell
    // (0, 0) and so part of the block that is searched.
    assert!(found.contains(&entry(2, 150, 150)));
    // (250, 250) lies in cell (2, 2), which is not.
    assert!(!found.contains(&entry(3, 250, 250)));
    assert_eq!(found.len(), 2);
}

#[test]
fn entry_two_cells_away_is_not_returned() {
    let mut grid = SpatialHash::new(100);
    grid.insert(entry(1, 5, 5));
    grid.insert(entry(2, 250, 50));
    grid.insert(entry(3, 50, -150));
    let found = grid.nearby_objects(&Vec3i::new(50, 50, 0));
    assert_eq!(found, vec![entry(1, 5, 5)]);
}

#[test]
fn new_grid_is_empty_and_keeps_its_cell_size() {
    let grid = SpatialHash::new(100);
    assert_eq!(grid.cell_size(), 100);
    assert!(grid.nearby_objects(&Vec3i::new(0, 0, 0)).is_empty());
    assert_eq!(SpatialHash::new(1).cell_size(), 1);
}

#[test]
fn query_returns_the_block_of_three_by_three_cells() {
    let mut grid = SpatialHash::new(100);
    let mut id = 0;
    // one entry in the middle of each cell from (-3, -3) to (3, 3)
    for cx in -3..=3 {
        for cy in -3..=3 {
            grid.insert(entry(id, cx * 100 + 50, cy * 100 + 50));
            id += 1;
        }
    }
    let found = grid.nearby_objects(&Vec3i::new(10, 10, 0));
    assert_eq!(found.len(), 9);
    for d in found.iter() {
        assert!(-100 <= d.position.x && d.position.x < 200);
        assert!(-100 <= d.position.y && d.position.y < 200);
    }
    // column by column, and within a column row by row
    let places: Vec<(i32, i32)> = found.iter().map(|d| (d.position.x, d.position.y)).collect();
    assert_eq!(
        places,
        vec![
            (-50, -50),
            (-50, 50),
            (-50, 150),
            (50, -50),
            (50, 50),
            (50, 150),
            (150, -50),
            (150, 50),
            (150, 150)
        ]
    );
}

#[test]
fn nothing_within_a_cell_size_is_missed() {
    let mut grid = SpatialHash::new(100);
    let mut id = 0;
    for x in (-250..250).step_by(7) {
        for y in (-250..250).step_by(11) {
            grid.insert(entry(id, x, y));
            id += 1;
        }
    }
    for (qx, qy) in [(0, 0), (-1, -1), (99, 100), (-100, 57), (-201, 199), (149, -150)] {
        let found = grid.nearby_objects(&Vec3i::new(qx, qy, 0));
        for x in (-250..250).step_by(7) {
            for y in (-250..250).step_by(11) {
                if (x - qx).abs() < 100 && (y - qy).abs() < 100 {
                    assert!(found.iter().any(|d| d.position == Vec3i::new(x, y, 0)));
                }
            }
        }
    }
}

#[test]
fn cells_round_down_below_zero() {
    let mut grid = SpatialHash::new(100);
    grid.insert(entry(1, -1, -1));
    grid.insert(entry(2, -100, -100));
    grid.insert(entry(3, -101, -101));
    // (150, 150) is in cell (1, 1): only cells 0 to 2 are searched
    assert!(grid.nearby_objects(&Vec3i::new(150, 150, 0)).is_empty());
    // (50, 50) is in cell (0, 0): cell (-1, -1) holds the first two
    assert_eq!(ids(&grid.nearby_objects(&Vec3i::new(50, 50, 0))), vec![1, 2]);
    // (-150, -150) is in cell (-2, -2)
    assert_eq!(ids(&grid.nearby_objects(&Vec3i::new(-150, -150, 0))), vec![3, 1, 2]);
    // (-250, -250) is in cell (-3, -3): cell (-2, -2) holds the third
    assert_eq!(ids(&grid.nearby_objects(&Vec3i::new(-250, -250, 0))), vec![3]);
}

#[test]
fn entries_of_a_cell_come_out_in_the_order_of_insertion() {
    let mut grid = SpatialHash::new(100);
    grid.insert(entry(3, 10, 10));
    grid.insert(entry(1, 20, 20));
    grid.insert(entry(2, 30, 30));
    grid.insert(entry(1, 20, 20));
    assert_eq!(ids(&grid.nearby_objects(&Vec3i::new(0, 0, 0))), vec![3, 1, 2, 1]);
}

#[test]
fn the_third_axis_does_not_matter() {
    let mut grid = SpatialHash::new(100);
    let mut high = entry(1, 5, 5);
    high.position.z = i32::MAX;
    grid.insert(high);
    assert_eq!(grid.nearby_objects(&Vec3i::new(5, 5, i32::MIN)), vec![high]);
}

#[test]
fn clear_empties_the_grid() {
    let mut grid = SpatialHash::new(100);
    grid.insert(entry(1, 5, 5));
    grid.insert(entry(2, 150, 150));
    grid.clear();
    assert_eq!(grid.cell_size(), 100);
    assert!(grid.nearby_objects(&Vec3i::new(50, 50, 0)).is_empty());
    assert!(grid.nearby_objects(&Vec3i::new(150, 150, 0)).is_empty());
    grid.insert(entry(3, 5, 5));
    assert_eq!(ids(&grid.nearby_objects(&Vec3i::new(50, 50, 0))), vec![3]);
}

#[test]
fn grid_at_the_ends_of_the_world() {
    let mut grid = SpatialHash::new(1);
    grid.insert(entry(1, i32::MIN, i32::MIN));
    grid.insert(entry(2, i32::MAX, i32::MAX));
    grid.insert(entry(3, i32::MAX, i32::MIN));
    assert_eq!(ids(&grid.nearby_objects(&Vec3i::new(i32::MIN, i32::MIN, 0))), vec![1]);
    assert_eq!(ids(&grid.nearby_objects(&Vec3i::new(i32::MIN + 1, i32::MIN + 1, 0))), vec![1]);
    assert_eq!(ids(&grid.nearby_objects(&Vec3i::new(i32::MAX, i32::MAX, 0))), vec![2]);
    assert_eq!(ids(&grid.nearby_objects(&Vec3i::new(i32::MAX, i32::MIN, 0))), vec![3]);
    assert!(grid.nearby_objects(&Vec3i::new(0, 0, 0)).is_empty());
    let mut wide = SpatialHash::new(u32::MAX);
    wide.insert(entry(1, i32::MIN, i32::MIN));
    wide.insert(entry(2, i32::MAX, i32::MAX));
    wide.insert(entry(3, -1, 0));
    // cells -1 and 0 only: everything is next to everything
    assert_eq!(ids(&wide.nearby_objects(&Vec3i::new(0, 0, 0))), vec![1, 3, 2]);
}
