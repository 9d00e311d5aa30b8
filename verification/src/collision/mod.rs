//! Collider shapes, their pairwise overlap tests, and the events and
//! bookkeeping of the collision pass.

pub mod spatial;
pub mod systems;

use crate::fx::{map_get, map_insert, map_remove, set_contains, set_insert, set_remove};
use crate::transform::Transform;
use crate::vector::{dist2_spec, div_floor, sq, Vec2u, Vec3i};
use crate::Entity;
use fxhash::{FxHashMap, FxHashSet};
use vstd::prelude::*;

verus! {

/// Tells that the player has come into contact with something.
#[derive(Clone, Copy, Debug, PartialEq, Eq, Structural)]
pub struct PlayerCollideEvent {
    /// The entity the player collided with.
    pub with: Entity,
}

/// Tells that an enemy has come into contact with something.
#[derive(Clone, Copy, Debug, PartialEq, Eq, Structural)]
pub struct EnemyCollideEvent {
    pub enemy: Entity,
    /// The entity this enemy collided with.
    pub with: Entity,
}

/// An entity with what the collision pass reads of it.
#[derive(Clone, Copy, Debug, PartialEq, Eq, Structural)]
pub struct Body {
    pub entity: Entity,
    pub transform: Transform,
    pub collider: Collider,
}

impl Body {
    /// Whether the body's shape can be resolved under its own transform.
    pub open spec fn resolvable(&self) -> bool {
        self.collider.resolvable(&self.transform)
    }

    /// The body's shape in world space.
    pub open spec fn resolved(&self) -> AbsoluteCollider {
        self.collider.resolved(&self.transform)
    }
}

/// Keeps track of what entities are colliding with the player.
pub struct PlayerCollisionMap(FxHashSet<Entity>);

impl View for PlayerCollisionMap {
    type V = Set<Entity>;

    closed spec fn view(&self) -> Set<Entity> {
        self.0@
    }
}

impl PlayerCollisionMap {
    /// A record of no contacts.
    pub fn new() -> (map: PlayerCollisionMap)
        ensures
            map@ == Set::<Entity>::empty(),
    {
        PlayerCollisionMap(FxHashSet::default())
    }

    /// Whether `entity` is recorded as touching the player.
    pub fn contains(&self, entity: Entity) -> (present: bool)
        ensures
            present == self@.contains(entity),
    {
        set_contains(&self.0, entity)
    }

    /// Records `entity` as touching. Returns whether it was not recorded
    /// before.
    pub fn insert(&mut self, entity: Entity) -> (fresh: bool)
        ensures
            final(self)@ == old(self)@.insert(entity),
            fresh == !old(self)@.contains(entity),
    {
        set_insert(&mut self.0, entity)
    }

    /// Records `entity` as not touching. Returns whether it was recorded
    /// before.
    pub fn remove(&mut self, entity: Entity) -> (present: bool)
        ensures
            final(self)@ == old(self)@.remove(entity),
            present == old(self)@.contains(entity),
    {
        set_remove(&mut self.0, entity)
    }
}

impl Default for PlayerCollisionMap {
    fn default() -> (map: PlayerCollisionMap)
        ensures
            map@ == Set::<Entity>::empty(),
    {
        PlayerCollisionMap::new()
    }
}

/// Keeps track of what entities (value) are colliding with the enemy (key).
pub struct EnemyCollisionMap(FxHashMap<Entity, FxHashSet<Entity>>);

impl View for EnemyCollisionMap {
    type V = Map<Entity, Set<Entity>>;

    closed spec fn view(&self) -> Map<Entity, Set<Entity>> {
        Map::new(|enemy: Entity| self.0@.contains_key(enemy), |enemy: Entity| self.0@[enemy]@)
    }
}

impl EnemyCollisionMap {
    /// A record of no contacts.
    pub fn new() -> (map: EnemyCollisionMap)
        ensures
            map@ == Map::<Entity, Set<Entity>>::empty(),
    {
        let map = EnemyCollisionMap(FxHashMap::default());
        assert(map@ =~= Map::<Entity, Set<Entity>>::empty());
        map
    }

    /// Whether `with` is recorded as touching `enemy`.
    pub fn contains(&self, enemy: Entity, with: Entity) -> (present: bool)
        ensures
            present == (self@.contains_key(enemy) && self@[enemy].contains(with)),
    {
        match map_get(&self.0, enemy) {
            Some(active) => set_contains(active, with),
            None => false,
        }
    }

    /// Takes the contact set of `enemy` out of the record; an empty set
    /// where it has none.
    pub(crate) fn take(&mut self, enemy: Entity) -> (active: FxHashSet<Entity>)
        ensures
            final(self)@ == old(self)@.remove(enemy),
            active@ == (if old(self)@.contains_key(enemy) {
                old(self)@[enemy]
            } else {
                Set::empty()
            }),
    {
        let active = match map_remove(&mut self.0, enemy) {
            Some(active) => active,
            None => FxHashSet::default(),
        };
        assert(self@ =~= old(self)@.remove(enemy));
        active
    }

    /// Records `active` as the contact set of `enemy`.
    pub(crate) fn put(&mut self, enemy: Entity, active: FxHashSet<Entity>)
        ensures
            final(self)@ == old(self)@.insert(enemy, active@),
    {
        map_insert(&mut self.0, enemy, active);
        assert(self@ =~= old(self)@.insert(enemy, active@));
    }
}

impl Default for EnemyCollisionMap {
    fn default() -> (map: EnemyCollisionMap)
        ensures
            map@ == Map::<Entity, Set<Entity>>::empty(),
    {
        EnemyCollisionMap::new()
    }
}

/// An axis-aligned rectangle that spans from its top-left corner `tl` to
/// `tl + size`.
#[derive(Clone, Copy, Debug, PartialEq, Eq, Structural)]
pub struct RectCollider {
    pub tl: Vec3i,
    pub size: Vec2u,
}

/// A circle around `position`. The `z` of the position takes part only in
/// the distance between two circles.
#[derive(Clone, Copy, Debug, PartialEq, Eq, Structural)]
pub struct CircleCollider {
    pub position: Vec3i,
    pub radius: u32,
}

/// A shape in the local frame of an entity. To test for collisions, first
/// resolve it into an [`AbsoluteCollider`] with [`Collider::absolute`].
#[derive(Clone, Copy, Debug, PartialEq, Eq, Structural)]
pub enum Collider {
    Rect(RectCollider),
    Circle(CircleCollider),
}

/// A shape resolved into world space. Only these can be tested against each
/// other.
#[derive(Clone, Copy, Debug, PartialEq, Eq, Structural)]
pub enum AbsoluteCollider {
    Rect(RectCollider),
    Circle(CircleCollider),
}

/// How far `p` lies outside the interval from `lo` to `hi`; zero inside it.
pub open spec fn gap(p: int, lo: int, hi: int) -> int {
    if p < lo {
        lo - p
    } else if p > hi {
        p - hi
    } else {
        0
    }
}

/// Two rectangles overlap when their spans meet on both axes. Touching edges
/// count.
pub open spec fn rect_rect(a: RectCollider, b: RectCollider) -> bool {
    &&& b.tl.x <= a.tl.x + a.size.x
    &&& a.tl.x <= b.tl.x + b.size.x
    &&& b.tl.y <= a.tl.y + a.size.y
    &&& a.tl.y <= b.tl.y + b.size.y
}

/// The rule of this engine for two circles: the squared distance of the
/// centers is at most the sum of the squared radii. This is deliberately not
/// the square of the summed radii.
pub open spec fn circle_circle(a: CircleCollider, b: CircleCollider) -> bool {
    dist2_spec(a.position, b.position) <= sq(a.radius as int) + sq(b.radius as int)
}

/// A circle and a rectangle overlap when the point of the rectangle nearest
/// to the circle's center is no further from it than the radius.
pub open spec fn circle_rect(c: CircleCollider, r: RectCollider) -> bool {
    sq(gap(c.position.x as int, r.tl.x as int, r.tl.x + r.size.x)) + sq(
        gap(c.position.y as int, r.tl.y as int, r.tl.y + r.size.y),
    ) <= sq(c.radius as int)
}

/// Whether `v` can be stored as a coordinate.
pub open spec fn fits_i32(v: int) -> bool {
    i32::MIN <= v <= i32::MAX
}

/// Whether `v` can be stored as a radius or an extent.
pub open spec fn fits_u32(v: int) -> bool {
    0 <= v <= u32::MAX
}

fn narrow_i32(v: i128) -> (n: Option<i32>)
    ensures
        n == (if fits_i32(v as int) { Some(v as i32) } else { None }),
{
    if -0x8000_0000 <= v && v <= 0x7fff_ffff {
        Some(v as i32)
    } else {
        None
    }
}

fn narrow_u32(v: u128) -> (n: Option<u32>)
    ensures
        n == (if fits_u32(v as int) { Some(v as u32) } else { None }),
{
    if v <= 0xffff_ffff {
        Some(v as u32)
    } else {
        None
    }
}

/// `factor * turned / 1_000_000`, rounded down, added to `offset`.
fn place(offset: i32, factor: u32, turned: i128) -> (w: i128)
    requires
        -0x8000_0000_0000_0000 <= turned <= 0x8000_0000_0000_0000,
    ensures
        w == offset + (factor * turned) / 1_000_000,
{
    assert(-0x1_0000_0000 * 0x8000_0000_0000_0000 <= factor * turned <= 0x1_0000_0000
        * 0x8000_0000_0000_0000) by (nonlinear_arith)
        requires
            0 <= factor <= 0x1_0000_0000,
            -0x8000_0000_0000_0000 <= turned <= 0x8000_0000_0000_0000,
    ;
    let scaled: i128 = div_floor((factor as i128) * turned, 1_000_000);
    offset as i128 + scaled
}

impl Collider {
    /// Whether the shape can be resolved under `transform`: a rectangle must
    /// not be rotated, and the world-space numbers must fit their fields.
    pub open spec fn resolvable(&self, transform: &Transform) -> bool {
        match *self {
            Collider::Rect(r) => {
                &&& transform.rotation.is_identity_spec()
                &&& fits_i32(r.tl.x + transform.translation.x)
                &&& fits_i32(r.tl.y + transform.translation.y)
                &&& fits_i32(r.tl.z + transform.translation.z)
                &&& fits_u32((r.size.x * transform.scale.x) / 1000)
                &&& fits_u32((r.size.y * transform.scale.y) / 1000)
            },
            Collider::Circle(c) => {
                &&& fits_i32(transform.world_x(c.position))
                &&& fits_i32(transform.world_y(c.position))
                &&& fits_i32(transform.world_z(c.position))
                &&& fits_u32(transform.world_radius(c.radius))
            },
        }
    }

    /// The shape in world space. A rectangle is moved by the translation and
    /// its extent scaled per axis. The center of a circle is rotated, scaled
    /// and moved, and its radius scaled by the mean of the two scale factors.
    pub open spec fn resolved(&self, transform: &Transform) -> AbsoluteCollider {
        match *self {
            Collider::Rect(r) => AbsoluteCollider::Rect(
                RectCollider {
                    tl: Vec3i {
                        x: (r.tl.x + transform.translation.x) as i32,
                        y: (r.tl.y + transform.translation.y) as i32,
                        z: (r.tl.z + transform.translation.z) as i32,
                    },
                    size: Vec2u {
                        x: ((r.size.x * transform.scale.x) / 1000) as u32,
                        y: ((r.size.y * transform.scale.y) / 1000) as u32,
                    },
                },
            ),
            Collider::Circle(c) => AbsoluteCollider::Circle(
                CircleCollider {
                    position: Vec3i {
                        x: transform.world_x(c.position) as i32,
                        y: transform.world_y(c.position) as i32,
                        z: transform.world_z(c.position) as i32,
                    },
                    radius: transform.world_radius(c.radius) as u32,
                },
            ),
        }
    }

    /// Resolves the shape into world space, or returns `None` where
    /// [`Collider::resolvable`] does not hold.
    pub fn try_absolute(&self, transform: &Transform) -> (abs: Option<AbsoluteCollider>)
        ensures
            abs == (if self.resolvable(transform) {
                Some(self.resolved(transform))
            } else {
                None
            }),
    {
        match self {
            Collider::Rect(rect) => {
                if !transform.rotation.is_identity() {
                    return None;
                }
                let t = transform.translation;
                let x = narrow_i32(rect.tl.x as i128 + t.x as i128);
                let y = narrow_i32(rect.tl.y as i128 + t.y as i128);
                let z = narrow_i32(rect.tl.z as i128 + t.z as i128);
                assert(rect.size.x * transform.scale.x <= 0xffff_ffff * 0xffff_ffff
                    && rect.size.y * transform.scale.y <= 0xffff_ffff * 0xffff_ffff)
                    by (nonlinear_arith)
                    requires
                        rect.size.x <= 0xffff_ffff,
                        rect.size.y <= 0xffff_ffff,
                        transform.scale.x <= 0xffff_ffff,
                        transform.scale.y <= 0xffff_ffff,
                ;
                let w = narrow_u32(
                    ((rect.size.x as u64 * transform.scale.x as u64) / 1000) as u128,
                );
                let h = narrow_u32(
                    ((rect.size.y as u64 * transform.scale.y as u64) / 1000) as u128,
                );
                match (x, y, z, w, h) {
                    (Some(x), Some(y), Some(z), Some(w), Some(h)) => Some(
                        AbsoluteCollider::Rect(
                            RectCollider { tl: Vec3i { x, y, z }, size: Vec2u { x: w, y: h } },
                        ),
                    ),
                    _ => None,
                }
            },
            Collider::Circle(circle) => {
                let p = circle.position;
                let rot = transform.rotation;
                assert(-0x4000_0000_0000_0000 <= rot.cos * p.x <= 0x4000_0000_0000_0000
                    && -0x4000_0000_0000_0000 <= rot.sin * p.y <= 0x4000_0000_0000_0000
                    && -0x4000_0000_0000_0000 <= rot.sin * p.x <= 0x4000_0000_0000_0000
                    && -0x4000_0000_0000_0000 <= rot.cos * p.y <= 0x4000_0000_0000_0000)
                    by (nonlinear_arith)
                    requires
                        -0x8000_0000 <= rot.cos <= 0x8000_0000,
                        -0x8000_0000 <= rot.sin <= 0x8000_0000,
                        -0x8000_0000 <= p.x <= 0x8000_0000,
                        -0x8000_0000 <= p.y <= 0x8000_0000,
                ;
                let turned_x: i128 = (rot.cos as i128) * (p.x as i128) - (rot.sin as i128) * (
                p.y as i128);
                let turned_y: i128 = (rot.sin as i128) * (p.x as i128) + (rot.cos as i128) * (
                p.y as i128);
                let x = narrow_i32(place(transform.translation.x, transform.scale.x, turned_x));
                let y = narrow_i32(place(transform.translation.y, transform.scale.y, turned_y));
                let z = narrow_i32(transform.translation.z as i128 + p.z as i128);
                let mean2: u64 = transform.scale.x as u64 + transform.scale.y as u64;
                assert(circle.radius * mean2 <= 0xffff_ffff * 0x1_ffff_fffe) by (nonlinear_arith)
                    requires
                        circle.radius <= 0xffff_ffff,
                        mean2 <= 0x1_ffff_fffe,
                ;
                let radius = narrow_u32(((circle.radius as u128) * (mean2 as u128)) / 2000);
                match (x, y, z, radius) {
                    (Some(x), Some(y), Some(z), Some(radius)) => Some(
                        AbsoluteCollider::Circle(
                            CircleCollider { position: Vec3i { x, y, z }, radius },
                        ),
                    ),
                    _ => None,
                }
            },
        }
    }

    /// Resolves the shape into world space.
    pub fn absolute(&self, transform: &Transform) -> (abs: AbsoluteCollider)
        requires
            self.resolvable(transform),
        ensures
            abs == self.resolved(transform),
    {
        match self.try_absolute(transform) {
            Some(abs) => abs,
            None => {
                proof {
                    assert(false);
                }
                AbsoluteCollider::Circle(CircleCollider { position: Vec3i::zero(), radius: 0 })
            },
        }
    }
}

impl AbsoluteCollider {
    pub open spec fn position_spec(&self) -> Vec3i {
        match *self {
            AbsoluteCollider::Rect(r) => r.tl,
            AbsoluteCollider::Circle(c) => c.position,
        }
    }

    /// The point by which the shape is filed in a grid: the top-left corner
    /// of a rectangle, the center of a circle.
    #[verifier::when_used_as_spec(position_spec)]
    pub fn position(&self) -> (p: Vec3i)
        ensures
            p == self.position_spec(),
    {
        match self {
            AbsoluteCollider::Rect(r) => r.tl,
            AbsoluteCollider::Circle(c) => c.position,
        }
    }
}

/// Resolving a shape with the identity transform yields the same shape.
pub proof fn lemma_identity_keeps_shape(collider: Collider)
    ensures
        collider.resolvable(&Transform::identity_spec()),
        collider.resolved(&Transform::identity_spec()) == (match collider {
            Collider::Rect(r) => AbsoluteCollider::Rect(r),
            Collider::Circle(c) => AbsoluteCollider::Circle(c),
        }),
{
    let t = Transform::identity_spec();
    match collider {
        Collider::Rect(r) => {
            assert((r.size.x * t.scale.x) / 1000 == r.size.x);
            assert((r.size.y * t.scale.y) / 1000 == r.size.y);
        },
        Collider::Circle(c) => {
            assert(t.rotation.turned_x(c.position) == 1000 * c.position.x);
            assert(t.rotation.turned_y(c.position) == 1000 * c.position.y);
            assert(t.world_x(c.position) == c.position.x);
            assert(t.world_y(c.position) == c.position.y);
            assert(t.world_radius(c.radius) == c.radius);
        },
    }
}

/// Whether two shapes in world space overlap.
pub open spec fn overlap(a: AbsoluteCollider, b: AbsoluteCollider) -> bool {
    match (a, b) {
        (AbsoluteCollider::Rect(s), AbsoluteCollider::Rect(o)) => rect_rect(s, o),
        (AbsoluteCollider::Rect(s), AbsoluteCollider::Circle(o)) => circle_rect(o, s),
        (AbsoluteCollider::Circle(s), AbsoluteCollider::Rect(o)) => circle_rect(s, o),
        (AbsoluteCollider::Circle(s), AbsoluteCollider::Circle(o)) => circle_circle(s, o),
    }
}

/// An overlap test between a shape and another of type `T`.
pub trait CollidesWith<T> {
    /// Whether the two shapes overlap.
    spec fn touches(&self, other: &T) -> bool;

    fn collides_with(&self, other: &T) -> (hit: bool)
        ensures
            hit == self.touches(other),
    ;
}

impl RectCollider {
    /// The bottom-right corner `tl + size`, as `(x, y)`.
    pub fn br(&self) -> (corner: (i64, i64))
        ensures
            corner.0 == self.tl.x + self.size.x,
            corner.1 == self.tl.y + self.size.y,
    {
        (self.tl.x as i64 + self.size.x as i64, self.tl.y as i64 + self.size.y as i64)
    }
}

impl CollidesWith<RectCollider> for RectCollider {
    open spec fn touches(&self, other: &RectCollider) -> bool {
        rect_rect(*self, *other)
    }

    fn collides_with(&self, other: &RectCollider) -> (hit: bool) {
        let (sx, sy) = self.br();
        let (ox, oy) = other.br();
        let not_collided = other.tl.y as i64 > sy || other.tl.x as i64 > sx || oy
            < self.tl.y as i64 || ox < self.tl.x as i64;
        !not_collided
    }
}

impl CollidesWith<CircleCollider> for CircleCollider {
    open spec fn touches(&self, other: &CircleCollider) -> bool {
        circle_circle(*self, *other)
    }

    fn collides_with(&self, other: &CircleCollider) -> (hit: bool) {
        let distance: u128 = self.position.dist2(&other.position);
        let a: u64 = self.radius as u64;
        let b: u64 = other.radius as u64;
        assert(a * a <= 0xffff_ffff * 0xffff_ffff && b * b <= 0xffff_ffff * 0xffff_ffff)
            by (nonlinear_arith)
            requires
                a <= 0xffff_ffff,
                b <= 0xffff_ffff,
        ;
        let combined_radii: u128 = (a * a) as u128 + (b * b) as u128;
        distance <= combined_radii
    }
}

/// Twice the distance between `p` and the middle of the span that starts at
/// `lo` and is `len` long.
fn twice_center_distance(p: i32, lo: i32, len: u32) -> (d: i64)
    ensures
        d >= 0,
        d == 2 * p - (2 * lo + len) || d == (2 * lo + len) - 2 * p,
{
    let d: i64 = 2 * (p as i64) - (2 * (lo as i64) + len as i64);
    if d < 0 {
        -d
    } else {
        d
    }
}

impl CollidesWith<RectCollider> for CircleCollider {
    open spec fn touches(&self, other: &RectCollider) -> bool {
        circle_rect(*self, *other)
    }

    fn collides_with(&self, other: &RectCollider) -> (hit: bool) {
        // All lengths are doubled, so that half extents stay whole numbers.
        let dist_x: i64 = twice_center_distance(self.position.x, other.tl.x, other.size.x);
        let dist_y: i64 = twice_center_distance(self.position.y, other.tl.y, other.size.y);
        let w: i64 = other.size.x as i64;
        let h: i64 = other.size.y as i64;
        let r: i64 = 2 * (self.radius as i64);
        let ghost gx = gap(
            self.position.x as int,
            other.tl.x as int,
            other.tl.x + other.size.x,
        );
        let ghost gy = gap(
            self.position.y as int,
            other.tl.y as int,
            other.tl.y + other.size.y,
        );
        let ghost rr = self.radius as int;
        assert(2 * gx == (if dist_x > w { dist_x - w } else { 0 }));
        assert(2 * gy == (if dist_y > h { dist_y - h } else { 0 }));
        assert(sq(2 * gx) + sq(2 * gy) <= sq(2 * rr) <==> sq(gx) + sq(gy) <= sq(rr))
            by (nonlinear_arith);
        if dist_x > w + r {
            assert(sq(2 * gx) + sq(2 * gy) > sq(2 * rr)) by (nonlinear_arith)
                requires
                    2 * gx > 2 * rr,
                    rr >= 0,
            ;
            return false;
        }
        if dist_y > h + r {
            assert(sq(2 * gx) + sq(2 * gy) > sq(2 * rr)) by (nonlinear_arith)
                requires
                    2 * gy > 2 * rr,
                    rr >= 0,
            ;
            return false;
        }
        if dist_x <= w {
            assert(sq(2 * gx) + sq(2 * gy) <= sq(2 * rr)) by (nonlinear_arith)
                requires
                    gx == 0,
                    0 <= 2 * gy <= 2 * rr,
            ;
            return true;
        }
        if dist_y <= h {
            assert(sq(2 * gx) + sq(2 * gy) <= sq(2 * rr)) by (nonlinear_arith)
                requires
                    gy == 0,
                    0 <= 2 * gx <= 2 * rr,
            ;
            return true;
        }
        let cx: u64 = (dist_x - w) as u64;
        let cy: u64 = (dist_y - h) as u64;
        let r2: u64 = r as u64;
        assert(cx <= 0x2_0000_0000 && cy <= 0x2_0000_0000 && r2 <= 0x2_0000_0000);
        assert(cx * cx <= 0x2_0000_0000 * 0x2_0000_0000 && cy * cy <= 0x2_0000_0000
            * 0x2_0000_0000 && r2 * r2 <= 0x2_0000_0000 * 0x2_0000_0000) by (nonlinear_arith)
            requires
                cx <= 0x2_0000_0000,
                cy <= 0x2_0000_0000,
                r2 <= 0x2_0000_0000,
        ;
        let corner_dist: u128 = (cx as u128) * (cx as u128) + (cy as u128) * (cy as u128);
        assert(corner_dist == sq(2 * gx) + sq(2 * gy));
        corner_dist <= (r2 as u128) * (r2 as u128)
    }
}

impl CollidesWith<CircleCollider> for RectCollider {
    open spec fn touches(&self, other: &CircleCollider) -> bool {
        circle_rect(*other, *self)
    }

    fn collides_with(&self, other: &CircleCollider) -> (hit: bool) {
        other.collides_with(self)
    }
}

impl CollidesWith<AbsoluteCollider> for AbsoluteCollider {
    open spec fn touches(&self, other: &AbsoluteCollider) -> bool {
        overlap(*self, *other)
    }

    fn collides_with(&self, other: &AbsoluteCollider) -> (hit: bool) {
        match (self, other) {
            (AbsoluteCollider::Rect(s), AbsoluteCollider::Rect(o)) => s.collides_with(o),
            (AbsoluteCollider::Rect(s), AbsoluteCollider::Circle(o)) => s.collides_with(o),
            (AbsoluteCollider::Circle(s), AbsoluteCollider::Rect(o)) => s.collides_with(o),
            (AbsoluteCollider::Circle(s), AbsoluteCollider::Circle(o)) => s.collides_with(o),
        }
    }
}

/// Whether the point `(x, y)` lies in or on `r`.
pub open spec fn in_rect(r: RectCollider, x: int, y: int) -> bool {
    r.tl.x <= x <= r.tl.x + r.size.x && r.tl.y <= y <= r.tl.y + r.size.y
}

/// Whether the point `(x, y)` lies in or on the circle `c`, seen from
/// above.
pub open spec fn in_circle(c: CircleCollider, x: int, y: int) -> bool {
    sq(c.position.x - x) + sq(c.position.y - y) <= sq(c.radius as int)
}

/// Two rectangles overlap exactly if they have a point in common.
pub proof fn lemma_rect_rect_share_a_point(a: RectCollider, b: RectCollider)
    ensures
        rect_rect(a, b) <==> exists|x: int, y: int| in_rect(a, x, y) && in_rect(b, x, y),
{
    if rect_rect(a, b) {
        let x = if a.tl.x >= b.tl.x {
            a.tl.x as int
        } else {
            b.tl.x as int
        };
        let y = if a.tl.y >= b.tl.y {
            a.tl.y as int
        } else {
            b.tl.y as int
        };
        assert(in_rect(a, x, y) && in_rect(b, x, y));
    }
}

/// A square grows with the size of what is squared.
proof fn lemma_sq_grows(small: int, big: int)
    requires
        0 <= small,
        small <= big || small <= -big,
    ensures
        sq(small) <= sq(big),
{
    assert(small * small <= big * big) by (nonlinear_arith)
        requires
            0 <= small,
            small <= big || small <= -big,
    ;
}

/// A circle and a rectangle overlap exactly if they have a point in
/// common.
pub proof fn lemma_circle_rect_share_a_point(c: CircleCollider, r: RectCollider)
    ensures
        circle_rect(c, r) <==> exists|x: int, y: int| in_rect(r, x, y) && in_circle(c, x, y),
{
    let px = c.position.x as int;
    let py = c.position.y as int;
    let gx = gap(px, r.tl.x as int, r.tl.x + r.size.x);
    let gy = gap(py, r.tl.y as int, r.tl.y + r.size.y);
    if circle_rect(c, r) {
        // the point of the rectangle nearest to the center
        let x = if px < r.tl.x {
            r.tl.x as int
        } else if px > r.tl.x + r.size.x {
            r.tl.x + r.size.x
        } else {
            px
        };
        let y = if py < r.tl.y {
            r.tl.y as int
        } else if py > r.tl.y + r.size.y {
            r.tl.y + r.size.y
        } else {
            py
        };
        assert(sq(px - x) == sq(gx) && sq(py - y) == sq(gy)) by (nonlinear_arith)
            requires
                px - x == gx || px - x == -gx,
                py - y == gy || py - y == -gy,
        ;
        assert(in_rect(r, x, y) && in_circle(c, x, y));
    }
    assert forall|x: int, y: int| in_rect(r, x, y) && in_circle(c, x, y) implies circle_rect(
        c,
        r,
    ) by {
        lemma_sq_grows(gx, px - x);
        lemma_sq_grows(gy, py - y);
    }
}

/// The overlap test does not depend on the order of the two shapes.
pub proof fn lemma_collides_symmetric(a: AbsoluteCollider, b: AbsoluteCollider)
    ensures
        overlap(a, b) == overlap(b, a),
        a.touches(&b) == b.touches(&a),
{
    match (a, b) {
        (AbsoluteCollider::Circle(s), AbsoluteCollider::Circle(o)) => {
            assert(dist2_spec(s.position, o.position) == dist2_spec(o.position, s.position))
                by (nonlinear_arith);
        },
        _ => {},
    }
}

} // verus!
