//! The paddle-and-bricks arena: its wall layout, velocity integration,
//! the box-against-box collision side classification, and the ball
//! bounce pass that reflects the velocity, counts collision events and
//! knocks bricks out.

use crate::math::Vec2;
use crate::num::{abs_int, muldiv, muldiv_spec, FRAC_ONE, MAX_FRAME_DT};
use vstd::prelude::*;

verus! {

/// Left edge of the arena.
pub const LEFT_WALL: i64 = -450;

/// Right edge of the arena.
pub const RIGHT_WALL: i64 = 450;

/// Bottom edge of the arena.
pub const BOTTOM_WALL: i64 = -300;

/// Top edge of the arena.
pub const TOP_WALL: i64 = 300;

/// Thickness of the arena walls.
pub const WALL_THICKNESS: i64 = 10;

/// Which arena wall.
#[derive(Clone, Copy, Debug, PartialEq, Eq, Structural)]
pub enum WallLocation {
    Left,
    Right,
    Bottom,
    Top,
}

impl WallLocation {
    /// Center position of this wall.
    pub fn position(&self) -> (r: Vec2)
        ensures
            r == match self {
                WallLocation::Left => Vec2 { x: LEFT_WALL, y: 0 },
                WallLocation::Right => Vec2 { x: RIGHT_WALL, y: 0 },
                WallLocation::Bottom => Vec2 { x: 0, y: BOTTOM_WALL },
                WallLocation::Top => Vec2 { x: 0, y: TOP_WALL },
            },
    {
        match self {
            WallLocation::Left => Vec2 { x: LEFT_WALL, y: 0 },
            WallLocation::Right => Vec2 { x: RIGHT_WALL, y: 0 },
            WallLocation::Bottom => Vec2 { x: 0, y: BOTTOM_WALL },
            WallLocation::Top => Vec2 { x: 0, y: TOP_WALL },
        }
    }

    /// Full size of this wall: the side walls span the arena height plus
    /// one thickness, the top and bottom walls the width plus one.
    pub fn size(&self) -> (r: Vec2)
        ensures
            r == match self {
                WallLocation::Left | WallLocation::Right => Vec2 {
                    x: WALL_THICKNESS,
                    y: (TOP_WALL - BOTTOM_WALL + WALL_THICKNESS) as i64,
                },
                WallLocation::Bottom | WallLocation::Top => Vec2 {
                    x: (RIGHT_WALL - LEFT_WALL + WALL_THICKNESS) as i64,
                    y: WALL_THICKNESS,
                },
            },
    {
        let arena_width = RIGHT_WALL - LEFT_WALL;
        let arena_height = TOP_WALL - BOTTOM_WALL;
        match self {
            WallLocation::Left | WallLocation::Right => Vec2 {
                x: WALL_THICKNESS,
                y: arena_height + WALL_THICKNESS,
            },
            WallLocation::Bottom | WallLocation::Top => Vec2 {
                x: arena_width + WALL_THICKNESS,
                y: WALL_THICKNESS,
            },
        }
    }
}

/// One arena wall ready to spawn: where it sits and how big it is.
#[derive(Clone, Copy, Debug, PartialEq, Eq, Structural)]
pub struct WallBundle {
    pub position: Vec2,
    pub size: Vec2,
}

impl WallBundle {
    /// Builds the wall for a location.
    pub fn new(location: WallLocation) -> (r: WallBundle)
        ensures
            r.position == match location {
                WallLocation::Left => Vec2 { x: LEFT_WALL, y: 0 },
                WallLocation::Right => Vec2 { x: RIGHT_WALL, y: 0 },
                WallLocation::Bottom => Vec2 { x: 0, y: BOTTOM_WALL },
                WallLocation::Top => Vec2 { x: 0, y: TOP_WALL },
            },
            r.size == match location {
                WallLocation::Left | WallLocation::Right => Vec2 {
                    x: WALL_THICKNESS,
                    y: (TOP_WALL - BOTTOM_WALL + WALL_THICKNESS) as i64,
                },
                WallLocation::Bottom | WallLocation::Top => Vec2 {
                    x: (RIGHT_WALL - LEFT_WALL + WALL_THICKNESS) as i64,
                    y: WALL_THICKNESS,
                },
            },
    {
        WallBundle { position: location.position(), size: location.size() }
    }
}

/// Something that moves: a position and a velocity in subunits per
/// second.
#[derive(Clone, Copy, Debug, PartialEq, Eq, Structural)]
pub struct MovingBody {
    pub translation: Vec2,
    pub velocity: Vec2,
}

/// Advances every body by its velocity times `dt / FRAC_ONE` seconds.
#[verifier::loop_isolation(false)]
pub fn apply_velocity(bodies: &mut Vec<MovingBody>, dt: i64)
    requires
        0 <= dt <= MAX_FRAME_DT,
        forall|i: int|
            0 <= i < old(bodies)@.len() ==> {
                &&& abs_int((#[trigger] old(bodies)@[i]).translation.x as int) <= 0x1_0000_0000
                &&& abs_int(old(bodies)@[i].translation.y as int) <= 0x1_0000_0000
                &&& abs_int(old(bodies)@[i].velocity.x as int) <= 0x1_0000_0000
                &&& abs_int(old(bodies)@[i].velocity.y as int) <= 0x1_0000_0000
            },
    ensures
        final(bodies)@.len() == old(bodies)@.len(),
        forall|i: int|
            0 <= i < old(bodies)@.len() ==> (#[trigger] final(bodies)@[i]) == (MovingBody {
                translation: Vec2 {
                    x: (old(bodies)@[i].translation.x + muldiv_spec(
                        old(bodies)@[i].velocity.x as int,
                        dt as int,
                        FRAC_ONE as int,
                    )) as i64,
                    y: (old(bodies)@[i].translation.y + muldiv_spec(
                        old(bodies)@[i].velocity.y as int,
                        dt as int,
                        FRAC_ONE as int,
                    )) as i64,
                },
                velocity: old(bodies)@[i].velocity,
            }),
{
    let n = bodies.len();
    let mut i: usize = 0;
    while i < n
        invariant
            0 <= i <= n,
            n == old(bodies)@.len(),
            bodies@.len() == n,
            forall|j: int| i <= j < n ==> #[trigger] bodies@[j] == old(bodies)@[j],
            forall|j: int|
                0 <= j < i ==> (#[trigger] bodies@[j]) == (MovingBody {
                    translation: Vec2 {
                        x: (old(bodies)@[j].translation.x + muldiv_spec(
                            old(bodies)@[j].velocity.x as int,
                            dt as int,
                            FRAC_ONE as int,
                        )) as i64,
                        y: (old(bodies)@[j].translation.y + muldiv_spec(
                            old(bodies)@[j].velocity.y as int,
                            dt as int,
                            FRAC_ONE as int,
                        )) as i64,
                    },
                    velocity: old(bodies)@[j].velocity,
                }),
            forall|j: int|
                0 <= j < n ==> {
                    &&& abs_int((#[trigger] old(bodies)@[j]).translation.x as int) <= 0x1_0000_0000
                    &&& abs_int(old(bodies)@[j].translation.y as int) <= 0x1_0000_0000
                    &&& abs_int(old(bodies)@[j].velocity.x as int) <= 0x1_0000_0000
                    &&& abs_int(old(bodies)@[j].velocity.y as int) <= 0x1_0000_0000
                },
        decreases n - i,
    {
        let b = bodies[i];
        proof {
            vstd::arithmetic::mul::lemma_mul_upper_bound(
                abs_int(b.velocity.x as int),
                0x1_0000_0000,
                abs_int(dt as int),
                MAX_FRAME_DT as int,
            );
            vstd::arithmetic::mul::lemma_mul_upper_bound(
                abs_int(b.velocity.y as int),
                0x1_0000_0000,
                abs_int(dt as int),
                MAX_FRAME_DT as int,
            );
            crate::num::lemma_muldiv_div_bound(
                b.velocity.x as int,
                dt as int,
                FRAC_ONE as int,
                0x1_0000_0000_0000_0000,
            );
            crate::num::lemma_muldiv_div_bound(
                b.velocity.y as int,
                dt as int,
                FRAC_ONE as int,
                0x1_0000_0000_0000_0000,
            );
            assert(0x1_0000_0000_0000_0000int / 65536int == 0x1_0000_0000_0000int);
        }
        let dx = muldiv(b.velocity.x, dt, FRAC_ONE);
        let dy = muldiv(b.velocity.y, dt, FRAC_ONE);
        bodies[i] = MovingBody {
            translation: Vec2 { x: b.translation.x + dx, y: b.translation.y + dy },
            velocity: b.velocity,
        };
        i += 1;
    }
}

/// Moves the paddle by `direction * speed * dt / FRAC_ONE` along `x`,
/// clamped so it never leaves the arena: its center stays half a wall
/// thickness plus half a paddle away from either side wall.
pub fn move_paddle(
    paddle_x: &mut i64,
    direction: i64,
    speed: i64,
    paddle_width: i64,
    dt: i64,
) -> (r: i64)
    requires
        abs_int(direction as int) <= 4,
        0 <= speed <= 0x1_0000_0000,
        0 <= dt <= MAX_FRAME_DT,
        0 <= paddle_width <= 400,
        abs_int(*old(paddle_x) as int) <= 0x1_0000_0000,
    ensures
        ({
            let stepped = *old(paddle_x) + direction * muldiv_spec(
                speed as int,
                dt as int,
                FRAC_ONE as int,
            );
            let hi = RIGHT_WALL - (WALL_THICKNESS + paddle_width) / 2;
            let lo = LEFT_WALL + (WALL_THICKNESS + paddle_width) / 2;
            *final(paddle_x) == crate::math::clamp_spec(stepped, lo, hi)
        }),
        r == *final(paddle_x),
{
    proof {
        vstd::arithmetic::mul::lemma_mul_upper_bound(
            abs_int(speed as int),
            0x1_0000_0000,
            abs_int(dt as int),
            MAX_FRAME_DT as int,
        );
        crate::num::lemma_muldiv_div_bound(
            speed as int,
            dt as int,
            FRAC_ONE as int,
            0x1_0000_0000_0000_0000,
        );
        assert(0x1_0000_0000_0000_0000int / 65536int == 0x1_0000_0000_0000int);
        assert(abs_int(direction as int * muldiv_spec(speed as int, dt as int, FRAC_ONE as int))
            <= 0x4_0000_0000_0000) by (nonlinear_arith)
            requires
                abs_int(direction as int) <= 4,
                abs_int(muldiv_spec(speed as int, dt as int, FRAC_ONE as int))
                    <= 0x1_0000_0000_0000,
        ;
    }
    let step = muldiv(speed, dt, FRAC_ONE);
    let stepped = *paddle_x + direction * step;
    let margin = crate::num::div_floor(WALL_THICKNESS + paddle_width, 2);
    let clamped = crate::math::clamp(stepped, LEFT_WALL + margin, RIGHT_WALL - margin);
    *paddle_x = clamped;
    clamped
}

/// Which side of box `b` the box `a` collided with; `Inside` when the
/// penetrations tie on both axes.
#[derive(Clone, Copy, Debug, PartialEq, Eq, Structural)]
pub enum Collision {
    Left,
    Right,
    Top,
    Bottom,
    Inside,
}

/// The side classification of two axis-aligned boxes given by centers
/// and full sizes: `None` without strict overlap on both axes, else the
/// side of the shallower axis, seen from `b` (`Left` means `a` lies to
/// the left of `b`), and `Inside` on a tie.
pub open spec fn collide_spec(a_pos: Vec2, a_size: Vec2, b_pos: Vec2, b_size: Vec2) -> Option<
    Collision,
> {
    let ox = (a_size.x / 2 + b_size.x / 2) - abs_int(a_pos.x - b_pos.x);
    let oy = (a_size.y / 2 + b_size.y / 2) - abs_int(a_pos.y - b_pos.y);
    if ox <= 0 || oy <= 0 {
        None
    } else if ox < oy {
        if a_pos.x < b_pos.x {
            Some(Collision::Left)
        } else {
            Some(Collision::Right)
        }
    } else if oy < ox {
        if a_pos.y < b_pos.y {
            Some(Collision::Bottom)
        } else {
            Some(Collision::Top)
        }
    } else {
        Some(Collision::Inside)
    }
}

/// Classifies the overlap of box `a` against box `b`.
pub fn collide(a_pos: Vec2, a_size: Vec2, b_pos: Vec2, b_size: Vec2) -> (r: Option<Collision>)
    requires
        abs_int(a_pos.x as int) <= 0x1_0000_0000,
        abs_int(a_pos.y as int) <= 0x1_0000_0000,
        abs_int(b_pos.x as int) <= 0x1_0000_0000,
        abs_int(b_pos.y as int) <= 0x1_0000_0000,
        0 <= a_size.x <= 0x1_0000_0000,
        0 <= a_size.y <= 0x1_0000_0000,
        0 <= b_size.x <= 0x1_0000_0000,
        0 <= b_size.y <= 0x1_0000_0000,
    ensures
        r == collide_spec(a_pos, a_size, b_pos, b_size),
{
    let dx = a_pos.x - b_pos.x;
    let adx = if dx >= 0 {
        dx
    } else {
        -dx
    };
    let dy = a_pos.y - b_pos.y;
    let ady = if dy >= 0 {
        dy
    } else {
        -dy
    };
    let ox = crate::num::div_floor(a_size.x, 2) + crate::num::div_floor(b_size.x, 2) - adx;
    let oy = crate::num::div_floor(a_size.y, 2) + crate::num::div_floor(b_size.y, 2) - ady;
    if ox <= 0 || oy <= 0 {
        None
    } else if ox < oy {
        if a_pos.x < b_pos.x {
            Some(Collision::Left)
        } else {
            Some(Collision::Right)
        }
    } else if oy < ox {
        if a_pos.y < b_pos.y {
            Some(Collision::Bottom)
        } else {
            Some(Collision::Top)
        }
    } else {
        Some(Collision::Inside)
    }
}

/// One box the ball can hit.
#[derive(Clone, Copy, Debug, PartialEq, Eq, Structural)]
pub struct ColliderBox {
    pub position: Vec2,
    pub size: Vec2,
    pub is_brick: bool,
    pub alive: bool,
}

/// The score counter.
#[derive(Clone, Copy, Debug, PartialEq, Eq, Structural)]
pub struct Scoreboard {
    pub score: u64,
}

/// The velocity reflection one collision side causes: a side is only
/// reflected against when the ball is moving into it.
pub open spec fn reflect_spec(v: Vec2, side: Collision) -> Vec2 {
    match side {
        Collision::Left => if v.x > 0 {
            Vec2 { x: (-v.x) as i64, y: v.y }
        } else {
            v
        },
        Collision::Right => if v.x < 0 {
            Vec2 { x: (-v.x) as i64, y: v.y }
        } else {
            v
        },
        Collision::Top => if v.y < 0 {
            Vec2 { x: v.x, y: (-v.y) as i64 }
        } else {
            v
        },
        Collision::Bottom => if v.y > 0 {
            Vec2 { x: v.x, y: (-v.y) as i64 }
        } else {
            v
        },
        Collision::Inside => v,
    }
}

/// The ball's velocity after bouncing against a prefix of the colliders,
/// in order.
pub open spec fn velocity_after(
    ball_pos: Vec2,
    ball_size: Vec2,
    colliders: Seq<ColliderBox>,
    v: Vec2,
) -> Vec2
    decreases colliders.len(),
{
    if colliders.len() == 0 {
        v
    } else {
        let v1 = match collide_spec(ball_pos, ball_size, colliders[0].position, colliders[0].size) {
            Some(side) => reflect_spec(v, side),
            None => v,
        };
        velocity_after(ball_pos, ball_size, colliders.drop_first(), v1)
    }
}

/// How many of the colliders the ball overlaps.
pub open spec fn hit_count(ball_pos: Vec2, ball_size: Vec2, colliders: Seq<ColliderBox>) -> int
    decreases colliders.len(),
{
    if colliders.len() == 0 {
        0
    } else {
        (if collide_spec(ball_pos, ball_size, colliders[0].position, colliders[0].size) is Some {
            1int
        } else {
            0int
        }) + hit_count(ball_pos, ball_size, colliders.drop_first())
    }
}

/// How many bricks the ball overlaps.
pub open spec fn brick_hit_count(ball_pos: Vec2, ball_size: Vec2, colliders: Seq<ColliderBox>) -> int
    decreases colliders.len(),
{
    if colliders.len() == 0 {
        0
    } else {
        (if collide_spec(ball_pos, ball_size, colliders[0].position, colliders[0].size) is Some
            && colliders[0].is_brick {
            1int
        } else {
            0int
        }) + brick_hit_count(ball_pos, ball_size, colliders.drop_first())
    }
}

/// The velocity after one optional bounce against a collider.
pub open spec fn reflect_opt(ball_pos: Vec2, ball_size: Vec2, c: ColliderBox, v: Vec2) -> Vec2 {
    match collide_spec(ball_pos, ball_size, c.position, c.size) {
        Some(side) => reflect_spec(v, side),
        None => v,
    }
}

/// Appending one collider to a bounce pass processes it last.
proof fn lemma_ball_fold_snoc(ball_pos: Vec2, ball_size: Vec2, s: Seq<ColliderBox>, c: ColliderBox, v: Vec2)
    ensures
        velocity_after(ball_pos, ball_size, s.push(c), v) == ({
            let v1 = velocity_after(ball_pos, ball_size, s, v);
            match collide_spec(ball_pos, ball_size, c.position, c.size) {
                Some(side) => reflect_spec(v1, side),
                None => v1,
            }
        }),
        hit_count(ball_pos, ball_size, s.push(c)) == hit_count(ball_pos, ball_size, s) + (
        if collide_spec(ball_pos, ball_size, c.position, c.size) is Some {
            1int
        } else {
            0int
        }),
        brick_hit_count(ball_pos, ball_size, s.push(c)) == brick_hit_count(ball_pos, ball_size, s)
            + (if collide_spec(ball_pos, ball_size, c.position, c.size) is Some && c.is_brick {
            1int
        } else {
            0int
        }),
    decreases s.len(),
{
    let s1 = s.push(c);
    if s.len() == 0 {
        assert(s1.drop_first() =~= Seq::<ColliderBox>::empty());
        assert(s1[0] == c);
        assert(velocity_after(ball_pos, ball_size, s, v) == v);
        assert(hit_count(ball_pos, ball_size, s) == 0);
        assert(brick_hit_count(ball_pos, ball_size, s) == 0);
        assert(velocity_after(ball_pos, ball_size, s1.drop_first(), reflect_opt(ball_pos, ball_size, c, v))
            == reflect_opt(ball_pos, ball_size, c, v));
        assert(hit_count(ball_pos, ball_size, s1.drop_first()) == 0);
        assert(brick_hit_count(ball_pos, ball_size, s1.drop_first()) == 0);
    } else {
        assert(s1.drop_first() =~= s.drop_first().push(c));
        assert(s1[0] == s[0]);
        let v1 = match collide_spec(ball_pos, ball_size, s[0].position, s[0].size) {
            Some(side) => reflect_spec(v, side),
            None => v,
        };
        lemma_ball_fold_snoc(ball_pos, ball_size, s.drop_first(), c, v1);
        assert(velocity_after(ball_pos, ball_size, s1, v) == velocity_after(
            ball_pos,
            ball_size,
            s1.drop_first(),
            v1,
        ));
        assert(velocity_after(ball_pos, ball_size, s, v) == velocity_after(
            ball_pos,
            ball_size,
            s.drop_first(),
            v1,
        ));
    }
}

/// One bounce pass of the ball against every collider, in order: each
/// overlap reflects the velocity against the struck side, counts one
/// collision event, and a struck brick scores a point and is knocked
/// out.  Everything else about the colliders is untouched.
#[verifier::loop_isolation(false)]
pub fn check_ball_collisions(
    ball_velocity: &mut Vec2,
    ball_pos: Vec2,
    ball_size: Vec2,
    colliders: &mut Vec<ColliderBox>,
    score: &mut Scoreboard,
    collision_events: &mut u64,
)
    requires
        abs_int(ball_pos.x as int) <= 0x1_0000_0000,
        abs_int(ball_pos.y as int) <= 0x1_0000_0000,
        abs_int(old(ball_velocity).x as int) <= 0x1_0000_0000,
        abs_int(old(ball_velocity).y as int) <= 0x1_0000_0000,
        0 <= ball_size.x <= 0x1_0000_0000,
        0 <= ball_size.y <= 0x1_0000_0000,
        old(score).score <= 0xFFFF_FFFF,
        *old(collision_events) <= 0xFFFF_FFFF,
        old(colliders)@.len() <= 0xFFFF,
        forall|i: int|
            0 <= i < old(colliders)@.len() ==> {
                &&& abs_int((#[trigger] old(colliders)@[i]).position.x as int) <= 0x1_0000_0000
                &&& abs_int(old(colliders)@[i].position.y as int) <= 0x1_0000_0000
                &&& 0 <= old(colliders)@[i].size.x <= 0x1_0000_0000
                &&& 0 <= old(colliders)@[i].size.y <= 0x1_0000_0000
            },
    ensures
        *final(ball_velocity) == velocity_after(ball_pos, ball_size, old(colliders)@, *old(ball_velocity)),
        final(score).score == old(score).score + brick_hit_count(
            ball_pos,
            ball_size,
            old(colliders)@,
        ),
        *final(collision_events) == *old(collision_events) + hit_count(
            ball_pos,
            ball_size,
            old(colliders)@,
        ),
        final(colliders)@.len() == old(colliders)@.len(),
        forall|i: int|
            0 <= i < old(colliders)@.len() ==> (#[trigger] final(colliders)@[i]) == (ColliderBox {
                alive: old(colliders)@[i].alive && !(collide_spec(
                    ball_pos,
                    ball_size,
                    old(colliders)@[i].position,
                    old(colliders)@[i].size,
                ) is Some && old(colliders)@[i].is_brick),
                ..old(colliders)@[i]
            }),
{
    let n = colliders.len();
    let mut i: usize = 0;
    proof {
        assert(old(colliders)@.take(0) =~= Seq::<ColliderBox>::empty());
    }
    while i < n
        invariant
            0 <= i <= n,
            colliders@.len() == n,
            *ball_velocity == velocity_after(
                ball_pos,
                ball_size,
                old(colliders)@.take(i as int),
                *old(ball_velocity),
            ),
            score.score == old(score).score + brick_hit_count(
                ball_pos,
                ball_size,
                old(colliders)@.take(i as int),
            ),
            *collision_events == *old(collision_events) + hit_count(
                ball_pos,
                ball_size,
                old(colliders)@.take(i as int),
            ),
            0 <= brick_hit_count(ball_pos, ball_size, old(colliders)@.take(i as int)) <= i,
            0 <= hit_count(ball_pos, ball_size, old(colliders)@.take(i as int)) <= i,
            abs_int(ball_velocity.x as int) <= 0x1_0000_0000,
            abs_int(ball_velocity.y as int) <= 0x1_0000_0000,
            forall|j: int| i <= j < n ==> #[trigger] colliders@[j] == old(colliders)@[j],
            forall|j: int|
                0 <= j < i ==> (#[trigger] colliders@[j]) == (ColliderBox {
                    alive: old(colliders)@[j].alive && !(collide_spec(
                        ball_pos,
                        ball_size,
                        old(colliders)@[j].position,
                        old(colliders)@[j].size,
                    ) is Some && old(colliders)@[j].is_brick),
                    ..old(colliders)@[j]
                }),
        decreases n - i,
    {
        let c = colliders[i];
        let hit = collide(ball_pos, ball_size, c.position, c.size);
        proof {
            lemma_ball_fold_snoc(
                ball_pos,
                ball_size,
                old(colliders)@.take(i as int),
                old(colliders)@[i as int],
                *old(ball_velocity),
            );
            assert(old(colliders)@.take(i as int + 1) =~= old(colliders)@.take(i as int).push(
                old(colliders)@[i as int],
            ));
        }
        match hit {
            Some(side) => {
                *collision_events = *collision_events + 1;
                let v = *ball_velocity;
                let reflected: Vec2 = match side {
                    Collision::Left => if v.x > 0 {
                        Vec2 { x: -v.x, y: v.y }
                    } else {
                        v
                    },
                    Collision::Right => if v.x < 0 {
                        Vec2 { x: -v.x, y: v.y }
                    } else {
                        v
                    },
                    Collision::Top => if v.y < 0 {
                        Vec2 { x: v.x, y: -v.y }
                    } else {
                        v
                    },
                    Collision::Bottom => if v.y > 0 {
                        Vec2 { x: v.x, y: -v.y }
                    } else {
                        v
                    },
                    Collision::Inside => v,
                };
                *ball_velocity = reflected;
                if c.is_brick {
                    score.score = score.score + 1;
                    colliders[i] = ColliderBox { alive: false, ..c };
                } else {
                    colliders[i] = c;
                }
            },
            None => {},
        }
        i += 1;
    }
    proof {
        assert(old(colliders)@.take(n as int) =~= old(colliders)@);
    }
}

/// Empties the pending collision events and reports whether a bounce
/// sound should play this frame: exactly when any event was pending.
pub fn play_collision_sound(collision_events: &mut u64) -> (play: bool)
    ensures
        play == (*old(collision_events) > 0),
        *final(collision_events) == 0,
{
    let pending = *collision_events > 0;
    *collision_events = 0;
    pending
}

/// On-screen text: a list of sections, each a run of bytes.
pub struct Text {
    pub sections: Vec<Vec<u8>>,
}

/// The decimal digits of `n`, most significant first, as ASCII bytes.
pub open spec fn dec_digits(n: nat) -> Seq<u8>
    decreases n,
{
    if n < 10 {
        seq![(48 + n) as u8]
    } else {
        dec_digits(n / 10).push((48 + n % 10) as u8)
    }
}

/// Renders a number as ASCII decimal digits.
pub fn u64_to_decimal(n: u64) -> (r: Vec<u8>)
    ensures
        r@ == dec_digits(n as nat),
    decreases n,
{
    if n < 10 {
        let mut v: Vec<u8> = Vec::new();
        v.push(48 + (n as u8));
        proof {
            assert(v@ =~= dec_digits(n as nat));
        }
        v
    } else {
        let mut v = u64_to_decimal(n / 10);
        v.push(48 + ((n % 10) as u8));
        v
    }
}

/// Writes the score into the second text section as decimal digits; the
/// other sections are untouched.
pub fn update_scoreboard(score: &Scoreboard, text: &mut Text)
    requires
        old(text).sections@.len() >= 2,
    ensures
        final(text).sections@.len() == old(text).sections@.len(),
        final(text).sections@[1]@ == dec_digits(score.score as nat),
        forall|i: int|
            0 <= i < old(text).sections@.len() && i != 1 ==> final(text).sections@[i] == old(
                text,
            ).sections@[i],
{
    let digits = u64_to_decimal(score.score);
    text.sections[1] = digits;
}

} // verus!
