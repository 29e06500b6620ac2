//! The per-tick simulation systems: Detection, the Movement steering
//! state machine, Attack, and the Spawner, run in that order by `tick`.

use vstd::prelude::*;

use crate::enemy::{vel_ok, wf_record, Animation, Enemy, EnemyRecord, EnemySpawn, Motion,
    ProjectileSpawn, SpriteKey, ENEMY_START_HP};
use crate::geometry::{in_world, norm2, scale_to, scale_vec, scale_x, scale_y, vec_sub, Vec2};
use crate::grid::{candidate_ok, check_candidate, PassableTiles};
use crate::rng::sample_range;

verus! {

/// Radius of the circle around an enemy inside which it sees the player.
pub const DETECT_RADIUS: i64 = 180;

/// Speed of an enemy pursuing the player, units per second.
pub const TRACKING_SPEED: i64 = 100;

/// Speed of a wandering enemy, units per second.
pub const IDLE_SPEED: i64 = 50;

/// How long an enemy wanders before pausing, milliseconds.
pub const WANDER_TIME_MS: u64 = 2000;

/// How long an enemy idles before wandering again, milliseconds.
pub const IDLE_TIME_MS: u64 = 2000;

/// Half-width of the square a wander direction is sampled from.
pub const WANDER_DIR_RANGE: i64 = 1000;

/// Squared distance between two positions.
pub open spec fn dist2(a: Vec2, b: Vec2) -> int {
    (a.x - b.x) * (a.x - b.x) + (a.y - b.y) * (a.y - b.y)
}

/// Detection: the player lies within the detection circle around the
/// enemy; a squared comparison, so the boundary itself detects.
pub open spec fn spec_detects(enemy_pos: Vec2, player_pos: Vec2, radius: int) -> bool {
    dist2(player_pos, enemy_pos) <= radius * radius
}

/// Decide whether an enemy at `enemy_pos` sees a player at `player_pos`.
pub fn detects(enemy_pos: Vec2, player_pos: Vec2, radius: i64) -> (b: bool)
    requires
        in_world(enemy_pos),
        in_world(player_pos),
        0 <= radius <= 100_000,
    ensures
        b == spec_detects(enemy_pos, player_pos, radius as int),
{
    let dx: i64 = player_pos.x - enemy_pos.x;
    let dy: i64 = player_pos.y - enemy_pos.y;
    assert(dx * dx <= 2_000_000i64 * 2_000_000i64 && dx * dx >= 0) by (nonlinear_arith)
        requires
            -2_000_000 <= dx <= 2_000_000,
    ;
    assert(dy * dy <= 2_000_000i64 * 2_000_000i64 && dy * dy >= 0) by (nonlinear_arith)
        requires
            -2_000_000 <= dy <= 2_000_000,
    ;
    assert(radius * radius <= 100_000i64 * 100_000i64 && radius * radius >= 0)
        by (nonlinear_arith)
        requires
            0 <= radius <= 100_000,
    ;
    dx * dx + dy * dy <= radius * radius
}

/// The velocity of an enemy that pursues the player along `d`, the vector
/// from the enemy to the player; an enemy standing exactly on the player
/// keeps still.
pub open spec fn tracking_velocity(d: Vec2) -> Vec2 {
    if d.x == 0 && d.y == 0 {
        Vec2 { x: 0, y: 0 }
    } else {
        scale_vec(d, TRACKING_SPEED as int)
    }
}

/// The direction a wander transition steers along, from two uniform
/// samples; the degenerate all-zero sample falls back to a fixed unit
/// direction so the direction is never undefined.
pub open spec fn wander_dir(rx: int, ry: int) -> Vec2 {
    if rx == 0 && ry == 0 {
        Vec2 { x: WANDER_DIR_RANGE, y: 0 }
    } else {
        Vec2 { x: rx as i64, y: ry as i64 }
    }
}

/// The velocity a wander transition leaves: the sampled direction at the
/// idle speed.
pub open spec fn wander_velocity(rx: int, ry: int) -> Vec2 {
    scale_vec(wander_dir(rx, ry), IDLE_SPEED as int)
}

/// The Movement steering state machine. The two countdowns live on the
/// system itself and are shared by the whole enemy population, as the
/// host configured them; each processed enemy reads and rewinds them in
/// turn.
pub struct Movement {
    pub random_movement_time: u64,
    pub random_idle_time: u64,
}

/// One Movement transition for one enemy: given the system timers, the
/// enemy's position and velocity, the player position, the elapsed time
/// and the two wander samples, the timers, velocity and tracking flag
/// after the transition.
///
/// Detection true: pursue the player, ignore the timers. Detection
/// false: a moving enemy winds the wander timer down and stops when it
/// runs out; a still enemy winds the idle timer down and starts wandering
/// when it runs out. A timer with less left than the elapsed time counts
/// as run out.
pub open spec fn step_spec(
    m: Movement,
    pos: Vec2,
    vel: Vec2,
    player: Vec2,
    delta_ms: u64,
    rx: int,
    ry: int,
) -> (Movement, Vec2, bool) {
    if spec_detects(pos, player, DETECT_RADIUS as int) {
        let d = Vec2 { x: (player.x - pos.x) as i64, y: (player.y - pos.y) as i64 };
        (m, tracking_velocity(d), true)
    } else {
        let moving = !(vel.x == 0 && vel.y == 0);
        let m1 = if moving {
            if delta_ms <= m.random_movement_time {
                Movement {
                    random_movement_time: (m.random_movement_time - delta_ms) as u64,
                    random_idle_time: m.random_idle_time,
                }
            } else {
                Movement {
                    random_movement_time: m.random_movement_time,
                    random_idle_time: IDLE_TIME_MS,
                }
            }
        } else {
            m
        };
        let vel1 = if moving && delta_ms > m.random_movement_time {
            Vec2 { x: 0, y: 0 }
        } else {
            vel
        };
        if vel1.x == 0 && vel1.y == 0 {
            if delta_ms <= m1.random_idle_time {
                (
                    Movement {
                        random_movement_time: m1.random_movement_time,
                        random_idle_time: (m1.random_idle_time - delta_ms) as u64,
                    },
                    vel1,
                    false,
                )
            } else {
                (
                    Movement {
                        random_movement_time: WANDER_TIME_MS,
                        random_idle_time: m1.random_idle_time,
                    },
                    wander_velocity(rx, ry),
                    false,
                )
            }
        } else {
            (m1, vel1, false)
        }
    }
}

/// The timers after one Movement transition. They do not depend on the
/// wander samples, so the transition pins them exactly.
pub open spec fn step_timers(
    m: Movement,
    pos: Vec2,
    vel: Vec2,
    player: Vec2,
    delta_ms: u64,
) -> Movement {
    step_spec(m, pos, vel, player, delta_ms, 0, 0).0
}

/// The timers after a whole Movement tick: every enemy in order applies
/// its transition to the shared pair.
pub open spec fn run_timers(
    m: Movement,
    s: Seq<EnemyRecord>,
    player: Vec2,
    delta_ms: u64,
) -> Movement
    decreases s.len(),
{
    if s.len() == 0 {
        m
    } else {
        run_timers(
            step_timers(m, s[0].pos, s[0].motion.vel, player, delta_ms),
            s.subrange(1, s.len() as int),
            player,
            delta_ms,
        )
    }
}

/// Folding one more enemy onto the timer evolution applies its transition
/// last.
proof fn lemma_run_timers_push(
    m: Movement,
    s: Seq<EnemyRecord>,
    x: EnemyRecord,
    player: Vec2,
    delta_ms: u64,
)
    ensures
        run_timers(m, s.push(x), player, delta_ms) == step_timers(
            run_timers(m, s, player, delta_ms),
            x.pos,
            x.motion.vel,
            player,
            delta_ms,
        ),
    decreases s.len(),
{
    if s.len() == 0 {
        assert(s.push(x)[0] == x);
        let e = s.push(x).subrange(1, 1);
        assert(e =~= Seq::<EnemyRecord>::empty());
        let mx = step_timers(m, x.pos, x.motion.vel, player, delta_ms);
        assert(run_timers(m, s.push(x), player, delta_ms) == run_timers(mx, e, player, delta_ms));
        assert(run_timers(mx, e, player, delta_ms) == mx);
        assert(run_timers(m, s, player, delta_ms) == m);
    } else {
        assert(s.push(x)[0] == s[0]);
        assert(s.push(x).subrange(1, s.len() as int + 1) =~= s.subrange(1, s.len() as int).push(x));
        lemma_run_timers_push(
            step_timers(m, s[0].pos, s[0].motion.vel, player, delta_ms),
            s.subrange(1, s.len() as int),
            x,
            player,
            delta_ms,
        );
    }
}

impl Movement {
    /// Apply one Movement transition to one enemy, with the wander
    /// direction samples passed in. Only the velocity and the tracking
    /// flag of the record change, exactly as `step_spec` says, and the
    /// resulting velocity is again one the rules allow.
    pub fn step(
        &mut self,
        player_pos: Vec2,
        delta_ms: u64,
        rec: &mut EnemyRecord,
        rx: i64,
        ry: i64,
    )
        requires
            in_world(player_pos),
            in_world(old(rec).pos),
            -WANDER_DIR_RANGE <= rx <= WANDER_DIR_RANGE,
            -WANDER_DIR_RANGE <= ry <= WANDER_DIR_RANGE,
        ensures
            (*final(self), final(rec).motion.vel, final(rec).enemy.has_player_in_sight)
                == step_spec(
                *old(self),
                old(rec).pos,
                old(rec).motion.vel,
                player_pos,
                delta_ms,
                rx as int,
                ry as int,
            ),
            final(rec).pos == old(rec).pos,
            final(rec).enemy.hp == old(rec).enemy.hp,
            final(rec).motion.acc == old(rec).motion.acc,
            final(rec).motion.min_vel == old(rec).motion.min_vel,
            final(rec).motion.max_vel == old(rec).motion.max_vel,
            vel_ok(old(rec).motion.vel) ==> vel_ok(final(rec).motion.vel),
    {
        if detects(rec.pos, player_pos, DETECT_RADIUS) {
            let d = vec_sub(player_pos, rec.pos);
            if d.x == 0 && d.y == 0 {
                rec.motion.vel = Vec2 { x: 0, y: 0 };
            } else {
                rec.motion.vel = scale_to(d, TRACKING_SPEED);
            }
            rec.enemy.has_player_in_sight = true;
        } else {
            let moving = !(rec.motion.vel.x == 0 && rec.motion.vel.y == 0);
            if moving {
                if delta_ms <= self.random_movement_time {
                    self.random_movement_time = self.random_movement_time - delta_ms;
                } else {
                    rec.motion.vel = Vec2 { x: 0, y: 0 };
                    self.random_idle_time = IDLE_TIME_MS;
                }
            }
            if rec.motion.vel.x == 0 && rec.motion.vel.y == 0 {
                if delta_ms <= self.random_idle_time {
                    self.random_idle_time = self.random_idle_time - delta_ms;
                } else {
                    let dir = if rx == 0 && ry == 0 {
                        Vec2 { x: WANDER_DIR_RANGE, y: 0 }
                    } else {
                        Vec2 { x: rx, y: ry }
                    };
                    rec.motion.vel = scale_to(dir, IDLE_SPEED);
                    self.random_movement_time = WANDER_TIME_MS;
                }
            }
            rec.enemy.has_player_in_sight = false;
        }
    }

    /// Run one Movement tick over the whole population. A missing
    /// walkability grid means the world is not ready: nothing moves.
    /// Otherwise every enemy keeps its position and health, its tracking
    /// flag becomes exactly the detection result, a detected player is
    /// pursued, and an undetected enemy keeps, drops or re-rolls its
    /// wander velocity. The shared timers advance once per enemy, in
    /// order.
    pub fn run(
        &mut self,
        player_pos: Vec2,
        delta_ms: u64,
        enemies: &mut Vec<EnemyRecord>,
        grid: Option<&PassableTiles>,
    )
        requires
            in_world(player_pos),
            forall|i: int|
                0 <= i < old(enemies)@.len() ==> wf_record(#[trigger] old(enemies)@[i]),
        ensures
            final(enemies)@.len() == old(enemies)@.len(),
            grid.is_none() ==> *final(self) == *old(self) && *final(enemies) == *old(enemies),
            grid.is_some() ==> *final(self) == run_timers(
                *old(self),
                old(enemies)@,
                player_pos,
                delta_ms,
            ),
            forall|i: int|
                0 <= i < old(enemies)@.len() ==> moved_ok(
                    old(enemies)@[i],
                    #[trigger] final(enemies)@[i],
                    player_pos,
                    grid.is_some(),
                ),
    {
        if grid.is_none() {
            return ;
        }
        let ghost pre = enemies@;
        let ghost m0 = *self;
        let n = enemies.len();
        let mut i: usize = 0;
        proof {
            assert(pre.take(0) =~= Seq::<EnemyRecord>::empty());
        }
        while i < n
            invariant
                i <= n,
                enemies@.len() == n,
                pre.len() == n,
                in_world(player_pos),
                *self == run_timers(m0, pre.take(i as int), player_pos, delta_ms),
                forall|j: int| 0 <= j < n ==> wf_record(#[trigger] pre[j]),
                forall|j: int| i <= j < n ==> #[trigger] enemies@[j] == pre[j],
                forall|j: int|
                    0 <= j < i ==> moved_ok(pre[j], #[trigger] enemies@[j], player_pos, true),
            decreases n - i,
        {
            let rx = sample_range(-WANDER_DIR_RANGE, WANDER_DIR_RANGE);
            let ry = sample_range(-WANDER_DIR_RANGE, WANDER_DIR_RANGE);
            let mut rec = enemies[i];
            self.step(player_pos, delta_ms, &mut rec, rx, ry);
            proof {
                if !spec_detects(pre[i as int].pos, player_pos, DETECT_RADIUS as int) {
                    if rec.motion.vel == wander_velocity(rx as int, ry as int) {
                        assert(is_wander_velocity(rec.motion.vel));
                    }
                }
                assert(moved_ok(pre[i as int], rec, player_pos, true));
                lemma_run_timers_push(m0, pre.take(i as int), pre[i as int], player_pos, delta_ms);
                assert(pre.take(i as int + 1) =~= pre.take(i as int).push(pre[i as int]));
            }
            enemies.set(i, rec);
            i += 1;
        }
        proof {
            assert(pre.take(n as int) =~= pre);
        }
    }
}

/// A velocity some wander transition could have produced: a sampled
/// direction rescaled to the idle speed.
pub open spec fn is_wander_velocity(v: Vec2) -> bool {
    exists|rx: int, ry: int|
        -WANDER_DIR_RANGE <= rx <= WANDER_DIR_RANGE && -WANDER_DIR_RANGE <= ry
            <= WANDER_DIR_RANGE && v == wander_velocity(rx, ry)
}

/// What an undetected enemy's velocity may become in one Movement tick:
/// kept while the wander timer runs, zeroed when it expires, or re-rolled
/// to a wander velocity when the idle timer expires.
pub open spec fn wander_step_vel(v0: Vec2, v1: Vec2) -> bool {
    v1 == v0 || v1 == (Vec2 { x: 0, y: 0 }) || is_wander_velocity(v1)
}

/// What one Movement tick does to one enemy record, in terms of the
/// record before the tick. Without a grid the record is untouched.
pub open spec fn moved_ok(
    pre: EnemyRecord,
    post: EnemyRecord,
    player: Vec2,
    grid_present: bool,
) -> bool {
    if !grid_present {
        post == pre
    } else {
        let detected = spec_detects(pre.pos, player, DETECT_RADIUS as int);
        let d = Vec2 { x: (player.x - pre.pos.x) as i64, y: (player.y - pre.pos.y) as i64 };
        &&& post.pos == pre.pos
        &&& post.enemy.hp == pre.enemy.hp
        &&& post.motion.acc == pre.motion.acc
        &&& post.motion.min_vel == pre.motion.min_vel
        &&& post.motion.max_vel == pre.motion.max_vel
        &&& wf_record(post)
        &&& post.enemy.has_player_in_sight == detected
        &&& (detected ==> post.motion.vel == tracking_velocity(d))
        &&& (!detected ==> wander_step_vel(pre.motion.vel, post.motion.vel))
    }
}

/// An enemy that sees the player pursues it: after one Movement
/// transition with detection true, the tracking flag is set, the timers
/// are untouched, and (unless the enemy stands exactly on the player) the
/// velocity points from the enemy toward the player with squared speed
/// within integer rounding of the tracking speed.
pub proof fn lemma_tracking_pursuit(
    m: Movement,
    pos: Vec2,
    vel: Vec2,
    player: Vec2,
    delta_ms: u64,
    rx: int,
    ry: int,
)
    requires
        in_world(pos),
        in_world(player),
        spec_detects(pos, player, DETECT_RADIUS as int),
        pos != player,
    ensures
        ({
            let (m1, v1, t) = step_spec(m, pos, vel, player, delta_ms, rx, ry);
            let d = Vec2 { x: (player.x - pos.x) as i64, y: (player.y - pos.y) as i64 };
            &&& t
            &&& m1 == m
            &&& v1 == tracking_velocity(d)
            &&& norm2(v1) < (TRACKING_SPEED + 1) * (TRACKING_SPEED + 1)
            &&& norm2(v1) >= (TRACKING_SPEED - 2) * (TRACKING_SPEED - 2) - 2
            &&& (player.x > pos.x ==> v1.x >= 0)
            &&& (player.x < pos.x ==> v1.x <= 0)
            &&& (player.y > pos.y ==> v1.y >= 0)
            &&& (player.y < pos.y ==> v1.y <= 0)
        }),
{
    let d = Vec2 { x: (player.x - pos.x) as i64, y: (player.y - pos.y) as i64 };
    assert(!(d.x == 0 && d.y == 0));
    crate::geometry::lemma_scale_norm2(d, TRACKING_SPEED as int);
}

/// An idle enemy whose idle timer has fully elapsed starts wandering: the
/// velocity becomes the sampled wander velocity, with squared speed
/// within integer rounding of the idle speed, and the wander timer is
/// reset to its full duration.
pub proof fn lemma_idle_to_wander(
    m: Movement,
    pos: Vec2,
    player: Vec2,
    delta_ms: u64,
    rx: int,
    ry: int,
)
    requires
        !spec_detects(pos, player, DETECT_RADIUS as int),
        delta_ms > m.random_idle_time,
        -WANDER_DIR_RANGE <= rx <= WANDER_DIR_RANGE,
        -WANDER_DIR_RANGE <= ry <= WANDER_DIR_RANGE,
    ensures
        ({
            let (m1, v1, t) = step_spec(
                m,
                pos,
                (Vec2 { x: 0, y: 0 }),
                player,
                delta_ms,
                rx,
                ry,
            );
            &&& !t
            &&& v1 == wander_velocity(rx, ry)
            &&& m1.random_movement_time == WANDER_TIME_MS
            &&& norm2(v1) < (IDLE_SPEED + 1) * (IDLE_SPEED + 1)
            &&& norm2(v1) >= (IDLE_SPEED - 2) * (IDLE_SPEED - 2) - 2
        }),
{
    crate::geometry::lemma_scale_norm2(wander_dir(rx, ry), IDLE_SPEED as int);
}

/// Speed a projectile's main heading component is rescaled to.
pub const PROJECTILE_SPEED: i64 = 736;

/// Half-width of the random spread added along the heading.
pub const PROJECTILE_SPREAD: i64 = 160;

/// Speed floor a projectile decelerates down to.
pub const PROJECTILE_MIN_SPEED: i64 = 32;

/// The launch velocity of a projectile fired along heading `h` with
/// sampled spread `r`: the heading at the projectile speed plus the
/// heading at the spread, so the shot flies along the heading with its
/// speed jittered by the spread.
pub open spec fn aim_spec(h: Vec2, r: int) -> Vec2 {
    Vec2 {
        x: (scale_x(h, PROJECTILE_SPEED as int) + scale_x(h, r)) as i64,
        y: (scale_y(h, PROJECTILE_SPEED as int) + scale_y(h, r)) as i64,
    }
}

/// The motion of a projectile fired along `h` with spread `r`: the launch
/// velocity, a deceleration opposite to it at twice the magnitude, and
/// the fixed speed floor.
pub open spec fn projectile_motion(h: Vec2, r: int) -> Motion {
    let w = aim_spec(h, r);
    Motion {
        vel: w,
        acc: Vec2 { x: (-2 * w.x) as i64, y: (-2 * w.y) as i64 },
        min_vel: Some(PROJECTILE_MIN_SPEED),
        max_vel: None,
    }
}

/// The animation a projectile entity starts with.
pub open spec fn bubble_animation() -> Animation {
    Animation {
        total_frames: 2,
        max_count_till_next_frame_ms: 500,
        frame_life_time_count_ms: 500,
        current_frame: 0,
    }
}

/// The full spawn request for a projectile fired by `rec` with spread `r`.
pub open spec fn spec_projectile_for(rec: EnemyRecord, r: int) -> ProjectileSpawn {
    ProjectileSpawn {
        pos: rec.pos,
        motion: projectile_motion(rec.motion.vel, r),
        sprite: SpriteKey::Bubble,
        animation: bubble_animation(),
    }
}

/// An enemy that fires this tick: it sees the player and has a heading to
/// fire along.
pub open spec fn shooter(r: EnemyRecord) -> bool {
    r.enemy.has_player_in_sight && !(r.motion.vel.x == 0 && r.motion.vel.y == 0)
}

/// `i` is the last firing enemy in the snapshot: the one whose shot
/// survives the single-projectile aggregation.
pub open spec fn is_last_shooter(s: Seq<EnemyRecord>, i: int) -> bool {
    0 <= i < s.len() && shooter(s[i]) && (forall|j: int| i < j < s.len() ==> !shooter(#[trigger] s[j]))
}

/// The Attack system: enemies that see the player fire, but the tick
/// keeps at most one shot, the last firing enemy's.
pub struct Attack;

impl Attack {
    /// Launch velocity for a projectile along `heading` with `spread`.
    pub fn aim(heading: Vec2, spread: i64) -> (w: Vec2)
        requires
            vel_ok(heading),
            !(heading.x == 0 && heading.y == 0),
            -PROJECTILE_SPREAD <= spread <= PROJECTILE_SPREAD,
        ensures
            w == aim_spec(heading, spread as int),
            -(PROJECTILE_SPEED + PROJECTILE_SPREAD) <= w.x <= PROJECTILE_SPEED
                + PROJECTILE_SPREAD,
            -(PROJECTILE_SPEED + PROJECTILE_SPREAD) <= w.y <= PROJECTILE_SPEED
                + PROJECTILE_SPREAD,
    {
        let a = scale_to(heading, PROJECTILE_SPEED);
        let b = scale_to(heading, spread);
        Vec2 { x: a.x + b.x, y: a.y + b.y }
    }

    /// Run one Attack tick: with a player present and at least one firing
    /// enemy, exactly one projectile spawn request comes back, positioned
    /// on the last firing enemy and aimed along its heading with some
    /// in-range spread; otherwise none.
    #[verifier::rlimit(50)]
    pub fn run(&self, player_present: bool, enemies: &Vec<EnemyRecord>) -> (p: Option<
        ProjectileSpawn,
    >)
        requires
            forall|i: int| 0 <= i < enemies@.len() ==> wf_record(#[trigger] enemies@[i]),
        ensures
            p.is_some() <==> (player_present && (exists|i: int|
                0 <= i < enemies@.len() && shooter(#[trigger] enemies@[i]))),
            p.is_some() ==> (exists|i: int, r: int|
                is_last_shooter(enemies@, i) && -PROJECTILE_SPREAD <= r <= PROJECTILE_SPREAD && p
                    == Some(spec_projectile_for(enemies@[i], r))),
    {
        if !player_present {
            return None;
        }
        let mut found: Option<ProjectileSpawn> = None;
        let ghost mut last_i: int = 0;
        let ghost mut last_r: int = 0;
        let n = enemies.len();
        let mut i: usize = 0;
        while i < n
            invariant
                i <= n,
                n == enemies@.len(),
                forall|j: int| 0 <= j < n ==> wf_record(#[trigger] enemies@[j]),
                found.is_some() <==> (exists|j: int|
                    0 <= j < i && shooter(#[trigger] enemies@[j])),
                found.is_some() ==> 0 <= last_i < i && shooter(enemies@[last_i]) && (forall|
                    j: int,
                |
                    last_i < j < i ==> !shooter(#[trigger] enemies@[j])) && -PROJECTILE_SPREAD
                    <= last_r <= PROJECTILE_SPREAD && found == Some(
                    spec_projectile_for(enemies@[last_i], last_r),
                ),
            decreases n - i,
        {
            let rec = enemies[i];
            if rec.enemy.has_player_in_sight && !(rec.motion.vel.x == 0 && rec.motion.vel.y
                == 0) {
                let r = sample_range(-PROJECTILE_SPREAD, PROJECTILE_SPREAD);
                let w = Self::aim(rec.motion.vel, r);
                proof {
                    assert(-896 <= w.x <= 896 && -896 <= w.y <= 896);
                    assert(-1792 <= -2 * w.x && -2 * w.x <= 1792 && -1792 <= -2 * w.y && -2
                        * w.y <= 1792) by (nonlinear_arith)
                        requires
                            -896 <= w.x <= 896,
                            -896 <= w.y <= 896,
                    ;
                }
                let acc_x: i64 = -2 * w.x;
                let acc_y: i64 = -2 * w.y;
                let motion = Motion {
                    vel: w,
                    acc: Vec2 { x: acc_x, y: acc_y },
                    min_vel: Some(PROJECTILE_MIN_SPEED),
                    max_vel: None,
                };
                found = Some(
                    ProjectileSpawn {
                        pos: rec.pos,
                        motion,
                        sprite: SpriteKey::Bubble,
                        animation: Animation {
                            total_frames: 2,
                            max_count_till_next_frame_ms: 500,
                            frame_life_time_count_ms: 500,
                            current_frame: 0,
                        },
                    },
                );
                proof {
                    last_i = i as int;
                    last_r = r as int;
                }
            }
            i += 1;
        }
        proof {
            if found.is_some() {
                assert(is_last_shooter(enemies@, last_i));
                assert(found == Some(spec_projectile_for(enemies@[last_i], last_r)));
            }
        }
        found
    }
}

/// Most enemies that may be alive at once; at and above it the Spawner
/// rests.
pub const POPULATION_CAP: usize = 5;

/// Half-width of the square around the player a spawn candidate is
/// sampled from.
pub const SPAWN_RADIUS: i64 = 160;

/// The animation a spawned enemy entity starts with.
pub open spec fn enemy_animation() -> Animation {
    Animation {
        total_frames: 2,
        max_count_till_next_frame_ms: 700,
        frame_life_time_count_ms: 700,
        current_frame: 0,
    }
}

/// The full spawn request for a new enemy at `pos`: default identity,
/// resting motion, the enemy texture and its animation.
pub open spec fn spec_enemy_spawn(pos: Vec2) -> EnemySpawn {
    EnemySpawn {
        pos,
        enemy: (Enemy { hp: ENEMY_START_HP, has_player_in_sight: false }),
        motion: (Motion {
            vel: Vec2 { x: 0, y: 0 },
            acc: Vec2 { x: 0, y: 0 },
            min_vel: None,
            max_vel: None,
        }),
        sprite: SpriteKey::PenguinFront,
        animation: enemy_animation(),
    }
}

/// The position `dx, dy` away from `p`.
pub open spec fn offset_pos(p: Vec2, dx: int, dy: int) -> Vec2 {
    Vec2 { x: (p.x + dx) as i64, y: (p.y + dy) as i64 }
}

/// A spawn request the Spawner may emit: a default enemy on an accepted
/// candidate position, sampled within the spawn square of some player.
pub open spec fn spawn_ok(grid: &PassableTiles, players: Seq<Vec2>, sp: EnemySpawn) -> bool {
    &&& candidate_ok(grid, sp.pos)
    &&& sp == spec_enemy_spawn(sp.pos)
    &&& exists|j: int, dx: int, dy: int|
        0 <= j < players.len() && -SPAWN_RADIUS <= dx <= SPAWN_RADIUS && -SPAWN_RADIUS <= dy
            <= SPAWN_RADIUS && sp.pos == #[trigger] offset_pos(players[j], dx, dy)
}

/// The Spawner: keeps the enemy population below the cap by sampling one
/// candidate position near each player and emitting a spawn request for
/// each candidate whose tile is passable.
pub struct Spawner;

impl Spawner {
    /// Run one Spawner tick. Without a grid, or at the population cap,
    /// nothing is emitted. Otherwise at most one request per player comes
    /// back, never more than fill the cap, and every request is a default
    /// enemy on a passable tile inside some player's spawn square.
    pub fn run(&self, players: &Vec<Vec2>, enemy_count: usize, grid: Option<&PassableTiles>)
        -> (spawns: Vec<EnemySpawn>)
        requires
            forall|j: int| 0 <= j < players@.len() ==> in_world(#[trigger] players@[j]),
        ensures
            grid.is_none() ==> spawns@.len() == 0,
            enemy_count >= POPULATION_CAP ==> spawns@.len() == 0,
            enemy_count + spawns@.len() <= POPULATION_CAP || enemy_count > POPULATION_CAP,
            spawns@.len() <= players@.len(),
            grid.is_some() ==> forall|k: int|
                0 <= k < spawns@.len() ==> spawn_ok(grid.unwrap(), players@, #[trigger] spawns@[k]),
            (grid.is_some() && enemy_count + players@.len() <= POPULATION_CAP && (forall|
                j: int,
                dx: int,
                dy: int,
            |
                0 <= j < players@.len() && -SPAWN_RADIUS <= dx <= SPAWN_RADIUS && -SPAWN_RADIUS
                    <= dy <= SPAWN_RADIUS ==> candidate_ok(
                    grid.unwrap(),
                    #[trigger] offset_pos(players@[j], dx, dy),
                ))) ==> spawns@.len() == players@.len(),
    {
        let mut out: Vec<EnemySpawn> = Vec::new();
        let grid = match grid {
            None => { return out; },
            Some(g) => g,
        };
        if enemy_count >= POPULATION_CAP {
            return out;
        }
        let n = players.len();
        let mut j: usize = 0;
        while j < n
            invariant
                j <= n,
                n == players@.len(),
                enemy_count < POPULATION_CAP,
                enemy_count + out@.len() <= POPULATION_CAP,
                out@.len() <= j,
                forall|jj: int| 0 <= jj < n ==> in_world(#[trigger] players@[jj]),
                forall|k: int|
                    0 <= k < out@.len() ==> spawn_ok(grid, players@, #[trigger] out@[k]),
                (enemy_count + n <= POPULATION_CAP && (forall|jj: int, dx: int, dy: int|
                    0 <= jj < n && -SPAWN_RADIUS <= dx <= SPAWN_RADIUS && -SPAWN_RADIUS <= dy
                        <= SPAWN_RADIUS ==> candidate_ok(
                        grid,
                        #[trigger] offset_pos(players@[jj], dx, dy),
                    ))) ==> out@.len() == j,
            decreases n - j,
        {
            if enemy_count + out.len() < POPULATION_CAP {
                let dx = sample_range(-SPAWN_RADIUS, SPAWN_RADIUS);
                let dy = sample_range(-SPAWN_RADIUS, SPAWN_RADIUS);
                let p = players[j];
                let cand = Vec2 { x: p.x + dx, y: p.y + dy };
                proof {
                    assert(cand == offset_pos(players@[j as int], dx as int, dy as int));
                }
                if check_candidate(grid, cand) {
                    let sp = EnemySpawn {
                        pos: cand,
                        enemy: Enemy { hp: ENEMY_START_HP, has_player_in_sight: false },
                        motion: Motion {
                            vel: Vec2 { x: 0, y: 0 },
                            acc: Vec2 { x: 0, y: 0 },
                            min_vel: None,
                            max_vel: None,
                        },
                        sprite: SpriteKey::PenguinFront,
                        animation: Animation {
                            total_frames: 2,
                            max_count_till_next_frame_ms: 700,
                            frame_life_time_count_ms: 700,
                            current_frame: 0,
                        },
                    };
                    proof {
                        assert(0 <= (j as int) && (j as int) < players@.len() && -SPAWN_RADIUS
                            <= (dx as int) && (dx as int) <= SPAWN_RADIUS && -SPAWN_RADIUS
                            <= (dy as int) && (dy as int) <= SPAWN_RADIUS && sp.pos
                            == offset_pos(players@[j as int], dx as int, dy as int));
                        assert(spawn_ok(grid, players@, sp));
                    }
                    out.push(sp);
                }
            }
            j += 1;
        }
        out
    }
}

/// Everything one tick hands back to the host to materialize.
pub struct TickEffects {
    pub projectile: Option<ProjectileSpawn>,
    pub spawns: Vec<EnemySpawn>,
}

/// The player position Movement steers toward: the last player in the
/// snapshot, or the origin when none is present.
pub open spec fn active_player(players: Seq<Vec2>) -> Vec2 {
    if players.len() > 0 {
        players[players.len() - 1]
    } else {
        Vec2 { x: 0, y: 0 }
    }
}

/// One full simulation tick, in the documented order: Detection feeds
/// Movement, Movement's result feeds Attack, and the Spawner runs last,
/// gated only by the population and the grid. The host applies the
/// returned spawn requests and the mutated records.
pub fn tick(
    movement: &mut Movement,
    players: &Vec<Vec2>,
    delta_ms: u64,
    enemies: &mut Vec<EnemyRecord>,
    grid: Option<&PassableTiles>,
) -> (fx: TickEffects)
    requires
        forall|j: int| 0 <= j < players@.len() ==> in_world(#[trigger] players@[j]),
        forall|i: int| 0 <= i < old(enemies)@.len() ==> wf_record(#[trigger] old(enemies)@[i]),
    ensures
        final(enemies)@.len() == old(enemies)@.len(),
        forall|i: int|
            0 <= i < old(enemies)@.len() ==> moved_ok(
                old(enemies)@[i],
                #[trigger] final(enemies)@[i],
                active_player(players@),
                grid.is_some(),
            ),
        grid.is_none() ==> *final(enemies) == *old(enemies) && *final(movement) == *old(
            movement,
        ) && fx.spawns@.len() == 0,
        grid.is_some() ==> *final(movement) == run_timers(
            *old(movement),
            old(enemies)@,
            active_player(players@),
            delta_ms,
        ),
        fx.projectile.is_some() ==> players@.len() > 0 && (grid.is_some() ==> exists|i: int|
            0 <= i < old(enemies)@.len() && spec_detects(
                #[trigger] old(enemies)@[i].pos,
                active_player(players@),
                DETECT_RADIUS as int,
            )),
        old(enemies)@.len() >= POPULATION_CAP ==> fx.spawns@.len() == 0,
        old(enemies)@.len() + fx.spawns@.len() <= POPULATION_CAP || old(enemies)@.len()
            > POPULATION_CAP,
        grid.is_some() ==> forall|k: int|
            0 <= k < fx.spawns@.len() ==> spawn_ok(
                grid.unwrap(),
                players@,
                #[trigger] fx.spawns@[k],
            ),
{
    let player_pos = if players.len() > 0 {
        players[players.len() - 1]
    } else {
        Vec2 { x: 0, y: 0 }
    };
    let ghost pre = enemies@;
    movement.run(player_pos, delta_ms, enemies, grid);
    let attack = Attack;
    let projectile = attack.run(players.len() > 0, enemies);
    proof {
        if projectile.is_some() && grid.is_some() {
            let i = choose|i: int| 0 <= i < enemies@.len() && shooter(#[trigger] enemies@[i]);
            assert(moved_ok(pre[i], enemies@[i], player_pos, true));
            assert(spec_detects(pre[i].pos, player_pos, DETECT_RADIUS as int));
        }
    }
    let spawner = Spawner;
    let spawns = spawner.run(players, enemies.len(), grid);
    TickEffects { projectile, spawns }
}

} // verus!
