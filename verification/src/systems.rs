//! What the systems decide from tick to tick, and what holds of a launcher and of a rocket over
//! any number of ticks.

use crate::components::{
    launcher_after_tick, projectile_after_tick, projectile_event, step_per_second, triggered,
    ProjectileEvent, RocketLauncher, RocketProjectile, BURN_TIME, FLIGHT_TIME, LAUNCH_TIME,
    NANOS_PER_SECOND, RECHARGE_TIME,
};
use crate::inputstate::{Input, InputState};
use vstd::arithmetic::div_mod::{lemma_fundamental_div_mod, lemma_mod_bound};
use vstd::prelude::*;

verus! {

/// Eighths of a turn in a full turn: headings count from 0 up to, but not including, this.
pub const HEADINGS: u8 = 8;

/// The angle that the held direction keys steer towards, in eighths of a turn: `Down` is 0,
/// `Right` 2, `Up` 4 and `Left` 6, and two neighbouring directions held together give the
/// eighth between them. Any other combination steers nowhere.
pub open spec fn heading(pressed: Set<Input>) -> Option<u8> {
    let left = pressed.contains(Input::Left);
    let right = pressed.contains(Input::Right);
    let up = pressed.contains(Input::Up);
    let down = pressed.contains(Input::Down);
    if left && !right && !up && !down {
        Some(6u8)
    } else if !left && right && !up && !down {
        Some(2u8)
    } else if !left && !right && up && !down {
        Some(4u8)
    } else if !left && !right && !up && down {
        Some(0u8)
    } else if left && !right && up && !down {
        Some(5u8)
    } else if left && !right && !up && down {
        Some(7u8)
    } else if !left && right && up && !down {
        Some(3u8)
    } else if !left && right && !up && down {
        Some(1u8)
    } else {
        None
    }
}

/// The angle to steer towards, in eighths of a turn, or `None` where the held direction keys
/// name no direction: the controlled entity then stops turning.
pub fn steering_target(input: &InputState) -> (target: Option<u8>)
    ensures
        target == heading(input.pressed()),
        target matches Some(h) ==> h < HEADINGS,
{
    let left = input.is_set(Input::Left);
    let right = input.is_set(Input::Right);
    let up = input.is_set(Input::Up);
    let down = input.is_set(Input::Down);
    match (left, right, up, down) {
        (true, false, false, false) => Some(6),
        (false, true, false, false) => Some(2),
        (false, false, true, false) => Some(4),
        (false, false, false, true) => Some(0),
        (true, false, true, false) => Some(5),
        (true, false, false, true) => Some(7),
        (false, true, true, false) => Some(3),
        (false, true, false, true) => Some(1),
        _ => None,
    }
}

/// The launcher after one tick for each entry of `fires`, which says whether the fire button
/// was held in that tick. In a tick the input system sees the button first, then the launcher
/// system runs.
pub open spec fn launcher_run(l: RocketLauncher, fires: Seq<bool>, dt: u64) -> RocketLauncher
    decreases fires.len(),
{
    if fires.len() == 0 {
        l
    } else {
        launcher_after_tick(triggered(launcher_run(l, fires.drop_last(), dt), fires.last()), dt)
    }
}

/// Whether a rocket is launched in tick `i`, counted from 0.
pub open spec fn launches_at(l: RocketLauncher, fires: Seq<bool>, dt: u64, i: int) -> bool {
    triggered(launcher_run(l, fires.take(i), dt), fires[i]) is Fire
}

/// A launcher that launched a rocket `elapsed` nanoseconds before the end of the last tick is
/// still recharging, by at least the rest of the recharge time, unless that time has passed.
spec fn gated(l: RocketLauncher, elapsed: int) -> bool {
    match l {
        RocketLauncher::Recharge(d) => d + elapsed >= RECHARGE_TIME,
        _ => elapsed >= RECHARGE_TIME,
    }
}

/// From the tick after a launch on, the launcher is gated by the time that has passed since.
proof fn lemma_recharging(l: RocketLauncher, fires: Seq<bool>, dt: u64, i: int, m: int)
    requires
        0 <= i < m <= fires.len(),
        launches_at(l, fires, dt, i),
    ensures
        gated(launcher_run(l, fires.take(m), dt), (m - i - 1) * dt),
    decreases m,
{
    assert(fires.take(m).drop_last() =~= fires.take(m - 1));
    if m == i + 1 {
        assert((m - i - 1) * dt == 0) by (nonlinear_arith)
            requires
                m == i + 1,
        ;
    } else {
        lemma_recharging(l, fires, dt, i, m - 1);
        assert((m - i - 1) * dt == (m - 1 - i - 1) * dt + dt) by (nonlinear_arith);
    }
}

/// Launcher gating: whatever the fire button does, and whatever state the launcher starts in,
/// two launches are at least the recharge time of 350 ms apart in simulated time. That much
/// time lies between them even when the tick of the second launch is not counted.
pub proof fn lemma_launcher_gating(l: RocketLauncher, fires: Seq<bool>, dt: u64, i: int, j: int)
    requires
        0 <= i < j < fires.len(),
        launches_at(l, fires, dt, i),
        launches_at(l, fires, dt, j),
    ensures
        (j - i - 1) * dt >= RECHARGE_TIME,
        (j - i) * dt >= RECHARGE_TIME,
{
    lemma_recharging(l, fires, dt, i, j);
    assert((j - i) * dt == (j - i - 1) * dt + dt) by (nonlinear_arith);
}

/// Determinism: what a launcher and the fire button's trace hold after each tick follows from
/// where they started. Two runs that start alike, with the same step and the same trace,
/// agree tick by tick: in the launcher's state and in the ticks in which a rocket is launched.
pub proof fn lemma_launcher_runs_agree(
    l1: RocketLauncher,
    l2: RocketLauncher,
    fires1: Seq<bool>,
    fires2: Seq<bool>,
    dt: u64,
    k: int,
)
    requires
        l1 == l2,
        fires1.len() == fires2.len(),
        forall|i: int| 0 <= i < fires1.len() ==> fires1[i] == fires2[i],
        0 <= k < fires1.len(),
    ensures
        launcher_run(l1, fires1.take(k + 1), dt) == launcher_run(l2, fires2.take(k + 1), dt),
        launches_at(l1, fires1, dt, k) == launches_at(l2, fires2, dt, k),
{
    assert(fires1 =~= fires2);
}

/// The projectile after `n` ticks.
pub open spec fn projectile_run<A>(p: RocketProjectile<A>, dt: u64, n: nat) -> RocketProjectile<A>
    decreases n,
{
    if n == 0 {
        p
    } else {
        projectile_after_tick(projectile_run(p, dt, (n - 1) as nat), dt)
    }
}

/// What tick `n` of a projectile that starts as `p` asks for. Ticks are counted from 1.
pub open spec fn projectile_event_at<A>(p: RocketProjectile<A>, dt: u64, n: nat) -> ProjectileEvent<
    A,
> {
    projectile_event(projectile_run(p, dt, (n - 1) as nat), dt)
}

/// The tick in which a phase that starts with `d` nanoseconds on its timer ends: the first
/// tick by whose end `d` nanoseconds have passed, and tick 1 if `d` is zero.
pub open spec fn phase_ticks(d: u64, dt: u64) -> nat {
    if d <= dt {
        1
    } else {
        ((d + dt - 1) / (dt as int)) as nat
    }
}

/// The time left in the current phase.
pub open spec fn timer<A>(p: RocketProjectile<A>) -> u64 {
    match p {
        RocketProjectile::Launching(_, d) => d,
        RocketProjectile::Accelerating(d) => d,
        RocketProjectile::Flying(d) => d,
    }
}

/// The projectile in the same phase with `d` nanoseconds left.
pub open spec fn with_timer<A>(p: RocketProjectile<A>, d: u64) -> RocketProjectile<A> {
    match p {
        RocketProjectile::Launching(a, _) => RocketProjectile::Launching(a, d),
        RocketProjectile::Accelerating(_) => RocketProjectile::Accelerating(d),
        RocketProjectile::Flying(_) => RocketProjectile::Flying(d),
    }
}

/// `phase_ticks(d, dt)` is the least tick `n`, from 1 on, with `n * dt >= d`. The time that
/// has passed by its end overshoots `d` by less than a tick, and not at all where `dt`
/// divides `d`.
pub proof fn lemma_phase_ticks(d: u64, dt: u64)
    requires
        dt > 0,
    ensures
        phase_ticks(d, dt) >= 1,
        d <= phase_ticks(d, dt) * dt,
        phase_ticks(d, dt) == 1 || (phase_ticks(d, dt) - 1) * dt < d,
        d > 0 ==> phase_ticks(d, dt) * dt < d + dt,
        d > 0 && d % dt == 0 ==> phase_ticks(d, dt) * dt == d,
{
    let n = phase_ticks(d, dt);
    if d <= dt {
        assert(n * dt == dt) by (nonlinear_arith)
            requires
                n == 1,
        ;
        if d > 0 && d % dt == 0 {
            lemma_fundamental_div_mod(d as int, dt as int);
            let q = d as int / dt as int;
            assert(q == 1) by (nonlinear_arith)
                requires
                    d == dt * q,
                    0 < d <= dt,
            ;
            assert(dt * 1 == dt) by (nonlinear_arith);
        }
    } else {
        let x = d + dt - 1;
        lemma_fundamental_div_mod(x, dt as int);
        lemma_mod_bound(x, dt as int);
        let q = x / (dt as int);
        assert(q >= 2) by (nonlinear_arith)
            requires
                x == dt * q + x % (dt as int),
                0 <= x % (dt as int) < dt,
                x >= 2 * dt,
        ;
        assert(n * dt == dt * q) by (nonlinear_arith)
            requires
                n == q,
        ;
        assert((n - 1) * dt == dt * q - dt) by (nonlinear_arith)
            requires
                n == q,
        ;
        if d % dt == 0 {
            lemma_fundamental_div_mod(d as int, dt as int);
            let k = d as int / dt as int;
            assert(k == q) by (nonlinear_arith)
                requires
                    d == dt * k,
                    d + dt - 1 == dt * q + x % (dt as int),
                    0 <= x % (dt as int) < dt,
                    dt > 0,
            ;
        }
    }
}

/// A tick `n` that has the two properties of `phase_ticks(d, dt)` is that tick.
pub proof fn lemma_phase_ticks_unique(d: u64, dt: u64, n: nat)
    requires
        dt > 0,
        n >= 1,
        d <= n * dt,
        n == 1 || (n - 1) * dt < d,
    ensures
        phase_ticks(d, dt) == n,
{
    let m = phase_ticks(d, dt);
    lemma_phase_ticks(d, dt);
    if m < n {
        assert(m * dt <= (n - 1) * dt) by (nonlinear_arith)
            requires
                m <= n - 1,
                dt > 0,
        ;
    } else if m > n {
        assert(n * dt <= (m - 1) * dt) by (nonlinear_arith)
            requires
                n <= m - 1,
                dt > 0,
        ;
    }
}

/// Whole ticks: at `rate` ticks per second a phase whose time is that of `n` ticks ends in
/// tick `n`, although the step is rounded up to whole nanoseconds. This holds as long as the
/// rounding, less than a nanosecond per tick, does not add up to a tick: for fewer ticks than
/// a tick has nanoseconds.
pub proof fn lemma_whole_ticks(d: u64, rate: u64, n: nat)
    requires
        rate > 0,
        n >= 1,
        d * rate == n * NANOS_PER_SECOND,
        (n - 1) * rate <= NANOS_PER_SECOND,
    ensures
        0 < step_per_second(rate) <= NANOS_PER_SECOND,
        phase_ticks(d, step_per_second(rate) as u64) == n,
{
    let s = NANOS_PER_SECOND as int;
    let r = rate as int;
    let dt = step_per_second(rate);
    lemma_fundamental_div_mod(s, r);
    lemma_mod_bound(s, r);
    assert(s <= r * dt < s + r && 0 < dt <= s) by (nonlinear_arith)
        requires
            s == r * (s / r) + s % r,
            0 <= s % r < r,
            dt == if s % r == 0 {
                s / r
            } else {
                s / r + 1
            },
            0 < r,
            0 < s,
    ;
    assert(d <= n * dt) by (nonlinear_arith)
        requires
            d * r == n * s,
            s <= r * dt,
            r > 0,
            n >= 1,
    ;
    let x = (n - 1) * dt;
    assert(r * x <= (n - 1) * s + (n - 1) * r - (n - 1)) by (nonlinear_arith)
        requires
            x == (n - 1) * dt,
            r * dt <= s + r - 1,
            n >= 1,
    ;
    assert(n * s == (n - 1) * s + s && r * d == d * r) by (nonlinear_arith);
    if n == 1 {
        assert(x == 0 && d > 0) by (nonlinear_arith)
            requires
                x == (n - 1) * dt,
                n == 1,
                d * r == n * s,
                s > 0,
                r > 0,
        ;
    }
    assert(x < d) by (nonlinear_arith)
        requires
            r * x < r * d || (x == 0 && d > 0),
            r > 0,
    ;
    lemma_phase_ticks_unique(d, dt as u64, n);
}

/// Running for `m + n` ticks is running for `m` ticks and then for `n` more.
pub proof fn lemma_projectile_run_split<A>(p: RocketProjectile<A>, dt: u64, m: nat, n: nat)
    ensures
        projectile_run(p, dt, m + n) == projectile_run(projectile_run(p, dt, m), dt, n),
    decreases n,
{
    if n > 0 {
        lemma_projectile_run_split(p, dt, m, (n - 1) as nat);
    }
}

/// While the timer of a phase has not run out the phase goes on and the timer counts down by
/// `dt` in every tick.
pub proof fn lemma_phase_counts_down<A>(p: RocketProjectile<A>, dt: u64, k: nat)
    requires
        k == 0 || k * dt < timer(p),
    ensures
        0 <= timer(p) - k * dt,
        projectile_run(p, dt, k) == with_timer(p, (timer(p) - k * dt) as u64),
        k > 0 ==> projectile_event_at(p, dt, k) == ProjectileEvent::<A>::Coast,
    decreases k,
{
    if k == 0 {
        assert(k * dt == 0) by (nonlinear_arith)
            requires
                k == 0,
        ;
    } else {
        let j = (k - 1) as nat;
        assert(j * dt == k * dt - dt && j * dt >= 0) by (nonlinear_arith)
            requires
                j == k - 1,
                j >= 0,
        ;
        lemma_phase_counts_down(p, dt, j);
    }
}

/// A phase ends in tick `phase_ticks(timer(p), dt)` and in no tick before: every earlier tick
/// leaves the phase as it is and asks for nothing, and that tick asks for what ends the phase.
pub proof fn lemma_phase_ends<A>(p: RocketProjectile<A>, dt: u64, k: nat)
    requires
        dt > 0,
        1 <= k <= phase_ticks(timer(p), dt),
    ensures
        k < phase_ticks(timer(p), dt) ==> projectile_event_at(p, dt, k) == ProjectileEvent::<
            A,
        >::Coast && projectile_run(p, dt, k) == with_timer(p, (timer(p) - k * dt) as u64),
        k == phase_ticks(timer(p), dt) ==> projectile_event_at(p, dt, k) == match p {
            RocketProjectile::Launching(a, _) => ProjectileEvent::Ignite(a),
            RocketProjectile::Accelerating(_) => ProjectileEvent::Cutoff,
            RocketProjectile::Flying(_) => ProjectileEvent::Expire,
        },
        k == phase_ticks(timer(p), dt) ==> projectile_run(p, dt, k) == match p {
            RocketProjectile::Launching(_, _) => RocketProjectile::Accelerating(BURN_TIME),
            RocketProjectile::Accelerating(_) => RocketProjectile::Flying(FLIGHT_TIME),
            RocketProjectile::Flying(_) => projectile_run(p, dt, (k - 1) as nat),
        },
{
    let d = timer(p);
    let n = phase_ticks(d, dt);
    lemma_phase_ticks(d, dt);
    if k < n {
        assert(k * dt < d) by (nonlinear_arith)
            requires
                k <= n - 1,
                (n - 1) * dt < d,
                dt > 0,
        ;
        lemma_phase_counts_down(p, dt, k);
    } else {
        let j = (n - 1) as nat;
        assert(j * dt == n * dt - dt) by (nonlinear_arith)
            requires
                j == n - 1,
        ;
        lemma_phase_counts_down(p, dt, j);
    }
}

/// Rocket life. With `n1`, `n2` and `n3` the ticks that the three phases take, a rocket drifts
/// through the first `n1` ticks, ignites in tick `n1`, burns until it cuts off in tick
/// `n1 + n2`, and flies on until it expires in tick `n1 + n2 + n3`. No other tick asks for
/// anything.
pub proof fn lemma_rocket_life<A>(a: A, dt: u64, k: nat)
    requires
        dt > 0,
        1 <= k <= phase_ticks(LAUNCH_TIME, dt) + phase_ticks(BURN_TIME, dt) + phase_ticks(
            FLIGHT_TIME,
            dt,
        ),
    ensures
        ({
            let p = RocketProjectile::Launching(a, LAUNCH_TIME);
            let n1 = phase_ticks(LAUNCH_TIME, dt);
            let n2 = phase_ticks(BURN_TIME, dt);
            let n3 = phase_ticks(FLIGHT_TIME, dt);
            &&& projectile_run(p, dt, (k - 1) as nat) is Launching <==> k <= n1
            &&& projectile_run(p, dt, (k - 1) as nat) is Accelerating <==> n1 < k <= n1 + n2
            &&& projectile_run(p, dt, (k - 1) as nat) is Flying <==> n1 + n2 < k
            &&& projectile_run(p, dt, n1) == RocketProjectile::<A>::Accelerating(BURN_TIME)
            &&& projectile_run(p, dt, n1 + n2) == RocketProjectile::<A>::Flying(FLIGHT_TIME)
            &&& projectile_event_at(p, dt, k) == if k == n1 {
                ProjectileEvent::Ignite(a)
            } else if k == n1 + n2 {
                ProjectileEvent::Cutoff
            } else if k == n1 + n2 + n3 {
                ProjectileEvent::Expire
            } else {
                ProjectileEvent::Coast
            }
        }),
{
    let p = RocketProjectile::Launching(a, LAUNCH_TIME);
    let n1 = phase_ticks(LAUNCH_TIME, dt);
    let n2 = phase_ticks(BURN_TIME, dt);
    let n3 = phase_ticks(FLIGHT_TIME, dt);
    let burning = RocketProjectile::<A>::Accelerating(BURN_TIME);
    let flying = RocketProjectile::<A>::Flying(FLIGHT_TIME);
    lemma_phase_ticks(LAUNCH_TIME, dt);
    lemma_phase_ticks(BURN_TIME, dt);
    lemma_phase_ticks(FLIGHT_TIME, dt);
    lemma_phase_ends(p, dt, n1);
    lemma_phase_ends(burning, dt, n2);
    lemma_projectile_run_split(p, dt, n1, n2);
    if k <= n1 {
        lemma_phase_ends(p, dt, k);
        if k > 1 {
            lemma_phase_ends(p, dt, (k - 1) as nat);
        }
    } else if k <= n1 + n2 {
        let r = (k - n1) as nat;
        lemma_projectile_run_split(p, dt, n1, (r - 1) as nat);
        lemma_phase_ends(burning, dt, r);
        if r > 1 {
            lemma_phase_ends(burning, dt, (r - 1) as nat);
        }
    } else {
        let r = (k - n1 - n2) as nat;
        lemma_projectile_run_split(p, dt, n1 + n2, (r - 1) as nat);
        lemma_phase_ends(flying, dt, r);
        if r > 1 {
            lemma_phase_ends(flying, dt, (r - 1) as nat);
        }
    }
}

/// Rocket life in ticks. At `rate` ticks per second, with `rate` a multiple of 5 so that the
/// phases are whole numbers of ticks, a rocket ignites in the tick that ends 200 ms after it
/// was spawned, cuts off and flies on in the tick that ends at 400 ms, and expires in the tick
/// that ends at 1000 ms: ticks `rate / 5`, `2 * rate / 5` and `rate`. It is there in every
/// tick before, and no other tick asks for anything.
pub proof fn lemma_rocket_life_in_ticks<A>(a: A, rate: u64, k: nat)
    requires
        0 < rate <= 10_000,
        rate % 5 == 0,
        1 <= k <= rate,
    ensures
        ({
            let dt = step_per_second(rate) as u64;
            let p = RocketProjectile::Launching(a, LAUNCH_TIME);
            let fifth = (rate / 5) as nat;
            &&& projectile_run(p, dt, (k - 1) as nat) is Launching <==> k <= fifth
            &&& projectile_run(p, dt, (k - 1) as nat) is Accelerating <==> fifth < k <= 2 * fifth
            &&& projectile_run(p, dt, (k - 1) as nat) is Flying <==> 2 * fifth < k
            &&& projectile_run(p, dt, fifth) == RocketProjectile::<A>::Accelerating(BURN_TIME)
            &&& projectile_run(p, dt, 2 * fifth) == RocketProjectile::<A>::Flying(FLIGHT_TIME)
            &&& projectile_event_at(p, dt, k) == if k == fifth {
                ProjectileEvent::Ignite(a)
            } else if k == 2 * fifth {
                ProjectileEvent::Cutoff
            } else if k == rate {
                ProjectileEvent::Expire
            } else {
                ProjectileEvent::Coast
            }
        }),
{
    let fifth = (rate / 5) as nat;
    assert(LAUNCH_TIME * rate == fifth * NANOS_PER_SECOND && FLIGHT_TIME * rate == (3 * fifth)
        * NANOS_PER_SECOND && (3 * fifth - 1) * rate <= NANOS_PER_SECOND && (fifth - 1) * rate
        <= NANOS_PER_SECOND && fifth >= 1) by (nonlinear_arith)
        requires
            rate == 5 * fifth,
            0 < rate <= 10_000,
    ;
    lemma_whole_ticks(LAUNCH_TIME, rate, fifth);
    lemma_whole_ticks(BURN_TIME, rate, fifth);
    lemma_whole_ticks(FLIGHT_TIME, rate, 3 * fifth);
    lemma_rocket_life(a, step_per_second(rate) as u64, k);
}

/// Rocket phase timing at 60 ticks per second, where the step is 16,666,667 ns. A rocket that
/// is spawned in tick 0 drifts through tick 11, ignites in tick 12 and burns through tick 23,
/// cuts off in tick 24 and flies on through tick 59, and expires in tick 60.
pub proof fn lemma_rocket_life_at_sixty_ticks_per_second<A>(a: A)
    ensures
        step_per_second(60) == 16_666_667,
        ({
            let p = RocketProjectile::Launching(a, LAUNCH_TIME);
            &&& forall|k: nat|
                1 <= k <= 60 ==> #[trigger] projectile_event_at(p, 16_666_667, k) == if k == 12 {
                    ProjectileEvent::Ignite(a)
                } else if k == 24 {
                    ProjectileEvent::Cutoff
                } else if k == 60 {
                    ProjectileEvent::Expire
                } else {
                    ProjectileEvent::Coast
                }
            &&& forall|k: nat|
                k < 12 ==> (#[trigger] projectile_run(p, 16_666_667, k)) is Launching
            &&& forall|k: nat|
                12 <= k < 24 ==> (#[trigger] projectile_run(p, 16_666_667, k)) is Accelerating
            &&& forall|k: nat|
                24 <= k < 60 ==> (#[trigger] projectile_run(p, 16_666_667, k)) is Flying
            &&& projectile_run(p, 16_666_667, 12) == RocketProjectile::<A>::Accelerating(BURN_TIME)
            &&& projectile_run(p, 16_666_667, 24) == RocketProjectile::<A>::Flying(FLIGHT_TIME)
        }),
{
    let p = RocketProjectile::Launching(a, LAUNCH_TIME);
    assert(step_per_second(60) == 16_666_667);
    lemma_rocket_life_in_ticks(a, 60, 1);
    assert forall|k: nat| 1 <= k <= 60 implies #[trigger] projectile_event_at(p, 16_666_667, k)
        == if k == 12 {
        ProjectileEvent::Ignite(a)
    } else if k == 24 {
        ProjectileEvent::Cutoff
    } else if k == 60 {
        ProjectileEvent::Expire
    } else {
        ProjectileEvent::Coast
    } by {
        lemma_rocket_life_in_ticks(a, 60, k);
    }
    assert forall|k: nat| k < 60 implies match #[trigger] projectile_run(p, 16_666_667, k) {
        RocketProjectile::Launching(_, _) => k < 12,
        RocketProjectile::Accelerating(_) => 12 <= k < 24,
        RocketProjectile::Flying(_) => 24 <= k,
    } by {
        lemma_rocket_life_in_ticks(a, 60, k + 1);
    }
}

/// Rocket timing. A rocket enters its last phase no sooner than 400 ms of simulated time after
/// it was spawned and less than two ticks later, and expires no sooner than 600 ms after that
/// and less than one tick later. Where the step divides 200 ms both times are exact: 400 ms
/// and 600 ms.
pub proof fn lemma_rocket_timing(dt: u64)
    requires
        dt > 0,
    ensures
        ({
            let n12 = phase_ticks(LAUNCH_TIME, dt) + phase_ticks(BURN_TIME, dt);
            let n3 = phase_ticks(FLIGHT_TIME, dt);
            &&& 400_000_000 <= n12 * dt < 400_000_000 + 2 * dt
            &&& 600_000_000 <= n3 * dt < 600_000_000 + dt
            &&& LAUNCH_TIME % dt == 0 ==> n12 * dt == 400_000_000 && n3 * dt == 600_000_000
        }),
{
    let n1 = phase_ticks(LAUNCH_TIME, dt);
    let n2 = phase_ticks(BURN_TIME, dt);
    let n3 = phase_ticks(FLIGHT_TIME, dt);
    lemma_phase_ticks(LAUNCH_TIME, dt);
    lemma_phase_ticks(BURN_TIME, dt);
    lemma_phase_ticks(FLIGHT_TIME, dt);
    assert((n1 + n2) * dt == n1 * dt + n2 * dt) by (nonlinear_arith);
    if LAUNCH_TIME % dt == 0 {
        lemma_fundamental_div_mod(LAUNCH_TIME as int, dt as int);
        let q = LAUNCH_TIME as int / dt as int;
        assert(FLIGHT_TIME as int == dt * (3 * q)) by (nonlinear_arith)
            requires
                LAUNCH_TIME as int == dt * q,
                FLIGHT_TIME as int == 3 * LAUNCH_TIME,
        ;
        vstd::arithmetic::div_mod::lemma_mod_multiples_basic(3 * q, dt as int);
    }
}

} // verus!
