//! The components and resources whose logic is discrete: the simulation step, the rocket
//! launcher and the rocket projectile. Times are whole nanoseconds.

use vstd::prelude::*;

verus! {

/// Nanoseconds in a millisecond.
pub const NANOS_PER_MILLI: u64 = 1_000_000;

/// Nanoseconds in a second.
pub const NANOS_PER_SECOND: u64 = 1_000_000_000;

/// How long a launcher recharges after a launch: 350 ms.
pub const RECHARGE_TIME: u64 = 350_000_000;

/// How long a rocket drifts before its engine ignites: 200 ms.
pub const LAUNCH_TIME: u64 = 200_000_000;

/// How long a rocket's engine burns: 200 ms.
pub const BURN_TIME: u64 = 200_000_000;

/// How long a rocket flies on after its engine has cut off: 600 ms.
pub const FLIGHT_TIME: u64 = 600_000_000;

/// The fixed simulation step, in nanoseconds.
#[derive(Clone, Copy, Debug, PartialEq, Eq, Structural)]
pub struct DeltaTime(pub u64);

impl Default for DeltaTime {
    /// A step of no time at all, to be replaced before the first tick.
    fn default() -> (dt: Self)
        ensures
            dt == DeltaTime(0),
    {
        DeltaTime(0)
    }
}

/// The step, in whole nanoseconds, of a simulation that ticks `rate` times per second: the
/// least number of nanoseconds of which `rate` make up a second or more. The step is rounded
/// up so that `rate` ticks never fall short of a second, nor any whole number of ticks short
/// of the time it stands for.
pub open spec fn step_per_second(rate: u64) -> int {
    if NANOS_PER_SECOND as int % rate as int == 0 {
        NANOS_PER_SECOND as int / rate as int
    } else {
        NANOS_PER_SECOND as int / rate as int + 1
    }
}

impl DeltaTime {
    /// The step of a simulation that ticks `rate` times per second, rounded up to whole
    /// nanoseconds.
    pub fn per_second(rate: u64) -> (dt: Self)
        requires
            rate > 0,
        ensures
            dt.0 == step_per_second(rate),
            dt.0 > 0,
    {
        let whole: u64 = NANOS_PER_SECOND / rate;
        if NANOS_PER_SECOND % rate == 0 {
            assert(whole > 0) by (nonlinear_arith)
                requires
                    whole == NANOS_PER_SECOND / rate,
                    NANOS_PER_SECOND % rate == 0,
                    rate > 0,
            ;
            DeltaTime(whole)
        } else {
            DeltaTime(whole + 1)
        }
    }
}

/// The launcher of an entity that can fire rockets.
#[derive(Clone, Copy, Debug, PartialEq, Eq, Structural)]
pub enum RocketLauncher {
    /// A rocket can be fired.
    Ready,
    /// A rocket is fired at the next launcher tick.
    Fire,
    /// No rocket can be fired until this time has run out.
    Recharge(u64),
}

/// The phase of a rocket in flight. `A` is the acceleration that the engine gives the rocket
/// once it ignites, carried through unread.
#[derive(Debug, PartialEq)]
pub enum RocketProjectile<A> {
    /// Drifting away from the launcher until the time has run out.
    Launching(A, u64),
    /// Engine burning until the time has run out.
    Accelerating(u64),
    /// Engine off, flying on until the time has run out.
    Flying(u64),
}

/// What is to be done for a rocket at the end of a projectile tick.
#[derive(Debug, PartialEq)]
pub enum ProjectileEvent<A> {
    /// Nothing: the phase goes on.
    Coast,
    /// The engine ignites: the rocket accelerates by the value held, at full engine noise.
    Ignite(A),
    /// The engine cuts off: the rocket accelerates no more.
    Cutoff,
    /// The rocket has burnt out: its sound stops and it is removed.
    Expire,
}

/// The launcher after the input system has seen the fire button (`fire`: held or not).
pub open spec fn triggered(l: RocketLauncher, fire: bool) -> RocketLauncher {
    if fire && l is Ready {
        RocketLauncher::Fire
    } else {
        l
    }
}

/// The launcher after a launcher tick of `dt` nanoseconds.
pub open spec fn launcher_after_tick(l: RocketLauncher, dt: u64) -> RocketLauncher {
    match l {
        RocketLauncher::Ready => RocketLauncher::Ready,
        RocketLauncher::Fire => RocketLauncher::Recharge(RECHARGE_TIME),
        RocketLauncher::Recharge(d) => if d == 0 {
            RocketLauncher::Ready
        } else if d < dt {
            RocketLauncher::Recharge(0)
        } else {
            RocketLauncher::Recharge((d - dt) as u64)
        },
    }
}

/// The projectile after a projectile tick of `dt` nanoseconds.
pub open spec fn projectile_after_tick<A>(p: RocketProjectile<A>, dt: u64) -> RocketProjectile<A> {
    match p {
        RocketProjectile::Launching(a, d) => if d > dt {
            RocketProjectile::Launching(a, (d - dt) as u64)
        } else {
            RocketProjectile::Accelerating(BURN_TIME)
        },
        RocketProjectile::Accelerating(d) => if d > dt {
            RocketProjectile::Accelerating((d - dt) as u64)
        } else {
            RocketProjectile::Flying(FLIGHT_TIME)
        },
        RocketProjectile::Flying(d) => if d > dt {
            RocketProjectile::Flying((d - dt) as u64)
        } else {
            p
        },
    }
}

/// What a projectile tick of `dt` nanoseconds asks for.
pub open spec fn projectile_event<A>(p: RocketProjectile<A>, dt: u64) -> ProjectileEvent<A> {
    match p {
        RocketProjectile::Launching(a, d) => if d > dt {
            ProjectileEvent::Coast
        } else {
            ProjectileEvent::Ignite(a)
        },
        RocketProjectile::Accelerating(d) => if d > dt {
            ProjectileEvent::Coast
        } else {
            ProjectileEvent::Cutoff
        },
        RocketProjectile::Flying(d) => if d > dt {
            ProjectileEvent::Coast
        } else {
            ProjectileEvent::Expire
        },
    }
}

impl RocketLauncher {
    /// The input system's part: with the fire button held a ready launcher is set to fire. A
    /// launcher that recharges or is about to fire already is left as it is.
    pub fn trigger(&mut self, fire: bool)
        ensures
            *final(self) == triggered(*old(self), fire),
    {
        if fire {
            match *self {
                RocketLauncher::Ready => {
                    *self = RocketLauncher::Fire;
                },
                RocketLauncher::Recharge(_) => {},
                RocketLauncher::Fire => {},
            }
        }
    }

    /// The launcher system's part. A launcher set to fire launches a rocket (the result is
    /// `true`: the caller is to spawn one) and starts to recharge. A recharge time counts down
    /// by `dt`, stops at zero for one tick, and then gives way to `Ready`.
    pub fn tick(&mut self, dt: DeltaTime) -> (launch: bool)
        ensures
            *final(self) == launcher_after_tick(*old(self), dt.0),
            launch == (*old(self) is Fire),
    {
        match *self {
            RocketLauncher::Ready => false,
            RocketLauncher::Recharge(d) => {
                if d == 0 {
                    *self = RocketLauncher::Ready;
                } else if d < dt.0 {
                    *self = RocketLauncher::Recharge(0);
                } else {
                    *self = RocketLauncher::Recharge(d - dt.0);
                }
                false
            },
            RocketLauncher::Fire => {
                *self = RocketLauncher::Recharge(RECHARGE_TIME);
                true
            },
        }
    }
}

impl<A: Copy> RocketProjectile<A> {
    /// A rocket as it leaves the launcher, with the acceleration its engine will give it.
    pub fn spawn(acceleration: A) -> (p: Self)
        ensures
            p == RocketProjectile::Launching(acceleration, LAUNCH_TIME),
    {
        RocketProjectile::Launching(acceleration, LAUNCH_TIME)
    }

    /// The projectile system's part. A phase whose time is longer than `dt` counts down by
    /// `dt`. Otherwise the phase ends: the engine ignites and burns, then cuts off and the
    /// rocket flies on, then the rocket expires, its state left as it was.
    pub fn tick(&mut self, dt: DeltaTime) -> (event: ProjectileEvent<A>)
        ensures
            *final(self) == projectile_after_tick(*old(self), dt.0),
            event == projectile_event(*old(self), dt.0),
    {
        match *self {
            RocketProjectile::Launching(a, d) => {
                if d > dt.0 {
                    *self = RocketProjectile::Launching(a, d - dt.0);
                    ProjectileEvent::Coast
                } else {
                    *self = RocketProjectile::Accelerating(BURN_TIME);
                    ProjectileEvent::Ignite(a)
                }
            },
            RocketProjectile::Accelerating(d) => {
                if d > dt.0 {
                    *self = RocketProjectile::Accelerating(d - dt.0);
                    ProjectileEvent::Coast
                } else {
                    *self = RocketProjectile::Flying(FLIGHT_TIME);
                    ProjectileEvent::Cutoff
                }
            },
            RocketProjectile::Flying(d) => {
                if d > dt.0 {
                    *self = RocketProjectile::Flying(d - dt.0);
                    ProjectileEvent::Coast
                } else {
                    ProjectileEvent::Expire
                }
            },
        }
    }
}

} // verus!
