//! How many particles a condition fills the canvas with.
use vstd::prelude::*;

use crate::net::model::Condition;

verus! {

/// No canvas holds more particles than this.
pub const MAX_PARTICLES: usize = 500;

/// Canvas cells per particle for a condition; `None` for a condition without particles.
pub open spec fn cells_per_particle(condition: Condition) -> Option<nat> {
    match condition {
        Condition::Rain | Condition::RainShowers | Condition::Freezing => Some(40),
        Condition::Thunderstorm => Some(32),
        Condition::Drizzle => Some(90),
        Condition::Snow | Condition::SnowShowers => Some(55),
        Condition::Fog => Some(100),
        Condition::Clear | Condition::PartlyCloudy | Condition::Overcast => None,
    }
}

/// The number of particles on a `width` by `height` canvas: one per so many cells (the
/// area counted as at least one cell), rounded down, and at most `MAX_PARTICLES`.
pub open spec fn density(condition: Condition, width: u16, height: u16) -> nat {
    let area: nat = if width * height >= 1 { (width * height) as nat } else { 1 };
    match cells_per_particle(condition) {
        None => 0,
        Some(d) => if area / d <= MAX_PARTICLES { area / d } else { MAX_PARTICLES as nat },
    }
}

/// The number of particles a condition puts on a `width` by `height` canvas.
pub fn particle_count(condition: Condition, width: u16, height: u16) -> (n: usize)
    ensures
        n == density(condition, width, height),
{
    assert(width * height <= 65535 * 65535) by (nonlinear_arith)
        requires
            width <= 65535,
            height <= 65535,
            0 <= width,
            0 <= height,
    ;
    let cells: u32 = (width as u32) * (height as u32);
    let area: u32 = if cells >= 1 { cells } else { 1 };
    let per: u32 = match condition {
        Condition::Rain | Condition::RainShowers | Condition::Freezing => 40,
        Condition::Thunderstorm => 32,
        Condition::Drizzle => 90,
        Condition::Snow | Condition::SnowShowers => 55,
        Condition::Fog => 100,
        Condition::Clear | Condition::PartlyCloudy | Condition::Overcast => 0,
    };
    if per == 0 {
        return 0;
    }
    let n: u32 = area / per;
    if n <= 500 {
        n as usize
    } else {
        MAX_PARTICLES
    }
}

/// A bigger canvas never holds fewer particles.
pub proof fn lemma_density_grows(condition: Condition, w1: u16, h1: u16, w2: u16, h2: u16)
    requires
        w1 <= w2,
        h1 <= h2,
    ensures
        density(condition, w1, h1) <= density(condition, w2, h2),
{
    assert(w1 * h1 <= w2 * h2) by (nonlinear_arith)
        requires
            w1 <= w2,
            h1 <= h2,
            0 <= w1,
            0 <= h1,
    ;
    let a1: nat = if w1 * h1 >= 1 { (w1 * h1) as nat } else { 1 };
    let a2: nat = if w2 * h2 >= 1 { (w2 * h2) as nat } else { 1 };
    assert(a1 <= a2);
    match cells_per_particle(condition) {
        None => {},
        Some(d) => {
            assert(a1 / d <= a2 / d) by (nonlinear_arith)
                requires
                    a1 <= a2,
                    d > 0,
            ;
        },
    }
}

} // verus!
