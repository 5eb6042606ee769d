use vstd::prelude::*;

use crate::constants::MAX_STAT;
use crate::shape::Shape;

verus! {

/// The enemy cohort for one wave.
#[derive(Debug)]
pub struct WaveConfig {
    pub enemies: Vec<Shape>,
    pub is_boss_wave: bool,
}

/// The scripted enemy list per wave; waves outside 1..=6 are empty.
pub open spec fn wave_enemies_spec(wave: u32) -> Seq<Shape> {
    match wave {
        1u32 => seq![Shape::Square, Shape::Square],
        2u32 => seq![Shape::Square, Shape::Square, Shape::Triangle],
        3u32 => seq![Shape::Square, Shape::Triangle, Shape::Triangle],
        4u32 => seq![Shape::Square, Shape::Triangle, Shape::Circle],
        5u32 => seq![Shape::Triangle, Shape::Triangle, Shape::Circle, Shape::Circle],
        6u32 => seq![Shape::Circle],
        _ => Seq::<Shape>::empty(),
    }
}

/// The ordered enemy shapes of a wave, and whether it is the boss wave.
pub fn get_wave_config(wave: u32) -> (c: WaveConfig)
    ensures
        c.enemies@ == wave_enemies_spec(wave),
        c.is_boss_wave == (wave == 6),
{
    let enemies: Vec<Shape> = match wave {
        1 => vec![Shape::Square, Shape::Square],
        2 => vec![Shape::Square, Shape::Square, Shape::Triangle],
        3 => vec![Shape::Square, Shape::Triangle, Shape::Triangle],
        4 => vec![Shape::Square, Shape::Triangle, Shape::Circle],
        5 => vec![Shape::Triangle, Shape::Triangle, Shape::Circle, Shape::Circle],
        6 => vec![Shape::Circle],
        _ => Vec::new(),
    };
    proof {
        assert(enemies@ =~= wave_enemies_spec(wave));
    }
    WaveConfig { enemies, is_boss_wave: wave == 6 }
}

/// Numerator of the wave-scaling factor 1.2^(wave - 1), as the exact
/// fraction 12^(wave - 1) / 10^(wave - 1).
pub open spec fn scaling_num(wave: u32) -> int {
    match wave {
        1u32 => 1,
        2u32 => 12,
        3u32 => 144,
        4u32 => 1728,
        5u32 => 20736,
        _ => 248832,
    }
}

/// Denominator of the wave-scaling factor 1.2^(wave - 1).
pub open spec fn scaling_den(wave: u32) -> int {
    match wave {
        1u32 => 1,
        2u32 => 10,
        3u32 => 100,
        4u32 => 1000,
        5u32 => 10000,
        _ => 100000,
    }
}

/// A base stat multiplied by the wave-scaling factor 1.2^(wave - 1),
/// rounded down. Defined for the six scripted waves.
pub open spec fn scaled_stat_spec(v: int, wave: u32) -> int {
    v * scaling_num(wave) / scaling_den(wave)
}

pub fn scaled_stat(v: i64, wave: u32) -> (r: i64)
    requires
        0 <= v <= MAX_STAT,
        1 <= wave <= 6,
    ensures
        r == scaled_stat_spec(v as int, wave),
        0 <= r <= 3 * v,
{
    let (num, den): (i64, i64) = match wave {
        1 => (1, 1),
        2 => (12, 10),
        3 => (144, 100),
        4 => (1728, 1000),
        5 => (20736, 10000),
        _ => (248832, 100000),
    };
    let prod: i64 = v * num;
    let r = prod / den;
    proof {
        assert(0 <= v * num <= 248832 * MAX_STAT) by (nonlinear_arith)
            requires
                0 <= v <= MAX_STAT,
                1 <= num <= 248832,
        ;
        assert(0 <= prod / den && prod / den * 1 <= prod / den * den && prod / den * den <= prod)
            by (nonlinear_arith)
            requires
                prod >= 0,
                den >= 1,
        ;
        assert(prod / den <= prod);
        assert(v as int * num as int <= v as int * (3 * den as int)) by (nonlinear_arith)
            requires
                0 <= v,
                1 <= den,
                num <= 3 * den,
        ;
        assert(v as int * num as int / den as int <= 3 * v) by (nonlinear_arith)
            requires
                0 <= v,
                1 <= den,
                0 <= v as int * num as int <= v as int * (3 * den as int),
        ;
    }
    r
}

} // verus!
