use vstd::prelude::*;

use crate::theme::{ThemeDirectory, ThemeDirectoryType};

verus! {

/// Scale a directory is drawn at when it declares none.
pub const DEFAULT_SCALE: i16 = 1;

/// Tolerance of a threshold directory that declares none.
pub const DEFAULT_THRESHOLD: i16 = 2;

pub open spec fn effective_scale(d: ThemeDirectory) -> int {
    match d.scale {
        Some(s) => s as int,
        None => DEFAULT_SCALE as int,
    }
}

pub open spec fn effective_min_size(d: ThemeDirectory) -> int {
    match d.min_size {
        Some(s) => s as int,
        None => d.size as int,
    }
}

pub open spec fn effective_max_size(d: ThemeDirectory) -> int {
    match d.max_size {
        Some(s) => s as int,
        None => d.size as int,
    }
}

pub open spec fn effective_threshold(d: ThemeDirectory) -> int {
    match d.threshold {
        Some(t) => t as int,
        None => DEFAULT_THRESHOLD as int,
    }
}

/// Whether a directory serves icons of `size` at `scale` as they are.
pub open spec fn matches_size(d: ThemeDirectory, size: int, scale: int) -> bool {
    &&& scale == effective_scale(d)
    &&& match d.directory_type {
        ThemeDirectoryType::Fixed => size == d.size,
        ThemeDirectoryType::Scalable => effective_min_size(d) <= size <= effective_max_size(d),
        ThemeDirectoryType::Threshold => d.size - effective_threshold(d) <= size <= d.size
            + effective_threshold(d),
    }
}

pub open spec fn abs(x: int) -> int {
    if x < 0 {
        -x
    } else {
        x
    }
}

/// How far a directory is from serving `size` at `scale`, both sides measured
/// in device pixels (a size times its scale). A threshold directory is at
/// distance zero within its tolerance band; outside it the distance is counted
/// from the nominal size, not from the edge of the band.
pub open spec fn size_distance(d: ThemeDirectory, size: int, scale: int) -> int {
    let ds = effective_scale(d);
    let wanted = size * scale;
    match d.directory_type {
        ThemeDirectoryType::Fixed => abs(d.size * ds - wanted),
        ThemeDirectoryType::Scalable => if wanted < effective_min_size(d) * ds {
            effective_min_size(d) * ds - wanted
        } else if wanted > effective_max_size(d) * ds {
            wanted - effective_max_size(d) * ds
        } else {
            0
        },
        ThemeDirectoryType::Threshold => if wanted < (d.size - effective_threshold(d)) * ds {
            d.size * ds - wanted
        } else if wanted > (d.size + effective_threshold(d)) * ds {
            wanted - d.size * ds
        } else {
            0
        },
    }
}

proof fn lemma_mul_bounded(a: int, b: int)
    requires
        -0x10000 <= a <= 0x10000,
        -0x10000 <= b <= 0x10000,
    ensures
        -0x1_0000_0000 <= a * b <= 0x1_0000_0000,
{
    assert(-0x1_0000_0000 <= a * b <= 0x1_0000_0000) by (nonlinear_arith)
        requires
            -0x10000 <= a <= 0x10000,
            -0x10000 <= b <= 0x10000,
    ;
}

/// Multiplies two values that each fit in 17 bits, in 64 bits.
fn wide_mul(a: i64, b: i64) -> (r: i64)
    requires
        -0x10000 <= a <= 0x10000,
        -0x10000 <= b <= 0x10000,
    ensures
        r == a * b,
        -0x1_0000_0000 <= r <= 0x1_0000_0000,
{
    proof {
        lemma_mul_bounded(a as int, b as int);
    }
    a * b
}

/// Whether `theme_directory` serves icons of `icon_size` at `icon_scale`
/// without resizing.
pub fn directory_matches_size(theme_directory: &ThemeDirectory, icon_size: i16, icon_scale: i16) -> (r: bool)
    ensures
        r == matches_size(*theme_directory, icon_size as int, icon_scale as int),
{
    if icon_scale != theme_directory.scale.unwrap_or(DEFAULT_SCALE) {
        return false;
    }
    let size = theme_directory.size as i32;
    let wanted = icon_size as i32;
    let min_size = theme_directory.min_size.unwrap_or(theme_directory.size) as i32;
    let max_size = theme_directory.max_size.unwrap_or(theme_directory.size) as i32;
    let threshold = theme_directory.threshold.unwrap_or(DEFAULT_THRESHOLD) as i32;
    match theme_directory.directory_type {
        ThemeDirectoryType::Fixed => size == wanted,
        ThemeDirectoryType::Scalable => min_size <= wanted && wanted <= max_size,
        ThemeDirectoryType::Threshold => size - threshold <= wanted && wanted <= size + threshold,
    }
}

/// Distance in device pixels between what `theme_directory` serves and
/// `icon_size` at `icon_scale`; zero when the directory serves it.
pub fn directory_size_distance(theme_directory: &ThemeDirectory, icon_size: i16, icon_scale: i16) -> (r: i64)
    ensures
        r == size_distance(*theme_directory, icon_size as int, icon_scale as int),
{
    let size = theme_directory.size as i64;
    let min_size = theme_directory.min_size.unwrap_or(theme_directory.size) as i64;
    let max_size = theme_directory.max_size.unwrap_or(theme_directory.size) as i64;
    let threshold = theme_directory.threshold.unwrap_or(DEFAULT_THRESHOLD) as i64;
    let scale = theme_directory.scale.unwrap_or(DEFAULT_SCALE) as i64;
    let wanted = wide_mul(icon_size as i64, icon_scale as i64);
    match theme_directory.directory_type {
        ThemeDirectoryType::Fixed => {
            let have = wide_mul(size, scale);
            if have < wanted {
                wanted - have
            } else {
                have - wanted
            }
        },
        ThemeDirectoryType::Scalable => {
            let low = wide_mul(min_size, scale);
            let high = wide_mul(max_size, scale);
            if wanted < low {
                low - wanted
            } else if wanted > high {
                wanted - high
            } else {
                0
            }
        },
        ThemeDirectoryType::Threshold => {
            let have = wide_mul(size, scale);
            let low = wide_mul(size - threshold, scale);
            let high = wide_mul(size + threshold, scale);
            if wanted < low {
                have - wanted
            } else if wanted > high {
                wanted - have
            } else {
                0
            }
        },
    }
}

} // verus!
