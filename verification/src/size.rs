//! Whether a theme sub-directory holds icons of the wanted size, and how far
//! its icons are from that size.
use vstd::prelude::*;
use crate::theme::{Directory, DirectoryType};

verus! {

/// The scale a directory is meant for: 1 unless it says otherwise.
pub open spec fn scale_of(d: Directory) -> int {
    match d.scale {
        Some(s) => s as int,
        None => 1,
    }
}

/// How a directory's icons scale: by threshold unless it says otherwise.
pub open spec fn type_of(d: Directory) -> DirectoryType {
    match d.xdg_type {
        Some(t) => t,
        None => DirectoryType::Threshold,
    }
}

/// The smallest size of a directory whose nominal size is `size`.
pub open spec fn min_of(d: Directory, size: int) -> int {
    match d.min_size {
        Some(s) => s as int,
        None => size,
    }
}

/// The largest size of a directory whose nominal size is `size`.
pub open spec fn max_of(d: Directory, size: int) -> int {
    match d.max_size {
        Some(s) => s as int,
        None => size,
    }
}

/// The threshold of a directory: 2 unless it says otherwise.
pub open spec fn threshold_of(d: Directory) -> int {
    match d.threshold {
        Some(t) => t as int,
        None => 2,
    }
}

/// Whether an integer fits in an `i32`.
pub open spec fn fits(x: int) -> bool {
    i32::MIN <= x <= i32::MAX
}

/// The directory holds icons for size `iconsize` at scale `iconscale`: its scale is
/// the wanted one, it has a size, and by its type that size is exactly the wanted
/// one (fixed), brackets it (scalable) or is within the threshold of it.
pub open spec fn size_matches(d: Directory, iconsize: int, iconscale: int) -> bool {
    &&& scale_of(d) == iconscale
    &&& d.size is Some
    &&& {
        let size = d.size->0 as int;
        match type_of(d) {
            DirectoryType::Fixed => size == iconsize,
            DirectoryType::Scalable => min_of(d, size) <= iconsize && iconsize <= max_of(d, size),
            DirectoryType::Threshold => size - threshold_of(d) <= iconsize && iconsize <= size
                + threshold_of(d),
        }
    }
}

/// The `i32` sums that deciding `size_matches` evaluates all fit.
pub open spec fn size_match_fits(d: Directory, iconsize: int, iconscale: int) -> bool {
    (scale_of(d) == iconscale && d.size is Some && type_of(d) == DirectoryType::Threshold) ==> {
        let size = d.size->0 as int;
        &&& fits(size - threshold_of(d))
        &&& (size - threshold_of(d) <= iconsize ==> fits(size + threshold_of(d)))
    }
}

/// Whether the icons of a directory suit the wanted size and scale.
pub fn directory_matches_size(subdir: Directory, iconsize: i32, iconscale: i32) -> (b: bool)
    requires
        size_match_fits(subdir, iconsize as int, iconscale as int),
    ensures
        b == size_matches(subdir, iconsize as int, iconscale as int),
{
    let mut scale: i32 = 1;
    if subdir.scale.is_some() {
        scale = subdir.scale.unwrap();
    }
    if scale != iconscale {
        return false;
    }
    let mut d_type = DirectoryType::Threshold;
    if let Some(d) = subdir.xdg_type {
        d_type = d;
    }
    let size = subdir.size;
    if size.is_none() {
        return false;
    }
    let size: i32 = size.unwrap();
    let min_size: i32 = match subdir.min_size {
        Some(s) => s,
        None => size,
    };
    let max_size: i32 = match subdir.max_size {
        Some(s) => s,
        None => size,
    };
    let threshold: i32 = match subdir.threshold {
        Some(s) => s,
        None => 2,
    };
    match d_type {
        DirectoryType::Fixed => {
            return size == iconsize;
        },
        DirectoryType::Scalable => {
            if min_size <= iconsize && iconsize <= max_size {
                return true;
            }
        },
        DirectoryType::Threshold => {
            if (size - threshold) <= iconsize && iconsize <= (size + threshold) {
                return true;
            }
        },
    }
    false
}

/// How far the icons of a directory are from the wanted size at the wanted scale.
///
/// A directory without a size is at distance 0. A fixed directory is at the
/// distance between its scaled size and the wanted scaled size. A scalable
/// directory is at the distance from the wanted scaled size to its scaled range,
/// 0 inside it. A threshold directory below the wanted size's range is at its
/// scaled minimum less the wanted scaled size; above, where the square of the
/// wanted size exceeds its scaled size plus threshold, at that square less its
/// scaled maximum; 0 otherwise.
pub open spec fn size_distance(d: Directory, iconsize: int, iconscale: int) -> int {
    match d.size {
        None => 0,
        Some(sz) => {
            let size = sz as int;
            let scale = scale_of(d);
            let min = min_of(d, size);
            let max = max_of(d, size);
            let threshold = threshold_of(d);
            let wanted = iconsize * iconscale;
            match type_of(d) {
                DirectoryType::Fixed => {
                    let num = size * scale - wanted;
                    if num < 0 {
                        -num
                    } else {
                        num
                    }
                },
                DirectoryType::Scalable => {
                    if wanted < min * scale {
                        min * scale - wanted
                    } else if wanted > max * scale {
                        wanted - max * scale
                    } else {
                        0
                    }
                },
                DirectoryType::Threshold => {
                    if wanted < (size - threshold) * scale {
                        min * scale - wanted
                    } else if iconsize * iconsize > (size + threshold) * scale {
                        iconsize * iconsize - max * scale
                    } else {
                        0
                    }
                },
            }
        },
    }
}

/// The `i32` products, sums and the absolute value that computing
/// `size_distance` evaluates all fit.
pub open spec fn size_distance_fits(d: Directory, iconsize: int, iconscale: int) -> bool {
    match d.size {
        None => true,
        Some(sz) => {
            let size = sz as int;
            let scale = scale_of(d);
            let min = min_of(d, size);
            let max = max_of(d, size);
            let threshold = threshold_of(d);
            let wanted = iconsize * iconscale;
            &&& fits(wanted)
            &&& match type_of(d) {
                DirectoryType::Fixed => {
                    &&& fits(size * scale)
                    &&& fits(size * scale - wanted)
                    &&& size * scale - wanted != i32::MIN
                },
                DirectoryType::Scalable => {
                    &&& fits(min * scale)
                    &&& (wanted < min * scale ==> fits(min * scale - wanted))
                    &&& (wanted >= min * scale ==> {
                        &&& fits(max * scale)
                        &&& (wanted > max * scale ==> fits(wanted - max * scale))
                    })
                },
                DirectoryType::Threshold => {
                    &&& fits(size - threshold)
                    &&& fits((size - threshold) * scale)
                    &&& (wanted < (size - threshold) * scale ==> {
                        &&& fits(min * scale)
                        &&& fits(min * scale - wanted)
                    })
                    &&& (wanted >= (size - threshold) * scale ==> {
                        &&& fits(iconsize * iconsize)
                        &&& fits(size + threshold)
                        &&& fits((size + threshold) * scale)
                        &&& (iconsize * iconsize > (size + threshold) * scale ==> {
                            &&& fits(max * scale)
                            &&& fits(iconsize * iconsize - max * scale)
                        })
                    })
                },
            }
        },
    }
}

/// Whether an `i64` fits in an `i32`.
fn in_i32(x: i64) -> (b: bool)
    ensures
        b == fits(x as int),
{
    i32::MIN as i64 <= x && x <= i32::MAX as i64
}

proof fn lemma_i32_product(a: int, b: int)
    by (nonlinear_arith)
    requires
        i32::MIN <= a <= i32::MAX,
        i32::MIN <= b <= i32::MAX,
    ensures
        -0x4000_0000_0000_0000 <= a * b <= 0x4000_0000_0000_0000,
{
}

/// The product of two values in the range of `i32`, in `i64`.
fn wide_mul(a: i64, b: i64) -> (r: i64)
    requires
        fits(a as int),
        fits(b as int),
    ensures
        r as int == a * b,
{
    proof {
        lemma_i32_product(a as int, b as int);
    }
    a * b
}

/// Whether the sums of the size test of `d` fit `i32` (see `size_match_fits`).
pub(crate) fn match_fits(d: &Directory, iconsize: i32, iconscale: i32) -> (b: bool)
    ensures
        b == size_match_fits(*d, iconsize as int, iconscale as int),
{
    let scale: i64 = match d.scale {
        Some(s) => s as i64,
        None => 1,
    };
    let threshold_type = match d.xdg_type {
        Some(DirectoryType::Threshold) => true,
        None => true,
        _ => false,
    };
    match d.size {
        Some(s) => {
            if scale == iconscale as i64 && threshold_type {
                let t: i64 = match d.threshold {
                    Some(t) => t as i64,
                    None => 2,
                };
                let low = s as i64 - t;
                let high = s as i64 + t;
                in_i32(low) && (low > iconsize as i64 || in_i32(high))
            } else {
                true
            }
        },
        None => true,
    }
}

/// Whether the products, sums and the absolute value of the distance of `d`
/// fit `i32` (see `size_distance_fits`).
pub(crate) fn distance_fits(d: &Directory, iconsize: i32, iconscale: i32) -> (b: bool)
    ensures
        b == size_distance_fits(*d, iconsize as int, iconscale as int),
{
    let size: i64 = match d.size {
        Some(s) => s as i64,
        None => return true,
    };
    let scale: i64 = match d.scale {
        Some(s) => s as i64,
        None => 1,
    };
    let min: i64 = match d.min_size {
        Some(s) => s as i64,
        None => size,
    };
    let max: i64 = match d.max_size {
        Some(s) => s as i64,
        None => size,
    };
    let threshold: i64 = match d.threshold {
        Some(t) => t as i64,
        None => 2,
    };
    let wanted = wide_mul(iconsize as i64, iconscale as i64);
    if !in_i32(wanted) {
        return false;
    }
    match d.xdg_type {
        Some(DirectoryType::Fixed) => {
            let scaled = wide_mul(size, scale);
            in_i32(scaled) && in_i32(scaled - wanted) && scaled - wanted != i32::MIN as i64
        },
        Some(DirectoryType::Scalable) => {
            let low = wide_mul(min, scale);
            if !in_i32(low) {
                return false;
            }
            if wanted < low {
                return in_i32(low - wanted);
            }
            let high = wide_mul(max, scale);
            if !in_i32(high) {
                return false;
            }
            wanted <= high || in_i32(wanted - high)
        },
        _ => {
            let low = size - threshold;
            if !in_i32(low) {
                return false;
            }
            let low_scaled = wide_mul(low, scale);
            if !in_i32(low_scaled) {
                return false;
            }
            if wanted < low_scaled {
                let min_scaled = wide_mul(min, scale);
                return in_i32(min_scaled) && in_i32(min_scaled - wanted);
            }
            let square = wide_mul(iconsize as i64, iconsize as i64);
            if !in_i32(square) {
                return false;
            }
            let high = size + threshold;
            if !in_i32(high) {
                return false;
            }
            let high_scaled = wide_mul(high, scale);
            if !in_i32(high_scaled) {
                return false;
            }
            if square > high_scaled {
                let max_scaled = wide_mul(max, scale);
                in_i32(max_scaled) && in_i32(square - max_scaled)
            } else {
                true
            }
        },
    }
}

/// How far the icons of a directory are from the wanted size at the wanted scale.
pub fn directory_size_distance(subdir: Directory, iconsize: i32, iconscale: i32) -> (r: i32)
    requires
        size_distance_fits(subdir, iconsize as int, iconscale as int),
    ensures
        r as int == size_distance(subdir, iconsize as int, iconscale as int),
{
    let mut scale: i32 = 1;
    if subdir.scale.is_some() {
        scale = subdir.scale.unwrap();
    }
    let mut d_type = DirectoryType::Threshold;
    if subdir.xdg_type.is_some() {
        d_type = subdir.xdg_type.unwrap();
    }
    let size = subdir.size;
    if size.is_none() {
        return 0;
    }
    let size: i32 = size.unwrap();
    let mut min_size: i32 = size;
    if subdir.min_size.is_some() {
        min_size = subdir.min_size.unwrap();
    }
    let mut max_size: i32 = size;
    if subdir.max_size.is_some() {
        max_size = subdir.max_size.unwrap();
    }
    let mut threshold: i32 = 2;
    if subdir.threshold.is_some() {
        threshold = subdir.threshold.unwrap();
    }
    match d_type {
        DirectoryType::Fixed => {
            let num: i32 = size * scale - iconsize * iconscale;
            if num < 0 {
                -num
            } else {
                num
            }
        },
        DirectoryType::Scalable => {
            if iconsize * iconscale < min_size * scale {
                return min_size * scale - iconsize * iconscale;
            }
            if iconsize * iconscale > max_size * scale {
                return iconsize * iconscale - max_size * scale;
            }
            0
        },
        DirectoryType::Threshold => {
            if iconsize * iconscale < (size - threshold) * scale {
                return min_size * scale - iconsize * iconscale;
            }
            if iconsize * iconsize > (size + threshold) * scale {
                return iconsize * iconsize - max_size * scale;
            }
            0
        },
    }
}

/// A fixed or scalable directory that suits the wanted size, at a scale that
/// is not negative, is at distance 0 from it.
pub proof fn matching_directory_is_at_distance_zero(d: Directory, iconsize: int, iconscale: int)
    requires
        size_matches(d, iconsize, iconscale),
        type_of(d) != DirectoryType::Threshold,
        iconscale >= 0,
    ensures
        size_distance(d, iconsize, iconscale) == 0,
{
    let size = d.size->0 as int;
    let scale = scale_of(d);
    if type_of(d) == DirectoryType::Scalable {
        let min = min_of(d, size);
        let max = max_of(d, size);
        assert(min * scale <= iconsize * iconscale) by (nonlinear_arith)
            requires
                min <= iconsize,
                scale == iconscale,
                iconscale >= 0,
        ;
        assert(iconsize * iconscale <= max * scale) by (nonlinear_arith)
            requires
                iconsize <= max,
                scale == iconscale,
                iconscale >= 0,
        ;
    }
}

/// A fixed or scalable directory is never at a negative distance.
pub proof fn distance_is_not_negative(d: Directory, iconsize: int, iconscale: int)
    requires
        type_of(d) != DirectoryType::Threshold,
    ensures
        size_distance(d, iconsize, iconscale) >= 0,
{
}

/// Whatever its type, a directory suits a size only at its own scale (1 where
/// it names none), and only when it has a size.
pub proof fn suiting_directory_has_the_wanted_scale(d: Directory, iconsize: int, iconscale: int)
    requires
        size_matches(d, iconsize, iconscale),
    ensures
        match d.scale {
            Some(s) => s == iconscale,
            None => iconscale == 1,
        },
        d.size is Some,
{
}

/// At its own scale, a directory with a size suits the wanted size when: it is
/// fixed and of exactly that size; it is scalable and the size lies between its
/// limits (its size where it names none); it is of the threshold type (also
/// where it names no type) and the size is at most its threshold (2 where it
/// names none) away from its size.
pub proof fn which_sizes_a_directory_suits(d: Directory, iconsize: int)
    requires
        d.size is Some,
    ensures
        ({
            let wanted_scale = match d.scale {
                Some(s) => s as int,
                None => 1,
            };
            let size = d.size->0 as int;
            size_matches(d, iconsize, wanted_scale) == match d.xdg_type {
                Some(DirectoryType::Fixed) => iconsize == size,
                Some(DirectoryType::Scalable) => (match d.min_size {
                    Some(m) => m as int,
                    None => size,
                }) <= iconsize && iconsize <= (match d.max_size {
                    Some(m) => m as int,
                    None => size,
                }),
                _ => {
                    let t = match d.threshold {
                        Some(t) => t as int,
                        None => 2,
                    };
                    (if size >= iconsize { size - iconsize } else { iconsize - size }) <= t
                },
            }
        }),
{
}

/// How far a directory with a size is from the wanted size at the wanted
/// scale, with its scale 1, its limits its size and its threshold 2 where it
/// names none: a fixed directory, the distance between its scaled size and the
/// wanted scaled size; a scalable directory, the distance from the wanted scaled
/// size to its scaled limits, 0 between them; a threshold directory (also one
/// that names no type), its scaled minimum less the wanted scaled size where
/// the wanted scaled size lies below its scaled size less threshold, else the
/// square of the wanted size less its scaled maximum where that square lies
/// above its scaled size plus threshold, else 0. A directory without a size is
/// at distance 0.
pub proof fn how_far_a_directory_is(d: Directory, iconsize: int, iconscale: int)
    ensures
        d.size is None ==> size_distance(d, iconsize, iconscale) == 0,
        d.size is Some ==> ({
            let size = d.size->0 as int;
            let sc = match d.scale {
                Some(s) => s as int,
                None => 1,
            };
            let min = match d.min_size {
                Some(m) => m as int,
                None => size,
            };
            let max = match d.max_size {
                Some(m) => m as int,
                None => size,
            };
            let t = match d.threshold {
                Some(t) => t as int,
                None => 2,
            };
            let wanted = iconsize * iconscale;
            size_distance(d, iconsize, iconscale) == match d.xdg_type {
                Some(DirectoryType::Fixed) => if size * sc >= wanted {
                    size * sc - wanted
                } else {
                    wanted - size * sc
                },
                Some(DirectoryType::Scalable) => if wanted < min * sc {
                    min * sc - wanted
                } else if wanted > max * sc {
                    wanted - max * sc
                } else {
                    0
                },
                _ => if wanted < (size - t) * sc {
                    min * sc - wanted
                } else if iconsize * iconsize > (size + t) * sc {
                    iconsize * iconsize - max * sc
                } else {
                    0
                },
            }
        }),
{
}

} // verus!
