//! Price arithmetic used by the oracle: relative moves in basis points,
//! absolute moves, and staleness of a stored price.

use vstd::prelude::*;
use vstd::arithmetic::div_mod::{
    lemma_div_nonincreasing, lemma_div_of0, lemma_div_pos_is_pos, lemma_fundamental_div_mod,
    lemma_mod_pos_bound,
};

verus! {

/// One whole (100%) expressed in basis points.
pub const BASIS_POINTS: i128 = 10_000;

/// Whether an integer can be held by an `i128`.
pub open spec fn fits_i128(x: int) -> bool {
    i128::MIN <= x <= i128::MAX
}

/// Absolute value of a mathematical integer.
pub open spec fn abs_int(x: int) -> int {
    if x < 0 {
        -x
    } else {
        x
    }
}

/// Integer division rounding toward zero, as Rust's `/` on signed integers does.
pub open spec fn div_toward_zero(x: int, d: int) -> int
    recommends
        d != 0,
{
    let q = abs_int(x) / abs_int(d);
    if (x < 0) == (d < 0) {
        q
    } else {
        -q
    }
}

/// An optional `i128` seen as an optional mathematical integer.
pub open spec fn opt_as_int(o: Option<i128>) -> Option<int> {
    match o {
        Some(v) => Some(v as int),
        None => None,
    }
}

/// The move from `old` to `new` scaled to basis points of one whole, before
/// dividing by the baseline.
pub open spec fn scaled_move(old: int, new: int) -> int {
    (new - old) * BASIS_POINTS
}

/// Signed relative change from `old` to `new` in basis points, rounded toward
/// zero. There is none for a zero baseline, nor when the scaled move does
/// not fit in an `i128`.
pub open spec fn percentage_change_bps(old: int, new: int) -> Option<int> {
    let scaled = scaled_move(old, new);
    if old == 0 || !fits_i128(scaled) {
        None
    } else {
        Some(div_toward_zero(scaled, old))
    }
}

/// Size of the relative change from `old` to `new` in basis points, rounded
/// down. There is none exactly where there is no signed change.
pub open spec fn percentage_difference_bps(old: int, new: int) -> Option<int> {
    let scaled = scaled_move(old, new);
    if old == 0 || !fits_i128(scaled) {
        None
    } else {
        Some(abs_int(scaled) / abs_int(old))
    }
}

/// Absolute distance between two prices, when it fits in an `i128`.
pub open spec fn price_volatility(old: int, new: int) -> Option<int> {
    let d = abs_int(new - old);
    if d <= i128::MAX {
        Some(d)
    } else {
        None
    }
}

/// A price stored at `stored` with time-to-live `ttl` is stale at time `now`
/// once its expiry `stored + ttl` has been reached.
pub open spec fn stale(now: int, stored: int, ttl: int) -> bool {
    now >= stored + ttl
}

/// A quotient of a non-negative number by a positive one lies between zero
/// and the dividend.
proof fn lemma_quotient_bounded(x: int, d: int)
    requires
        0 <= x,
        0 < d,
    ensures
        0 <= x / d <= x,
{
    lemma_div_pos_is_pos(x, d);
    lemma_div_nonincreasing(x, d);
}

/// A scaled move that fits in an `i128` is a multiple of `BASIS_POINTS`, so it
/// is never `i128::MIN` and its magnitude fits too.
proof fn lemma_scaled_magnitude_fits(old: int, new: int)
    requires
        fits_i128(scaled_move(old, new)),
    ensures
        abs_int(scaled_move(old, new)) <= i128::MAX,
{
    let s = scaled_move(old, new);
    assert(s != i128::MIN) by {
        if s == i128::MIN {
            assert((new - old) * 10_000 == -170141183460469231731687303715884105728int);
        }
    }
}

/// Signed change from `old_price` to `new_price` in basis points
/// (`(new - old) * 10_000 / old`, rounded toward zero).
///
/// Returns `None` for a zero baseline and when the computation would
/// overflow an `i128`.
pub fn calculate_percentage_change_bps(old_price: i128, new_price: i128) -> (r: Option<i128>)
    ensures
        opt_as_int(r) == percentage_change_bps(old_price as int, new_price as int),
{
    if old_price == 0 {
        return None;
    }
    let diff = match new_price.checked_sub(old_price) {
        Some(d) => d,
        None => {
            return None;
        },
    };
    let scaled = match diff.checked_mul(BASIS_POINTS) {
        Some(s) => s,
        None => {
            return None;
        },
    };
    proof {
        lemma_scaled_magnitude_fits(old_price as int, new_price as int);
        lemma_quotient_bounded(abs_int(scaled as int), abs_int(old_price as int));
    }
    scaled.checked_div(old_price)
}

/// Size of the change from `old_price` to `new_price` in basis points: the
/// absolute value of `calculate_percentage_change_bps`.
///
/// Returns `None` exactly where the signed change is `None`.
pub fn calculate_percentage_difference_bps(old_price: i128, new_price: i128) -> (r: Option<i128>)
    ensures
        opt_as_int(r) == percentage_difference_bps(old_price as int, new_price as int),
{
    match calculate_percentage_change_bps(old_price, new_price) {
        Some(change) => {
            proof {
                let s = scaled_move(old_price as int, new_price as int);
                lemma_scaled_magnitude_fits(old_price as int, new_price as int);
                lemma_quotient_bounded(abs_int(s), abs_int(old_price as int));
            }
            if change < 0 {
                Some(-change)
            } else {
                Some(change)
            }
        },
        None => None,
    }
}

/// Absolute difference between two prices, `|new_price - old_price|`.
///
/// Returns `None` when that distance does not fit in an `i128`.
pub fn calculate_price_volatility(old_price: i128, new_price: i128) -> (r: Option<i128>)
    ensures
        opt_as_int(r) == price_volatility(old_price as int, new_price as int),
{
    let diff = match new_price.checked_sub(old_price) {
        Some(d) => d,
        None => {
            return None;
        },
    };
    if diff == i128::MIN {
        None
    } else if diff < 0 {
        Some(-diff)
    } else {
        Some(diff)
    }
}

/// Whether a price stored at `stored_timestamp` with time-to-live `ttl` is
/// stale at `current_time`, that is `current_time >= stored_timestamp + ttl`
/// (the expiry instant itself counts as stale).
pub fn is_stale(current_time: u64, stored_timestamp: u64, ttl: u64) -> (r: bool)
    ensures
        r == stale(current_time as int, stored_timestamp as int, ttl as int),
{
    current_time >= stored_timestamp && current_time - stored_timestamp >= ttl
}

/// The unsigned difference is the absolute value of the signed change: both
/// are absent together, and when present the difference is `|change|`.
pub proof fn law_difference_is_absolute_change(old_price: i128, new_price: i128)
    ensures
        match percentage_change_bps(old_price as int, new_price as int) {
            Some(c) => percentage_difference_bps(old_price as int, new_price as int) == Some(abs_int(c)),
            None => percentage_difference_bps(old_price as int, new_price as int) is None,
        },
{
    let s = scaled_move(old_price as int, new_price as int);
    if old_price != 0 {
        lemma_div_pos_is_pos(abs_int(s), abs_int(old_price as int));
    }
}

/// From a positive baseline the signed change follows the direction of the
/// move: never negative for a rise, never positive for a drop, and zero when
/// the price is unchanged.
pub proof fn law_change_follows_direction(old_price: i128, new_price: i128)
    requires
        old_price > 0,
    ensures
        percentage_change_bps(old_price as int, new_price as int) matches Some(c) ==> {
            &&& new_price > old_price ==> c >= 0
            &&& new_price < old_price ==> c <= 0
            &&& new_price == old_price ==> c == 0
        },
{
    let s = scaled_move(old_price as int, new_price as int);
    lemma_div_pos_is_pos(abs_int(s), old_price as int);
    if new_price == old_price {
        assert(s == 0);
        lemma_div_of0(old_price as int);
    }
}

/// Volatility does not depend on the order of the two prices.
pub proof fn law_volatility_is_symmetric(a: i128, b: i128)
    ensures
        price_volatility(a as int, b as int) == price_volatility(b as int, a as int),
{
}

/// Volatility is zero exactly when the price did not move.
pub proof fn law_volatility_zero_iff_unchanged(a: i128, b: i128)
    ensures
        price_volatility(a as int, b as int) == Some(0int) <==> a == b,
{
}

/// Once a price is stale it stays stale as time moves forward.
pub proof fn law_staleness_persists(stored_timestamp: u64, ttl: u64, now: u64, later: u64)
    requires
        now <= later,
        stale(now as int, stored_timestamp as int, ttl as int),
    ensures
        stale(later as int, stored_timestamp as int, ttl as int),
{
}

/// Floor division of a non-negative number by a positive one, in terms of
/// multiplication: `d * q <= x < d * q + d` with `q >= 0`.
proof fn lemma_floor_quotient(x: int, d: int)
    requires
        0 <= x,
        0 < d,
    ensures
        0 <= x / d,
        d * (x / d) <= x < d * (x / d) + d,
{
    lemma_div_pos_is_pos(x, d);
    lemma_fundamental_div_mod(x, d);
    lemma_mod_pos_bound(x, d);
}

/// The signed change is the quotient of the scaled move
/// `s = (new - old) * 10_000` by the baseline, rounded toward zero, with no
/// cap: it exists exactly when the baseline is nonzero and `s` fits in an
/// `i128`, and then the remainder `s - change * old` is smaller than the
/// baseline in magnitude and has the sign of `s`.
pub proof fn law_change_is_truncated_quotient(old_price: i128, new_price: i128)
    ensures
        ({
            let old = old_price as int;
            let s = (new_price as int - old) * 10_000;
            percentage_change_bps(old, new_price as int) is None
                <==> (old == 0 || s < i128::MIN || s > i128::MAX)
        }),
        ({
            let old = old_price as int;
            let s = (new_price as int - old) * 10_000;
            percentage_change_bps(old, new_price as int) matches Some(c) ==> {
                let r = s - c * old;
                &&& s >= 0 ==> r >= 0
                &&& s <= 0 ==> r <= 0
                &&& old > 0 ==> -old < r < old
                &&& old < 0 ==> old < r < -old
            }
        }),
{
    let old = old_price as int;
    let s = (new_price as int - old) * 10_000;
    if old != 0 && fits_i128(s) {
        let as_ = abs_int(s);
        let ao = abs_int(old);
        let q = as_ / ao;
        lemma_floor_quotient(as_, ao);
        let c = div_toward_zero(s, old);
        let m = as_ - ao * q;
        assert(0 <= m < ao);
        if s >= 0 && old > 0 {
            assert(c == q);
            assert(s - c * old == m);
        } else if s >= 0 {
            assert(c == -q);
            assert((-q) * old == q * (-old)) by (nonlinear_arith);
            assert(q * (-old) == ao * q) by (nonlinear_arith)
                requires
                    ao == -old,
            ;
            assert(s - c * old == m);
        } else if old > 0 {
            assert(c == -q);
            assert((-q) * old == -(ao * q)) by (nonlinear_arith)
                requires
                    ao == old,
            ;
            assert(s - c * old == -m);
        } else {
            assert(c == q);
            assert(q * old == -(ao * q)) by (nonlinear_arith)
                requires
                    ao == -old,
            ;
            assert(s - c * old == -m);
        }
    }
}

/// The unsigned difference is the floor of `|s| / |old|` for the scaled move
/// `s = (new - old) * 10_000`, with no cap: it exists exactly when the
/// baseline is nonzero and `s` fits in an `i128`, and then
/// `d * |old| <= |s| < (d + 1) * |old|`.
pub proof fn law_difference_is_floor_of_magnitudes(old_price: i128, new_price: i128)
    ensures
        ({
            let old = old_price as int;
            let s = (new_price as int - old) * 10_000;
            percentage_difference_bps(old, new_price as int) is None
                <==> (old == 0 || s < i128::MIN || s > i128::MAX)
        }),
        ({
            let old = old_price as int;
            let s = (new_price as int - old) * 10_000;
            let size = if s < 0 { -s } else { s };
            let base = if old < 0 { -old } else { old };
            percentage_difference_bps(old, new_price as int) matches Some(d) ==> {
                &&& d >= 0
                &&& d * base <= size
                &&& size < (d + 1) * base
            }
        }),
{
    let old = old_price as int;
    let s = (new_price as int - old) * 10_000;
    if old != 0 && fits_i128(s) {
        let size = abs_int(s);
        let base = abs_int(old);
        let d = size / base;
        lemma_floor_quotient(size, base);
        assert(d * base == base * d) by (nonlinear_arith);
        assert((d + 1) * base == base * d + base) by (nonlinear_arith);
    }
}

/// Volatility is the distance between the two prices, with no cap: it exists
/// exactly when that distance fits in an `i128`, and then it is the
/// non-negative amount that carries one price onto the other.
pub proof fn law_volatility_is_distance(old_price: i128, new_price: i128)
    ensures
        price_volatility(old_price as int, new_price as int) is None
            <==> (new_price - old_price > i128::MAX || old_price - new_price > i128::MAX),
        price_volatility(old_price as int, new_price as int) matches Some(v) ==> {
            &&& v >= 0
            &&& (old_price + v == new_price || new_price + v == old_price)
        },
{
}

/// A stored price is stale exactly once the time elapsed since it was stored
/// has reached its time-to-live, whatever the time-to-live: never before its
/// expiry, always from its expiry on.
pub proof fn law_stale_exactly_from_expiry(current_time: u64, stored_timestamp: u64, ttl: u64)
    ensures
        current_time - stored_timestamp < ttl ==> !stale(current_time as int, stored_timestamp as int, ttl as int),
        current_time - stored_timestamp >= ttl ==> stale(current_time as int, stored_timestamp as int, ttl as int),
{
}

} // verus!
