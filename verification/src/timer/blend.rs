//! The arithmetic of blending two days, on minutes since midnight.

use vstd::prelude::*;

verus! {

/// The smaller of two numbers.
pub open spec fn min(a: int, b: int) -> int {
    if a <= b {
        a
    } else {
        b
    }
}

/// The greater of two numbers.
pub open spec fn max(a: int, b: int) -> int {
    if a >= b {
        a
    } else {
        b
    }
}

/// `amount` times `num / den`, truncated to whole minutes.
pub open spec fn scaled(amount: int, num: int, den: int) -> int {
    (amount * num) / den
}

/// The minute halfway between sunrise and sunset.
pub open spec fn centre(sunrise: int, sunset: int) -> int {
    (sunset - sunrise) / 2 + sunrise
}

/// The length of the blended day: the weight `num / den` of the natural
/// length and the rest of the local length, each truncated on its own.
pub open spec fn blended_length(local: int, natural: int, num: int, den: int) -> int {
    scaled(natural, num, den) + scaled(local, den - num, den)
}

/// The window of one day under the weight `num / den`: from sunrise to sunset
/// under the weight zero, else the blended length laid around the centre.
pub open spec fn window(
    sunrise: int,
    sunset: int,
    local: int,
    natural: int,
    num: int,
    den: int,
) -> (int, int) {
    if num == 0 {
        (sunrise, sunset)
    } else {
        let half = blended_length(local, natural, num, den) / 2;
        (centre(sunrise, sunset) - half, centre(sunrise, sunset) + half)
    }
}

/// The window can be held by a day: under a weight other than zero the sun
/// does not set before it rises, and the window opens and closes at two
/// different minutes of the day.
pub open spec fn window_ok(
    sunrise: int,
    sunset: int,
    local: int,
    natural: int,
    num: int,
    den: int,
) -> bool {
    let (on, off) = window(sunrise, sunset, local, natural, num, den);
    &&& num != 0 ==> sunrise <= sunset
    &&& 0 <= on < 1440
    &&& 0 <= off < 1440
    &&& on != off
}

/// `lengths` turned by `shift` slots: what stood at slot `i` stands at slot
/// `i + shift`, counted round the year.
pub open spec fn rotated<A>(lengths: Seq<A>, shift: int) -> Seq<A> {
    Seq::new(lengths.len(), |i: int| lengths[(i - shift) % (lengths.len() as int)])
}

/// The first slot that holds the greatest of `lengths`; 0 for no lengths.
pub open spec fn first_max(lengths: Seq<int>) -> int
    decreases lengths.len(),
{
    if lengths.len() <= 1 {
        0
    } else {
        let before = first_max(lengths.drop_last());
        if lengths.last() > lengths[before] {
            lengths.len() - 1
        } else {
            before
        }
    }
}

/// Slot `at` holds the greatest of `lengths`.
pub open spec fn is_max_at(lengths: Seq<int>, at: int) -> bool {
    &&& 0 <= at < lengths.len()
    &&& forall|j: int| 0 <= j < lengths.len() ==> #[trigger] lengths[j] <= lengths[at]
}

/// `first_max` is the first slot that holds the greatest length.
pub proof fn lemma_first_max(lengths: Seq<int>)
    requires
        lengths.len() > 0,
    ensures
        is_max_at(lengths, first_max(lengths)),
        forall|j: int|
            0 <= j < first_max(lengths) ==> #[trigger] lengths[j] < lengths[first_max(lengths)],
    decreases lengths.len(),
{
    if lengths.len() > 1 {
        let shorter = lengths.drop_last();
        lemma_first_max(shorter);
        let before = first_max(shorter);
        let at = first_max(lengths);
        assert(shorter[before] == lengths[before]);
        assert forall|j: int| 0 <= j < lengths.len() implies #[trigger] lengths[j] <= lengths[at] by {
            if j < shorter.len() {
                assert(shorter[j] == lengths[j]);
            }
        }
        assert forall|j: int| 0 <= j < at implies #[trigger] lengths[j] < lengths[at] by {
            assert(shorter[j] == lengths[j]);
        }
    }
}

/// No other slot is the first to hold the greatest length.
pub proof fn lemma_first_max_unique(lengths: Seq<int>, at: int)
    requires
        is_max_at(lengths, at),
        forall|j: int| 0 <= j < at ==> #[trigger] lengths[j] < lengths[at],
    ensures
        at == first_max(lengths),
{
    lemma_first_max(lengths);
    let first = first_max(lengths);
    if first < at {
        assert(lengths[first] < lengths[at]);
        assert(lengths[at] <= lengths[first]);
    } else if at < first {
        assert(lengths[at] < lengths[first]);
        assert(lengths[first] <= lengths[at]);
    }
}

/// Scaling by a weight of at most one loses less than a minute, and never
/// gives more than there was.
pub proof fn lemma_scaled_bounds(amount: int, num: int, den: int)
    requires
        0 <= amount,
        0 <= num <= den,
        0 < den,
    ensures
        0 <= scaled(amount, num, den) <= amount,
        scaled(amount, num, den) * den <= amount * num < scaled(amount, num, den) * den + den,
{
    let product = amount * num;
    assert(0 <= product <= amount * den) by (nonlinear_arith)
        requires
            0 <= amount,
            0 <= num <= den,
            product == amount * num,
    ;
    vstd::arithmetic::div_mod::lemma_fundamental_div_mod(product, den);
    vstd::arithmetic::div_mod::lemma_mod_bound(product, den);
    let q = product / den;
    assert(den * q == q * den) by (nonlinear_arith);
    assert(0 <= q <= amount) by (nonlinear_arith)
        requires
            0 < den,
            0 <= product <= amount * den,
            q * den <= product < q * den + den,
    ;
}

/// Under the weights zero and one the blended length is the local length
/// and the natural length.
pub proof fn lemma_blended_length_extremes(local: int, natural: int, den: int)
    requires
        0 < den,
    ensures
        blended_length(local, natural, 0, den) == local,
        blended_length(local, natural, den, den) == natural,
{
    assert(natural * 0 == 0);
    assert(local * 0 == 0);
    assert((local * den) / den == local) by (nonlinear_arith)
        requires
            0 < den,
    ;
    assert((natural * den) / den == natural) by (nonlinear_arith)
        requires
            0 < den,
    ;
    assert(0int / den == 0) by (nonlinear_arith)
        requires
            0 < den,
    ;
}

/// The blended length is at most the longer of the two lengths, and at least
/// the shorter of them less one minute, which the two truncations may take.
pub proof fn lemma_blended_length_between(local: int, natural: int, num: int, den: int)
    requires
        0 <= local,
        0 <= natural,
        0 <= num <= den,
        0 < den,
    ensures
        min(local, natural) - 1 <= blended_length(local, natural, num, den) <= max(
            local,
            natural,
        ),
        0 <= blended_length(local, natural, num, den),
{
    lemma_scaled_bounds(natural, num, den);
    lemma_scaled_bounds(local, den - num, den);
    let x = scaled(natural, num, den);
    let y = scaled(local, den - num, den);
    let lo = min(local, natural);
    let hi = max(local, natural);
    assert((x + y) * den <= hi * den) by (nonlinear_arith)
        requires
            x * den <= natural * num,
            y * den <= local * (den - num),
            0 <= num <= den,
            natural <= hi,
            local <= hi,
    ;
    assert(x + y <= hi) by (nonlinear_arith)
        requires
            (x + y) * den <= hi * den,
            0 < den,
    ;
    assert((x + y) * den + 2 * den > lo * den) by (nonlinear_arith)
        requires
            natural * num < x * den + den,
            local * (den - num) < y * den + den,
            0 <= num <= den,
            lo <= natural,
            lo <= local,
    ;
    assert(x + y + 2 > lo) by (nonlinear_arith)
        requires
            (x + y) * den + 2 * den > lo * den,
            0 < den,
    ;
}

/// Half the blended length is at most the greater of the two half lengths,
/// and at least the smaller of them less one minute.
pub proof fn lemma_half_length_between(local: int, natural: int, num: int, den: int)
    requires
        0 <= local,
        0 <= natural,
        0 <= num <= den,
        0 < den,
    ensures
        min(local / 2, natural / 2) - 1 <= blended_length(local, natural, num, den) / 2 <= max(
            local / 2,
            natural / 2,
        ),
{
    lemma_blended_length_between(local, natural, num, den);
}

/// Monotonic interpolation. Where the local day is told consistently (its
/// length laid around its centre reaches from sunrise to sunset) and
/// truncation leaves half the blended length no shorter than both half
/// lengths, the blended window opens between the openings of the local-only
/// and the natural-only windows, and closes between their closings.
pub proof fn lemma_window_between(
    sunrise: int,
    sunset: int,
    local: int,
    natural: int,
    num: int,
    den: int,
)
    requires
        0 <= local,
        0 <= natural,
        0 <= num <= den,
        0 < den,
        centre(sunrise, sunset) - local / 2 == sunrise,
        centre(sunrise, sunset) + local / 2 == sunset,
        blended_length(local, natural, num, den) / 2 >= min(local / 2, natural / 2),
    ensures
        ({
            let blended = window(sunrise, sunset, local, natural, num, den);
            let local_only = window(sunrise, sunset, local, natural, 0, den);
            let natural_only = window(sunrise, sunset, local, natural, den, den);
            &&& min(local_only.0, natural_only.0) <= blended.0 <= max(
                local_only.0,
                natural_only.0,
            )
            &&& min(local_only.1, natural_only.1) <= blended.1 <= max(
                local_only.1,
                natural_only.1,
            )
        }),
{
    lemma_half_length_between(local, natural, num, den);
    lemma_blended_length_extremes(local, natural, den);
}

/// The shortcut and the formula. Where the local length is the time from
/// sunrise to sunset, the length laid around the centre opens at sunrise,
/// as the window of weight zero does, and closes at sunset or, where that
/// time is an odd number of minutes, one minute before it.
pub proof fn lemma_shortcut_matches_formula(sunrise: int, sunset: int, natural: int, den: int)
    requires
        sunrise <= sunset,
        0 < den,
    ensures
        ({
            let half = blended_length(sunset - sunrise, natural, 0, den) / 2;
            let direct = window(sunrise, sunset, sunset - sunrise, natural, 0, den);
            &&& centre(sunrise, sunset) - half == direct.0
            &&& direct.1 - 1 <= centre(sunrise, sunset) + half <= direct.1
            &&& (sunset - sunrise) % 2 == 0 ==> centre(sunrise, sunset) + half == direct.1
        }),
{
    lemma_blended_length_extremes(sunset - sunrise, natural, den);
}

/// Under the weight zero the window is the local-only window, and under the
/// weight one it is the natural-only window, whatever the denominator.
pub proof fn lemma_window_extremes(
    sunrise: int,
    sunset: int,
    local: int,
    natural: int,
    den: int,
    other: int,
)
    requires
        0 < den,
        0 < other,
    ensures
        window(sunrise, sunset, local, natural, 0, den) == window(
            sunrise,
            sunset,
            local,
            natural,
            0,
            other,
        ),
        window(sunrise, sunset, local, natural, den, den) == window(
            sunrise,
            sunset,
            local,
            natural,
            other,
            other,
        ),
{
    lemma_blended_length_extremes(local, natural, den);
    lemma_blended_length_extremes(local, natural, other);
}

/// Alignment. After the natural lengths are turned by the distance between
/// the two longest days, the slot of the longest local day holds the greatest
/// natural length; and it is the first slot to hold it where no other
/// natural day is as long.
pub proof fn lemma_alignment(local: Seq<int>, natural: Seq<int>)
    requires
        local.len() == natural.len(),
        natural.len() > 0,
    ensures
        ({
            let shift = first_max(local) - first_max(natural);
            let turned = rotated(natural, shift);
            &&& turned.len() == natural.len()
            &&& turned[first_max(local)] == natural[first_max(natural)]
            &&& is_max_at(turned, first_max(local))
            &&& (forall|j: int|
                0 <= j < natural.len() && j != first_max(natural) ==> #[trigger] natural[j]
                    < natural[first_max(natural)]) ==> first_max(turned) == first_max(local)
        }),
{
    let n = natural.len() as int;
    let lm = first_max(local);
    let nm = first_max(natural);
    let shift = lm - nm;
    let turned = rotated(natural, shift);
    lemma_first_max(local);
    lemma_first_max(natural);
    assert((lm - shift) % n == nm) by {
        vstd::arithmetic::div_mod::lemma_small_mod(nm as nat, n as nat);
    }
    assert forall|j: int| 0 <= j < n implies 0 <= #[trigger] ((j - shift) % n) < n by {
        vstd::arithmetic::div_mod::lemma_mod_bound(j - shift, n);
    }
    assert forall|j: int| 0 <= j < turned.len() implies #[trigger] turned[j] <= turned[lm] by {
        let k = (j - shift) % n;
        assert(0 <= k < n);
        assert(turned[j] == natural[k]);
    }
    if forall|j: int| 0 <= j < natural.len() && j != nm ==> #[trigger] natural[j] < natural[nm] {
        lemma_first_max(turned);
        let tm = first_max(turned);
        if tm != lm {
            let k = (tm - shift) % n;
            assert(0 <= k < n);
            assert(turned[tm] == natural[k]);
            if k == nm {
                lemma_rotation_injective(tm, lm, shift, n);
            }
            assert(natural[k] < natural[nm]);
            assert(turned[lm] <= turned[tm]);
        }
    }
}

/// Two slots of a year that a turn carries to the same slot are one slot.
proof fn lemma_rotation_injective(a: int, b: int, shift: int, n: int)
    requires
        0 < n,
        0 <= a < n,
        0 <= b < n,
        (a - shift) % n == (b - shift) % n,
    ensures
        a == b,
{
    vstd::arithmetic::div_mod::lemma_fundamental_div_mod(a - shift, n);
    vstd::arithmetic::div_mod::lemma_fundamental_div_mod(b - shift, n);
    let qa = (a - shift) / n;
    let qb = (b - shift) / n;
    assert(a - b == n * qa - n * qb);
    assert(a - b == n * (qa - qb)) by (nonlinear_arith)
        requires
            a - b == n * qa - n * qb,
    ;
    assert(qa - qb == 0) by (nonlinear_arith)
        requires
            a - b == n * (qa - qb),
            -n < a - b < n,
            0 < n,
    ;
}

} // verus!
