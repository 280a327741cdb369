//! Wraparound-aware accounting of drops and out-of-order arrivals over a
//! stream of 16-bit or 32-bit counters.

use vstd::prelude::*;

verus! {

/// How many values lie between the value that was due after `prev` and
/// `value`, counted upwards modulo `modulus`.
pub open spec fn forward_distance(prev: int, value: int, modulus: int) -> int {
    (value - prev - 1) % modulus
}

/// How one observation is classified against the one before it.
#[derive(Clone, Copy, Debug, PartialEq, Eq, Structural)]
pub enum Step {
    /// Nothing was observed before.
    First,
    /// The value that was due.
    InOrder,
    /// A value ahead of the one that was due: so many values were skipped.
    Gap(u64),
    /// A value behind the one that was due.
    OutOfOrder,
}

/// Classification of `value` after `prev` in a counter of `modulus` values.
pub open spec fn classify(prev: Option<int>, value: int, modulus: int) -> Step {
    match prev {
        None => Step::First,
        Some(p) => {
            let d = forward_distance(p, value, modulus);
            if d == 0 {
                Step::InOrder
            } else if d < modulus / 2 {
                Step::Gap(d as u64)
            } else {
                Step::OutOfOrder
            }
        },
    }
}

/// Drops that a step adds.
pub open spec fn step_drops(s: Step) -> nat {
    match s {
        Step::Gap(d) => d as nat,
        _ => 0,
    }
}

/// Out-of-order events that a step adds.
pub open spec fn step_ooo(s: Step) -> nat {
    match s {
        Step::OutOfOrder => 1,
        _ => 0,
    }
}

/// Number of values of a 16-bit counter.
pub open spec fn modulus16() -> int {
    0x1_0000
}

/// Number of values of a 32-bit counter.
pub open spec fn modulus32() -> int {
    0x1_0000_0000
}

/// Classification of a 16-bit observation.
pub open spec fn classify16(prev: Option<u16>, value: u16) -> Step {
    classify(
        match prev {
            Some(p) => Some(p as int),
            None => None,
        },
        value as int,
        modulus16(),
    )
}

/// Classification of a 32-bit observation.
pub open spec fn classify32(prev: Option<u32>, value: u32) -> Step {
    classify(
        match prev {
            Some(p) => Some(p as int),
            None => None,
        },
        value as int,
        modulus32(),
    )
}

/// Classifies a 16-bit observation.
pub fn classify_u16(prev: Option<u16>, value: u16) -> (s: Step)
    ensures
        s == classify16(prev, value),
{
    match prev {
        None => Step::First,
        Some(p) => {
            let d: u32 = (value as u32 + 0x1_0000 - p as u32 - 1) % 0x1_0000;
            assert(d as int == forward_distance(p as int, value as int, modulus16())) by {
                lemma_mod_shift(value as int - p as int - 1, 0x1_0000);
            }
            if d == 0 {
                Step::InOrder
            } else if d < 0x8000 {
                Step::Gap(d as u64)
            } else {
                Step::OutOfOrder
            }
        },
    }
}

/// Classifies a 32-bit observation.
pub fn classify_u32(prev: Option<u32>, value: u32) -> (s: Step)
    ensures
        s == classify32(prev, value),
{
    match prev {
        None => Step::First,
        Some(p) => {
            let d: u64 = (value as u64 + 0x1_0000_0000 - p as u64 - 1) % 0x1_0000_0000;
            assert(d as int == forward_distance(p as int, value as int, modulus32())) by {
                lemma_mod_shift(value as int - p as int - 1, 0x1_0000_0000);
            }
            if d == 0 {
                Step::InOrder
            } else if d < 0x8000_0000 {
                Step::Gap(d)
            } else {
                Step::OutOfOrder
            }
        },
    }
}

/// Adding the modulus once does not change a remainder.
pub proof fn lemma_mod_shift(x: int, m: int)
    requires
        m > 0,
    ensures
        (x + m) % m == x % m,
{
    vstd::arithmetic::div_mod::lemma_mod_add_multiples_vanish(x, m);
}

/// Accounts for one observation of the 32-bit counter: the observation
/// becomes the last accepted value, a forward gap adds its size to `drops`,
/// a value behind the expected one adds one to `ooo`.
pub fn update_counter_stats(counter: u32, last: &mut Option<u32>, drops: &mut u64, ooo: &mut u64)
    requires
        *old(drops) + step_drops(classify32(*old(last), counter)) <= u64::MAX,
        *old(ooo) + step_ooo(classify32(*old(last), counter)) <= u64::MAX,
    ensures
        *final(last) == Some(counter),
        *final(drops) == *old(drops) + step_drops(classify32(*old(last), counter)),
        *final(ooo) == *old(ooo) + step_ooo(classify32(*old(last), counter)),
{
    match classify_u32(*last, counter) {
        Step::Gap(d) => {
            *drops = *drops + d;
        },
        Step::OutOfOrder => {
            *ooo = *ooo + 1;
        },
        _ => {},
    }
    *last = Some(counter);
}

/// Accounts for one observation of the 16-bit sequence number, as
/// `update_counter_stats` does for the 32-bit counter.
pub fn update_u16_stats(counter: u16, last: &mut Option<u16>, drops: &mut u64, ooo: &mut u64)
    requires
        *old(drops) + step_drops(classify16(*old(last), counter)) <= u64::MAX,
        *old(ooo) + step_ooo(classify16(*old(last), counter)) <= u64::MAX,
    ensures
        *final(last) == Some(counter),
        *final(drops) == *old(drops) + step_drops(classify16(*old(last), counter)),
        *final(ooo) == *old(ooo) + step_ooo(classify16(*old(last), counter)),
{
    match classify_u16(*last, counter) {
        Step::Gap(d) => {
            *drops = *drops + d;
        },
        Step::OutOfOrder => {
            *ooo = *ooo + 1;
        },
        _ => {},
    }
    *last = Some(counter);
}

/// Drops counted over a run of observations, the first of them made after
/// `prev`.
pub open spec fn drops_over(prev: Option<int>, values: Seq<int>, modulus: int) -> nat
    decreases values.len(),
{
    if values.len() == 0 {
        0
    } else {
        step_drops(classify(prev, values[0], modulus)) + drops_over(
            Some(values[0]),
            values.skip(1),
            modulus,
        )
    }
}

/// Out-of-order events counted over a run of observations, the first of them
/// made after `prev`.
pub open spec fn ooo_over(prev: Option<int>, values: Seq<int>, modulus: int) -> nat
    decreases values.len(),
{
    if values.len() == 0 {
        0
    } else {
        step_ooo(classify(prev, values[0], modulus)) + ooo_over(
            Some(values[0]),
            values.skip(1),
            modulus,
        )
    }
}

/// Whether each value of a run is the successor, modulo `modulus`, of the
/// one before it, and the first the successor of `prev` where there is one.
pub open spec fn consecutive(prev: Option<int>, values: Seq<int>, modulus: int) -> bool {
    &&& forall|i: int| 0 <= i < values.len() ==> 0 <= #[trigger] values[i] < modulus
    &&& forall|i: int|
        0 <= i < values.len() - 1 ==> #[trigger] values[i + 1] == (values[i] + 1) % modulus
    &&& (prev.is_some() && values.len() > 0 ==> values[0] == (prev.unwrap() + 1) % modulus)
}

/// The successor of a value, wrapping at the modulus, is in order: so a
/// counter that wraps from its largest value to zero is neither a drop nor
/// out of order.
pub proof fn lemma_successor_in_order(prev: int, modulus: int)
    requires
        modulus > 0,
        0 <= prev < modulus,
    ensures
        classify(Some(prev), (prev + 1) % modulus, modulus) == Step::InOrder,
{
    if prev + 1 < modulus {
        vstd::arithmetic::div_mod::lemma_small_mod((prev + 1) as nat, modulus as nat);
        vstd::arithmetic::div_mod::lemma_small_mod(0, modulus as nat);
    } else {
        vstd::arithmetic::div_mod::lemma_mod_self_0(modulus);
        assert(0 - prev - 1 == -modulus);
        lemma_mod_shift(-modulus, modulus);
        vstd::arithmetic::div_mod::lemma_small_mod(0, modulus as nat);
    }
}

/// A run of consecutive values, however long and however often it wraps,
/// counts no drop and no out-of-order event.
pub proof fn lemma_consecutive_run_is_clean(prev: Option<int>, values: Seq<int>, modulus: int)
    requires
        modulus > 0,
        prev.is_some() ==> 0 <= prev.unwrap() < modulus,
        consecutive(prev, values, modulus),
    ensures
        drops_over(prev, values, modulus) == 0,
        ooo_over(prev, values, modulus) == 0,
    decreases values.len(),
{
    if values.len() > 0 {
        if prev.is_some() {
            lemma_successor_in_order(prev.unwrap(), modulus);
        }
        let rest = values.skip(1);
        assert(values[0] == values[0]);
        assert forall|i: int| 0 <= i < rest.len() - 1 implies #[trigger] rest[i + 1] == (rest[i]
            + 1) % modulus by {
            assert(rest[i + 1] == values[(i + 1) + 1]);
            assert(rest[i] == values[i + 1]);
        }
        assert forall|i: int| 0 <= i < rest.len() implies 0 <= #[trigger] rest[i] < modulus by {
            assert(rest[i] == values[i + 1]);
        }
        if rest.len() > 0 {
            assert(rest[0] == values[0int + 1]);
        }
        lemma_consecutive_run_is_clean(Some(values[0]), rest, modulus);
    }
}

/// A value that lies `skipped` values ahead of the one that was due, with
/// `skipped` under half the counter's range, counts exactly `skipped` drops;
/// a value that lies further ahead counts as one out-of-order event.
pub proof fn lemma_gap_counts_skipped(prev: int, skipped: int, modulus: int)
    requires
        0 < modulus <= 0x1_0000_0000,
        0 <= prev < modulus,
        0 < skipped < modulus,
    ensures
        skipped < modulus / 2 ==> classify(Some(prev), (prev + 1 + skipped) % modulus, modulus)
            == Step::Gap(skipped as u64),
        skipped >= modulus / 2 ==> classify(Some(prev), (prev + 1 + skipped) % modulus, modulus)
            == Step::OutOfOrder,
{
    let x = prev + 1 + skipped;
    if x < modulus {
        vstd::arithmetic::div_mod::lemma_small_mod(x as nat, modulus as nat);
        vstd::arithmetic::div_mod::lemma_small_mod(skipped as nat, modulus as nat);
    } else {
        lemma_mod_shift(x - modulus, modulus);
        vstd::arithmetic::div_mod::lemma_small_mod((x - modulus) as nat, modulus as nat);
        lemma_mod_shift(skipped - modulus, modulus);
        vstd::arithmetic::div_mod::lemma_small_mod(skipped as nat, modulus as nat);
    }
}

} // verus!
