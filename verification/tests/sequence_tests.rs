use can_standin::sequence::{
    classify_u16, classify_u32, update_counter_stats, update_u16_stats, Step,
};

fn feed16(values: &[u16]) -> (Option<u16>, u64, u64) {
    let mut last = None;
    let mut drops = 0u64;
    let mut ooo = 0u64;
    for v in values {
        update_u16_stats(*v, &mut last, &mut drops, &mut ooo);
    }
    (last, drops, ooo)
}

fn feed32(values: &[u32]) -> (Option<u32>, u64, u64) {
    let mut last = None;
    let mut drops = 0u64;
    let mut ooo = 0u64;
    for v in values {
        update_counter_stats(*v, &mut last, &mut drops, &mut ooo);
    }
    (last, drops, ooo)
}

#[test]
fn full_cycle_with_wrap_is_clean() {
    let mut values: Vec<u16> = (0..=65535u16).collect();
    values.push(0);
    values.push(1);
    assert_eq!(feed16(&values), (Some(1), 0, 0));
}

#[test]
fn gap_counts_drops() {
    assert_eq!(feed16(&[0, 5]), (Some(5), 4, 0));
}

#[test]
fn step_back_is_out_of_order() {
    assert_eq!(feed16(&[5, 0]), (Some(0), 0, 1));
}

#[test]
fn first_value_is_not_classified() {
    assert_eq!(feed16(&[4711]), (Some(4711), 0, 0));
    assert_eq!(feed32(&[4711]), (Some(4711), 0, 0));
    assert_eq!(classify_u16(None, 9), Step::First);
    assert_eq!(classify_u32(None, 9), Step::First);
}

#[test]
fn duplicate_is_out_of_order() {
    assert_eq!(feed16(&[7, 7]), (Some(7), 0, 1));
    assert_eq!(feed32(&[7, 7]), (Some(7), 0, 1));
}

#[test]
fn gap_across_wrap() {
    assert_eq!(feed16(&[65534, 2]), (Some(2), 3, 0));
    assert_eq!(feed32(&[u32::MAX - 1, 2]), (Some(2), 3, 0));
}

#[test]
fn half_range_boundary_16() {
    assert_eq!(classify_u16(Some(0), 0x8000), Step::Gap(0x7FFF));
    assert_eq!(classify_u16(Some(0), 0x8001), Step::OutOfOrder);
    assert_eq!(classify_u16(Some(0), 1), Step::InOrder);
    assert_eq!(classify_u16(Some(65535), 0), Step::InOrder);
}

#[test]
fn half_range_boundary_32() {
    assert_eq!(classify_u32(Some(0), 0x8000_0000), Step::Gap(0x7FFF_FFFF));
    assert_eq!(classify_u32(Some(0), 0x8000_0001), Step::OutOfOrder);
    assert_eq!(classify_u32(Some(u32::MAX), 0), Step::InOrder);
    assert_eq!(classify_u32(Some(10), 5), Step::OutOfOrder);
    assert_eq!(classify_u32(Some(5), 10), Step::Gap(4));
}

#[test]
fn wrap_32_is_clean() {
    assert_eq!(feed32(&[u32::MAX - 1, u32::MAX, 0, 1]), (Some(1), 0, 0));
}

#[test]
fn out_of_order_value_becomes_last_accepted() {
    // 10, then 3 (behind), then 4: the 4 follows the 3 and is in order.
    assert_eq!(feed16(&[10, 3, 4]), (Some(4), 0, 1));
    // 10, then 3 (behind), then 11: counted against 3, so seven drops.
    assert_eq!(feed16(&[10, 3, 11]), (Some(11), 7, 1));
    assert_eq!(feed32(&[10, 3, 11]), (Some(11), 7, 1));
}

#[test]
fn drops_accumulate() {
    assert_eq!(feed16(&[0, 2, 5, 6, 10]), (Some(10), 1 + 2 + 3, 0));
}
