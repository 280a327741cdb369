use can_standin::frame::{
    build_can_id, build_filter, checked_can_id, checked_filter, clamp_len, dump_frame,
    put_counter, read_counter, CanFilter, Frame, IdError, CAN_EFF_FLAG, CAN_EFF_MASK,
    CAN_ERR_FLAG, CAN_RTR_FLAG, CAN_SFF_MASK,
};

#[test]
fn base_id_keeps_base_format() {
    assert_eq!(build_can_id(0x123, false), 0x123);
    assert_eq!(build_can_id(0x7FF, false), 0x7FF);
    assert_eq!(build_can_id(0, false), 0);
}

#[test]
fn forced_extended_sets_flag() {
    assert_eq!(build_can_id(0x123, true), 0x8000_0123);
}

#[test]
fn wide_id_sets_flag() {
    assert_eq!(build_can_id(0x800, false), 0x8000_0800);
    assert_eq!(build_can_id(CAN_EFF_MASK, false), 0x9FFF_FFFF);
}

#[test]
fn flag_set_iff_wide_or_forced() {
    for id in [0u32, 1, 0x7FE, 0x7FF, 0x800, 0x801, 0x1234_5678, CAN_EFF_MASK] {
        for forced in [false, true] {
            let word = build_can_id(id, forced);
            assert_eq!(word & CAN_EFF_FLAG != 0, forced || id > CAN_SFF_MASK);
            assert_eq!(word & CAN_EFF_MASK, id);
            assert_eq!(word & (CAN_RTR_FLAG | CAN_ERR_FLAG), 0);
        }
    }
}

#[test]
fn id_out_of_range_iff_over_29_bits() {
    assert_eq!(checked_can_id(0x1FFF_FFFF, false), Ok(0x9FFF_FFFF));
    assert_eq!(checked_can_id(0x2000_0000, false), Err(IdError::IdOutOfRange));
    assert_eq!(checked_can_id(0x2000_0000, true), Err(IdError::IdOutOfRange));
    assert_eq!(checked_can_id(u32::MAX, false), Err(IdError::IdOutOfRange));
    assert_eq!(checked_can_id(0x7FF, false), Ok(0x7FF));
}

#[test]
fn filter_absent_without_id() {
    assert_eq!(build_filter(None, None, false), None);
    assert_eq!(build_filter(None, Some(0x7FF), true), None);
}

#[test]
fn filter_default_mask_base() {
    assert_eq!(
        build_filter(Some(0x123), None, false),
        Some(CanFilter { can_id: 0x123, can_mask: 0x8000_07FF })
    );
}

#[test]
fn filter_default_mask_extended() {
    assert_eq!(
        build_filter(Some(0x123), None, true),
        Some(CanFilter { can_id: 0x8000_0123, can_mask: 0x9FFF_FFFF })
    );
    assert_eq!(
        build_filter(Some(0x12345), None, false),
        Some(CanFilter { can_id: 0x8001_2345, can_mask: 0x9FFF_FFFF })
    );
}

#[test]
fn filter_given_mask_is_kept() {
    assert_eq!(
        build_filter(Some(0x123), Some(0x700), false),
        Some(CanFilter { can_id: 0x123, can_mask: 0x700 })
    );
}

#[test]
fn checked_filter_errors() {
    assert_eq!(checked_filter(None, Some(0x7FF), false), Err(IdError::MaskRequiresId));
    assert_eq!(checked_filter(Some(0x2000_0000), None, false), Err(IdError::IdOutOfRange));
    assert_eq!(checked_filter(None, None, false), Ok(None));
    assert_eq!(
        checked_filter(Some(0x10), None, false),
        Ok(Some(CanFilter { can_id: 0x10, can_mask: 0x8000_07FF }))
    );
}

#[test]
fn declared_length_is_clamped() {
    assert_eq!(clamp_len(0, false), 0);
    assert_eq!(clamp_len(8, false), 8);
    assert_eq!(clamp_len(9, false), 8);
    assert_eq!(clamp_len(255, false), 8);
    assert_eq!(clamp_len(64, true), 64);
    assert_eq!(clamp_len(65, true), 64);
    assert_eq!(clamp_len(12, true), 12);
}

#[test]
fn template_fills_data_area() {
    let f = Frame::template(false, 0x123, &[1, 2, 3], 0xAA);
    assert_eq!(f.can_id, 0x123);
    assert_eq!(f.len, 3);
    assert_eq!(f.flags, 0);
    assert!(!f.fd);
    assert_eq!(f.data, vec![1, 2, 3, 0xAA, 0xAA, 0xAA, 0xAA, 0xAA]);
    assert_eq!(f.payload_len(), 3);
    let g = Frame::template(true, 0x8000_0123, &[9; 10], 0x55);
    assert_eq!(g.data.len(), 64);
    assert_eq!(g.len, 10);
    assert_eq!(g.data[9], 9);
    assert_eq!(g.data[10], 0x55);
    assert_eq!(g.data[63], 0x55);
}

#[test]
fn short_frame_wire_layout() {
    let f = Frame::template(false, 0x8001_2345, &[0xDE, 0xAD], 0xAA);
    let w = f.to_wire();
    assert_eq!(
        w,
        vec![0x45, 0x23, 0x01, 0x80, 2, 0, 0, 0, 0xDE, 0xAD, 0xAA, 0xAA, 0xAA, 0xAA, 0xAA, 0xAA]
    );
}

#[test]
fn extended_frame_wire_layout() {
    let mut f = Frame::template(true, 0x7FF, &[1, 2, 3, 4], 0);
    f.flags = 0x01;
    let w = f.to_wire();
    assert_eq!(w.len(), 72);
    assert_eq!(&w[..12], &[0xFF, 0x07, 0, 0, 4, 1, 0, 0, 1, 2, 3, 4]);
    assert!(w[12..].iter().all(|b| *b == 0));
}

#[test]
fn wire_round_trip() {
    let f = Frame::template(false, 0x9ABC_DEF0, &[7, 6, 5, 4, 3], 0x11);
    let g = Frame::from_wire(false, &f.to_wire()).unwrap();
    assert_eq!(g.can_id, f.can_id);
    assert_eq!(g.len, f.len);
    assert_eq!(g.flags, f.flags);
    assert_eq!(g.fd, f.fd);
    assert_eq!(g.data, f.data);
}

#[test]
fn from_wire_rejects_wrong_size() {
    assert!(Frame::from_wire(false, &[0u8; 15]).is_none());
    assert!(Frame::from_wire(false, &[0u8; 72]).is_none());
    assert!(Frame::from_wire(true, &[0u8; 16]).is_none());
    assert!(Frame::from_wire(true, &[0u8; 72]).is_some());
}

#[test]
fn from_wire_clamps_declared_length() {
    let mut w = vec![0u8; 16];
    w[4] = 200;
    w[5] = 0x77;
    let f = Frame::from_wire(false, &w).unwrap();
    assert_eq!(f.len, 8);
    assert_eq!(f.flags, 0);
    let mut w = vec![0u8; 72];
    w[4] = 200;
    w[5] = 0x77;
    let f = Frame::from_wire(true, &w).unwrap();
    assert_eq!(f.len, 64);
    assert_eq!(f.flags, 0x77);
}

#[test]
fn counter_is_little_endian() {
    let mut data = vec![0xAAu8; 8];
    put_counter(&mut data, 0x0102_0304);
    assert_eq!(data, vec![4, 3, 2, 1, 0xAA, 0xAA, 0xAA, 0xAA]);
    assert_eq!(read_counter(&data), Some(0x0102_0304));
    assert_eq!(read_counter(&data[..4]), Some(0x0102_0304));
    assert_eq!(read_counter(&data[..3]), None);
    let mut short = vec![1u8, 2, 3];
    put_counter(&mut short, 77);
    assert_eq!(short, vec![1, 2, 3]);
    let mut data = vec![0u8; 4];
    put_counter(&mut data, u32::MAX);
    assert_eq!(read_counter(&data), Some(u32::MAX));
}

#[test]
fn dump_base_frame() {
    assert_eq!(dump_frame(0x123, &[0xDE, 0xAD, 0x01]), b"123 [3] DE AD 01".to_vec());
    assert_eq!(dump_frame(0x5, &[0x0F]), b"005 [1] 0F".to_vec());
}

#[test]
fn dump_extended_frame() {
    assert_eq!(dump_frame(0x81AB_CDEF, &[]), b"01ABCDEF [0] ".to_vec());
    assert_eq!(dump_frame(0x8000_0001, &[0xFF, 0x00]), b"00000001 [2] FF 00".to_vec());
}

#[test]
fn dump_markers() {
    assert_eq!(dump_frame(0x2000_0123, &[1]), b"ERR 123 [1] 01".to_vec());
    assert_eq!(dump_frame(0x4000_0123, &[1]), b"RTR 123 [1] 01".to_vec());
    assert_eq!(dump_frame(0x6000_0123, &[1]), b"ERR 123 [1] 01".to_vec());
    assert_eq!(dump_frame(0xC000_0123, &[]), b"RTR 00000123 [0] ".to_vec());
}

#[test]
fn dump_long_payload_length_in_decimal() {
    let data = [0xABu8; 64];
    let line = dump_frame(0x7FF, &data);
    assert!(line.starts_with(b"7FF [64] AB AB"));
    assert_eq!(line.len(), 3 + 1 + 4 + 1 + 64 * 3 - 1);
}
