use can_standin::config::{
    apply_loop_count, build_payload, plan_receiver, plan_sender, recv_timeout_ms, ConfigError,
    ReceiverPlan, ReceiverSettings, SenderSettings,
};
use can_standin::frame::CanFilter;
use can_standin::parse::ParseError;

fn sender() -> SenderSettings {
    SenderSettings {
        id: 0x123,
        extended: false,
        fd: false,
        quality_test: false,
        test_id: 1,
        len: None,
        data: None,
        fill: 0xAA,
        counter: false,
        count: 0,
        loop_count: 1,
        rate: 0,
        delay_ns: None,
    }
}

fn receiver() -> ReceiverSettings {
    ReceiverSettings {
        id: None,
        mask: None,
        extended: false,
        fd: false,
        quality_test: false,
        check_counter: false,
        idle_exit_ms: 1000,
    }
}

#[test]
fn payload_defaults_to_eight_fill_bytes() {
    assert_eq!(build_payload(8, None, None, 0xAA), Ok((vec![0xAA; 8], 8)));
}

#[test]
fn payload_takes_length_of_data() {
    assert_eq!(build_payload(8, None, Some("0102".to_string()), 0xAA), Ok((vec![1, 2], 2)));
}

#[test]
fn payload_is_filled_up() {
    assert_eq!(
        build_payload(8, Some(4), Some("0102".to_string()), 0xFF),
        Ok((vec![1, 2, 0xFF, 0xFF], 4))
    );
    assert_eq!(build_payload(64, Some(3), None, 7), Ok((vec![7, 7, 7], 3)));
}

#[test]
fn payload_is_cut() {
    assert_eq!(build_payload(8, Some(1), Some("01 02 03".to_string()), 0), Ok((vec![1], 1)));
    assert_eq!(build_payload(8, Some(0), Some("0102".to_string()), 0), Ok((vec![], 0)));
}

#[test]
fn payload_empty_data_gives_default_length() {
    assert_eq!(build_payload(8, None, Some("".to_string()), 5), Ok((vec![5; 8], 8)));
}

#[test]
fn payload_errors() {
    assert_eq!(
        build_payload(8, Some(9), None, 0),
        Err(ConfigError::LenExceedsMax { len: 9, max: 8 })
    );
    assert_eq!(
        build_payload(8, None, Some("000102030405060708".to_string()), 0),
        Err(ConfigError::LenExceedsMax { len: 9, max: 8 })
    );
    assert_eq!(
        build_payload(8, None, Some("abc".to_string()), 0),
        Err(ConfigError::BadData(ParseError::OddLength))
    );
    assert_eq!(
        build_payload(8, Some(100), Some("xy".to_string()), 0),
        Err(ConfigError::BadData(ParseError::InvalidDigit))
    );
}

#[test]
fn loop_count_multiplies() {
    assert_eq!(apply_loop_count(100, 1), Ok(100));
    assert_eq!(apply_loop_count(100, 0), Ok(100));
    assert_eq!(apply_loop_count(0, 1), Ok(0));
    assert_eq!(apply_loop_count(100, 3), Ok(300));
    assert_eq!(apply_loop_count(0, 2), Err(ConfigError::LoopRequiresCount));
    assert_eq!(apply_loop_count(u64::MAX, 2), Err(ConfigError::LoopOverflow));
    assert_eq!(apply_loop_count(1 << 32, 1 << 32), Err(ConfigError::LoopOverflow));
    assert_eq!(apply_loop_count(1 << 32, (1 << 32) - 1), Ok(u64::MAX - (1 << 32) + 1));
}

#[test]
fn sender_plan_default() {
    let p = plan_sender(sender()).unwrap();
    assert_eq!(p.can_id, 0x123);
    assert_eq!(p.payload, vec![0xAA; 8]);
    assert_eq!(p.total_limit, 0);
    assert_eq!(p.nanos_per_frame, 0);
}

#[test]
fn sender_plan_counter_rate_loop() {
    let p = plan_sender(SenderSettings {
        id: 0x12345,
        len: Some(4),
        counter: true,
        count: 100,
        loop_count: 2,
        rate: 1000,
        ..sender()
    })
    .unwrap();
    assert_eq!(p.can_id, 0x8001_2345);
    assert_eq!(p.payload, vec![0xAA; 4]);
    assert_eq!(p.total_limit, 200);
    assert_eq!(p.nanos_per_frame, 1_000_000);
}

#[test]
fn sender_plan_quality_test() {
    let p = plan_sender(SenderSettings { quality_test: true, fd: true, ..sender() }).unwrap();
    assert_eq!(p.payload, vec![0u8; 8]);
}

fn sender_error(s: SenderSettings) -> ConfigError {
    match plan_sender(s) {
        Ok(_) => panic!("plan accepted"),
        Err(e) => e,
    }
}

#[test]
fn sender_plan_errors() {
    assert_eq!(
        sender_error(SenderSettings { id: 0x2000_0000, loop_count: 0, ..sender() }),
        ConfigError::IdOutOfRange(0x2000_0000)
    );
    assert_eq!(
        sender_error(SenderSettings { loop_count: 0, delay_ns: Some(u64::MAX), ..sender() }),
        ConfigError::LoopZero
    );
    assert_eq!(
        sender_error(SenderSettings { delay_ns: Some(1_000_000_001), rate: 1, ..sender() }),
        ConfigError::DelayOutOfRange
    );
    assert_eq!(
        sender_error(SenderSettings { delay_ns: Some(1), rate: 1, quality_test: true, len: Some(1), ..sender() }),
        ConfigError::DelayAndRate
    );
    assert_eq!(
        sender_error(SenderSettings { quality_test: true, len: Some(8), data: Some("00".to_string()), ..sender() }),
        ConfigError::LenWithQuality
    );
    assert_eq!(
        sender_error(SenderSettings { quality_test: true, data: Some("00".to_string()), counter: true, ..sender() }),
        ConfigError::DataWithQuality
    );
    assert_eq!(
        sender_error(SenderSettings { quality_test: true, counter: true, ..sender() }),
        ConfigError::CounterWithQuality
    );
    assert_eq!(
        sender_error(SenderSettings { data: Some("0".to_string()), ..sender() }),
        ConfigError::BadData(ParseError::OddLength)
    );
    assert_eq!(
        sender_error(SenderSettings { len: Some(9), ..sender() }),
        ConfigError::LenExceedsMax { len: 9, max: 8 }
    );
    assert_eq!(
        sender_error(SenderSettings { len: Some(65), fd: true, ..sender() }),
        ConfigError::LenExceedsMax { len: 65, max: 64 }
    );
    assert_eq!(
        sender_error(SenderSettings { len: Some(3), counter: true, loop_count: 2, ..sender() }),
        ConfigError::CounterNeedsLen
    );
    assert_eq!(
        sender_error(SenderSettings { loop_count: 2, ..sender() }),
        ConfigError::LoopRequiresCount
    );
    assert_eq!(
        sender_error(SenderSettings { loop_count: 2, count: u64::MAX, ..sender() }),
        ConfigError::LoopOverflow
    );
}

#[test]
fn receiver_plan_default() {
    assert_eq!(
        plan_receiver(receiver()),
        Ok(ReceiverPlan {
            filter: None,
            idle_exit_ms: Some(1000),
            recv_timeout_ms: Some(200),
            max_len: 8
        })
    );
}

#[test]
fn receiver_plan_with_filter_and_short_idle() {
    assert_eq!(
        plan_receiver(ReceiverSettings { id: Some(0x123), fd: true, idle_exit_ms: 50, ..receiver() }),
        Ok(ReceiverPlan {
            filter: Some(CanFilter { can_id: 0x123, can_mask: 0x8000_07FF }),
            idle_exit_ms: Some(50),
            recv_timeout_ms: Some(50),
            max_len: 64
        })
    );
}

#[test]
fn receiver_plan_without_idle_exit() {
    let p = plan_receiver(ReceiverSettings { idle_exit_ms: 0, ..receiver() }).unwrap();
    assert_eq!(p.idle_exit_ms, None);
    assert_eq!(p.recv_timeout_ms, None);
}

#[test]
fn receiver_plan_errors() {
    assert_eq!(
        plan_receiver(ReceiverSettings { mask: Some(1), quality_test: true, check_counter: true, ..receiver() }),
        Err(ConfigError::MaskRequiresId)
    );
    assert_eq!(
        plan_receiver(ReceiverSettings { id: Some(u32::MAX), quality_test: true, check_counter: true, ..receiver() }),
        Err(ConfigError::CheckCounterWithQuality)
    );
    assert_eq!(
        plan_receiver(ReceiverSettings { id: Some(0x2000_0000), ..receiver() }),
        Err(ConfigError::IdOutOfRange(0x2000_0000))
    );
}

#[test]
fn receive_timeout_is_capped() {
    assert_eq!(recv_timeout_ms(None), None);
    assert_eq!(recv_timeout_ms(Some(1)), Some(1));
    assert_eq!(recv_timeout_ms(Some(199)), Some(199));
    assert_eq!(recv_timeout_ms(Some(200)), Some(200));
    assert_eq!(recv_timeout_ms(Some(201)), Some(200));
    assert_eq!(recv_timeout_ms(Some(u64::MAX)), Some(200));
}
