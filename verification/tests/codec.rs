use hidpp::{Error, Feature, Function, Message, MessageBuilder, ReportId};

fn short_request() -> Message {
    MessageBuilder::new_short(0x06, Function::UnifiedBatteryGetStatus)
        .device_index(0x01)
        .build()
}

#[test]
fn report_id_tags() {
    assert_eq!(ReportId::Short.to_u8(), 0x10);
    assert_eq!(ReportId::Long.to_u8(), 0x11);
    assert_eq!(ReportId::VeryLong.to_u8(), 0x12);
    assert_eq!(ReportId::from_u8(0x10), Some(ReportId::Short));
    assert_eq!(ReportId::from_u8(0x11), Some(ReportId::Long));
    assert_eq!(ReportId::from_u8(0x12), Some(ReportId::VeryLong));
    assert_eq!(ReportId::from_u8(0x13), None);
    assert_eq!(ReportId::from_u8(0x00), None);
}

#[test]
fn report_id_frame_lengths() {
    assert_eq!(ReportId::Short.frame_length(), 7);
    assert_eq!(ReportId::Long.frame_length(), 20);
    assert_eq!(ReportId::VeryLong.frame_length(), 64);
}

#[test]
fn builder_defaults() {
    let message = MessageBuilder::new_short(0x06, Function::UnifiedBatteryGetStatus).build();
    assert_eq!(message.report_id(), ReportId::Short);
    assert_eq!(message.device_index(), 0xff);
    assert_eq!(message.feature_index(), 0x06);
    assert_eq!(message.function_index(), 0x01);
    assert_eq!(message.software_id(), 0x01);
    assert_eq!(message.data(), &[0u8, 0, 0][..]);
}

#[test]
fn builder_setters() {
    let message = MessageBuilder::new_short(0x00, Function::RootGetFeature)
        .report_id(ReportId::Long)
        .device_index(0x02)
        .feature_index(0x09)
        .function_index(0x0c)
        .software_id(0x0a)
        .data(vec![1, 2])
        .build();
    assert_eq!(message.report_id(), ReportId::Long);
    assert_eq!(message.device_index(), 0x02);
    assert_eq!(message.feature_index(), 0x09);
    assert_eq!(message.function_index(), 0x0c);
    assert_eq!(message.software_id(), 0x0a);
    assert_eq!(message.data(), &[1u8, 2, 0][..]);
}

#[test]
fn build_pads_short_payload_with_zeros() {
    let message = MessageBuilder::new_short(0, Function::RootGetFeature).data(vec![0xaa]).build();
    assert_eq!(message.data(), &[0xaau8, 0, 0][..]);
}

#[test]
fn build_cuts_long_payload_to_three_bytes() {
    let message = MessageBuilder::new_short(0, Function::RootGetFeature)
        .data(vec![1, 2, 3, 4, 5])
        .build();
    assert_eq!(message.data(), &[1u8, 2, 3][..]);
}

#[test]
fn add_u16_is_big_endian() {
    let message = MessageBuilder::new_short(0, Function::RootGetFeature)
        .add_u16(Feature::UnifiedBattery.value())
        .build();
    assert_eq!(message.data(), &[0x10u8, 0x04, 0x00][..]);
    let message = MessageBuilder::new_short(0, Function::RootGetFeature)
        .data(vec![0x7f])
        .add_u16(0xabcd)
        .build();
    assert_eq!(message.data(), &[0x7fu8, 0xab, 0xcd][..]);
}

#[test]
fn encode_short_request() {
    assert_eq!(short_request().encode(), vec![0x10, 0x01, 0x06, 0x11, 0x00, 0x00, 0x00]);
}

#[test]
fn encode_resolve_request() {
    let frame = MessageBuilder::new_short(0x00, Function::RootGetFeature)
        .device_index(0x01)
        .add_u16(0x1004)
        .build()
        .encode();
    assert_eq!(frame, vec![0x10, 0x01, 0x00, 0x01, 0x10, 0x04, 0x00]);
}

#[test]
fn encode_packs_function_and_software_id() {
    let frame = MessageBuilder::new_short(0x03, Function::RootGetFeature)
        .function_index(0x0a)
        .software_id(0x05)
        .build()
        .encode();
    assert_eq!(frame[3], 0xa5);
}

#[test]
fn encode_drops_bits_that_do_not_fit() {
    let frame = MessageBuilder::new_short(0x03, Function::RootGetFeature)
        .function_index(0x1a)
        .software_id(0xf5)
        .build()
        .encode();
    assert_eq!(frame[3], 0xa5);
}

#[test]
fn encode_long_report_has_twenty_bytes() {
    let frame = MessageBuilder::new_short(0x03, Function::RootGetProtocolVersion)
        .report_id(ReportId::Long)
        .data(vec![9, 8, 7])
        .build()
        .encode();
    let mut expected = vec![0x11, 0xff, 0x03, 0x11, 9, 8, 7];
    expected.resize(20, 0);
    assert_eq!(frame, expected);
}

#[test]
fn encode_very_long_report_has_sixty_four_bytes() {
    let frame = MessageBuilder::new_short(0x03, Function::RootGetProtocolVersion)
        .report_id(ReportId::VeryLong)
        .build()
        .encode();
    assert_eq!(frame.len(), 64);
    assert_eq!(frame[0], 0x12);
}

#[test]
fn decode_short_reply() {
    let message = Message::try_from(vec![0x10, 0x01, 0x06, 0x10, 55, 4, 1]).unwrap();
    assert_eq!(message.report_id(), ReportId::Short);
    assert_eq!(message.device_index(), 0x01);
    assert_eq!(message.feature_index(), 0x06);
    assert_eq!(message.function_index(), 0x01);
    assert_eq!(message.software_id(), 0x00);
    assert_eq!(message.data(), &[55u8, 4, 1][..]);
}

#[test]
fn decode_ping() {
    let message = Message::try_from(vec![0x10, 0x00, 0x00, 0x10, 0x00, 0x00, 0xaa]).unwrap();
    assert_eq!(message.function_index(), 0x01);
    assert_eq!(message.software_id(), 0x00);
    assert_eq!(message.data(), &[0u8, 0, 0xaa][..]);
}

#[test]
fn decode_long_report() {
    let mut frame = vec![0x11, 0x01, 0x02, 0x3c];
    frame.extend(1..=16u8);
    let message = Message::try_from(frame).unwrap();
    assert_eq!(message.report_id(), ReportId::Long);
    assert_eq!(message.function_index(), 0x03);
    assert_eq!(message.software_id(), 0x0c);
    assert_eq!(message.data(), &(1..=16u8).collect::<Vec<u8>>()[..]);
}

#[test]
fn decode_rejects_unknown_report_id() {
    assert_eq!(
        Message::try_from(vec![0x13, 0x01, 0x06, 0x10, 55, 4, 1]),
        Err(Error::UnknownReportId { tag: 0x13 })
    );
    assert_eq!(
        Message::try_from(vec![0x00, 0, 0, 0, 0, 0, 0]),
        Err(Error::UnknownReportId { tag: 0x00 })
    );
    assert_eq!(Message::try_from(vec![0xff]), Err(Error::UnknownReportId { tag: 0xff }));
}

#[test]
fn decode_rejects_wrong_length() {
    assert_eq!(Message::try_from(vec![]), Err(Error::FrameLength { length: 0 }));
    assert_eq!(
        Message::try_from(vec![0x10, 0x01, 0x06, 0x10, 55, 4]),
        Err(Error::FrameLength { length: 6 })
    );
    assert_eq!(
        Message::try_from(vec![0x10, 0x01, 0x06, 0x10, 55, 4, 1, 0]),
        Err(Error::FrameLength { length: 8 })
    );
    assert_eq!(
        Message::try_from(vec![0x11, 0x01, 0x06, 0x10, 55, 4, 1]),
        Err(Error::FrameLength { length: 7 })
    );
    assert_eq!(Message::try_from(vec![0x12; 20]), Err(Error::FrameLength { length: 20 }));
}

#[test]
fn decode_then_encode_gives_back_the_frame() {
    let frames: Vec<Vec<u8>> = vec![
        vec![0x10, 0x01, 0x06, 0x10, 55, 4, 1],
        vec![0x10, 0xff, 0x00, 0xff, 0xff, 0xff, 0xff],
        vec![0x10, 0x00, 0x00, 0x00, 0x00, 0x00, 0x00],
        vec![0x10, 0x7f, 0x80, 0x5a, 0x01, 0x02, 0x03],
    ];
    for frame in frames {
        let message = Message::try_from(frame.clone()).unwrap();
        assert_eq!(message.encode(), frame);
    }
    let mut long = vec![0x11, 0x01, 0x02, 0x3c];
    long.extend(1..=16u8);
    assert_eq!(Message::try_from(long.clone()).unwrap().encode(), long);
    let very_long: Vec<u8> = (0..64u8).map(|i| if i == 0 { 0x12 } else { i }).collect();
    assert_eq!(Message::try_from(very_long.clone()).unwrap().encode(), very_long);
}

#[test]
fn decode_then_encode_for_every_fourth_byte() {
    for byte in 0..=255u8 {
        let frame = vec![0x10, 0x01, 0x02, byte, 0x0a, 0x0b, 0x0c];
        let message = Message::try_from(frame.clone()).unwrap();
        assert_eq!(message.function_index(), byte >> 4);
        assert_eq!(message.software_id(), byte & 0x0f);
        assert_eq!(message.encode(), frame);
    }
}

#[test]
fn encode_then_decode_keeps_function_and_software_id() {
    for function_index in 0..=15u8 {
        for software_id in 0..=15u8 {
            let message = MessageBuilder::new_short(0x06, Function::RootGetFeature)
                .device_index(0x01)
                .function_index(function_index)
                .software_id(software_id)
                .data(vec![1, 2, 3])
                .build();
            let decoded = Message::try_from(message.encode()).unwrap();
            assert_eq!(decoded.function_index(), function_index);
            assert_eq!(decoded.software_id(), software_id);
            assert_eq!(decoded, message);
        }
    }
}

#[test]
fn encode_then_decode_fixes_payload_at_three_bytes() {
    let message = MessageBuilder::new_short(0x06, Function::RootGetFeature)
        .data(vec![1, 2, 3, 4, 5, 6])
        .build();
    let decoded = Message::try_from(message.encode()).unwrap();
    assert_eq!(decoded.data(), &[1u8, 2, 3][..]);
    let decoded = Message::try_from(short_request().encode()).unwrap();
    assert_eq!(decoded.data().len(), 3);
}

#[test]
fn dump_of_a_message() {
    let message = Message::try_from(vec![0x10, 0x01, 0x06, 0x10, 55, 4, 1]).unwrap();
    assert_eq!(message.dump(), "37 04 01      7..");
    assert_eq!(short_request().dump(), "00 00 00      ...");
}
