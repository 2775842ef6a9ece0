use humidity_core::sample::ser::Error as SampleError;
use humidity_core::sample::{Deserializer, SampleResult, SensorKind, Serializer, Summary};
use humidity_core::sensors::{Hygrometer, Sensor};
use humidity_core::serde;
use humidity_core::serde::{Deserializable, Serializable};

#[test]
fn sample_result_serde() {
    let input = Summary { n: 1, avg: 990, min: 813, max: 1238, hygrometer: Hygrometer::YL69 };

    let mut buffer = [0u8; 60];
    let n = serde::serialize(&input, &mut buffer).unwrap();

    let output = serde::deserialize::<Summary>(&buffer[..n]).unwrap();
    assert_eq!(input, output);
}

#[test]
fn summary_wire_form_is_byte_exact() {
    let input = Summary { n: 1, avg: 990, min: 813, max: 1238, hygrometer: Hygrometer::HW390 };
    let mut buffer = [0xaau8; 10];
    assert_eq!(serde::serialize(&input, &mut buffer), Ok(8));
    assert_eq!(buffer, [1, 0xde, 0x03, 0x2d, 0x03, 0xd6, 0x04, 1, 0xaa, 0xaa]);
}

#[test]
fn summary_needs_eight_bytes() {
    let input = Summary { n: 7, avg: 1, min: 1, max: 1, hygrometer: Hygrometer::YL69 };
    let mut exact = [0u8; 8];
    assert_eq!(serde::serialize(&input, &mut exact), Ok(8));
    let mut short = [0x55u8; 7];
    assert_eq!(serde::serialize(&input, &mut short), Err(serde::Error::ErrBufferSmall));
    assert_eq!(short, [0x55u8; 7]);
    let mut none: [u8; 0] = [];
    assert_eq!(serde::serialize(&input, &mut none), Err(serde::Error::ErrBufferSmall));
}

#[test]
fn summary_too_short_input_is_rejected() {
    let bytes = [1u8, 0xde, 0x03, 0x2d, 0x03, 0xd6, 0x04];
    assert_eq!(serde::deserialize::<Summary>(&bytes), Err(serde::Error::ErrBufferSmall));
    assert_eq!(serde::deserialize::<Summary>(&[]), Err(serde::Error::ErrBufferSmall));
}

#[test]
fn summary_unknown_model_is_rejected() {
    let bytes = [1u8, 0xde, 0x03, 0x2d, 0x03, 0xd6, 0x04, 2];
    assert_eq!(serde::deserialize::<Summary>(&bytes), Err(serde::Error::ErrUnknownVariant));
}

#[test]
fn summary_ignores_what_follows_it() {
    let bytes = [3u8, 0x00, 0x01, 0xff, 0x00, 0x01, 0x01, 1, 0x99, 0x98];
    let expected = Summary { n: 3, avg: 256, min: 255, max: 257, hygrometer: Hygrometer::HW390 };
    assert_eq!(serde::deserialize::<Summary>(&bytes), Ok(expected));
}

#[test]
fn failed_summary_read_leaves_the_cursor() {
    let bytes = [0u8, 1u8, 0xde, 0x03, 0x2d, 0x03, 0xd6, 0x04, 9];
    let mut de = serde::Deserializer::new(&bytes);
    assert_eq!(de.read_u8(), Ok(0));
    assert_eq!(Summary::deserialize(&mut de), Err(serde::Error::ErrUnknownVariant));
    assert_eq!(de.pos, 1);
    assert_eq!(de.read_u8(), Ok(1));
}

#[test]
fn hygrometer_tags() {
    let mut buffer = [9u8; 2];
    assert_eq!(serde::serialize(&Hygrometer::YL69, &mut buffer), Ok(1));
    assert_eq!(buffer, [0, 9]);
    assert_eq!(serde::serialize(&Hygrometer::HW390, &mut buffer), Ok(1));
    assert_eq!(buffer, [1, 9]);
    assert_eq!(serde::deserialize::<Hygrometer>(&[0]), Ok(Hygrometer::YL69));
    assert_eq!(serde::deserialize::<Hygrometer>(&[1]), Ok(Hygrometer::HW390));
    assert_eq!(serde::deserialize::<Hygrometer>(&[2]), Err(serde::Error::ErrUnknownVariant));
    assert_eq!(serde::deserialize::<Hygrometer>(&[255]), Err(serde::Error::ErrUnknownVariant));
    assert_eq!(serde::deserialize::<Hygrometer>(&[]), Err(serde::Error::ErrBufferSmall));
}

#[test]
fn unknown_tag_is_not_consumed() {
    let bytes = [7u8, 1];
    let mut de = serde::Deserializer::new(&bytes);
    assert_eq!(Hygrometer::deserialize(&mut de), Err(serde::Error::ErrUnknownVariant));
    assert_eq!(de.pos, 0);
    assert_eq!(de.read_u8(), Ok(7));
    assert_eq!(Hygrometer::deserialize(&mut de), Ok(Hygrometer::HW390));
    assert_eq!(de.pos, 2);
}

#[test]
fn hygrometer_calibration() {
    assert_eq!(Hygrometer::YL69.low(), 220);
    assert_eq!(Hygrometer::YL69.high(), 2053);
    assert_eq!(Hygrometer::HW390.low(), 1000);
    assert_eq!(Hygrometer::HW390.high(), 2050);
}

#[test]
fn sensor_kind_tags() {
    let mut buffer = [9u8; 1];
    assert_eq!(serde::serialize(&SensorKind::Resistive, &mut buffer), Ok(1));
    assert_eq!(buffer, [0]);
    assert_eq!(serde::serialize(&SensorKind::Capacitive, &mut buffer), Ok(1));
    assert_eq!(buffer, [1]);
    let mut none: [u8; 0] = [];
    assert_eq!(
        serde::serialize(&SensorKind::Capacitive, &mut none),
        Err(serde::Error::ErrBufferSmall)
    );
    assert_eq!(serde::deserialize::<SensorKind>(&[0, 5]), Ok(SensorKind::Resistive));
    assert_eq!(serde::deserialize::<SensorKind>(&[1]), Ok(SensorKind::Capacitive));
    assert_eq!(serde::deserialize::<SensorKind>(&[2]), Err(serde::Error::ErrUnknownVariant));
    assert_eq!(serde::deserialize::<SensorKind>(&[]), Err(serde::Error::ErrBufferSmall));
}

#[test]
fn sensor_kind_calibration() {
    assert_eq!(SensorKind::Resistive.low(), 220);
    assert_eq!(SensorKind::Resistive.high(), 2053);
    assert_eq!(SensorKind::Capacitive.low(), 700);
    assert_eq!(SensorKind::Capacitive.high(), 2000);
}

#[test]
fn compact_form_of_a_record() {
    let sample = SampleResult { avg: 990, min: 813, max: 1238 };
    let mut buffer = [0xeeu8; 6];
    let mut ser = Serializer::new(&mut buffer);
    assert_eq!(ser.serialize(&sample), Ok(4));
    assert_eq!(ser.ser.pos, 4);
    assert_eq!(buffer, [0xde, 0x03, 177, 248, 0xee, 0xee]);
}

#[test]
fn compact_delta_overflow() {
    let sample = SampleResult { avg: 990, min: 500, max: 1238 };
    let mut buffer = [0xeeu8; 4];
    let mut ser = Serializer::new(&mut buffer);
    assert_eq!(ser.serialize(&sample), Err(SampleError::ErrUnexpectedDeviation));
    assert_eq!(ser.ser.pos, 0);
    assert_eq!(buffer, [0xeeu8; 4]);

    let sample = SampleResult { avg: 990, min: 900, max: 1246 };
    let mut ser = Serializer::new(&mut buffer);
    assert_eq!(ser.serialize(&sample), Err(SampleError::ErrUnexpectedDeviation));
    assert_eq!(buffer, [0xeeu8; 4]);
}

#[test]
fn compact_delta_limits() {
    let sample = SampleResult { avg: 1000, min: 745, max: 1255 };
    let mut buffer = [0u8; 4];
    let mut ser = Serializer::new(&mut buffer);
    assert_eq!(ser.serialize(&sample), Ok(4));
    assert_eq!(buffer, [0xe8, 0x03, 255, 255]);

    let sample = SampleResult { avg: 1000, min: 744, max: 1000 };
    let mut ser = Serializer::new(&mut buffer);
    assert_eq!(ser.serialize(&sample), Err(SampleError::ErrUnexpectedDeviation));
}

#[test]
fn compact_needs_four_bytes() {
    let sample = SampleResult { avg: 990, min: 813, max: 1238 };
    let mut buffer = [0x11u8; 3];
    let mut ser = Serializer::new(&mut buffer);
    assert_eq!(
        ser.serialize(&sample),
        Err(SampleError::Error(serde::Error::ErrBufferSmall))
    );
    assert_eq!(buffer, [0x11u8; 3]);

    let overflowing = SampleResult { avg: 990, min: 500, max: 1238 };
    let mut ser = Serializer::new(&mut buffer);
    assert_eq!(
        ser.serialize(&overflowing),
        Err(SampleError::Error(serde::Error::ErrBufferSmall))
    );

    assert_eq!(Deserializer::new(&[0xde, 0x03, 177]).deserialize(), Err(serde::Error::ErrBufferSmall));
    assert_eq!(Deserializer::new(&[]).deserialize(), Err(serde::Error::ErrBufferSmall));
}

#[test]
fn compact_round_trip() {
    let samples = [
        SampleResult { avg: 990, min: 813, max: 1238 },
        SampleResult { avg: 0, min: 0, max: 0 },
        SampleResult { avg: 65535, min: 65280, max: 65535 },
        SampleResult { avg: 255, min: 0, max: 510 },
    ];
    for sample in samples {
        let mut buffer = [0u8; 4];
        let mut ser = Serializer::new(&mut buffer);
        assert_eq!(ser.serialize(&sample), Ok(4));
        let mut de = Deserializer::new(&buffer);
        assert_eq!(de.deserialize(), Ok(sample));
        assert_eq!(de.de.pos, 4);
    }
}

#[test]
fn compact_records_follow_each_other() {
    let first = SampleResult { avg: 300, min: 290, max: 310 };
    let second = SampleResult { avg: 400, min: 400, max: 500 };
    let mut buffer = [0u8; 9];
    let mut ser = Serializer::new(&mut buffer);
    assert_eq!(ser.serialize(&first), Ok(4));
    assert_eq!(ser.serialize(&second), Ok(4));
    assert_eq!(
        ser.serialize(&first),
        Err(SampleError::Error(serde::Error::ErrBufferSmall))
    );
    assert_eq!(buffer, [0x2c, 0x01, 10, 10, 0x90, 0x01, 0, 100, 0]);
    let mut de = Deserializer::new(&buffer);
    assert_eq!(de.deserialize(), Ok(first));
    assert_eq!(de.deserialize(), Ok(second));
    assert_eq!(de.deserialize(), Err(serde::Error::ErrBufferSmall));
    assert_eq!(de.de.pos, 8);
}

#[test]
fn compact_read_wraps_around() {
    let mut de = Deserializer::new(&[5, 0, 10, 1]);
    assert_eq!(de.deserialize(), Ok(SampleResult { avg: 5, min: 65531, max: 6 }));
    let mut de = Deserializer::new(&[0xff, 0xff, 0, 2]);
    assert_eq!(de.deserialize(), Ok(SampleResult { avg: 65535, min: 65535, max: 1 }));
}

#[test]
fn cursor_writes_little_endian() {
    let mut buffer = [0u8; 5];
    let mut ser = serde::Serializer::new(&mut buffer);
    assert_eq!(ser.write_u16(0x1234), Ok(2));
    assert_eq!(ser.write_u8(0x56), Ok(1));
    assert_eq!(ser.write_u16(0xffff), Ok(2));
    assert_eq!(ser.write_u8(1), Err(serde::Error::ErrBufferSmall));
    assert_eq!(ser.write_u16(1), Err(serde::Error::ErrBufferSmall));
    assert_eq!(ser.pos, 5);
    assert!(!ser.has_room(1));
    assert!(ser.has_room(0));
    assert_eq!(buffer, [0x34, 0x12, 0x56, 0xff, 0xff]);
}

#[test]
fn cursor_does_not_write_half_a_number() {
    let mut buffer = [7u8; 3];
    let mut ser = serde::Serializer::new(&mut buffer);
    assert_eq!(ser.write_u16(0x0102), Ok(2));
    assert_eq!(ser.write_u16(0x0304), Err(serde::Error::ErrBufferSmall));
    assert_eq!(ser.pos, 2);
    assert_eq!(buffer, [0x02, 0x01, 7]);
}

#[test]
fn cursor_past_the_end_writes_and_reads_nothing() {
    let mut buffer = [7u8; 2];
    let mut ser = serde::Serializer { out: &mut buffer, pos: 3 };
    assert_eq!(ser.write_u8(1), Err(serde::Error::ErrBufferSmall));
    assert!(!ser.has_room(0));
    assert_eq!(buffer, [7, 7]);
    let mut de = serde::Deserializer { input: &buffer, pos: 3 };
    assert_eq!(de.read_u8(), Err(serde::Error::ErrBufferSmall));
    assert!(!de.has(0));
}

#[test]
fn cursor_reads_little_endian() {
    let bytes = [0x34u8, 0x12, 0x56, 0xff, 0xff];
    let mut de = serde::Deserializer::new(&bytes);
    assert!(de.has(5));
    assert!(!de.has(6));
    assert_eq!(de.read_u16(), Ok(0x1234));
    assert_eq!(de.read_u8(), Ok(0x56));
    assert_eq!(de.read_u16(), Ok(0xffff));
    assert_eq!(de.read_u8(), Err(serde::Error::ErrBufferSmall));
    assert_eq!(de.read_u16(), Err(serde::Error::ErrBufferSmall));
    assert_eq!(de.pos, 5);
}

#[test]
fn cursor_does_not_read_half_a_number() {
    let bytes = [1u8];
    let mut de = serde::Deserializer::new(&bytes);
    assert_eq!(de.read_u16(), Err(serde::Error::ErrBufferSmall));
    assert_eq!(de.pos, 0);
    assert_eq!(de.read_u8(), Ok(1));
}

#[test]
fn serializable_values_follow_each_other() {
    let mut buffer = [0u8; 10];
    let mut ser = serde::Serializer::new(&mut buffer);
    assert_eq!(Hygrometer::HW390.serialize(&mut ser), Ok(1));
    let summary = Summary { n: 2, avg: 3, min: 2, max: 4, hygrometer: Hygrometer::YL69 };
    assert_eq!(summary.serialize(&mut ser), Ok(8));
    assert_eq!(summary.serialize(&mut ser), Err(serde::Error::ErrBufferSmall));
    assert_eq!(ser.pos, 9);
    assert_eq!(buffer, [1, 2, 3, 0, 2, 0, 4, 0, 0, 0]);
}

#[test]
fn plain_form_of_a_record() {
    let sample = SampleResult { avg: 990, min: 500, max: 1238 };
    let mut buffer = [0xeeu8; 7];
    assert_eq!(serde::serialize(&sample, &mut buffer), Ok(6));
    assert_eq!(buffer, [0xde, 0x03, 0xf4, 0x01, 0xd6, 0x04, 0xee]);
    assert_eq!(serde::deserialize::<SampleResult>(&buffer), Ok(sample));
    let mut short = [0xeeu8; 5];
    assert_eq!(serde::serialize(&sample, &mut short), Err(serde::Error::ErrBufferSmall));
    assert_eq!(short, [0xeeu8; 5]);
    assert_eq!(serde::deserialize::<SampleResult>(&short), Err(serde::Error::ErrBufferSmall));
}

#[test]
fn plain_record_with_its_tag_takes_seven_bytes() {
    let sample = SampleResult { avg: 1, min: 0, max: 2 };
    let mut buffer = [0u8; 7];
    let mut ser = serde::Serializer::new(&mut buffer);
    assert_eq!(sample.serialize(&mut ser), Ok(6));
    assert_eq!(SensorKind::Capacitive.serialize(&mut ser), Ok(1));
    assert_eq!(buffer, [1, 0, 0, 0, 2, 0, 1]);
    let mut de = serde::Deserializer::new(&buffer);
    assert_eq!(SampleResult::deserialize(&mut de), Ok(sample));
    assert_eq!(SensorKind::deserialize(&mut de), Ok(SensorKind::Capacitive));
    assert!(!de.has(1));
}

#[test]
fn compact_record_with_its_tag_takes_five_bytes() {
    let sample = SampleResult { avg: 990, min: 813, max: 1238 };
    let mut buffer = [0u8; 5];
    let mut ser = Serializer::new(&mut buffer);
    assert_eq!(ser.serialize(&sample), Ok(4));
    assert_eq!(SensorKind::Capacitive.serialize(&mut ser.ser), Ok(1));
    assert_eq!(buffer, [0xde, 0x03, 177, 248, 1]);
    let mut de = Deserializer::new(&buffer);
    assert_eq!(de.deserialize(), Ok(sample));
    assert_eq!(SensorKind::deserialize(&mut de.de), Ok(SensorKind::Capacitive));

    let corrupt = [0xde, 0x03, 177, 248, 9];
    let mut de = Deserializer::new(&corrupt);
    assert_eq!(de.deserialize(), Ok(sample));
    assert_eq!(SensorKind::deserialize(&mut de.de), Err(serde::Error::ErrUnknownVariant));
}

#[test]
fn compact_deltas_of_a_record_out_of_order_wrap_around() {
    let mut buffer = [0xeeu8; 4];
    let below = SampleResult { avg: 5, min: 10, max: 5 };
    let mut ser = Serializer::new(&mut buffer);
    assert_eq!(ser.serialize(&below), Err(SampleError::ErrUnexpectedDeviation));
    assert_eq!(buffer, [0xeeu8; 4]);

    let wrapped = SampleResult { avg: 5, min: 65530, max: 4 };
    let mut ser = Serializer::new(&mut buffer);
    assert_eq!(ser.serialize(&wrapped), Err(SampleError::ErrUnexpectedDeviation));

    let wrapped = SampleResult { avg: 5, min: 65530, max: 5 };
    let mut ser = Serializer::new(&mut buffer);
    assert_eq!(ser.serialize(&wrapped), Ok(4));
    assert_eq!(buffer, [5, 0, 11, 0]);
    assert_eq!(Deserializer::new(&buffer).deserialize(), Ok(wrapped));
}
