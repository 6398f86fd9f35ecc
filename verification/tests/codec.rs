use robust_arduino_serial::{
    decode_i16, decode_i32, decode_i8, encode_i16, encode_i32, encode_i8, read_i16, read_i32,
    read_i8, write_i16, write_i32, write_i8, ByteStream, CodecError, Order,
};

#[test]
fn read_write_orders() {
    let motor_speed: i8 = -57;
    let servo_angle: i16 = 512; // 2^9
    let big_number: i32 = -32768; // -2^15

    let mut buffer = ByteStream::new();

    write_i8(&mut buffer, Order::MOTOR as i8);
    write_i8(&mut buffer, motor_speed);

    write_i8(&mut buffer, Order::SERVO as i8);
    write_i16(&mut buffer, servo_angle);

    write_i8(&mut buffer, Order::ERROR as i8);
    write_i32(&mut buffer, big_number);

    // Go to the beginning of the buffer
    buffer.rewind();

    let read_1st_order = Order::from_i8(read_i8(&mut buffer).unwrap()).unwrap();
    let read_motor_speed = read_i8(&mut buffer).unwrap();

    let read_2nd_order = Order::from_i8(read_i8(&mut buffer).unwrap()).unwrap();
    let read_servo_angle = read_i16(&mut buffer).unwrap();

    let read_3rd_order = Order::from_i8(read_i8(&mut buffer).unwrap()).unwrap();
    let read_big_number = read_i32(&mut buffer).unwrap();

    assert_eq!(read_1st_order, Order::MOTOR);
    assert_eq!(read_motor_speed, motor_speed);

    assert_eq!(read_2nd_order, Order::SERVO);
    assert_eq!(read_servo_angle, servo_angle);

    assert_eq!(read_3rd_order, Order::ERROR);
    assert_eq!(read_big_number, big_number);
}

#[test]
fn encode_exact_bytes() {
    assert_eq!(encode_i8(2), [0x02]);
    assert_eq!(encode_i8(-56), [0xC8]);
    assert_eq!(encode_i8(-1), [0xFF]);
    assert_eq!(encode_i8(i8::MIN), [0x80]);
    assert_eq!(encode_i8(i8::MAX), [0x7F]);
    assert_eq!(encode_i16(120), [0x78, 0x00]);
    assert_eq!(encode_i16(366), [0x6E, 0x01]);
    assert_eq!(encode_i16(-355), [0x9D, 0xFE]);
    assert_eq!(encode_i16(-56), [0xC8, 0xFF]);
    assert_eq!(encode_i16(i16::MIN), [0x00, 0x80]);
    assert_eq!(encode_i16(i16::MAX), [0xFF, 0x7F]);
    assert_eq!(encode_i32(16384), [0x00, 0x40, 0x00, 0x00]);
    assert_eq!(encode_i32(-16384), [0x00, 0xC0, 0xFF, 0xFF]);
    assert_eq!(encode_i32(131072), [0x00, 0x00, 0x02, 0x00]);
    assert_eq!(encode_i32(0x12345678), [0x78, 0x56, 0x34, 0x12]);
    assert_eq!(encode_i32(i32::MIN), [0x00, 0x00, 0x00, 0x80]);
    assert_eq!(encode_i32(i32::MAX), [0xFF, 0xFF, 0xFF, 0x7F]);
}

#[test]
fn encode_agrees_with_std() {
    for value in i8::MIN..=i8::MAX {
        assert_eq!(encode_i8(value), value.to_le_bytes());
    }
    for value in i16::MIN..=i16::MAX {
        assert_eq!(encode_i16(value), value.to_le_bytes());
    }
    for value in [i32::MIN, -65537, -65536, -32769, -1, 0, 1, 255, 256, 65535, 65536, i32::MAX] {
        assert_eq!(encode_i32(value), value.to_le_bytes());
    }
}

#[test]
fn decode_exact_values() {
    assert_eq!(decode_i8(&[0x02]), Ok(2));
    assert_eq!(decode_i8(&[0xC8]), Ok(-56));
    assert_eq!(decode_i16(&[0x78, 0x00]), Ok(120));
    assert_eq!(decode_i16(&[0x9D, 0xFE]), Ok(-355));
    assert_eq!(decode_i16(&[0x00, 0x80]), Ok(i16::MIN));
    assert_eq!(decode_i32(&[0x00, 0x00, 0x02, 0x00]), Ok(131072));
    assert_eq!(decode_i32(&[0x00, 0x80, 0xFF, 0xFF]), Ok(-32768));
    assert_eq!(decode_i32(&[0x78, 0x56, 0x34, 0x12]), Ok(0x12345678));
    assert_eq!(decode_i32(&[0xFF, 0xFF, 0xFF, 0xFF]), Ok(-1));
}

#[test]
fn decode_uses_only_the_front() {
    assert_eq!(decode_i8(&[0x05, 0xFF, 0xFF]), Ok(5));
    assert_eq!(decode_i16(&[0x05, 0x00, 0xFF]), Ok(5));
    assert_eq!(decode_i32(&[0x05, 0x00, 0x00, 0x00, 0xFF]), Ok(5));
}

#[test]
fn round_trip_i8_all_values() {
    for value in i8::MIN..=i8::MAX {
        assert_eq!(decode_i8(&encode_i8(value)), Ok(value));
    }
}

#[test]
fn round_trip_i16_all_values() {
    for value in i16::MIN..=i16::MAX {
        assert_eq!(decode_i16(&encode_i16(value)), Ok(value));
    }
}

#[test]
fn round_trip_i32_edges() {
    let mut value: i32 = i32::MIN;
    loop {
        assert_eq!(decode_i32(&encode_i32(value)), Ok(value));
        match value.checked_add(65_521) {
            Some(next) => value = next,
            None => break,
        }
    }
    for value in [i32::MIN, i32::MIN + 1, -1, 0, 1, i32::MAX - 1, i32::MAX] {
        assert_eq!(decode_i32(&encode_i32(value)), Ok(value));
    }
}

#[test]
fn bytes_round_trip_through_values() {
    for low in 0..=255u8 {
        for high in [0u8, 1, 0x7F, 0x80, 0xFE, 0xFF] {
            let bytes = [low, high];
            assert_eq!(encode_i16(decode_i16(&bytes).unwrap()), bytes);
        }
        assert_eq!(encode_i8(decode_i8(&[low]).unwrap()), [low]);
    }
}

#[test]
fn short_reads_are_reported() {
    assert_eq!(decode_i8(&[]), Err(CodecError::ShortRead));
    assert_eq!(decode_i16(&[]), Err(CodecError::ShortRead));
    assert_eq!(decode_i16(&[0x01]), Err(CodecError::ShortRead));
    assert_eq!(decode_i32(&[]), Err(CodecError::ShortRead));
    assert_eq!(decode_i32(&[0x01, 0x02, 0x03]), Err(CodecError::ShortRead));
}
