use robust_arduino_serial::{
    decode_frame, encode_command, missing_bytes, read_frame, write_command, ByteStream,
    CodecError, Command, Frame, Order,
};

fn command(order: Order, payload: i32) -> Command {
    Command { order, payload }
}

#[test]
fn motor_frame_bytes() {
    let frame = encode_command(command(Order::MOTOR, -56));
    assert_eq!(frame, vec![1, 0xC8]);
    assert_eq!(decode_frame(&frame), Ok((Frame::Known(command(Order::MOTOR, -56)), 2)));
}

#[test]
fn servo_frame_bytes() {
    let frame = encode_command(command(Order::SERVO, 120));
    assert_eq!(frame, vec![2, 0x78, 0x00]);
    assert_eq!(decode_frame(&frame), Ok((Frame::Known(command(Order::SERVO, 120)), 3)));
}

#[test]
fn orders_without_payload_are_one_byte() {
    assert_eq!(encode_command(command(Order::HELLO, 0)), vec![0]);
    assert_eq!(encode_command(command(Order::ALREADY_CONNECTED, 0)), vec![3]);
    assert_eq!(encode_command(command(Order::ERROR, 0)), vec![4]);
    assert_eq!(encode_command(command(Order::RECEIVED, 0)), vec![5]);
    assert_eq!(encode_command(command(Order::STOP, 0)), vec![6]);
    // A payload given with such an order does not go on the wire.
    assert_eq!(encode_command(command(Order::HELLO, 42)), vec![0]);
    assert_eq!(decode_frame(&[5]), Ok((Frame::Known(command(Order::RECEIVED, 0)), 1)));
}

#[test]
fn payload_keeps_its_low_bytes() {
    assert_eq!(encode_command(command(Order::MOTOR, 42)), vec![1, 42]);
    assert_eq!(encode_command(command(Order::MOTOR, 300)), vec![1, 0x2C]);
    assert_eq!(encode_command(command(Order::MOTOR, -129)), vec![1, 0x7F]);
    assert_eq!(encode_command(command(Order::SERVO, 0x12345)), vec![2, 0x45, 0x23]);
    assert_eq!(encode_command(command(Order::SERVO, -1)), vec![2, 0xFF, 0xFF]);
    assert_eq!(encode_command(command(Order::SERVO, i32::MIN)), vec![2, 0x00, 0x00]);
}

#[test]
fn frames_round_trip_when_payload_fits() {
    for speed in i8::MIN..=i8::MAX {
        let sent = command(Order::MOTOR, speed as i32);
        assert_eq!(decode_frame(&encode_command(sent)), Ok((Frame::Known(sent), 2)));
    }
    for angle in [i16::MIN, -355, -1, 0, 1, 120, 512, i16::MAX] {
        let sent = command(Order::SERVO, angle as i32);
        assert_eq!(decode_frame(&encode_command(sent)), Ok((Frame::Known(sent), 3)));
    }
    for order in [Order::HELLO, Order::ALREADY_CONNECTED, Order::ERROR, Order::RECEIVED, Order::STOP]
    {
        let sent = command(order, 0);
        assert_eq!(decode_frame(&encode_command(sent)), Ok((Frame::Known(sent), 1)));
    }
}

#[test]
fn decode_frame_ignores_what_follows() {
    assert_eq!(
        decode_frame(&[1, 0xC8, 2, 0x78, 0x00]),
        Ok((Frame::Known(command(Order::MOTOR, -56)), 2))
    );
    assert_eq!(decode_frame(&[0, 9, 9]), Ok((Frame::Known(command(Order::HELLO, 0)), 1)));
}

#[test]
fn unknown_tag_is_a_frame_of_one_byte() {
    assert_eq!(decode_frame(&[99]), Ok((Frame::Unknown(99), 1)));
    assert_eq!(decode_frame(&[7, 1, 2]), Ok((Frame::Unknown(7), 1)));
    assert_eq!(decode_frame(&[0xFF]), Ok((Frame::Unknown(-1), 1)));
    assert_eq!(decode_frame(&[0x80]), Ok((Frame::Unknown(i8::MIN), 1)));
}

#[test]
fn incomplete_frames_are_short_reads() {
    assert_eq!(decode_frame(&[]), Err(CodecError::ShortRead));
    assert_eq!(decode_frame(&[1]), Err(CodecError::ShortRead));
    assert_eq!(decode_frame(&[2]), Err(CodecError::ShortRead));
    assert_eq!(decode_frame(&[2, 0x78]), Err(CodecError::ShortRead));
}

#[test]
fn frames_through_a_stream() {
    let mut stream = ByteStream::new();
    write_command(&mut stream, command(Order::HELLO, 0));
    write_command(&mut stream, command(Order::MOTOR, -56));
    write_command(&mut stream, command(Order::SERVO, 120));
    write_command(&mut stream, command(Order::RECEIVED, 0));
    assert_eq!(stream.position(), 7);
    stream.rewind();
    assert_eq!(stream.peek(), &[0, 1, 0xC8, 2, 0x78, 0x00, 5]);
    assert_eq!(read_frame(&mut stream), Ok(Frame::Known(command(Order::HELLO, 0))));
    assert_eq!(read_frame(&mut stream), Ok(Frame::Known(command(Order::MOTOR, -56))));
    assert_eq!(read_frame(&mut stream), Ok(Frame::Known(command(Order::SERVO, 120))));
    assert_eq!(read_frame(&mut stream), Ok(Frame::Known(command(Order::RECEIVED, 0))));
    assert_eq!(read_frame(&mut stream), Err(CodecError::ShortRead));
    assert_eq!(stream.position(), 7);
}

#[test]
fn read_frame_waits_for_the_whole_frame() {
    let mut stream = ByteStream::from_bytes(vec![2, 0x78]);
    assert_eq!(read_frame(&mut stream), Err(CodecError::ShortRead));
    assert_eq!(stream.position(), 0);
    stream.seek(2);
    stream.write_all(&[0x00]);
    stream.rewind();
    assert_eq!(read_frame(&mut stream), Ok(Frame::Known(command(Order::SERVO, 120))));
    assert_eq!(stream.position(), 3);
}

#[test]
fn read_frame_steps_over_unknown_tags() {
    let mut stream = ByteStream::from_bytes(vec![99, 5]);
    assert_eq!(read_frame(&mut stream), Ok(Frame::Unknown(99)));
    assert_eq!(stream.position(), 1);
    assert_eq!(read_frame(&mut stream), Ok(Frame::Known(command(Order::RECEIVED, 0))));
}

#[test]
fn write_command_replaces_bytes_at_the_position() {
    let mut stream = ByteStream::from_bytes(vec![9, 9, 9, 9]);
    stream.seek(1);
    write_command(&mut stream, command(Order::MOTOR, 7));
    assert_eq!(stream.position(), 3);
    assert_eq!(stream.into_bytes(), vec![9, 1, 7, 9]);
}

#[test]
fn missing_bytes_counts_down_to_a_frame() {
    assert_eq!(missing_bytes(&[]), 1);
    assert_eq!(missing_bytes(&[0]), 0);
    assert_eq!(missing_bytes(&[1]), 1);
    assert_eq!(missing_bytes(&[1, 0xC8]), 0);
    assert_eq!(missing_bytes(&[2]), 2);
    assert_eq!(missing_bytes(&[2, 0x78]), 1);
    assert_eq!(missing_bytes(&[2, 0x78, 0x00]), 0);
    assert_eq!(missing_bytes(&[2, 0x78, 0x00, 0x55]), 0);
    assert_eq!(missing_bytes(&[5]), 0);
    assert_eq!(missing_bytes(&[99]), 0);
    assert_eq!(missing_bytes(&[0xFF]), 0);
}

#[test]
fn missing_bytes_is_zero_exactly_when_a_frame_decodes() {
    for tag in 0..=255u8 {
        for have in 0..4usize {
            let mut bytes = vec![tag];
            bytes.resize(1 + have, 0x11);
            assert_eq!(missing_bytes(&bytes) == 0, decode_frame(&bytes).is_ok());
            let missing = missing_bytes(&bytes);
            bytes.resize(bytes.len() + missing, 0x22);
            assert!(decode_frame(&bytes).is_ok());
        }
    }
}
