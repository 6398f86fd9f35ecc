use robust_arduino_serial::order::ORDER_COUNT;
use robust_arduino_serial::Order::{ALREADY_CONNECTED, ERROR, HELLO, MOTOR, RECEIVED, SERVO, STOP};
use robust_arduino_serial::{convert_i8_to_order, convert_order_to_i8, Order};

#[test]
fn test_order_conversion() {
    let orders: [Order; 7] = [HELLO, MOTOR, SERVO, ALREADY_CONNECTED, ERROR, RECEIVED, STOP];

    for (i, order) in orders.iter().enumerate() {
        assert_eq!(Order::from_i8(i as i8).unwrap(), *order);
    }
}

#[test]
fn tags_are_the_documented_ones() {
    assert_eq!(convert_order_to_i8(Order::HELLO), 0);
    assert_eq!(convert_order_to_i8(Order::MOTOR), 1);
    assert_eq!(convert_order_to_i8(Order::SERVO), 2);
    assert_eq!(convert_order_to_i8(Order::ALREADY_CONNECTED), 3);
    assert_eq!(convert_order_to_i8(Order::ERROR), 4);
    assert_eq!(convert_order_to_i8(Order::RECEIVED), 5);
    assert_eq!(convert_order_to_i8(Order::STOP), 6);
    assert_eq!(ORDER_COUNT, 7);
}

#[test]
fn tag_agrees_with_numeric_cast() {
    assert_eq!(Order::HELLO as i8, Order::HELLO.to_i8());
    assert_eq!(Order::MOTOR as i8, Order::MOTOR.to_i8());
    assert_eq!(Order::SERVO as i8, Order::SERVO.to_i8());
    assert_eq!(Order::ALREADY_CONNECTED as i8, Order::ALREADY_CONNECTED.to_i8());
    assert_eq!(Order::ERROR as i8, Order::ERROR.to_i8());
    assert_eq!(Order::RECEIVED as i8, Order::RECEIVED.to_i8());
    assert_eq!(Order::STOP as i8, Order::STOP.to_i8());
}

#[test]
fn every_tag_round_trips() {
    for tag in i8::MIN..=i8::MAX {
        match convert_i8_to_order(tag) {
            Some(order) => {
                assert!((0..ORDER_COUNT).contains(&tag));
                assert_eq!(convert_order_to_i8(order), tag);
                assert_eq!(convert_i8_to_order(convert_order_to_i8(order)), Some(order));
            }
            None => assert!(!(0..ORDER_COUNT).contains(&tag)),
        }
    }
}

#[test]
fn tags_out_of_range_are_unknown() {
    assert_eq!(convert_i8_to_order(7), None);
    assert_eq!(convert_i8_to_order(99), None);
    assert_eq!(convert_i8_to_order(-1), None);
    assert_eq!(convert_i8_to_order(i8::MIN), None);
    assert_eq!(convert_i8_to_order(i8::MAX), None);
    assert_eq!(Order::from_i8(99), None);
}

#[test]
fn payload_widths() {
    assert_eq!(Order::HELLO.payload_len(), 0);
    assert_eq!(Order::MOTOR.payload_len(), 1);
    assert_eq!(Order::SERVO.payload_len(), 2);
    assert_eq!(Order::ALREADY_CONNECTED.payload_len(), 0);
    assert_eq!(Order::ERROR.payload_len(), 0);
    assert_eq!(Order::RECEIVED.payload_len(), 0);
    assert_eq!(Order::STOP.payload_len(), 0);
}
