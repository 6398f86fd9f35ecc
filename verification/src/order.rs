//! Command kinds ("orders") and their wire tags.
//!
//! The mapping between orders and tags is fixed here, once, by
//! [`Order::tag`]; every other function of the crate goes through it.
//!
//! | tag | order               | payload                 |
//! |-----|---------------------|-------------------------|
//! | 0   | `HELLO`             | none                    |
//! | 1   | `MOTOR`             | one signed byte         |
//! | 2   | `SERVO`             | two bytes, signed, LE   |
//! | 3   | `ALREADY_CONNECTED` | none                    |
//! | 4   | `ERROR`             | none                    |
//! | 5   | `RECEIVED`          | none                    |
//! | 6   | `STOP`              | none                    |

use vstd::prelude::*;

verus! {

/// A command kind exchanged between the controller and its peer.
///
/// The variants are declared in tag order, so a plain numeric cast of a
/// variant agrees with [`Order::tag`].
#[derive(Debug, PartialEq, Eq, Clone, Copy, Structural)]
#[allow(non_camel_case_types)]
pub enum Order {
    HELLO,
    MOTOR,
    SERVO,
    ALREADY_CONNECTED,
    ERROR,
    RECEIVED,
    STOP,
}

/// Number of orders; the valid tags are `0..ORDER_COUNT`.
pub const ORDER_COUNT: i8 = 7;

impl Order {
    /// The wire tag of an order. This table is the protocol's single source
    /// of truth for the tag assignment.
    pub open spec fn tag(self) -> i8 {
        match self {
            Order::HELLO => 0,
            Order::MOTOR => 1,
            Order::SERVO => 2,
            Order::ALREADY_CONNECTED => 3,
            Order::ERROR => 4,
            Order::RECEIVED => 5,
            Order::STOP => 6,
        }
    }

    /// Number of payload bytes that follow the tag of this order on the wire.
    pub open spec fn payload_width(self) -> nat {
        match self {
            Order::MOTOR => 1,
            Order::SERVO => 2,
            _ => 0,
        }
    }

    /// Whether receiving this order frees one unit of the flow-control gate.
    pub open spec fn is_acknowledgment(self) -> bool {
        self == Order::RECEIVED
    }

    /// Shortcut for [`convert_i8_to_order`].
    pub fn from_i8(num: i8) -> (order: Option<Order>)
        ensures
            order == order_of_tag(num as int),
            order is Some <==> valid_tag(num as int),
            order matches Some(known) ==> known.tag() == num,
    {
        convert_i8_to_order(num)
    }

    /// Shortcut for [`convert_order_to_i8`].
    pub fn to_i8(self) -> (tag: i8)
        ensures
            tag == self.tag(),
    {
        convert_order_to_i8(self)
    }

    /// Number of payload bytes that follow the tag of this order on the wire.
    pub fn payload_len(self) -> (len: usize)
        ensures
            len == self.payload_width(),
    {
        match self {
            Order::MOTOR => 1,
            Order::SERVO => 2,
            _ => 0,
        }
    }
}

/// Whether `tag` names an order.
pub open spec fn valid_tag(tag: int) -> bool {
    0 <= tag < ORDER_COUNT
}

/// The order with the given tag, if there is one: the inverse of
/// [`Order::tag`].
pub open spec fn order_of_tag(tag: int) -> Option<Order> {
    if exists|order: Order| order.tag() == tag {
        Some(choose|order: Order| order.tag() == tag)
    } else {
        None
    }
}

/// Convert a tag to its order. A tag outside `0..ORDER_COUNT` is no error: it
/// gives `None`, and the caller decides what to do with the unknown order.
pub fn convert_i8_to_order(order: i8) -> (converted: Option<Order>)
    ensures
        converted == order_of_tag(order as int),
        converted is Some <==> valid_tag(order as int),
        converted matches Some(known) ==> known.tag() == order,
{
    let converted = match order {
        0 => Some(Order::HELLO),
        1 => Some(Order::MOTOR),
        2 => Some(Order::SERVO),
        3 => Some(Order::ALREADY_CONNECTED),
        4 => Some(Order::ERROR),
        5 => Some(Order::RECEIVED),
        6 => Some(Order::STOP),
        _ => None,
    };
    proof {
        lemma_order_of_tag(order as int);
        if let Some(known) = converted {
            lemma_tag_of_order(known);
        }
    }
    converted
}

/// Convert an order to its tag.
pub fn convert_order_to_i8(order: Order) -> (tag: i8)
    ensures
        tag == order.tag(),
        valid_tag(tag as int),
{
    match order {
        Order::HELLO => 0,
        Order::MOTOR => 1,
        Order::SERVO => 2,
        Order::ALREADY_CONNECTED => 3,
        Order::ERROR => 4,
        Order::RECEIVED => 5,
        Order::STOP => 6,
    }
}

/// Every order is found again from its tag: tagging is injective, and its
/// tags are exactly `0..ORDER_COUNT`.
pub proof fn lemma_tag_of_order(order: Order)
    ensures
        valid_tag(order.tag() as int),
        order_of_tag(order.tag() as int) == Some(order),
{
}

/// Every valid tag names exactly one order, and that order carries the tag;
/// every other tag names none.
pub proof fn lemma_order_of_tag(tag: int)
    ensures
        valid_tag(tag) ==> order_of_tag(tag) is Some && order_of_tag(tag).unwrap().tag() == tag,
        !valid_tag(tag) ==> order_of_tag(tag) is None,
{
    if valid_tag(tag) {
        let witness = if tag == 0 {
            Order::HELLO
        } else if tag == 1 {
            Order::MOTOR
        } else if tag == 2 {
            Order::SERVO
        } else if tag == 3 {
            Order::ALREADY_CONNECTED
        } else if tag == 4 {
            Order::ERROR
        } else if tag == 5 {
            Order::RECEIVED
        } else {
            Order::STOP
        };
        assert(witness.tag() == tag);
    } else {
        assert forall|order: Order| order.tag() != tag by {
            lemma_tag_of_order(order);
        }
    }
}

/// Converting a tag to an order, back to a tag and to an order again gives
/// what the first conversion gave.
pub proof fn lemma_tag_round_trip(tag: int)
    ensures
        order_of_tag(tag) matches Some(order) ==> order_of_tag(order.tag() as int) == order_of_tag(
            tag,
        ),
{
    lemma_order_of_tag(tag);
}

} // verus!
