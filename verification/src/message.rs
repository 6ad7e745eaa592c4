//! A small alphabet of well-known payloads, used by harnesses that drive the
//! queue with recognizable data and check that nothing torn or stale ever
//! comes back out.

use vstd::prelude::*;

verus! {

/// One of four well-known messages.
#[derive(Debug, Clone, Copy)]
pub enum Message {
    A,
    B,
    C,
    D,
}

/// The payload that stands for each [`Message`] variant: the byte values
/// 0 through 31, eight consecutive ones per variant.
pub open spec fn range_spec(m: Message) -> Seq<u8> {
    match m {
        Message::A => seq![0u8, 1u8, 2u8, 3u8, 4u8, 5u8, 6u8, 7u8],
        Message::B => seq![8u8, 9u8, 10u8, 11u8, 12u8, 13u8, 14u8, 15u8],
        Message::C => seq![16u8, 17u8, 18u8, 19u8, 20u8, 21u8, 22u8, 23u8],
        Message::D => seq![24u8, 25u8, 26u8, 27u8, 28u8, 29u8, 30u8, 31u8],
    }
}

/// Builds the 8-byte payload standing for `m`.
pub fn range(m: Message) -> (payload: [u8; 8])
    ensures
        payload@ == range_spec(m),
{
    let payload: [u8; 8] = match m {
        Message::A => [0u8, 1u8, 2u8, 3u8, 4u8, 5u8, 6u8, 7u8],
        Message::B => [8u8, 9u8, 10u8, 11u8, 12u8, 13u8, 14u8, 15u8],
        Message::C => [16u8, 17u8, 18u8, 19u8, 20u8, 21u8, 22u8, 23u8],
        Message::D => [24u8, 25u8, 26u8, 27u8, 28u8, 29u8, 30u8, 31u8],
    };
    proof {
        assert(payload@ =~= range_spec(m));
    }
    payload
}

} // verus!
