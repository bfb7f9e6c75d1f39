use vstd::prelude::*;
use vstd::std_specs::cmp::{PartialEqSpecImpl, PartialOrdSpecImpl};
use vstd::std_specs::convert::FromSpecImpl;
use core::cmp::Ordering;
use crate::constants::PRESSURE;

verus! {

/// A MIDI channel message held as its three bytes (two-byte messages carry
/// a meaningless third byte).
#[derive(Clone, Copy, Debug)]
pub struct RawMessage(pub [u8; 3]);

impl RawMessage {
    /// The three bytes of the message.
    pub open spec fn bytes(self) -> Seq<u8> {
        self.0@
    }

    pub open spec fn status(self) -> u8 {
        self.0@[0]
    }

    /// The bytes as stored, all three of them.
    pub fn get_bytes(&self) -> (r: &[u8])
        ensures
            r@ == self.0@,
            r@.len() == 3,
    {
        self.0.as_slice()
    }

    /// Builds a message from its bytes.
    pub fn from_bytes(e: [u8; 3]) -> (r: RawMessage)
        ensures
            r.0 == e,
    {
        RawMessage(e)
    }

    /// The bytes to send: a channel pressure message gets a zero third byte,
    /// every other message keeps its three bytes.
    pub fn into_bytes(self) -> (r: [u8; 3])
        ensures
            r == wire_array(self.0),
            r@ == wire_bytes(self.0@),
    {
        if self.0[0] & 0xF0 == PRESSURE {
            [self.0[0], self.0[1], 0]
        } else {
            self.0
        }
    }

    /// The byte at `index`.
    pub fn index(&self, index: usize) -> (r: u8)
        requires
            index < 3,
        ensures
            r == self.0@[index as int],
    {
        self.0[index]
    }

    /// The channel, the low nibble of the status byte.
    pub fn get_channel(&self) -> (r: u8)
        ensures
            r == self.0@[0] & 0x0F,
    {
        self.0[0] & 0x0F
    }
}

/// The bytes that leave the library for a message: channel pressure has its
/// third byte cleared.
pub open spec fn wire_bytes(b: Seq<u8>) -> Seq<u8>
    recommends
        b.len() == 3,
{
    if b[0] & 0xF0 == PRESSURE {
        seq![b[0], b[1], 0u8]
    } else {
        b
    }
}

/// Two messages are equal when their first two bytes are equal.
pub open spec fn same_head(a: RawMessage, b: RawMessage) -> bool {
    a.0@[0] == b.0@[0] && a.0@[1] == b.0@[1]
}

/// Messages are ordered by status byte, then by first data byte.
pub open spec fn head_cmp(a: RawMessage, b: RawMessage) -> Option<Ordering> {
    if a.0@[0] < b.0@[0] {
        Some(Ordering::Less)
    } else if a.0@[0] > b.0@[0] {
        Some(Ordering::Greater)
    } else if a.0@[1] < b.0@[1] {
        Some(Ordering::Less)
    } else if a.0@[1] > b.0@[1] {
        Some(Ordering::Greater)
    } else {
        Some(Ordering::Equal)
    }
}

impl PartialEq for RawMessage {
    fn eq(&self, other: &Self) -> (r: bool) {
        self.0[0] == other.0[0] && self.0[1] == other.0[1]
    }
}

impl PartialEqSpecImpl for RawMessage {
    open spec fn obeys_eq_spec() -> bool {
        true
    }

    open spec fn eq_spec(&self, other: &RawMessage) -> bool {
        same_head(*self, *other)
    }
}

impl Eq for RawMessage {}

impl PartialOrd for RawMessage {
    fn partial_cmp(&self, other: &Self) -> (r: Option<Ordering>) {
        if self.0[0] < other.0[0] {
            Some(Ordering::Less)
        } else if self.0[0] > other.0[0] {
            Some(Ordering::Greater)
        } else if self.0[1] < other.0[1] {
            Some(Ordering::Less)
        } else if self.0[1] > other.0[1] {
            Some(Ordering::Greater)
        } else {
            Some(Ordering::Equal)
        }
    }
}

impl PartialOrdSpecImpl for RawMessage {
    open spec fn obeys_partial_cmp_spec() -> bool {
        true
    }

    open spec fn partial_cmp_spec(&self, other: &RawMessage) -> Option<Ordering> {
        head_cmp(*self, *other)
    }
}

impl From<[u8; 3]> for RawMessage {
    fn from(e: [u8; 3]) -> (r: RawMessage) {
        RawMessage(e)
    }
}

impl FromSpecImpl<[u8; 3]> for RawMessage {
    open spec fn obeys_from_spec() -> bool {
        true
    }

    open spec fn from_spec(e: [u8; 3]) -> RawMessage {
        RawMessage(e)
    }
}

impl From<RawMessage> for [u8; 3] {
    fn from(m: RawMessage) -> (r: [u8; 3]) {
        m.into_bytes()
    }
}

impl FromSpecImpl<RawMessage> for [u8; 3] {
    open spec fn obeys_from_spec() -> bool {
        true
    }

    open spec fn from_spec(m: RawMessage) -> [u8; 3] {
        wire_array(m.0)
    }
}

/// The array form of `wire_bytes`.
pub open spec fn wire_array(a: [u8; 3]) -> [u8; 3] {
    if a@[0] & 0xF0 == PRESSURE {
        [a@[0], a@[1], 0u8]
    } else {
        a
    }
}

} // verus!
