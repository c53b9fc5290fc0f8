//! Channel identifiers and the two typed ends of a channel.

use vstd::prelude::*;
use crate::identity::{is_v4, random_uuid_value, uuid_hyphenated, uuid_text};
use crate::text::{owned, push_str};

verus! {

/// Identifier of a communication channel.
#[derive(Debug, Clone, Copy, PartialEq, Eq, Hash, Structural)]
pub struct ChannelId(u128);

impl View for ChannelId {
    type V = u128;

    closed spec fn view(&self) -> u128 {
        self.0
    }
}

impl ChannelId {
    /// A new random channel id.
    pub fn new() -> (r: Self)
        ensures
            is_v4(r@),
    {
        ChannelId(random_uuid_value())
    }

    /// The channel id of a 128-bit UUID value.
    pub fn from_uuid(value: u128) -> (r: Self)
        ensures
            r@ == value,
    {
        ChannelId(value)
    }

    /// The 128-bit UUID value of the id.
    pub fn as_uuid(&self) -> (r: u128)
        ensures
            r == self@,
    {
        self.0
    }

    /// `Channel(` and the hyphenated UUID, then `)`.
    pub fn to_string(&self) -> (r: String)
        ensures
            r@ == "Channel("@ + uuid_hyphenated(self@) + ")"@,
    {
        let mut s = owned("Channel(");
        let u = uuid_text(self.0);
        push_str(&mut s, u.as_str());
        push_str(&mut s, ")");
        s
    }
}

/// One end of a channel: its sending or its receiving end.
#[derive(Debug, Clone, Copy, PartialEq, Eq, Structural)]
pub enum ChannelEnd {
    /// Sending end of the channel
    Sender(ChannelId),
    /// Receiving end of the channel
    Receiver(ChannelId),
}

impl ChannelEnd {
    /// The channel this end belongs to.
    pub fn channel_id(&self) -> (r: ChannelId)
        ensures
            r == match *self {
                ChannelEnd::Sender(id) => id,
                ChannelEnd::Receiver(id) => id,
            },
    {
        match self {
            ChannelEnd::Sender(id) => *id,
            ChannelEnd::Receiver(id) => *id,
        }
    }

    /// Whether this is the sending end.
    pub fn is_sender(&self) -> (r: bool)
        ensures
            r == (*self is Sender),
    {
        matches!(self, ChannelEnd::Sender(_))
    }

    /// Whether this is the receiving end.
    pub fn is_receiver(&self) -> (r: bool)
        ensures
            r == (*self is Receiver),
    {
        matches!(self, ChannelEnd::Receiver(_))
    }

    /// `Sender(` or `Receiver(`, the channel's text, then `)`.
    pub fn to_string(&self) -> (r: String)
        ensures
            r@ == match *self {
                ChannelEnd::Sender(id) => "Sender("@ + "Channel("@ + uuid_hyphenated(id@) + ")"@ + ")"@,
                ChannelEnd::Receiver(id) => "Receiver("@ + "Channel("@ + uuid_hyphenated(id@) + ")"@ + ")"@,
            },
    {
        let (mut s, id) = match self {
            ChannelEnd::Sender(id) => (owned("Sender("), id),
            ChannelEnd::Receiver(id) => (owned("Receiver("), id),
        };
        let c = id.to_string();
        push_str(&mut s, c.as_str());
        push_str(&mut s, ")");
        s
    }
}

} // verus!
