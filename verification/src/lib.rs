//! A codec for rtnetlink messages: decoding raw netlink attribute (NLA) byte
//! streams into typed values and encoding them back, byte for byte.
//!
//! The core is the generic NLA framework: the type-length-value record
//! format with its 4-byte alignment rule, streams of such records, recursive
//! nesting of attribute lists inside attribute values, per-message-kind
//! dispatch from numeric type codes to typed variants, and an
//! unknown-attribute fallback that keeps any unrecognized record verbatim.
//! Every decoder's result and every encoder's bytes are pinned by
//! specifications, and the round-trip laws are proved: decoding an encoded
//! message yields the message back, and re-encoding a message decoded from a
//! canonical buffer reproduces the buffer byte for byte.

pub mod align;
pub mod error;
pub mod nla;
pub mod values;
pub mod fallback;
pub mod tc_handle;
pub mod tc_stats;
pub mod tc_clsact;
pub mod tc_flower;
pub mod tc_options;
pub mod tc_message;
pub mod nested;
pub mod af_bridge;
pub mod words;
pub mod link_stats;
pub mod link_inet;
pub mod link_inet6;
pub mod bridge_info;
pub mod bridge_port;
pub mod link_info;
pub mod link_attrs;
pub mod link_message;

use vstd::prelude::*;
use crate::error::DecodeError;
use crate::link_message::{
    LinkMessage, LinkMessageModel, spec_link_msg_bytes, spec_link_msg_parse, spec_link_msg_wf,
    spec_link_msg_canonical, lemma_link_msg_roundtrip, lemma_link_msg_canonical,
};
use crate::tc_message::{
    TcMessage, TcMessageModel, spec_tc_msg_bytes, spec_tc_msg_parse, spec_tc_msg_wf,
    spec_tc_msg_canonical, lemma_tc_msg_roundtrip, lemma_tc_msg_canonical,
};

verus! {

/// A decoded rtnetlink message of one of the registered kinds.
#[derive(Debug, PartialEq, Eq, Clone)]
pub enum Message {
    /// A network link message.
    Link(LinkMessage),
    /// A traffic-control message: qdiscs, classes, filters, chains.
    Tc(TcMessage),
}

/// The model of a [`Message`].
pub enum MessageModel {
    Link(LinkMessageModel),
    Tc(TcMessageModel),
}

impl Message {
    /// The model of this message.
    pub open spec fn model(&self) -> MessageModel {
        match self {
            Message::Link(m) => MessageModel::Link(m.model()),
            Message::Tc(m) => MessageModel::Tc(m.model()),
        }
    }
}

/// Whether an rtnetlink message type number selects the link header layout
/// and registry.
pub open spec fn spec_is_link_kind(kind: u16) -> bool {
    16 <= kind <= 19
}

/// Whether an rtnetlink message type number selects the traffic-control
/// header layout and registry (qdisc, class, filter and chain messages).
pub open spec fn spec_is_tc_kind(kind: u16) -> bool {
    36 <= kind <= 47 || 100 <= kind <= 102
}

/// A well-formed message model.
pub open spec fn spec_message_wf(m: MessageModel) -> bool {
    match m {
        MessageModel::Link(l) => spec_link_msg_wf(l),
        MessageModel::Tc(t) => spec_tc_msg_wf(t),
    }
}

/// The bytes a message model encodes to.
pub open spec fn spec_message_bytes(m: MessageModel) -> Seq<u8> {
    match m {
        MessageModel::Link(l) => spec_link_msg_bytes(l),
        MessageModel::Tc(t) => spec_tc_msg_bytes(t),
    }
}

/// What decoding a buffer under an rtnetlink message type number yields: the
/// registered kind's parse, or `UnsupportedKind` where no header layout and
/// registry is registered for the number.
pub open spec fn spec_decode(kind: u16, b: Seq<u8>) -> Result<MessageModel, DecodeError> {
    if spec_is_link_kind(kind) {
        match spec_link_msg_parse(b) {
            Ok(l) => Ok(MessageModel::Link(l)),
            Err(e) => Err(e),
        }
    } else if spec_is_tc_kind(kind) {
        match spec_tc_msg_parse(b) {
            Ok(t) => Ok(MessageModel::Tc(t)),
            Err(e) => Err(e),
        }
    } else {
        Err(DecodeError::UnsupportedKind { kind })
    }
}

/// A canonical buffer for a message type: one that decoding then re-encoding
/// reproduces byte for byte.
pub open spec fn spec_canonical(kind: u16, b: Seq<u8>) -> bool {
    if spec_is_link_kind(kind) {
        spec_link_msg_canonical(b)
    } else {
        spec_is_tc_kind(kind) && spec_tc_msg_canonical(b)
    }
}

/// Decodes a message buffer under the given rtnetlink message type number,
/// exactly as [`spec_decode`] says.
pub fn decode(kind: u16, bytes: &[u8]) -> (r: Result<Message, DecodeError>)
    ensures
        match r {
            Ok(m) => spec_decode(kind, bytes@) == Ok::<MessageModel, DecodeError>(m.model()),
            Err(e) => spec_decode(kind, bytes@) == Err::<MessageModel, DecodeError>(e),
        },
{
    if 16 <= kind && kind <= 19 {
        match LinkMessage::parse(bytes) {
            Ok(l) => Ok(Message::Link(l)),
            Err(e) => Err(e),
        }
    } else if (36 <= kind && kind <= 47) || (100 <= kind && kind <= 102) {
        match TcMessage::parse(bytes) {
            Ok(t) => Ok(Message::Tc(t)),
            Err(e) => Err(e),
        }
    } else {
        Err(DecodeError::UnsupportedKind { kind })
    }
}

/// Encodes a message: the byte-identical buffer the kernel would accept.
pub fn encode(msg: &Message) -> (r: Vec<u8>)
    requires
        spec_message_wf(msg.model()),
    ensures
        r@ == spec_message_bytes(msg.model()),
{
    match msg {
        Message::Link(l) => l.emit(),
        Message::Tc(t) => t.emit(),
    }
}

/// The number of bytes [`encode`] writes for this message, for callers that
/// pre-allocate.
pub fn required_length(msg: &Message) -> (r: usize)
    requires
        spec_message_wf(msg.model()),
    ensures
        r == spec_message_bytes(msg.model()).len(),
{
    match msg {
        Message::Link(l) => l.buffer_len(),
        Message::Tc(t) => t.buffer_len(),
    }
}

/// The round-trip law, decode after encode: for every registered message
/// type number, decoding the encoding of a well-formed message yields that
/// message back.
pub proof fn lemma_decode_encode(kind: u16, m: MessageModel)
    requires
        spec_message_wf(m),
        m is Link ==> spec_is_link_kind(kind),
        m is Tc ==> spec_is_tc_kind(kind),
    ensures
        spec_decode(kind, spec_message_bytes(m)) == Ok::<MessageModel, DecodeError>(m),
{
    match m {
        MessageModel::Link(l) => {
            lemma_link_msg_roundtrip(l);
        },
        MessageModel::Tc(t) => {
            lemma_tc_msg_roundtrip(t);
        },
    }
}

/// The round-trip law, encode after decode: re-encoding the message decoded
/// from a canonical buffer reproduces that buffer byte for byte, and the
/// decoded message is well-formed.
pub proof fn lemma_encode_decode(kind: u16, b: Seq<u8>)
    requires
        spec_canonical(kind, b),
        spec_decode(kind, b) is Ok,
    ensures
        spec_message_bytes(spec_decode(kind, b)->Ok_0) == b,
        spec_message_wf(spec_decode(kind, b)->Ok_0),
{
    if spec_is_link_kind(kind) {
        lemma_link_msg_canonical(b);
    } else {
        lemma_tc_msg_canonical(b);
    }
}

} // verus!
