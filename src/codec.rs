//! Whole messages: encoding to bytes and decoding from bytes.
use vstd::prelude::*;

use crate::protocol::{ConfigMsgIn, ConfigMsgOut};
use crate::schema::SameIsEq;
use crate::wire::{occurs_at, varint, Wire, lemma_occurs_concat, lemma_varint_unique};

verus! {

/// The failures of the protocol core.
#[derive(Clone, Copy, Debug, PartialEq, Eq)]
pub enum FpError {
    /// No USB device with the expected vendor and product id.
    DeviceNotFound,
    /// The device offers no vendor-class interface.
    InterfaceNotFound,
    /// The interface lacks a bulk IN or bulk OUT endpoint.
    EndpointNotFound,
    /// A transfer on the bus failed.
    IoError,
    /// Corrupt byte stuffing or a length prefix that does not match.
    FramingError,
    /// Truncated input, an unknown variant, or an overlong length.
    DecodeError,
    /// The device answered with a message the protocol does not allow here.
    ProtocolViolation,
}

/// The message whose encoding starts `s`, which is the only one there.
pub open spec fn decodes_to<T: Wire>(s: Seq<u8>, m: T) -> bool {
    &&& occurs_at(s, 0, m.wire())
    &&& forall|y: T| #[trigger] occurs_at(s, 0, y.wire()) ==> y.wire() == m.wire() && y.same(&m)
}

/// No message's encoding starts `s`.
pub open spec fn decodes_to_nothing<T: Wire>(s: Seq<u8>) -> bool {
    forall|y: T| !#[trigger] occurs_at(s, 0, y.wire())
}

/// The bytes of `msg`.
pub fn encode_message<T: Wire>(msg: &T) -> (r: Vec<u8>)
    ensures
        r@ == msg.wire(),
{
    let mut out: Vec<u8> = Vec::new();
    msg.encode(&mut out);
    assert(out@ =~= msg.wire());
    out
}

/// Reads one message from the start of `bytes`; what follows it is ignored.
pub fn decode_message<T: Wire>(bytes: &[u8]) -> (r: Result<T, FpError>)
    ensures
        match r {
            Ok(m) => decodes_to(bytes@, m),
            Err(e) => e == FpError::DecodeError && decodes_to_nothing::<T>(bytes@),
        },
{
    match T::decode(bytes, 0) {
        Some((m, _)) => Ok(m),
        None => Err(FpError::DecodeError),
    }
}

/// Decoding the encoding of any value, with anything after it, gives back
/// that value.
pub proof fn lemma_round_trip<T: Wire>(x: T, rest: Seq<u8>)
    ensures
        !decodes_to_nothing::<T>(x.wire() + rest),
        forall|m: T| #[trigger] decodes_to(x.wire() + rest, m) ==> m.wire() == x.wire() && x.same(&m),
{
    let s = x.wire() + rest;
    assert(s.subrange(0, x.wire().len() as int) =~= x.wire());
    assert(occurs_at(s, 0, x.wire()));
}

/// A request from the host decodes to exactly the request that was
/// encoded, whatever follows it.
pub proof fn lemma_request_round_trip(x: ConfigMsgIn, rest: Seq<u8>)
    ensures
        !decodes_to_nothing::<ConfigMsgIn>(x.wire() + rest),
        forall|m: ConfigMsgIn| #[trigger] decodes_to(x.wire() + rest, m) ==> m == x,
{
    lemma_round_trip(x, rest);
    assert forall|m: ConfigMsgIn| #[trigger] decodes_to(x.wire() + rest, m) implies m == x by {
        ConfigMsgIn::lemma_same_is_eq(x, m);
    }
}

/// A message starting with the index `k` of a declared variant decodes to a
/// message of that variant; an index past the last variant decodes to nothing.
pub proof fn lemma_request_discriminant(k: nat, s: Seq<u8>)
    requires
        occurs_at(s, 0, varint(k)),
    ensures
        forall|m: ConfigMsgIn| #[trigger] decodes_to(s, m) ==> m.variant_index() == k,
        k >= 10 ==> decodes_to_nothing::<ConfigMsgIn>(s),
{
    assert forall|m: ConfigMsgIn| #[trigger] occurs_at(s, 0, m.wire()) implies m.variant_index() == k by {
        lemma_occurs_concat(s, 0, varint(m.variant_index()), m.payload_wire());
        lemma_varint_unique(s, 0, m.variant_index(), k);
    }
}

/// The same for device messages.
pub proof fn lemma_response_discriminant(k: nat, s: Seq<u8>)
    requires
        occurs_at(s, 0, varint(k)),
    ensures
        forall|m: ConfigMsgOut| #[trigger] decodes_to(s, m) ==> m.variant_index() == k,
        k >= 7 ==> decodes_to_nothing::<ConfigMsgOut>(s),
{
    assert forall|m: ConfigMsgOut| #[trigger] occurs_at(s, 0, m.wire()) implies m.variant_index() == k by {
        lemma_occurs_concat(s, 0, varint(m.variant_index()), m.payload_wire());
        lemma_varint_unique(s, 0, m.variant_index(), k);
    }
}

} // verus!
