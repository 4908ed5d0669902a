//! What the heartbeat listener does with one datagram.
//!
//! A heartbeat is a datagram that holds the text form of the sender's
//! identifier, with or without whitespace around it.  The payload is decoded,
//! trimmed and parsed.  Anything else is dropped: a datagram that cannot be
//! read never changes the store and never stops the listener.

use crate::id::{parse_uuid, uuid_parse, ServerId, ID_TEXT_LEN};
use crate::store::{touched, LivenessStore};
use crate::sweeper::LivenessEntry;
use crate::text::{decode_lossy, trim, trimmed, utf8_lossy};
use vstd::prelude::*;
use vstd::string::StrSliceExecFns;

verus! {

/// The port on which heartbeats are received.
pub const PORT: u16 = 28915;

/// Size of a heartbeat on the wire where nothing surrounds the identifier: the
/// length of its canonical text form.
pub const WIRE_LEN: usize = ID_TEXT_LEN;

/// Size of a receive buffer that holds every datagram whole, so that none is
/// cut short before it is read.
pub const DATAGRAM_CAPACITY: usize = 65_535;

/// What became of one datagram.
#[derive(Clone, Copy, PartialEq, Eq, Structural, Debug)]
pub enum Receipt {
    /// A registered server's heartbeat; its entry now holds the arrival time.
    Heartbeat(ServerId),
    /// A well-formed identifier that is not registered; nothing was changed.
    UnknownSender(ServerId),
    /// No identifier could be read; nothing was changed.
    Malformed,
}

/// The text of a datagram: its payload, decoded and without the whitespace
/// around it.
pub open spec fn payload_text(payload: Seq<u8>) -> Seq<char> {
    trimmed(utf8_lossy(payload))
}

/// The identifier that a datagram carries: what its text parses to, and none
/// where the text is longer than an identifier's canonical form.
pub open spec fn payload_id(payload: Seq<u8>) -> Option<ServerId> {
    if payload_text(payload).len() > WIRE_LEN {
        None
    } else {
        uuid_parse(payload_text(payload))
    }
}

/// The receipt for a datagram that was read as `parsed`, given the store before
/// it arrived.
pub open spec fn receipt_for(m: Map<ServerId, LivenessEntry>, parsed: Option<ServerId>) -> Receipt {
    match parsed {
        None => Receipt::Malformed,
        Some(id) => if m.contains_key(id) {
            Receipt::Heartbeat(id)
        } else {
            Receipt::UnknownSender(id)
        },
    }
}

/// The store after a datagram that was read as `parsed` arrived at `now`.
pub open spec fn recorded(
    m: Map<ServerId, LivenessEntry>,
    parsed: Option<ServerId>,
    now: u64,
) -> Map<ServerId, LivenessEntry> {
    match parsed {
        None => m,
        Some(id) => touched(m, id, now),
    }
}

/// Reads the identifier out of a datagram's payload.
pub fn read_payload(payload: &[u8]) -> (parsed: Option<ServerId>)
    ensures
        parsed == payload_id(payload@),
{
    let decoded = decode_lossy(payload);
    let text = trim(decoded.as_str());
    if text.unicode_len() > WIRE_LEN {
        None
    } else {
        parse_uuid(text)
    }
}

/// Applies to the store what was read from a datagram that arrived at `now`.
/// Only the heartbeat of a registered server changes the store, and it changes
/// that server's heartbeat time alone.
pub fn record(store: &mut LivenessStore, parsed: Option<ServerId>, now: u64) -> (receipt: Receipt)
    ensures
        receipt == receipt_for(old(store)@, parsed),
        final(store)@ == recorded(old(store)@, parsed, now),
        final(store)@.dom() == old(store)@.dom(),
        !(receipt is Heartbeat) ==> final(store)@ == old(store)@,
{
    match parsed {
        None => Receipt::Malformed,
        Some(id) => if store.touch(id, now) {
            Receipt::Heartbeat(id)
        } else {
            Receipt::UnknownSender(id)
        },
    }
}

/// Handles one datagram that arrived at `now`.
pub fn handle_datagram(store: &mut LivenessStore, payload: &[u8], now: u64) -> (receipt: Receipt)
    ensures
        receipt == receipt_for(old(store)@, payload_id(payload@)),
        final(store)@ == recorded(old(store)@, payload_id(payload@), now),
        final(store)@.dom() == old(store)@.dom(),
        !(receipt is Heartbeat) ==> final(store)@ == old(store)@,
{
    let parsed = read_payload(payload);
    record(store, parsed, now)
}

} // verus!
