//! Events, their timestamps, and what a stream of events offers.

use vstd::prelude::*;
use vstd::std_specs::convert::FromSpecImpl;
use vstd::string::StringExecFns;
use crate::metadata::copy_vec;
use crate::text::{decimal, decimal_text};

verus! {

/// The point in time of an event. Timestamps are ordered by their value.
#[derive(Clone, Copy, Debug, PartialEq, Eq, PartialOrd, Ord, Structural)]
pub struct Timestamp(pub u64);

impl From<u64> for Timestamp {
    fn from(t: u64) -> (ts: Timestamp) {
        Timestamp(t)
    }
}

impl FromSpecImpl<u64> for Timestamp {
    open spec fn obeys_from_spec() -> bool {
        true
    }

    open spec fn from_spec(t: u64) -> Timestamp {
        Timestamp(t)
    }
}

/// The eight bytes of a value, most significant first.
pub open spec fn be_bytes(value: u64) -> Seq<u8> {
    seq![
        (value >> 56) as u8,
        ((value >> 48) & 0xff) as u8,
        ((value >> 40) & 0xff) as u8,
        ((value >> 32) & 0xff) as u8,
        ((value >> 24) & 0xff) as u8,
        ((value >> 16) & 0xff) as u8,
        ((value >> 8) & 0xff) as u8,
        (value & 0xff) as u8,
    ]
}

/// The value whose bytes, most significant first, are `bytes`.
pub open spec fn from_be_bytes(bytes: Seq<u8>) -> u64
    recommends
        bytes.len() == 8,
{
    (bytes[0] as u64) << 56 | (bytes[1] as u64) << 48 | (bytes[2] as u64) << 40 | (bytes[3] as u64) << 32
        | (bytes[4] as u64) << 24 | (bytes[5] as u64) << 16 | (bytes[6] as u64) << 8 | (bytes[7] as u64)
}

/// Reading back the bytes of a value gives the value.
pub proof fn lemma_be_bytes_round_trip(value: u64)
    ensures
        be_bytes(value).len() == 8,
        from_be_bytes(be_bytes(value)) == value,
{
    let b = be_bytes(value);
    assert(((value >> 56) as u8 as u64) << 56 | (((value >> 48) & 0xff) as u8 as u64) << 48 | (((value
        >> 40) & 0xff) as u8 as u64) << 40 | (((value >> 32) & 0xff) as u8 as u64) << 32 | (((value >> 24)
        & 0xff) as u8 as u64) << 24 | (((value >> 16) & 0xff) as u8 as u64) << 16 | (((value >> 8) & 0xff) as u8 as u64)
        << 8 | ((value & 0xff) as u8 as u64) == value) by (bit_vector);
}

impl Timestamp {
    /// The value of the timestamp.
    pub fn value(&self) -> (value: u64)
        ensures
            value == self.0,
    {
        self.0
    }

    /// The timestamp as eight bytes, most significant first, as it is
    /// written to a file.
    pub fn serialize(&self) -> (bytes: Vec<u8>)
        ensures
            bytes@ == be_bytes(self.0),
    {
        let v = self.0;
        let mut bytes: Vec<u8> = Vec::new();
        bytes.push((v >> 56) as u8);
        bytes.push(((v >> 48) & 0xff) as u8);
        bytes.push(((v >> 40) & 0xff) as u8);
        bytes.push(((v >> 32) & 0xff) as u8);
        bytes.push(((v >> 24) & 0xff) as u8);
        bytes.push(((v >> 16) & 0xff) as u8);
        bytes.push(((v >> 8) & 0xff) as u8);
        bytes.push((v & 0xff) as u8);
        assert(bytes@ =~= be_bytes(v));
        bytes
    }

    /// Reads a timestamp from eight bytes, most significant first; any
    /// other number of bytes is no timestamp.
    pub fn deserialize(bytes: &Vec<u8>) -> (ts: Option<Timestamp>)
        ensures
            ts == if bytes@.len() == 8 {
                Some(Timestamp(from_be_bytes(bytes@)))
            } else {
                None
            },
    {
        if bytes.len() != 8 {
            return None;
        }
        let value = (bytes[0] as u64) << 56 | (bytes[1] as u64) << 48 | (bytes[2] as u64) << 40 | (
        bytes[3] as u64) << 32 | (bytes[4] as u64) << 24 | (bytes[5] as u64) << 16 | (bytes[6] as u64) << 8
            | (bytes[7] as u64);
        Some(Timestamp(value))
    }

    /// The timestamp as it is shown in messages.
    pub open spec fn spec_debug(self) -> Seq<char> {
        "Timestamp("@ + decimal_text(self.0 as nat) + ")"@
    }

    /// The timestamp as it is shown in messages.
    pub fn debug(&self) -> (text: String)
        ensures
            text@ == self.spec_debug(),
    {
        let mut text = String::from_str("Timestamp(");
        let digits = decimal(self.0);
        text.append(digits.as_str());
        text.append(")");
        text
    }
}

/// One event of a stream.
#[derive(Debug, PartialEq, Eq)]
pub struct Event {
    pub ts: Timestamp,
    pub data: Vec<u8>,
}

/// The mathematical content of an `Event`.
pub struct EventView {
    pub ts: u64,
    pub data: Seq<u8>,
}

impl View for Event {
    type V = EventView;

    open spec fn view(&self) -> EventView {
        EventView { ts: self.ts.0, data: self.data@ }
    }
}

impl Clone for Event {
    fn clone(&self) -> (copy: Event)
        ensures
            copy@ == self@,
    {
        Event { ts: self.ts, data: copy_vec(&self.data) }
    }
}

/// What a stream can fail with.
#[derive(Debug, PartialEq, Eq)]
pub enum Error {
    InvalidArgument(String),
    Unknown(String),
}

/// The contents of a list of events.
pub open spec fn event_views(events: Seq<Event>) -> Seq<EventView> {
    events.map_values(|e: Event| e@)
}

/// A stream of events.
pub trait Stream {
    /// Reads the events since a timestamp (inclusive).
    fn read_events(&self, ts: Timestamp) -> (result: Result<Vec<Event>, Error>);

    /// Appends an event.
    fn append_event(&mut self, event: Event) -> (result: Result<(), Error>);

    /// Releases the events up to a timestamp (exclusive).
    fn release_events(&mut self, ts: Timestamp) -> (result: Result<(), Error>);
}

} // verus!
