//! The event record and the closed set of instrumented calls.

use vstd::prelude::*;

verus! {

/// Identifies which instrumented call a record pertains to.
///
/// Each variant has a stable small-integer encoding, shared between the
/// tracking engine and the consumer as part of the binary record layout,
/// and a human-readable name used in alert text.
#[allow(non_camel_case_types)]
#[derive(Copy, Clone, Debug, PartialEq, Eq, Structural)]
pub enum EventType {
    clock_gettime,
    fsync,
    fdatasync,
    down_killable,
    down_read_killable,
    down_write_killable,
    posix_fadvise,
}

/// A latency record: one over-deadline call exit, immutable once constructed.
#[derive(Copy, Clone, Debug, PartialEq, Eq, Structural)]
pub struct Event {
    pub pid: u32,
    pub elapsed_ns: u64,
    pub event_type: EventType,
}

impl EventType {
    /// The stable wire encoding of each variant.
    pub open spec fn encoding_spec(self) -> u32 {
        match self {
            EventType::clock_gettime => 0,
            EventType::fsync => 1,
            EventType::fdatasync => 2,
            EventType::down_killable => 3,
            EventType::down_read_killable => 4,
            EventType::down_write_killable => 5,
            EventType::posix_fadvise => 6,
        }
    }

    /// The variant encoded by `code`, if any.
    pub open spec fn decode_spec(code: u32) -> Option<EventType> {
        if code == 0 {
            Some(EventType::clock_gettime)
        } else if code == 1 {
            Some(EventType::fsync)
        } else if code == 2 {
            Some(EventType::fdatasync)
        } else if code == 3 {
            Some(EventType::down_killable)
        } else if code == 4 {
            Some(EventType::down_read_killable)
        } else if code == 5 {
            Some(EventType::down_write_killable)
        } else if code == 6 {
            Some(EventType::posix_fadvise)
        } else {
            None
        }
    }

    /// The stable wire encoding of this variant.
    pub fn encoding(self) -> (r: u32)
        ensures
            r == self.encoding_spec(),
    {
        match self {
            EventType::clock_gettime => 0,
            EventType::fsync => 1,
            EventType::fdatasync => 2,
            EventType::down_killable => 3,
            EventType::down_read_killable => 4,
            EventType::down_write_killable => 5,
            EventType::posix_fadvise => 6,
        }
    }

    /// Decodes a wire encoding back to its variant; rejects unknown codes.
    pub fn decode(code: u32) -> (r: Option<EventType>)
        ensures
            r == EventType::decode_spec(code),
    {
        match code {
            0 => Some(EventType::clock_gettime),
            1 => Some(EventType::fsync),
            2 => Some(EventType::fdatasync),
            3 => Some(EventType::down_killable),
            4 => Some(EventType::down_read_killable),
            5 => Some(EventType::down_write_killable),
            6 => Some(EventType::posix_fadvise),
            _ => None,
        }
    }

    /// Decoding inverts the encoding: every variant round-trips through its
    /// wire code, which lies in the closed set of known codes.
    pub proof fn lemma_encoding_round_trip(self)
        ensures
            EventType::decode_spec(self.encoding_spec()) == Some(self),
            self.encoding_spec() <= 6,
    {
    }
}

impl From<EventType> for u32 {
    fn from(value: EventType) -> (r: u32) {
        value.encoding()
    }
}

impl vstd::std_specs::convert::FromSpecImpl<EventType> for u32 {
    open spec fn obeys_from_spec() -> bool {
        true
    }

    open spec fn from_spec(t: EventType) -> u32 {
        t.encoding_spec()
    }
}

/// The human-readable name of an instrumented call, used in logs and alerts.
pub trait ToStr {
    /// What `to_str` returns, as a sequence of characters.
    spec fn to_str_spec(&self) -> Seq<char>;

    /// The human-readable name.
    fn to_str(&self) -> (r: &'static str)
        ensures
            r@ == self.to_str_spec(),
    ;
}

impl ToStr for EventType {
    open spec fn to_str_spec(&self) -> Seq<char> {
        match self {
            EventType::clock_gettime => "clock_gettime"@,
            EventType::fsync => "fsync"@,
            EventType::fdatasync => "fdatasync"@,
            EventType::down_killable => "down_killable"@,
            EventType::down_read_killable => "down_read_killable"@,
            EventType::down_write_killable => "down_write_killable"@,
            EventType::posix_fadvise => "posix_fadvise"@,
        }
    }

    fn to_str(&self) -> (r: &'static str) {
        match self {
            EventType::clock_gettime => "clock_gettime",
            EventType::fsync => "fsync",
            EventType::fdatasync => "fdatasync",
            EventType::down_killable => "down_killable",
            EventType::down_read_killable => "down_read_killable",
            EventType::down_write_killable => "down_write_killable",
            EventType::posix_fadvise => "posix_fadvise",
        }
    }
}

} // verus!
