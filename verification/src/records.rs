use vstd::prelude::*;

verus! {

/// The mutable fields of a record: the canonical key/value shape
/// shared between direct calls and binary payload decoding.
#[derive(Debug, PartialEq, Eq)]
pub struct CanonicalPayload {
    pub key: Vec<u8>,
    pub value: Vec<u8>,
}

/// The mathematical model of a `CanonicalPayload`.
#[verifier::ext_equal]
pub ghost struct PayloadV {
    pub key: Seq<u8>,
    pub value: Seq<u8>,
}

impl View for CanonicalPayload {
    type V = PayloadV;

    open spec fn view(&self) -> PayloadV {
        PayloadV { key: self.key@, value: self.value@ }
    }
}

/// One persisted record: the owning identity and its key/value pair.
/// The owner (and with it the derived address) is immutable after
/// creation; only `key` and `value` mutate.
#[derive(Debug, PartialEq, Eq)]
pub struct Record {
    pub owner: Vec<u8>,
    pub key: Vec<u8>,
    pub value: Vec<u8>,
}

/// The mathematical model of a `Record`.
#[verifier::ext_equal]
pub ghost struct RecordV {
    pub owner: Seq<u8>,
    pub key: Seq<u8>,
    pub value: Seq<u8>,
}

impl View for Record {
    type V = RecordV;

    open spec fn view(&self) -> RecordV {
        RecordV { owner: self.owner@, key: self.key@, value: self.value@ }
    }
}

impl DeepView for Record {
    type V = RecordV;

    open spec fn deep_view(&self) -> RecordV {
        self.view()
    }
}

/// An externally formatted report; its `payload` is expected to hold a
/// binary-encoded `CanonicalPayload`.
#[derive(Debug, PartialEq, Eq)]
pub struct ForwarderReport {
    pub account_hash: Vec<u8>,
    pub payload: Vec<u8>,
}

/// The record size profile: how long a stored value may grow through
/// an update.
#[derive(Clone, Copy, Debug, PartialEq, Eq, Structural)]
pub enum Profile {
    /// Values up to 64 bytes.
    Simple,
    /// Values up to 256 bytes.
    Extended,
}

impl Profile {
    /// The maximum value length each profile admits.
    pub open spec fn max_value_spec(self) -> int {
        match self {
            Profile::Simple => 64,
            Profile::Extended => 256,
        }
    }

    /// Returns the maximum value length this profile admits.
    pub fn max_value_length(&self) -> (n: usize)
        ensures
            n == self.max_value_spec(),
    {
        match self {
            Profile::Simple => 64,
            Profile::Extended => 256,
        }
    }
}

} // verus!
