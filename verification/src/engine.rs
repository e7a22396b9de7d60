use vstd::prelude::*;
use vstd::pervasive::VecAdditionalExecFns;
use vstd::slice::slice_to_vec;
use crate::address::Address;
use crate::address::addr_of;
use crate::address::derive_address;
use crate::bytes_ops::bytes_eq;
use crate::bytes_ops::clone_bytes;
use crate::codec::decode;
use crate::codec::decode_spec;
use crate::codec::encode_spec;
use crate::codec::lemma_codec_round_trip;
use crate::errors::DataError;
use crate::events::AccessEvent;
use crate::events::AccessEventV;
use crate::events::Emitter;
use crate::events::Event;
use crate::events::EventV;
use crate::events::NotificationEvent;
use crate::events::NotificationEventV;
use crate::events::make_standard_metadata;
use crate::events::standard_metadata;
use crate::records::CanonicalPayload;
use crate::records::ForwarderReport;
use crate::records::PayloadV;
use crate::records::Profile;
use crate::records::Record;
use crate::records::RecordV;

verus! {

/// The mathematical model of the engine: the configured maximum value
/// length, the namespace tag, the records keyed by derived address,
/// and the log of emitted events.
#[verifier::ext_equal]
pub ghost struct EngineV {
    pub max: int,
    pub tag: Seq<u8>,
    pub records: Seq<RecordV>,
    pub log: Seq<EventV>,
}

/// Whether some record in `records` lives at `addr`.
pub open spec fn has_addr(records: Seq<RecordV>, tag: Seq<u8>, addr: Seq<u8>) -> bool {
    exists|i: int| 0 <= i < records.len() && #[trigger] addr_of(tag, records[i].owner) == addr
}

/// The index of the record living at `addr` (meaningful under
/// `has_addr`; well-defined because well-formed states hold at most
/// one record per address).
pub open spec fn addr_index(records: Seq<RecordV>, tag: Seq<u8>, addr: Seq<u8>) -> int {
    choose|i: int| 0 <= i < records.len() && #[trigger] addr_of(tag, records[i].owner) == addr
}

/// Well-formedness: the tag's length fits its address prefix, every
/// record's address can be recomputed within machine limits, and no
/// two records share a derived address.
pub open spec fn inv(v: EngineV) -> bool {
    &&& v.tag.len() <= u32::MAX
    &&& forall|i: int|
        0 <= i < v.records.len() ==> 4 + v.tag.len() + (#[trigger] v.records[i]).owner.len()
            <= usize::MAX
    &&& forall|i: int, j: int|
        0 <= i < j < v.records.len() ==> #[trigger] addr_of(v.tag, v.records[i].owner)
            != #[trigger] addr_of(v.tag, v.records[j].owner)
}

/// The notification that a mutation to payload `p`, applied for the
/// record owner `sender`, emits.
pub open spec fn notification_of(sender: Seq<u8>, p: PayloadV) -> EventV {
    EventV::Notification(
        NotificationEventV {
            key: p.key,
            payload: p,
            sender: sender,
            metadata: standard_metadata(),
            metadata_groups: Seq::<Seq<u8>>::empty(),
        },
    )
}

/// What initialize does: one new record for `owner` at its derived
/// address, refused with `AlreadyExists` when the address is taken.
/// No event is emitted for a creation.
pub open spec fn initialize_spec(v: EngineV, owner: Seq<u8>, p: PayloadV) -> (EngineV, Result<
    RecordV,
    DataError,
>) {
    let addr = addr_of(v.tag, owner);
    if has_addr(v.records, v.tag, addr) {
        (v, Err(DataError::AlreadyExists))
    } else {
        let r = RecordV { owner: owner, key: p.key, value: p.value };
        (EngineV { max: v.max, tag: v.tag, records: v.records.push(r), log: v.log }, Ok(r))
    }
}

/// What update does: locate the record at `addr`, check that `caller`
/// is its owner and that the new value fits the profile, then
/// overwrite the key/value and append exactly one notification. Every
/// failure leaves the state untouched.
pub open spec fn update_spec(v: EngineV, addr: Seq<u8>, caller: Seq<u8>, p: PayloadV) -> (EngineV,
    Result<RecordV, DataError>,
) {
    if !has_addr(v.records, v.tag, addr) {
        (v, Err(DataError::DataNotFound))
    } else {
        let i = addr_index(v.records, v.tag, addr);
        let r0 = v.records[i];
        if r0.owner != caller {
            (v, Err(DataError::Unauthorized))
        } else if p.value.len() > v.max {
            (v, Err(DataError::DataTooLong))
        } else {
            let r = RecordV { owner: r0.owner, key: p.key, value: p.value };
            (
                EngineV {
                    max: v.max,
                    tag: v.tag,
                    records: v.records.update(i, r),
                    log: v.log.push(notification_of(r0.owner, p)),
                },
                Ok(r),
            )
        }
    }
}

/// What the report path does: decode the bytes, then update; a
/// malformed payload aborts with `DecodeError` and no change.
pub open spec fn report_spec(v: EngineV, addr: Seq<u8>, caller: Seq<u8>, bytes: Seq<u8>) -> (
    EngineV,
    Result<RecordV, DataError>,
) {
    match decode_spec(bytes) {
        Some(p) => update_spec(v, addr, caller, p),
        None => (v, Err(DataError::DecodeError)),
    }
}

/// What the logging-only operation does: append one access event and
/// touch nothing else.
pub open spec fn log_access_spec(v: EngineV, caller: Seq<u8>, message: Seq<u8>) -> EngineV {
    EngineV {
        max: v.max,
        tag: v.tag,
        records: v.records,
        log: v.log.push(EventV::Access(AccessEventV { caller: caller, message: message })),
    }
}

/// The record engine: derives addresses under one namespace tag, keeps
/// one record per address, and publishes an event after every
/// successful mutation.
pub struct Engine {
    profile: Profile,
    tag: Vec<u8>,
    records: Vec<Record>,
    emitter: Emitter,
}

impl View for Engine {
    type V = EngineV;

    closed spec fn view(&self) -> EngineV {
        EngineV {
            max: self.profile.max_value_spec(),
            tag: self.tag@,
            records: self.records.deep_view(),
            log: self.emitter@,
        }
    }
}

impl Engine {
    /// Whether the engine is well-formed. Constructors establish this
    /// and every operation preserves it.
    pub open spec fn wf(&self) -> bool {
        inv(self@)
    }

    /// A fresh engine under `profile` and namespace `tag`: no records,
    /// no events.
    pub fn new(profile: Profile, tag: Vec<u8>) -> (e: Engine)
        requires
            tag@.len() <= u32::MAX,
        ensures
            e.wf(),
            e@ == (EngineV {
                max: profile.max_value_spec(),
                tag: tag@,
                records: Seq::<RecordV>::empty(),
                log: Seq::<EventV>::empty(),
            }),
    {
        let e = Engine { profile, tag, records: Vec::new(), emitter: Emitter::new() };
        proof {
            assert(e@.records =~= Seq::<RecordV>::empty());
            assert(e@ =~= (EngineV {
                max: profile.max_value_spec(),
                tag: e.tag@,
                records: Seq::<RecordV>::empty(),
                log: Seq::<EventV>::empty(),
            }));
        }
        e
    }

    /// The address the engine derives for `owner`; recomputed on every
    /// call, never cached.
    pub fn address_of(&self, owner: &[u8]) -> (a: Address)
        requires
            self.wf(),
            4 + self@.tag.len() + owner@.len() <= usize::MAX,
        ensures
            a@ == addr_of(self@.tag, owner@),
    {
        derive_address(self.tag.as_slice(), owner)
    }

    /// Locates the record at `addr`, if any.
    fn find_index(&self, addr: &Address) -> (r: Option<usize>)
        requires
            self.wf(),
        ensures
            (match r {
                Some(i) => 0 <= i < self@.records.len() && addr_of(
                    self@.tag,
                    self@.records[i as int].owner,
                ) == addr@ && has_addr(self@.records, self@.tag, addr@) && addr_index(
                    self@.records,
                    self@.tag,
                    addr@,
                ) == i,
                None => !has_addr(self@.records, self@.tag, addr@),
            }),
    {
        let n = self.records.len();
        let mut i: usize = 0;
        while i < n
            invariant
                self.wf(),
                n == self@.records.len(),
                i <= n,
                forall|j: int| 0 <= j < i ==> #[trigger] addr_of(self@.tag, self@.records[j].owner)
                    != addr@,
            decreases n - i,
        {
            let rec = &self.records[i];
            proof {
                assert(rec@ == self@.records[i as int]);
                assert(4 + self@.tag.len() + (self@.records[i as int]).owner.len() <= usize::MAX);
            }
            let a = derive_address(self.tag.as_slice(), rec.owner.as_slice());
            if bytes_eq(a.bytes.as_slice(), addr.bytes.as_slice()) {
                proof {
                    let recs = self@.records;
                    let tagv = self@.tag;
                    assert(addr_of(tagv, recs[i as int].owner) == addr@);
                    assert(has_addr(recs, tagv, addr@));
                    let j = addr_index(recs, tagv, addr@);
                    assert(0 <= j < recs.len() && addr_of(tagv, recs[j].owner) == addr@);
                    if j < i as int {
                        assert(addr_of(tagv, recs[j].owner) != addr_of(tagv, recs[i as int].owner));
                        assert(false);
                    }
                    if (i as int) < j {
                        assert(addr_of(tagv, recs[i as int].owner) != addr_of(tagv, recs[j].owner));
                        assert(false);
                    }
                }
                return Some(i);
            }
            i = i + 1;
        }
        proof {
            if has_addr(self@.records, self@.tag, addr@) {
                let j = choose|j: int|
                    0 <= j < self@.records.len() && #[trigger] addr_of(
                        self@.tag,
                        self@.records[j].owner,
                    ) == addr@;
                assert(addr_of(self@.tag, self@.records[j].owner) != addr@);
                assert(false);
            }
        }
        None
    }

    /// Creates the record for `owner` with the initial payload; fails
    /// with `AlreadyExists` when the derived address already holds
    /// one. The caller is the owner whose identity is stored.
    pub fn initialize_data_account(&mut self, owner: &[u8], input: CanonicalPayload) -> (r: Result<
        Record,
        DataError,
    >)
        requires
            old(self).wf(),
            4 + old(self)@.tag.len() + owner@.len() <= usize::MAX,
        ensures
            final(self).wf(),
            final(self)@ == initialize_spec(old(self)@, owner@, input@).0,
            (match initialize_spec(old(self)@, owner@, input@).1 {
                Ok(rv) => r matches Ok(rec) && rec@ == rv,
                Err(ev) => r matches Err(e) && e == ev,
            }),
    {
        let addr = derive_address(self.tag.as_slice(), owner);
        if let Some(_i) = self.find_index(&addr) {
            return Err(DataError::AlreadyExists);
        }
        let stored = Record {
            owner: slice_to_vec(owner),
            key: clone_bytes(&input.key),
            value: clone_bytes(&input.value),
        };
        let ghost rv = stored@;
        self.records.push(stored);
        proof {
            let oldv = old(self)@;
            let recs = self@.records;
            assert(recs =~= oldv.records.push(rv));
            assert(self@ =~= initialize_spec(oldv, owner@, input@).0);
            assert forall|a: int, b: int| 0 <= a < b < recs.len() implies #[trigger] addr_of(
                self@.tag,
                recs[a].owner,
            ) != #[trigger] addr_of(self@.tag, recs[b].owner) by {
                if b == recs.len() - 1 {
                    assert(addr_of(oldv.tag, oldv.records[a].owner) != addr@);
                }
            }
            assert(final(self).wf());
        }
        Ok(Record { owner: slice_to_vec(owner), key: input.key, value: input.value })
    }

    /// Overwrites the key/value of the record at `addr` with the new
    /// payload and emits exactly one notification. Fails with
    /// `DataNotFound` when no record lives at `addr`, `Unauthorized`
    /// when `caller` is not the stored owner, and `DataTooLong` when
    /// the new value exceeds the profile's maximum; every failure
    /// leaves the state untouched.
    pub fn update_user_data(&mut self, addr: &Address, caller: &[u8], input: CanonicalPayload) -> (r:
        Result<Record, DataError>)
        requires
            old(self).wf(),
        ensures
            final(self).wf(),
            final(self)@ == update_spec(old(self)@, addr@, caller@, input@).0,
            (match update_spec(old(self)@, addr@, caller@, input@).1 {
                Ok(rv) => r matches Ok(rec) && rec@ == rv,
                Err(ev) => r matches Err(e) && e == ev,
            }),
    {
        let i = match self.find_index(addr) {
            None => {
                return Err(DataError::DataNotFound);
            },
            Some(i) => i,
        };
        let owner_ok = bytes_eq(self.records[i].owner.as_slice(), caller);
        if !owner_ok {
            return Err(DataError::Unauthorized);
        }
        if input.value.len() > self.profile.max_value_length() {
            return Err(DataError::DataTooLong);
        }
        let stored = Record {
            owner: clone_bytes(&self.records[i].owner),
            key: clone_bytes(&input.key),
            value: clone_bytes(&input.value),
        };
        let ghost rv = stored@;
        self.records.set(i, stored);
        let ev = NotificationEvent {
            key: clone_bytes(&input.key),
            payload: CanonicalPayload {
                key: clone_bytes(&input.key),
                value: clone_bytes(&input.value),
            },
            sender: slice_to_vec(caller),
            metadata: make_standard_metadata(),
            metadata_groups: Vec::new(),
        };
        proof {
            assert(ev@.metadata_groups =~= Seq::<Seq<u8>>::empty());
            assert(ev@ == notification_of(caller@, input@)->Notification_0);
        }
        self.emitter.emit(Event::Notification(ev));
        proof {
            let oldv = old(self)@;
            let ii = addr_index(oldv.records, oldv.tag, addr@);
            assert(ii == i as int);
            assert(oldv.records[ii].owner == caller@);
            assert(self@.records =~= oldv.records.update(i as int, rv));
            assert(self@ =~= update_spec(oldv, addr@, caller@, input@).0);
            assert forall|a: int|
                0 <= a < self@.records.len() implies (#[trigger] self@.records[a]).owner
                == oldv.records[a].owner by {}
            assert forall|a: int, b: int|
                0 <= a < b < self@.records.len() implies #[trigger] addr_of(
                self@.tag,
                self@.records[a].owner,
            ) != #[trigger] addr_of(self@.tag, self@.records[b].owner) by {
                assert(addr_of(oldv.tag, oldv.records[a].owner) != addr_of(
                    oldv.tag,
                    oldv.records[b].owner,
                ));
            }
            assert(final(self).wf());
        }
        Ok(Record { owner: slice_to_vec(caller), key: input.key, value: input.value })
    }

    /// The update that takes the new key and value separately; behaves
    /// exactly as `update_user_data` on the payload they form.
    pub fn update_key_value_data(
        &mut self,
        addr: &Address,
        caller: &[u8],
        key: Vec<u8>,
        value: Vec<u8>,
    ) -> (r: Result<Record, DataError>)
        requires
            old(self).wf(),
        ensures
            final(self).wf(),
            final(self)@ == update_spec(
                old(self)@,
                addr@,
                caller@,
                (PayloadV { key: key@, value: value@ }),
            ).0,
            (match update_spec(old(self)@, addr@, caller@, (PayloadV { key: key@, value: value@ })).1 {
                Ok(rv) => r matches Ok(rec) && rec@ == rv,
                Err(ev) => r matches Err(e) && e == ev,
            }),
    {
        self.update_user_data(addr, caller, CanonicalPayload { key, value })
    }

    /// Decodes `payload` and applies it as an update: same validation,
    /// same event emission. A malformed payload aborts the whole
    /// operation with `DecodeError` and no mutation. The metadata
    /// argument is accepted and ignored, as the surface requires.
    pub fn on_report(
        &mut self,
        addr: &Address,
        caller: &[u8],
        _metadata: &[u8],
        payload: &[u8],
    ) -> (r: Result<Record, DataError>)
        requires
            old(self).wf(),
        ensures
            final(self).wf(),
            final(self)@ == report_spec(old(self)@, addr@, caller@, payload@).0,
            (match report_spec(old(self)@, addr@, caller@, payload@).1 {
                Ok(rv) => r matches Ok(rec) && rec@ == rv,
                Err(ev) => r matches Err(e) && e == ev,
            }),
    {
        match decode(payload) {
            Err(_e) => Err(DataError::DecodeError),
            Ok(p) => self.update_user_data(addr, caller, p),
        }
    }

    /// The forwarding surface accepts a report, validates nothing, and
    /// applies no change; its storage behavior is reserved.
    pub fn handle_forwarder_report(&self, _report: &ForwarderReport) -> (r: Result<(), DataError>)
        ensures
            r is Ok,
    {
        Ok(())
    }

    /// Returns the record at `addr`, or `DataNotFound`.
    pub fn read_record(&self, addr: &Address) -> (r: Result<Record, DataError>)
        requires
            self.wf(),
        ensures
            (match r {
                Ok(rec) => has_addr(self@.records, self@.tag, addr@) && rec@ == self@.records[
                    addr_index(self@.records, self@.tag, addr@)
                ],
                Err(e) => !has_addr(self@.records, self@.tag, addr@) && e
                    == DataError::DataNotFound,
            }),
    {
        match self.find_index(addr) {
            None => Err(DataError::DataNotFound),
            Some(i) => {
                let rec = &self.records[i];
                Ok(Record {
                    owner: clone_bytes(&rec.owner),
                    key: clone_bytes(&rec.key),
                    value: clone_bytes(&rec.value),
                })
            },
        }
    }

    /// Emits one access event for `caller`; no storage interaction,
    /// and it always succeeds.
    pub fn log_access(&mut self, caller: &[u8], message: &[u8])
        requires
            old(self).wf(),
        ensures
            final(self).wf(),
            final(self)@ == log_access_spec(old(self)@, caller@, message@),
    {
        let ev = AccessEvent { caller: slice_to_vec(caller), message: slice_to_vec(message) };
        self.emitter.emit(Event::Access(ev));
        proof {
            assert(self@ =~= log_access_spec(old(self)@, caller@, message@));
        }
    }

    /// The emitted events, oldest first.
    pub fn event_log(&self) -> (r: &Vec<Event>)
        ensures
            r.deep_view() == self@.log,
    {
        self.emitter.entries()
    }

    /// How many records the store holds.
    pub fn record_count(&self) -> (n: usize)
        ensures
            n == self@.records.len(),
    {
        self.records.len()
    }
}

/// A failed operation leaves the state unchanged: an initialize,
/// update, or report that returns an error touches neither the records
/// nor the event log.
pub proof fn lemma_failed_operation_atomic(
    v: EngineV,
    addr: Seq<u8>,
    owner: Seq<u8>,
    caller: Seq<u8>,
    p: PayloadV,
    bytes: Seq<u8>,
)
    ensures
        initialize_spec(v, owner, p).1 is Err ==> initialize_spec(v, owner, p).0 == v,
        update_spec(v, addr, caller, p).1 is Err ==> update_spec(v, addr, caller, p).0 == v,
        report_spec(v, addr, caller, bytes).1 is Err ==> report_spec(v, addr, caller, bytes).0 == v,
{
}

/// Every successful update appends exactly one notification, whose
/// payload equals the record's post-mutation key/value and whose
/// sender is the record's owner; the owner itself never changes.
pub proof fn lemma_update_emits_exactly_one(v: EngineV, addr: Seq<u8>, caller: Seq<u8>, p: PayloadV)
    ensures
        update_spec(v, addr, caller, p).1 is Ok ==> {
            let v2 = update_spec(v, addr, caller, p).0;
            let i = addr_index(v.records, v.tag, addr);
            &&& v2.log == v.log.push(notification_of(v.records[i].owner, p))
            &&& v2.records[i].key == p.key
            &&& v2.records[i].value == p.value
            &&& v2.records[i].owner == v.records[i].owner
        },
{
}

/// Storing an encoded payload through the report path produces exactly
/// the same state and result as updating with the payload directly.
pub proof fn lemma_decode_then_store_equivalence(
    v: EngineV,
    addr: Seq<u8>,
    caller: Seq<u8>,
    p: PayloadV,
)
    requires
        p.key.len() <= u32::MAX,
        p.value.len() <= u32::MAX,
    ensures
        report_spec(v, addr, caller, encode_spec(p)) == update_spec(v, addr, caller, p),
{
    lemma_codec_round_trip(p);
}

} // verus!
