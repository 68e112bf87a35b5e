//! The content-addressed entry store.
//!
//! `put` canonicalizes a record, derives its content address, and persists
//! the pair unless the address is already present: re-putting identical
//! content is a no-op on storage that still returns the same address. Each
//! stored entry carries an append-only metadata history that `update`,
//! `delete` and `set_validation_status` grow and that `get_metadata` reads.
//! The agent identity is established once and is immutable thereafter.

use vstd::prelude::*;

use crate::codec::can_canonicalize;
use crate::codec::canonical_bytes;
use crate::digest::DIGEST_LEN;
use crate::digest::compute_digest;
use crate::errors::StoreError;
use crate::model::EntryView;
use crate::model::EventView;
use crate::model::StoreView;
use crate::model::address_of;
use crate::model::append_event_model;
use crate::model::entry_for;
use crate::model::has_address;
use crate::model::lemma_append_event;
use crate::model::lemma_entry_for_position;
use crate::model::lemma_put_monotonic;
use crate::model::lemma_put_preserves_wf;
use crate::model::metadata_model;
use crate::model::put_model;
use crate::model::store_wf;
use crate::model::with_event;

verus! {

/// Copies a byte vector.
fn copy_bytes(v: &Vec<u8>) -> (r: Vec<u8>)
    ensures
        r@ == v@,
{
    let mut out: Vec<u8> = Vec::new();
    let mut i: usize = 0;
    while i < v.len()
        invariant
            i <= v@.len(),
            out@ =~= v@.subrange(0, i as int),
        decreases v@.len() - i,
    {
        out.push(v[i]);
        i = i + 1;
    }
    assert(out@ =~= v@);
    out
}

/// A record: an opaque value of content bytes, immutable once stored.
#[derive(Debug)]
pub struct Record {
    content: Vec<u8>,
}

impl View for Record {
    type V = Seq<u8>;

    closed spec fn view(&self) -> Seq<u8> {
        self.content@
    }
}

impl Record {
    /// Wraps content bytes as a record.
    pub fn new(content: Vec<u8>) -> (r: Record)
        ensures
            r@ == content@,
    {
        Record { content }
    }

    /// The record's content bytes.
    pub fn content(&self) -> (r: &Vec<u8>)
        ensures
            r@ == self@,
    {
        &self.content
    }
}

impl PartialEq for Record {
    fn eq(&self, other: &Record) -> (r: bool) {
        let r = self.content == other.content;
        proof {
            if r {
                assert(self.content@ =~= other.content@);
            }
        }
        r
    }
}

impl vstd::std_specs::cmp::PartialEqSpecImpl for Record {
    open spec fn obeys_eq_spec() -> bool {
        true
    }

    open spec fn eq_spec(&self, other: &Record) -> bool {
        self@ == other@
    }
}

/// A content address: the candidate bytes of an identifier. Any byte string
/// can be wrapped; only one of exactly `DIGEST_LEN` bytes is well formed.
#[derive(Debug)]
pub struct Address {
    bytes: Vec<u8>,
}

impl View for Address {
    type V = Seq<u8>;

    closed spec fn view(&self) -> Seq<u8> {
        self.bytes@
    }
}

impl Address {
    /// Whether the address has the shape an address derived from content
    /// always has: exactly `DIGEST_LEN` bytes.
    pub open spec fn wf(&self) -> bool {
        self@.len() == DIGEST_LEN
    }

    /// Wraps candidate bytes as an address, well formed or not.
    pub fn from_bytes(bytes: Vec<u8>) -> (r: Address)
        ensures
            r@ == bytes@,
    {
        Address { bytes }
    }

    /// The address's bytes.
    pub fn bytes(&self) -> (r: &Vec<u8>)
        ensures
            r@ == self@,
    {
        &self.bytes
    }

    /// Whether the address is structurally well formed.
    pub fn is_well_formed(&self) -> (r: bool)
        ensures
            r == self.wf(),
    {
        self.bytes.len() == DIGEST_LEN
    }

    /// An identical address.
    pub fn duplicate(&self) -> (r: Address)
        ensures
            r@ == self@,
    {
        Address { bytes: copy_bytes(&self.bytes) }
    }
}

impl PartialEq for Address {
    fn eq(&self, other: &Address) -> (r: bool) {
        let r = self.bytes == other.bytes;
        proof {
            if r {
                assert(self.bytes@ =~= other.bytes@);
            }
        }
        r
    }
}

impl vstd::std_specs::cmp::PartialEqSpecImpl for Address {
    open spec fn obeys_eq_spec() -> bool {
        true
    }

    open spec fn eq_spec(&self, other: &Address) -> bool {
        self@ == other@
    }
}

/// The identity of the local writer.
#[derive(Debug)]
pub struct AgentId {
    key: Vec<u8>,
}

impl View for AgentId {
    type V = Seq<u8>;

    closed spec fn view(&self) -> Seq<u8> {
        self.key@
    }
}

impl AgentId {
    /// Wraps key bytes as an agent identity.
    pub fn new(key: Vec<u8>) -> (r: AgentId)
        ensures
            r@ == key@,
    {
        AgentId { key }
    }

    /// The identity's key bytes.
    pub fn key(&self) -> (r: &Vec<u8>)
        ensures
            r@ == self@,
    {
        &self.key
    }
}

impl PartialEq for AgentId {
    fn eq(&self, other: &AgentId) -> (r: bool) {
        let r = self.key == other.key;
        proof {
            if r {
                assert(self.key@ =~= other.key@);
            }
        }
        r
    }
}

impl vstd::std_specs::cmp::PartialEqSpecImpl for AgentId {
    open spec fn obeys_eq_spec() -> bool {
        true
    }

    open spec fn eq_spec(&self, other: &AgentId) -> bool {
        self@ == other@
    }
}

/// One event in an entry's metadata history.
#[derive(Debug)]
pub enum MetadataEvent {
    /// The entry was superseded by the record stored at the given address.
    Update(Address),
    /// The entry was logically deleted.
    Delete,
    /// A validation verdict was recorded for the entry.
    ValidationStatus(bool),
}

impl View for MetadataEvent {
    type V = EventView;

    closed spec fn view(&self) -> EventView {
        match self {
            MetadataEvent::Update(a) => EventView::Update(a@),
            MetadataEvent::Delete => EventView::Delete,
            MetadataEvent::ValidationStatus(v) => EventView::ValidationStatus(*v),
        }
    }
}

/// The views of a sequence of metadata events.
pub open spec fn events_seq(v: Seq<MetadataEvent>) -> Seq<EventView> {
    v.map_values(|e: MetadataEvent| e@)
}

/// Copies a sequence of metadata events.
fn copy_events(v: &Vec<MetadataEvent>) -> (r: Vec<MetadataEvent>)
    ensures
        events_seq(r@) == events_seq(v@),
{
    let mut out: Vec<MetadataEvent> = Vec::new();
    let mut i: usize = 0;
    while i < v.len()
        invariant
            i <= v@.len(),
            out@.len() == i,
            forall|j: int| 0 <= j < i ==> out@[j]@ == v@[j]@,
        decreases v@.len() - i,
    {
        let copy = match &v[i] {
            MetadataEvent::Update(a) => MetadataEvent::Update(a.duplicate()),
            MetadataEvent::Delete => MetadataEvent::Delete,
            MetadataEvent::ValidationStatus(val) => MetadataEvent::ValidationStatus(*val),
        };
        out.push(copy);
        i = i + 1;
    }
    assert(events_seq(out@) =~= events_seq(v@));
    out
}

/// The metadata history attached to an address: the events recorded against
/// it, oldest first.
#[derive(Debug)]
pub struct Metadata {
    events: Vec<MetadataEvent>,
}

impl View for Metadata {
    type V = Seq<EventView>;

    closed spec fn view(&self) -> Seq<EventView> {
        events_seq(self.events@)
    }
}

impl Metadata {
    /// The recorded events, oldest first.
    pub fn events(&self) -> (r: &Vec<MetadataEvent>)
        ensures
            events_seq(r@) == self@,
    {
        &self.events
    }
}

/// One stored entry: an address, the record stored under it, and the entry's
/// metadata history.
struct StoredEntry {
    address: Address,
    record: Record,
    events: Vec<MetadataEvent>,
}

impl View for StoredEntry {
    type V = EntryView;

    closed spec fn view(&self) -> EntryView {
        EntryView { address: self.address@, content: self.record@, events: events_seq(self.events@) }
    }
}

/// Derives the content address of a record: the digest of its canonical
/// bytes. Fails with `EncodingError` exactly when the record cannot be
/// canonicalized.
pub fn content_address(record: &Record) -> (r: Result<Address, StoreError>)
    ensures
        can_canonicalize(record@) ==> (r matches Ok(a) && a@ == address_of(record@) && a.wf()),
        !can_canonicalize(record@) ==> r == Err::<Address, StoreError>(StoreError::EncodingError),
{
    match canonical_bytes(record.content()) {
        Ok(canon) => {
            let digest = compute_digest(&canon);
            proof {
                crate::digest::lemma_digest_len(canon@);
            }
            Ok(Address::from_bytes(digest))
        },
        Err(e) => Err(e),
    }
}

/// The content-addressed entry store.
pub struct EntryStore {
    identity: Option<AgentId>,
    entries: Vec<StoredEntry>,
}

impl View for EntryStore {
    type V = StoreView;

    closed spec fn view(&self) -> StoreView {
        StoreView {
            identity: match self.identity {
                Some(ref a) => Some(a@),
                None => None,
            },
            entries: self.entries@.map_values(|e: StoredEntry| e@),
        }
    }
}

impl EntryStore {
    /// A well-formed store: every stored entry sits under the content
    /// address of its own content, and no two entries share an address.
    pub open spec fn wf(&self) -> bool {
        store_wf(self@.entries)
    }

    /// Creates an empty store with no identity established yet.
    pub fn new() -> (s: EntryStore)
        ensures
            s.wf(),
            s@.entries.len() == 0,
            s@.identity is None,
    {
        let s = EntryStore { identity: None, entries: Vec::new() };
        proof {
            assert(s@.entries =~= Seq::<EntryView>::empty());
        }
        s
    }

    /// Establishes the agent identity. The first call fixes it for the
    /// store's whole lifetime and returns `true`; any later call changes
    /// nothing and returns `false`.
    pub fn init_identity(&mut self, id: AgentId) -> (r: bool)
        ensures
            final(self)@.entries == old(self)@.entries,
            r == (old(self)@.identity is None),
            old(self)@.identity is None ==> final(self)@.identity == Some(id@),
            old(self)@.identity is Some ==> final(self)@.identity == old(self)@.identity,
            old(self).wf() ==> final(self).wf(),
    {
        if self.identity.is_some() {
            return false;
        }
        self.identity = Some(id);
        true
    }

    /// Returns the identity established at initialization, or
    /// `UninitializedError` when queried before initialization completed.
    pub fn whoami(&self) -> (r: Result<AgentId, StoreError>)
        ensures
            self@.identity is Some ==> (r matches Ok(a) && Some(a@) == self@.identity),
            self@.identity is None ==> r == Err::<AgentId, StoreError>(
                StoreError::UninitializedError,
            ),
    {
        match &self.identity {
            Some(id) => Ok(AgentId { key: copy_bytes(&id.key) }),
            None => Err(StoreError::UninitializedError),
        }
    }

    /// The number of stored entries.
    pub fn entry_count(&self) -> (r: usize)
        ensures
            r == self@.entries.len(),
    {
        self.entries.len()
    }

    /// The position of the entry stored under `address`, if any.
    fn find_position(&self, address: &Address) -> (r: Option<usize>)
        ensures
            r matches Some(i) ==> i < self@.entries.len() && self@.entries[i as int].address
                == address@,
            r is None ==> !has_address(self@.entries, address@),
    {
        let mut i: usize = 0;
        while i < self.entries.len()
            invariant
                i <= self@.entries.len(),
                self@.entries.len() == self.entries@.len(),
                forall|j: int| 0 <= j < i ==> self@.entries[j].address != address@,
            decreases self@.entries.len() - i,
        {
            if self.entries[i].address == *address {
                return Some(i);
            }
            i = i + 1;
        }
        None
    }

    /// Canonicalizes the record, derives its content address, and persists
    /// the pair unless that address is already present. Returns the address;
    /// fails with `EncodingError` exactly when the record cannot be
    /// canonicalized, and then changes nothing.
    pub fn put(&mut self, record: &Record) -> (r: Result<Address, StoreError>)
        requires
            old(self).wf(),
        ensures
            final(self).wf(),
            final(self)@.identity == old(self)@.identity,
            can_canonicalize(record@) ==> (r matches Ok(a) && a@ == address_of(record@)
                && a.wf()),
            can_canonicalize(record@) ==> final(self)@.entries == put_model(
                old(self)@.entries,
                record@,
            ),
            !can_canonicalize(record@) ==> r == Err::<Address, StoreError>(
                StoreError::EncodingError,
            ) && final(self)@ == old(self)@,
    {
        let address = match content_address(record) {
            Ok(a) => a,
            Err(e) => {
                return Err(e);
            },
        };
        proof {
            lemma_put_preserves_wf(self@.entries, record@);
        }
        match self.find_position(&address) {
            Some(_) => Ok(address),
            None => {
                let entry = StoredEntry {
                    address: address.duplicate(),
                    record: Record { content: copy_bytes(&record.content) },
                    events: Vec::new(),
                };
                let ghost old_entries = self@.entries;
                self.entries.push(entry);
                proof {
                    assert(events_seq(Seq::<MetadataEvent>::empty()) =~= Seq::<
                        EventView,
                    >::empty());
                    assert(self@.entries =~= put_model(old_entries, record@));
                }
                Ok(address)
            },
        }
    }

    /// Returns the record stored under `address`; `None` when the address is
    /// unknown; `InvalidAddressError` when the address is malformed.
    pub fn get(&self, address: &Address) -> (r: Result<Option<Record>, StoreError>)
        requires
            self.wf(),
        ensures
            !address.wf() ==> r == Err::<Option<Record>, StoreError>(
                StoreError::InvalidAddressError,
            ),
            address.wf() && !has_address(self@.entries, address@) ==> r == Ok::<
                Option<Record>,
                StoreError,
            >(None),
            address.wf() && has_address(self@.entries, address@) ==> (r matches Ok(o)
                && o matches Some(rec) && rec@ == entry_for(self@.entries, address@).content),
    {
        if !address.is_well_formed() {
            return Err(StoreError::InvalidAddressError);
        }
        match self.find_position(address) {
            None => Ok(None),
            Some(i) => {
                proof {
                    lemma_entry_for_position(self@.entries, i as int);
                }
                Ok(Some(Record { content: copy_bytes(&self.entries[i].record.content) }))
            },
        }
    }

    /// Returns the metadata history recorded under `address`, or `None` when
    /// the address is unknown or the entry has no metadata events yet — the
    /// two cases are collapsed deliberately. Fails with `InvalidAddressError`
    /// exactly when the address is structurally malformed.
    pub fn get_metadata(&self, address: &Address) -> (r: Result<Option<Metadata>, StoreError>)
        requires
            self.wf(),
        ensures
            !address.wf() ==> r == Err::<Option<Metadata>, StoreError>(
                StoreError::InvalidAddressError,
            ),
            address.wf() && metadata_model(self@.entries, address@) is None ==> r == Ok::<
                Option<Metadata>,
                StoreError,
            >(None),
            address.wf() ==> (metadata_model(self@.entries, address@) matches Some(evs) ==> (
            r matches Ok(o) && o matches Some(m) && m@ == evs)),
    {
        if !address.is_well_formed() {
            return Err(StoreError::InvalidAddressError);
        }
        match self.find_position(address) {
            None => Ok(None),
            Some(i) => {
                proof {
                    lemma_entry_for_position(self@.entries, i as int);
                }
                if self.entries[i].events.len() == 0 {
                    proof {
                        assert(events_seq(self.entries@[i as int].events@).len() == 0);
                    }
                    Ok(None)
                } else {
                    Ok(Some(Metadata { events: copy_events(&self.entries[i].events) }))
                }
            },
        }
    }

    /// Appends one metadata event to the history under `address`.
    #[verifier::rlimit(60)]
    fn append_event(&mut self, address: &Address, event: MetadataEvent) -> (r: Result<
        (),
        StoreError,
    >)
        requires
            old(self).wf(),
        ensures
            final(self).wf(),
            final(self)@.identity == old(self)@.identity,
            !address.wf() ==> r == Err::<(), StoreError>(StoreError::InvalidAddressError)
                && final(self)@ == old(self)@,
            address.wf() && !has_address(old(self)@.entries, address@) ==> r == Err::<
                (),
                StoreError,
            >(StoreError::UnknownAddressError) && final(self)@ == old(self)@,
            address.wf() && has_address(old(self)@.entries, address@) ==> r == Ok::<
                (),
                StoreError,
            >(()) && final(self)@.entries == append_event_model(
                old(self)@.entries,
                address@,
                event@,
            ),
    {
        if !address.is_well_formed() {
            return Err(StoreError::InvalidAddressError);
        }
        match self.find_position(address) {
            None => Err(StoreError::UnknownAddressError),
            Some(i) => {
                let ghost old_vec = self.entries@;
                let ghost old_entries = self@.entries;
                let ghost ev = event@;
                proof {
                    lemma_entry_for_position(old_entries, i as int);
                    lemma_append_event(old_entries, address@, ev);
                }
                let mut entry = self.entries.remove(i);
                entry.events.push(event);
                let ghost new_entry = entry@;
                proof {
                    assert(events_seq(entry.events@) =~= events_seq(
                        old_vec[i as int].events@,
                    ).push(ev));
                    assert(new_entry == with_event(old_entries[i as int], ev));
                }
                self.entries.insert(i, entry);
                proof {
                    old_vec.remove_ensures(i as int);
                    old_vec.remove(i as int).insert_ensures(i as int, self.entries@[i as int]);
                    assert(self.entries@ =~= old_vec.update(i as int, self.entries@[i as int]));
                    assert(self@.entries =~= old_entries.update(i as int, new_entry));
                    assert(old_entries.update(i as int, new_entry) == append_event_model(
                        old_entries,
                        address@,
                        ev,
                    ));
                }
                Ok(())
            },
        }
    }

    /// Stores `record` as the successor of the entry under `address` and
    /// appends an update event carrying the successor's address to that
    /// entry's history. Returns the successor's address. Fails with
    /// `InvalidAddressError` on a malformed address, `EncodingError` when the
    /// record cannot be canonicalized, and `UnknownAddressError` when nothing
    /// is stored under the address; a failed call changes nothing.
    #[verifier::rlimit(60)]
    pub fn update(&mut self, address: &Address, record: &Record) -> (r: Result<
        Address,
        StoreError,
    >)
        requires
            old(self).wf(),
        ensures
            final(self).wf(),
            final(self)@.identity == old(self)@.identity,
            !address.wf() ==> r == Err::<Address, StoreError>(StoreError::InvalidAddressError)
                && final(self)@ == old(self)@,
            address.wf() && !can_canonicalize(record@) ==> r == Err::<Address, StoreError>(
                StoreError::EncodingError,
            ) && final(self)@ == old(self)@,
            address.wf() && can_canonicalize(record@) && !has_address(
                old(self)@.entries,
                address@,
            ) ==> r == Err::<Address, StoreError>(StoreError::UnknownAddressError)
                && final(self)@ == old(self)@,
            address.wf() && can_canonicalize(record@) && has_address(
                old(self)@.entries,
                address@,
            ) ==> (r matches Ok(a) && a@ == address_of(record@) && a.wf() && final(self)@.entries
                == append_event_model(
                put_model(old(self)@.entries, record@),
                address@,
                EventView::Update(address_of(record@)),
            )),
    {
        if !address.is_well_formed() {
            return Err(StoreError::InvalidAddressError);
        }
        let successor = match content_address(record) {
            Ok(a) => a,
            Err(e) => {
                return Err(e);
            },
        };
        match self.find_position(address) {
            None => Err(StoreError::UnknownAddressError),
            Some(i) => {
                let ghost s0 = self@.entries;
                proof {
                    lemma_entry_for_position(s0, i as int);
                }
                let returned = match self.put(record) {
                    Ok(a) => a,
                    Err(e) => {
                        return Err(e);
                    },
                };
                proof {
                    lemma_put_monotonic(s0, record@);
                    assert(self@.entries[i as int].address == address@);
                    assert(has_address(self@.entries, address@));
                }
                match self.append_event(address, MetadataEvent::Update(successor)) {
                    Ok(_) => Ok(returned),
                    Err(e) => Err(e),
                }
            },
        }
    }

    /// Appends a deletion event to the history under `address`: a logical
    /// tombstone, never a removal. Fails with `InvalidAddressError` on a
    /// malformed address and `UnknownAddressError` when nothing is stored
    /// under the address; a failed call changes nothing.
    pub fn delete(&mut self, address: &Address) -> (r: Result<(), StoreError>)
        requires
            old(self).wf(),
        ensures
            final(self).wf(),
            final(self)@.identity == old(self)@.identity,
            !address.wf() ==> r == Err::<(), StoreError>(StoreError::InvalidAddressError)
                && final(self)@ == old(self)@,
            address.wf() && !has_address(old(self)@.entries, address@) ==> r == Err::<
                (),
                StoreError,
            >(StoreError::UnknownAddressError) && final(self)@ == old(self)@,
            address.wf() && has_address(old(self)@.entries, address@) ==> r == Ok::<
                (),
                StoreError,
            >(()) && final(self)@.entries == append_event_model(
                old(self)@.entries,
                address@,
                EventView::Delete,
            ),
    {
        self.append_event(address, MetadataEvent::Delete)
    }

    /// Appends a validation-status event to the history under `address`.
    /// Fails with `InvalidAddressError` on a malformed address and
    /// `UnknownAddressError` when nothing is stored under the address; a
    /// failed call changes nothing.
    pub fn set_validation_status(&mut self, address: &Address, valid: bool) -> (r: Result<
        (),
        StoreError,
    >)
        requires
            old(self).wf(),
        ensures
            final(self).wf(),
            final(self)@.identity == old(self)@.identity,
            !address.wf() ==> r == Err::<(), StoreError>(StoreError::InvalidAddressError)
                && final(self)@ == old(self)@,
            address.wf() && !has_address(old(self)@.entries, address@) ==> r == Err::<
                (),
                StoreError,
            >(StoreError::UnknownAddressError) && final(self)@ == old(self)@,
            address.wf() && has_address(old(self)@.entries, address@) ==> r == Ok::<
                (),
                StoreError,
            >(()) && final(self)@.entries == append_event_model(
                old(self)@.entries,
                address@,
                EventView::ValidationStatus(valid),
            ),
    {
        self.append_event(address, MetadataEvent::ValidationStatus(valid))
    }
}

} // verus!
