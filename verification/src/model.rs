//! The mathematical model of the store.
//!
//! Contracts speak of a store through these ghost types: a sequence of entry
//! views, each an address with its content and its metadata history, plus the
//! optional agent identity. The transition functions here say exactly what
//! each mutating operation does to that model.

use vstd::prelude::*;

use crate::codec::can_canonicalize;
use crate::codec::canon_of;
use crate::digest::digest_of;

verus! {

/// The content address of a record's content: the digest of its canonical
/// form. Meaningful only when `can_canonicalize(content)` holds.
pub open spec fn address_of(content: Seq<u8>) -> Seq<u8> {
    digest_of(canon_of(content))
}

/// One metadata event, as contracts see it.
pub ghost enum EventView {
    /// The entry was superseded by the record stored at the given address.
    Update(Seq<u8>),
    /// The entry was logically deleted.
    Delete,
    /// A validation verdict was recorded for the entry.
    ValidationStatus(bool),
}

/// One stored entry, as contracts see it.
pub ghost struct EntryView {
    /// The entry's content address.
    pub address: Seq<u8>,
    /// The record content stored under the address.
    pub content: Seq<u8>,
    /// The entry's metadata history, oldest event first.
    pub events: Seq<EventView>,
}

/// The whole store, as contracts see it.
pub ghost struct StoreView {
    /// The agent identity, once initialization has completed.
    pub identity: Option<Seq<u8>>,
    /// The stored entries, oldest first.
    pub entries: Seq<EntryView>,
}

/// Whether some entry is stored under address `a`.
pub open spec fn has_address(s: Seq<EntryView>, a: Seq<u8>) -> bool {
    exists|i: int| 0 <= i < s.len() && s[i].address == a
}

/// The position of the entry stored under address `a`. Meaningful only when
/// `has_address(s, a)` holds; unambiguous when the addresses are distinct.
pub open spec fn index_for(s: Seq<EntryView>, a: Seq<u8>) -> int {
    choose|i: int| 0 <= i < s.len() && s[i].address == a
}

/// The entry stored under address `a`.
pub open spec fn entry_for(s: Seq<EntryView>, a: Seq<u8>) -> EntryView {
    s[index_for(s, a)]
}

/// The metadata history recorded under address `a`.
pub open spec fn events_at(s: Seq<EntryView>, a: Seq<u8>) -> Seq<EventView> {
    entry_for(s, a).events
}

/// What a metadata query returns: `None` both for an unknown address and for
/// a stored entry with no metadata events yet — the two cases are collapsed
/// deliberately, so a caller cannot tell them apart.
pub open spec fn metadata_model(s: Seq<EntryView>, a: Seq<u8>) -> Option<Seq<EventView>> {
    if !has_address(s, a) {
        None
    } else if events_at(s, a).len() == 0 {
        None
    } else {
        Some(events_at(s, a))
    }
}

/// A well-formed entry: its content has a canonical form and its address is
/// the content address of that content.
pub open spec fn entry_wf(e: EntryView) -> bool {
    &&& can_canonicalize(e.content)
    &&& e.address == address_of(e.content)
}

/// No two entries share an address.
pub open spec fn distinct_addresses(s: Seq<EntryView>) -> bool {
    forall|i: int, j: int| 0 <= i < j < s.len() ==> s[i].address != s[j].address
}

/// A well-formed store: every entry is well formed and addresses are unique.
pub open spec fn store_wf(s: Seq<EntryView>) -> bool {
    &&& distinct_addresses(s)
    &&& forall|i: int| 0 <= i < s.len() ==> entry_wf(#[trigger] s[i])
}

/// What `put` does to the entries: nothing when the content's address is
/// already present, else it appends a fresh entry with an empty history.
pub open spec fn put_model(s: Seq<EntryView>, c: Seq<u8>) -> Seq<EntryView> {
    if has_address(s, address_of(c)) {
        s
    } else {
        s.push(EntryView { address: address_of(c), content: c, events: Seq::empty() })
    }
}

/// The entry `e` with one more metadata event at the end of its history.
pub open spec fn with_event(e: EntryView, ev: EventView) -> EntryView {
    EntryView { address: e.address, content: e.content, events: e.events.push(ev) }
}

/// What recording a metadata event does to the entries: the history under
/// address `a` grows by `ev`; everything else stays as it was.
pub open spec fn append_event_model(s: Seq<EntryView>, a: Seq<u8>, ev: EventView) -> Seq<
    EntryView,
> {
    s.update(index_for(s, a), with_event(entry_for(s, a), ev))
}

/// How many entries sit under address `a`.
pub open spec fn count_with_address(s: Seq<EntryView>, a: Seq<u8>) -> nat
    decreases s.len(),
{
    if s.len() == 0 {
        0
    } else {
        count_with_address(s.drop_last(), a) + if s.last().address == a {
            1nat
        } else {
            0nat
        }
    }
}

/// With distinct addresses, an address holds exactly one entry when it is
/// present and none when it is not.
pub proof fn lemma_count_distinct(s: Seq<EntryView>, a: Seq<u8>)
    requires
        distinct_addresses(s),
    ensures
        count_with_address(s, a) == if has_address(s, a) {
            1nat
        } else {
            0nat
        },
    decreases s.len(),
{
    if s.len() == 0 {
        assert(!has_address(s, a));
    } else {
        let t = s.drop_last();
        assert(distinct_addresses(t));
        lemma_count_distinct(t, a);
        if s.last().address == a {
            if has_address(t, a) {
                let i = choose|i: int| 0 <= i < t.len() && t[i].address == a;
                assert(s[i].address == s[s.len() - 1].address);
                assert(false);
            }
            assert(s[s.len() - 1].address == a);
            assert(has_address(s, a));
        } else {
            if has_address(s, a) {
                let i = choose|i: int| 0 <= i < s.len() && s[i].address == a;
                assert(i < s.len() - 1);
                assert(t[i].address == a);
                assert(has_address(t, a));
            }
            if has_address(t, a) {
                let i = choose|i: int| 0 <= i < t.len() && t[i].address == a;
                assert(s[i].address == a);
                assert(has_address(s, a));
            }
        }
    }
}

/// With distinct addresses, the entry found under the address of position `i`
/// is the entry at position `i` itself.
pub proof fn lemma_entry_for_position(s: Seq<EntryView>, i: int)
    requires
        distinct_addresses(s),
        0 <= i < s.len(),
    ensures
        has_address(s, s[i].address),
        index_for(s, s[i].address) == i,
        entry_for(s, s[i].address) == s[i],
{
    let a = s[i].address;
    assert(has_address(s, a));
    let j = index_for(s, a);
    assert(0 <= j < s.len() && s[j].address == a);
    if i < j {
        assert(s[i].address != s[j].address);
    }
    if j < i {
        assert(s[j].address != s[i].address);
    }
}

/// `put` preserves well-formedness.
pub proof fn lemma_put_preserves_wf(s: Seq<EntryView>, c: Seq<u8>)
    requires
        store_wf(s),
        can_canonicalize(c),
    ensures
        store_wf(put_model(s, c)),
{
    if !has_address(s, address_of(c)) {
        let t = put_model(s, c);
        assert forall|i: int| 0 <= i < t.len() implies entry_wf(#[trigger] t[i]) by {
            if i < s.len() {
                assert(entry_wf(s[i]));
            }
        }
        assert forall|i: int, j: int| 0 <= i < j < t.len() implies t[i].address != t[j].address by {
            if j == s.len() as int {
                assert(t[i] == s[i]);
                if t[i].address == address_of(c) {
                    assert(has_address(s, address_of(c)));
                }
            }
        }
    }
}

/// `put` never removes or rewrites what is stored: every entry present before
/// is present, unchanged, at its old position afterwards.
pub proof fn lemma_put_monotonic(s: Seq<EntryView>, c: Seq<u8>)
    ensures
        s.len() <= put_model(s, c).len(),
        forall|i: int| 0 <= i < s.len() ==> put_model(s, c)[i] == s[i],
{
}

/// Recording an event preserves well-formedness, leaves every address in
/// place, touches no content, appends to exactly the history at `a`, and
/// leaves every other history as it was.
pub proof fn lemma_append_event(s: Seq<EntryView>, a: Seq<u8>, ev: EventView)
    requires
        store_wf(s),
        has_address(s, a),
    ensures
        store_wf(append_event_model(s, a, ev)),
        append_event_model(s, a, ev).len() == s.len(),
        forall|i: int| 0 <= i < s.len() ==> append_event_model(s, a, ev)[i].address
            == s[i].address,
        forall|i: int| 0 <= i < s.len() ==> append_event_model(s, a, ev)[i].content
            == s[i].content,
        forall|b: Seq<u8>| has_address(append_event_model(s, a, ev), b) <==> has_address(s, b),
        events_at(append_event_model(s, a, ev), a) == events_at(s, a).push(ev),
        forall|b: Seq<u8>|
            has_address(s, b) && b != a ==> events_at(append_event_model(s, a, ev), b)
                == events_at(s, b),
{
    let k = index_for(s, a);
    assert(0 <= k < s.len() && s[k].address == a);
    let t = append_event_model(s, a, ev);
    assert forall|i: int| 0 <= i < s.len() implies t[i].address == s[i].address
        && t[i].content == s[i].content by {}
    assert forall|i: int| 0 <= i < t.len() implies entry_wf(#[trigger] t[i]) by {
        assert(entry_wf(s[i]));
    }
    assert forall|b: Seq<u8>| has_address(t, b) implies has_address(s, b) by {
        let i = choose|i: int| 0 <= i < t.len() && t[i].address == b;
        assert(s[i].address == b);
    }
    assert forall|b: Seq<u8>| has_address(s, b) implies has_address(t, b) by {
        let i = choose|i: int| 0 <= i < s.len() && s[i].address == b;
        assert(t[i].address == b);
    }
    lemma_entry_for_position(t, k);
    assert(events_at(t, a) == events_at(s, a).push(ev));
    assert forall|b: Seq<u8>| has_address(s, b) && b != a implies events_at(t, b) == events_at(
        s,
        b,
    ) by {
        let i = index_for(s, b);
        assert(0 <= i < s.len() && s[i].address == b);
        assert(i != k);
        assert(t[i] == s[i]);
        lemma_entry_for_position(t, i);
        lemma_entry_for_position(s, i);
    }
}

} // verus!
