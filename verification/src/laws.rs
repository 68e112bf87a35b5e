//! The store's laws, proved once and for all over the model.
//!
//! Each proof function here states a property that the operation contracts
//! in `store` promise through the transition functions in `model`: what a
//! `put` result says about record contents, what repeated or duplicate puts
//! do to storage, and what a fresh or unknown address answers to a metadata
//! query.

use vstd::prelude::*;

use crate::codec::can_canonicalize;
use crate::codec::canon_of;
use crate::codec::lemma_canon_injective;
use crate::model::EntryView;
use crate::model::EventView;
use crate::model::address_of;
use crate::model::append_event_model;
use crate::model::count_with_address;
use crate::model::distinct_addresses;
use crate::model::events_at;
use crate::model::has_address;
use crate::model::lemma_append_event;
use crate::model::lemma_count_distinct;
use crate::model::lemma_put_monotonic;
use crate::model::metadata_model;
use crate::model::put_model;
use crate::model::store_wf;

verus! {

/// Content addressing is deterministic: two contents canonicalize
/// identically exactly when they are equal, and then their content addresses
/// are equal too. So `put` returns one and the same address for one and the
/// same canonical content.
pub proof fn lemma_content_addressing_deterministic(c1: Seq<u8>, c2: Seq<u8>)
    requires
        can_canonicalize(c1),
        can_canonicalize(c2),
    ensures
        (canon_of(c1) == canon_of(c2)) <==> (c1 == c2),
        canon_of(c1) == canon_of(c2) ==> address_of(c1) == address_of(c2),
{
    if canon_of(c1) == canon_of(c2) {
        lemma_canon_injective(c1, c2);
    }
}

/// The address a `put` stores under is always present afterwards.
pub proof fn lemma_put_establishes_address(s: Seq<EntryView>, c: Seq<u8>)
    ensures
        has_address(put_model(s, c), address_of(c)),
{
    if !has_address(s, address_of(c)) {
        let t = put_model(s, c);
        assert(t[s.len() as int].address == address_of(c));
    }
}

/// Putting the same content twice is a no-op on storage the second time, and
/// with distinct addresses the store holds exactly one copy afterwards.
pub proof fn lemma_put_idempotent(s: Seq<EntryView>, c: Seq<u8>)
    ensures
        put_model(put_model(s, c), c) == put_model(s, c),
        distinct_addresses(s) ==> count_with_address(put_model(s, c), address_of(c)) == 1,
{
    lemma_put_establishes_address(s, c);
    if distinct_addresses(s) {
        let t = put_model(s, c);
        if has_address(s, address_of(c)) {
            lemma_count_distinct(s, address_of(c));
        } else {
            assert forall|i: int, j: int| 0 <= i < j < t.len() implies t[i].address
                != t[j].address by {
                if j == s.len() as int {
                    assert(t[i] == s[i]);
                    if t[i].address == address_of(c) {
                        assert(has_address(s, address_of(c)));
                    }
                }
            }
            lemma_count_distinct(t, address_of(c));
        }
    }
}

/// The store's entries after `n` successive puts of the same content.
pub open spec fn puts_iter(s: Seq<EntryView>, c: Seq<u8>, n: nat) -> Seq<EntryView>
    decreases n,
{
    if n == 0 {
        s
    } else {
        put_model(puts_iter(s, c, (n - 1) as nat), c)
    }
}

/// However many times the same content is put, storage ends as after one
/// put, holding a single copy; and since every one of those calls returns
/// the content's one address, they all return the same address.
pub proof fn lemma_repeated_put_converges(s: Seq<EntryView>, c: Seq<u8>, n: nat)
    requires
        n >= 1,
    ensures
        puts_iter(s, c, n) == put_model(s, c),
        distinct_addresses(s) ==> count_with_address(puts_iter(s, c, n), address_of(c)) == 1,
    decreases n,
{
    if n == 1 {
        assert(puts_iter(s, c, 0) == s);
        assert(puts_iter(s, c, 1) == put_model(s, c));
        lemma_put_idempotent(s, c);
    } else {
        lemma_repeated_put_converges(s, c, (n - 1) as nat);
        assert(puts_iter(s, c, n) == put_model(puts_iter(s, c, (n - 1) as nat), c));
        lemma_put_idempotent(s, c);
    }
}

/// The store is append-only. A `put` keeps every stored entry unchanged at
/// its position, and recording a metadata event rewrites no history: it
/// leaves every other address's history as it was, and the history under the
/// touched address keeps all its old events, in order, before the new one.
pub proof fn lemma_store_append_only(s: Seq<EntryView>, c: Seq<u8>, a: Seq<u8>, ev: EventView)
    requires
        store_wf(s),
        has_address(s, a),
    ensures
        s.is_prefix_of(put_model(s, c)),
        events_at(s, a).is_prefix_of(events_at(append_event_model(s, a, ev), a)),
        forall|b: Seq<u8>|
            has_address(s, b) && b != a ==> events_at(append_event_model(s, a, ev), b)
                == events_at(s, b),
{
    lemma_put_monotonic(s, c);
    assert(s =~= put_model(s, c).subrange(0, s.len() as int));
    lemma_append_event(s, a, ev);
    let grown = events_at(append_event_model(s, a, ev), a);
    assert(events_at(s, a) =~= grown.subrange(0, events_at(s, a).len() as int));
}

/// A metadata query on a wholly unknown address answers `None`.
pub proof fn lemma_unknown_address_metadata_none(s: Seq<EntryView>, a: Seq<u8>)
    requires
        !has_address(s, a),
    ensures
        metadata_model(s, a) is None,
{
}

/// A metadata query right after a fresh put answers `None`: the new entry
/// has no metadata events yet. A caller cannot tell this answer apart from
/// the answer for an unknown address — the two collapse by design.
pub proof fn lemma_fresh_put_metadata_none(s: Seq<EntryView>, c: Seq<u8>)
    requires
        distinct_addresses(s),
        !has_address(s, address_of(c)),
    ensures
        metadata_model(put_model(s, c), address_of(c)) is None,
{
    let t = put_model(s, c);
    let a = address_of(c);
    assert(t[s.len() as int].address == a);
    assert(has_address(t, a));
    let i = crate::model::index_for(t, a);
    assert(0 <= i < t.len() && t[i].address == a);
    if i < s.len() {
        assert(s[i].address == a);
        assert(has_address(s, a));
        assert(false);
    }
    assert(t[i].events.len() == 0);
}

} // verus!
