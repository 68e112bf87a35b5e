//! The canonical serialization of a record's content.
//!
//! The canonical form is a tag byte, a two-byte big-endian length, and then
//! the content bytes themselves. The length field bounds what can be encoded:
//! content longer than `MAX_CONTENT_LEN` bytes has no canonical form and is
//! rejected with `StoreError::EncodingError`. The encoding is injective, so
//! two contents canonicalize identically exactly when they are equal.

use vstd::prelude::*;

use crate::errors::StoreError;

verus! {

/// The tag byte that opens every canonical form.
pub const CANON_TAG: u8 = 1;

/// The largest content length the two-byte length field can carry.
pub const MAX_CONTENT_LEN: usize = 0xFFFF;

/// Whether `content` has a canonical form.
pub open spec fn can_canonicalize(content: Seq<u8>) -> bool {
    content.len() <= MAX_CONTENT_LEN
}

/// The canonical form of `content`: tag, big-endian length, content bytes.
/// Meaningful only when `can_canonicalize(content)` holds.
pub open spec fn canon_of(content: Seq<u8>) -> Seq<u8> {
    seq![
        CANON_TAG,
        ((content.len() as int / 0x100) % 0x100) as u8,
        ((content.len() as int) % 0x100) as u8,
    ] + content
}

/// The canonical form determines its content: canonicalization is injective.
pub proof fn lemma_canon_injective(c1: Seq<u8>, c2: Seq<u8>)
    requires
        can_canonicalize(c1),
        can_canonicalize(c2),
        canon_of(c1) == canon_of(c2),
    ensures
        c1 == c2,
{
    assert(canon_of(c1).len() == 3 + c1.len());
    assert(canon_of(c2).len() == 3 + c2.len());
    assert forall|i: int| 0 <= i < c1.len() implies c1[i] == c2[i] by {
        assert(canon_of(c1)[i + 3] == c1[i]);
        assert(canon_of(c2)[i + 3] == c2[i]);
    }
    assert(c1 =~= c2);
}

/// Produces the canonical bytes of `content`, or `EncodingError` when the
/// content is too long to have a canonical form.
pub fn canonical_bytes(content: &Vec<u8>) -> (r: Result<Vec<u8>, StoreError>)
    ensures
        can_canonicalize(content@) ==> (r matches Ok(c) && c@ == canon_of(content@)),
        !can_canonicalize(content@) ==> r == Err::<Vec<u8>, StoreError>(StoreError::EncodingError),
{
    if content.len() > MAX_CONTENT_LEN {
        return Err(StoreError::EncodingError);
    }
    let len = content.len();
    let mut out: Vec<u8> = Vec::new();
    out.push(CANON_TAG);
    out.push(((len / 0x100) % 0x100) as u8);
    out.push((len % 0x100) as u8);
    let mut i: usize = 0;
    while i < content.len()
        invariant
            i <= content@.len(),
            can_canonicalize(content@),
            out@ =~= canon_of(content@).subrange(0, 3 + i as int),
        decreases content@.len() - i,
    {
        out.push(content[i]);
        i = i + 1;
    }
    assert(out@ =~= canon_of(content@));
    Ok(out)
}

} // verus!
