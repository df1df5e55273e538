//! Records are text of the form `<identifier>;<payload>`.
//!
//! Matching works on the UTF-8 bytes of a record, as `str::contains` does.

use vstd::prelude::*;
use vstd::utf8::encode_utf8;

verus! {

/// The byte that ends the identifier of a record (`;`).
pub const SEPARATOR: u8 = 59;

/// The UTF-8 encoding of a text.
pub open spec fn text_bytes(s: Seq<char>) -> Seq<u8> {
    encode_utf8(s)
}

/// Number of bytes before the first separator, or the whole length if there is none.
pub open spec fn identifier_end(b: Seq<u8>) -> nat
    decreases b.len(),
{
    if b.len() == 0 {
        0
    } else if b[0] == SEPARATOR {
        0
    } else {
        1 + identifier_end(b.drop_first())
    }
}

/// The identifier of a record: its bytes before the first separator.
pub open spec fn identifier(b: Seq<u8>) -> Seq<u8> {
    b.take(identifier_end(b) as int)
}

/// `needle` stands in `hay` at position `i`.
pub open spec fn occurs_at(hay: Seq<u8>, needle: Seq<u8>, i: int) -> bool {
    0 <= i && i + needle.len() <= hay.len() && hay.subrange(i, i + needle.len()) == needle
}

/// `needle` is a contiguous part of `hay` (an empty needle is part of anything).
pub open spec fn contains(hay: Seq<u8>, needle: Seq<u8>) -> bool {
    exists|i: int| occurs_at(hay, needle, i)
}

/// A stored record matches an identifier when its text contains the identifier
/// anywhere, payload included. This is looser than equality of identifiers:
/// an identifier that occurs inside another record's text matches that record.
pub open spec fn record_matches(record: Seq<char>, id: Seq<u8>) -> bool {
    contains(text_bytes(record), id)
}

/// The identifier that an incoming record is matched by.
pub open spec fn record_identifier(record: Seq<char>) -> Seq<u8> {
    identifier(text_bytes(record))
}

proof fn lemma_identifier_end(b: Seq<u8>, k: int)
    requires
        0 <= k <= b.len(),
        forall|j: int| 0 <= j < k ==> b[j] != SEPARATOR,
        k == b.len() || b[k] == SEPARATOR,
    ensures
        identifier_end(b) == k,
    decreases b.len(),
{
    if b.len() > 0 && b[0] != SEPARATOR {
        assert(k > 0);
        let t = b.drop_first();
        assert forall|j: int| 0 <= j < k - 1 implies t[j] != SEPARATOR by {
            assert(t[j] == b[j + 1]);
        }
        lemma_identifier_end(t, k - 1);
    }
}

/// The identifier bytes of `record`.
pub fn identifier_of(record: &str) -> (r: Vec<u8>)
    ensures
        r@ == record_identifier(record@),
{
    let b = record.as_bytes();
    let mut id: Vec<u8> = Vec::new();
    let mut i: usize = 0;
    while i < b.len() && b[i] != SEPARATOR
        invariant
            b@ == text_bytes(record@),
            i <= b@.len(),
            id@ == b@.take(i as int),
            forall|j: int| 0 <= j < i ==> b@[j] != SEPARATOR,
        decreases b@.len() - i,
    {
        id.push(b[i]);
        i += 1;
        assert(id@ =~= b@.take(i as int));
    }
    proof {
        lemma_identifier_end(b@, i as int);
    }
    id
}

/// Whether `needle` stands in `hay` at position `i`.
fn occurs_at_exec(hay: &[u8], needle: &[u8], i: usize) -> (r: bool)
    requires
        i + needle@.len() <= hay@.len(),
    ensures
        r == occurs_at(hay@, needle@, i as int),
{
    let hay_len: usize = hay.len();
    let mut j: usize = 0;
    while j < needle.len()
        invariant
            hay_len == hay@.len(),
            i + needle@.len() <= hay@.len(),
            j <= needle@.len(),
            forall|k: int| 0 <= k < j ==> hay@[i + k] == needle@[k],
        decreases needle@.len() - j,
    {
        if hay[i + j] != needle[j] {
            assert(hay@.subrange(i as int, i + needle@.len())[j as int] != needle@[j as int]);
            return false;
        }
        j += 1;
    }
    assert(hay@.subrange(i as int, i + needle@.len()) =~= needle@);
    true
}

/// Whether `needle` is a contiguous part of `hay`.
pub fn contains_bytes(hay: &[u8], needle: &[u8]) -> (r: bool)
    ensures
        r == contains(hay@, needle@),
{
    if needle.len() > hay.len() {
        return false;
    }
    let last: usize = hay.len() - needle.len();
    let mut i: usize = 0;
    loop
        invariant
            last == hay@.len() - needle@.len(),
            i <= last,
            forall|k: int| 0 <= k < i ==> !occurs_at(hay@, needle@, k),
        decreases last - i,
    {
        if occurs_at_exec(hay, needle, i) {
            return true;
        }
        if i == last {
            assert forall|k: int| !occurs_at(hay@, needle@, k) by {
                if occurs_at(hay@, needle@, k) {
                    assert(k <= last);
                }
            }
            return false;
        }
        i += 1;
    }
}

/// Whether the text of `record` contains the identifier `id`.
pub fn matches_identifier(record: &str, id: &[u8]) -> (r: bool)
    ensures
        r == record_matches(record@, id@),
{
    contains_bytes(record.as_bytes(), id)
}

} // verus!
