//! Removal of records from a list by identifier.

use vstd::prelude::*;
use crate::record::{identifier_of, matches_identifier, record_identifier, record_matches};

verus! {

/// The texts of a list of strings.
pub open spec fn texts(v: Seq<String>) -> Seq<Seq<char>> {
    v.map_values(|s: String| s@)
}

/// `list` without its first record that matches `id`; unchanged if none does.
pub open spec fn remove_first_match(list: Seq<Seq<char>>, id: Seq<u8>) -> Seq<Seq<char>>
    decreases list.len(),
{
    if list.len() == 0 {
        list
    } else if record_matches(list[0], id) {
        list.drop_first()
    } else {
        seq![list[0]] + remove_first_match(list.drop_first(), id)
    }
}

/// `list` after removing, for each record of `batch` in order, the first record
/// that matches its identifier in the list as it stands at that point.
pub open spec fn remove_batch(list: Seq<Seq<char>>, batch: Seq<Seq<char>>) -> Seq<Seq<char>>
    decreases batch.len(),
{
    if batch.len() == 0 {
        list
    } else {
        remove_first_match(remove_batch(list, batch.drop_last()), record_identifier(batch.last()))
    }
}

/// Removing the first match is removing the record at the first matching
/// position `k`, or nothing when `k` is the length (no record matches).
pub proof fn lemma_remove_first_match_at(list: Seq<Seq<char>>, id: Seq<u8>, k: int)
    requires
        0 <= k <= list.len(),
        forall|j: int| 0 <= j < k ==> !record_matches(#[trigger] list[j], id),
        k == list.len() || record_matches(list[k], id),
    ensures
        remove_first_match(list, id) == (if k < list.len() {
            list.remove(k)
        } else {
            list
        }),
    decreases list.len(),
{
    if list.len() > 0 && !record_matches(list[0], id) {
        let t = list.drop_first();
        assert forall|j: int| 0 <= j < k - 1 implies !record_matches(#[trigger] t[j], id) by {
            assert(t[j] == list[j + 1]);
        }
        lemma_remove_first_match_at(t, id, k - 1);
        if k < list.len() {
            assert(seq![list[0]] + t.remove(k - 1) =~= list.remove(k));
        } else {
            assert(seq![list[0]] + t =~= list);
        }
    } else if list.len() > 0 {
        assert(k == 0);
        assert(list.drop_first() =~= list.remove(0));
    }
}

/// A copy of `v`, record by record.
pub fn copy_records(v: &Vec<String>) -> (r: Vec<String>)
    ensures
        texts(r@) == texts(v@),
{
    let mut r: Vec<String> = Vec::new();
    let mut i: usize = 0;
    while i < v.len()
        invariant
            i <= v@.len(),
            texts(r@) == texts(v@).take(i as int),
        decreases v@.len() - i,
    {
        let s = v[i].clone();
        let ghost before = r@;
        r.push(s);
        assert(texts(r@) =~= texts(before).push(s@));
        i += 1;
        assert(texts(r@) =~= texts(v@).take(i as int));
    }
    assert(texts(v@).take(i as int) =~= texts(v@));
    r
}

/// Removes from `list` its first record whose text contains `id`.
pub fn remove_first_matching(list: &mut Vec<String>, id: &[u8])
    ensures
        texts(final(list)@) == remove_first_match(texts(old(list)@), id@),
{
    let mut i: usize = 0;
    while i < list.len() && !matches_identifier(list[i].as_str(), id)
        invariant
            list@ == old(list)@,
            i <= list@.len(),
            forall|j: int| 0 <= j < i ==> !record_matches(#[trigger] texts(list@)[j], id@),
        decreases list@.len() - i,
    {
        i += 1;
    }
    proof {
        lemma_remove_first_match_at(texts(list@), id@, i as int);
    }
    if i < list.len() {
        list.remove(i);
        assert(texts(list@) =~= texts(old(list)@).remove(i as int));
    }
}

/// Removes, for each record of `batch` in order, the first record of `list`
/// that contains its identifier.
pub fn remove_matching(list: &mut Vec<String>, batch: &Vec<String>)
    ensures
        texts(final(list)@) == remove_batch(texts(old(list)@), texts(batch@)),
{
    let mut i: usize = 0;
    while i < batch.len()
        invariant
            i <= batch@.len(),
            texts(list@) == remove_batch(texts(old(list)@), texts(batch@).take(i as int)),
        decreases batch@.len() - i,
    {
        let id = identifier_of(batch[i].as_str());
        remove_first_matching(list, id.as_slice());
        proof {
            let done = texts(batch@).take(i + 1);
            assert(done.drop_last() =~= texts(batch@).take(i as int));
            assert(done.last() == batch@[i as int]@);
        }
        i += 1;
    }
    assert(texts(batch@).take(batch@.len() as int) =~= texts(batch@));
}

} // verus!
