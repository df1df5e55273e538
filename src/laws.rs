//! Properties of the operations, proved over their specifications.

use vstd::prelude::*;
use crate::list::{lemma_remove_first_match_at, remove_batch, remove_first_match};
use crate::operations::{after_call, ensured, list_after_call, reset};
use crate::record::{record_identifier, record_matches};

verus! {

/// Making sure a name is bound a second time changes nothing: the name is
/// bound after the first time, to an empty list if it was unbound before.
pub proof fn lemma_ensure_exists_idempotent(m: Map<Seq<char>, Seq<Seq<char>>>, name: Seq<char>)
    ensures
        ensured(ensured(m, name), name) == ensured(m, name),
        ensured(m, name).contains_key(name),
        !m.contains_key(name) ==> ensured(m, name)[name] == Seq::<Seq<char>>::empty(),
{
}

/// Resetting a bound name leaves it bound to an empty list, whatever it held.
pub proof fn lemma_reset_empties(m: Map<Seq<char>, Seq<Seq<char>>>, name: Seq<char>)
    requires
        m.contains_key(name),
    ensures
        reset(m, name).contains_key(name),
        reset(m, name)[name] == Seq::<Seq<char>>::empty(),
{
}

/// Adding a record whose identifier no stored record contains appends it:
/// the list grows by one and the other records stay as they were.
pub proof fn lemma_add_new_identifier(prior: Seq<Seq<char>>, record: Seq<char>)
    requires
        forall|k: int| 0 <= k < prior.len() ==> !record_matches(#[trigger] prior[k], record_identifier(record)),
    ensures
        list_after_call(prior, seq![record], "add"@) == prior.push(record),
        list_after_call(prior, seq![record], "add"@).len() == prior.len() + 1,
{
    let id = record_identifier(record);
    lemma_remove_first_match_at(prior, id, prior.len() as int);
    lemma_remove_single(prior, record);
    assert(prior + seq![record] =~= prior.push(record));
}

proof fn lemma_remove_single(list: Seq<Seq<char>>, record: Seq<char>)
    ensures
        remove_batch(list, seq![record]) == remove_first_match(list, record_identifier(record)),
{
    let batch = seq![record];
    assert(batch.drop_last() =~= Seq::<Seq<char>>::empty());
    assert(remove_batch(list, batch.drop_last()) == list);
    assert(batch.last() == record);
}

proof fn lemma_first_match(list: Seq<Seq<char>>, id: Seq<u8>, j: int) -> (k: int)
    requires
        0 <= j < list.len(),
        record_matches(list[j], id),
    ensures
        0 <= k <= j,
        record_matches(list[k], id),
        forall|i: int| 0 <= i < k ==> !record_matches(#[trigger] list[i], id),
    decreases j,
{
    if j == 0 {
        0
    } else if exists|i: int| 0 <= i < j && record_matches(#[trigger] list[i], id) {
        let i = choose|i: int| 0 <= i < j && record_matches(#[trigger] list[i], id);
        lemma_first_match(list, id, i)
    } else {
        j
    }
}

/// Adding a record whose identifier a stored record contains replaces the
/// first such record: it leaves its place, the new record comes last, the
/// length stays the same and every other record is kept in order.
pub proof fn lemma_add_known_identifier(prior: Seq<Seq<char>>, record: Seq<char>)
    requires
        exists|j: int| 0 <= j < prior.len() && record_matches(#[trigger] prior[j], record_identifier(record)),
    ensures
        exists|k: int|
            0 <= k < prior.len() && record_matches(#[trigger] prior[k], record_identifier(record))
                && (forall|i: int| 0 <= i < k ==> !record_matches(#[trigger] prior[i], record_identifier(record)))
                && list_after_call(prior, seq![record], "add"@) == prior.remove(k).push(record),
        list_after_call(prior, seq![record], "add"@).len() == prior.len(),
{
    let id = record_identifier(record);
    let j = choose|j: int| 0 <= j < prior.len() && record_matches(#[trigger] prior[j], id);
    let k = lemma_first_match(prior, id, j);
    lemma_remove_first_match_at(prior, id, k);
    lemma_remove_single(prior, record);
    assert(prior.remove(k) + seq![record] =~= prior.remove(k).push(record));
}

/// Removing a batch none of whose identifiers any stored record contains
/// leaves the list unchanged.
pub proof fn lemma_remove_absent_batch(list: Seq<Seq<char>>, batch: Seq<Seq<char>>)
    requires
        forall|b: int, k: int|
            0 <= b < batch.len() && 0 <= k < list.len() ==> !record_matches(
                #[trigger] list[k],
                record_identifier(#[trigger] batch[b]),
            ),
    ensures
        remove_batch(list, batch) == list,
    decreases batch.len(),
{
    if batch.len() > 0 {
        let rest = batch.drop_last();
        assert forall|b: int, k: int|
            0 <= b < rest.len() && 0 <= k < list.len() implies !record_matches(
            #[trigger] list[k],
            record_identifier(#[trigger] rest[b]),
        ) by {
            assert(rest[b] == batch[b]);
        }
        lemma_remove_absent_batch(list, rest);
        let id = record_identifier(batch.last());
        assert forall|k: int| 0 <= k < list.len() implies !record_matches(#[trigger] list[k], id) by {
            assert(batch.last() == batch[batch.len() - 1]);
        }
        lemma_remove_first_match_at(list, id, list.len() as int);
    }
}

/// A `"delall"` call leaves the name bound to an empty list, whatever the
/// store held and whatever the batch.
pub proof fn lemma_delete_all_empties(
    m: Map<Seq<char>, Seq<Seq<char>>>,
    name: Seq<char>,
    batch: Seq<Seq<char>>,
)
    ensures
        after_call(m, name, batch, "delall"@).contains_key(name),
        after_call(m, name, batch, "delall"@)[name] == Seq::<Seq<char>>::empty(),
{
    reveal_strlit("delall");
    reveal_strlit("add");
    assert("delall"@ != "add"@) by {
        assert("delall"@.len() != "add"@.len());
    }
}

} // verus!
