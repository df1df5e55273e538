//! The operations on a named list, and the dispatch entrypoint that runs them.

use vstd::prelude::*;
use crate::list::{copy_records, remove_batch, remove_matching, texts};
use crate::store::NamedListStore;

verus! {

/// What a dispatch call does after removing the matching records.
#[derive(Clone, Copy, Debug, PartialEq, Eq)]
pub enum Operation {
    /// `"add"`: append the incoming records.
    Add,
    /// `"delall"`: clear the list.
    DeleteAll,
    /// Any other method (`"del"` among them): nothing more.
    RemoveOnly,
}

/// The operation that a method name selects.
pub open spec fn operation_spec(method: Seq<char>) -> Operation {
    if method == "add"@ {
        Operation::Add
    } else if method == "delall"@ {
        Operation::DeleteAll
    } else {
        Operation::RemoveOnly
    }
}

/// The store after making sure that `name` is bound.
pub open spec fn ensured(m: Map<Seq<char>, Seq<Seq<char>>>, name: Seq<char>) -> Map<
    Seq<char>,
    Seq<Seq<char>>,
> {
    if m.contains_key(name) {
        m
    } else {
        m.insert(name, Seq::empty())
    }
}

/// The store after emptying the list bound to `name`, if any.
pub open spec fn reset(m: Map<Seq<char>, Seq<Seq<char>>>, name: Seq<char>) -> Map<
    Seq<char>,
    Seq<Seq<char>>,
> {
    if m.contains_key(name) {
        m.insert(name, Seq::empty())
    } else {
        m
    }
}

/// The store after appending `record` to the list bound to `name`, if any.
pub open spec fn appended(
    m: Map<Seq<char>, Seq<Seq<char>>>,
    name: Seq<char>,
    record: Seq<char>,
) -> Map<Seq<char>, Seq<Seq<char>>> {
    if m.contains_key(name) {
        m.insert(name, m[name].push(record))
    } else {
        m
    }
}

/// The store after removing the records that `batch` matches from the list
/// bound to `name`, if any.
pub open spec fn removed(
    m: Map<Seq<char>, Seq<Seq<char>>>,
    name: Seq<char>,
    batch: Seq<Seq<char>>,
) -> Map<Seq<char>, Seq<Seq<char>>> {
    if m.contains_key(name) {
        m.insert(name, remove_batch(m[name], batch))
    } else {
        m
    }
}

/// The list that a dispatch call leaves, from the list it found.
pub open spec fn list_after_call(
    prior: Seq<Seq<char>>,
    batch: Seq<Seq<char>>,
    method: Seq<char>,
) -> Seq<Seq<char>> {
    let kept = remove_batch(prior, batch);
    match operation_spec(method) {
        Operation::Add => kept + batch,
        Operation::DeleteAll => Seq::empty(),
        Operation::RemoveOnly => kept,
    }
}

/// The store that a dispatch call leaves: `name` is bound, to the list that
/// `list_after_call` gives from its former list (empty if it was unbound).
pub open spec fn after_call(
    m: Map<Seq<char>, Seq<Seq<char>>>,
    name: Seq<char>,
    batch: Seq<Seq<char>>,
    method: Seq<char>,
) -> Map<Seq<char>, Seq<Seq<char>>> {
    let prior = if m.contains_key(name) {
        m[name]
    } else {
        Seq::empty()
    };
    m.insert(name, list_after_call(prior, batch, method))
}

/// The operation that `method` selects.
pub fn operation_of(method: &str) -> (r: Operation)
    ensures
        r == operation_spec(method@),
{
    let m: String = method.to_owned();
    let add: String = "add".to_owned();
    let delete_all: String = "delall".to_owned();
    if m == add {
        Operation::Add
    } else if m == delete_all {
        Operation::DeleteAll
    } else {
        Operation::RemoveOnly
    }
}

/// Binds `named_key` to an empty list unless it is bound already.
pub fn create_lists_if_not_exists(store: &mut NamedListStore, named_key: &str)
    requires
        old(store).wf(),
    ensures
        final(store).wf(),
        final(store)@ == ensured(old(store)@, named_key@),
{
    match store.lookup(named_key) {
        Some(_) => {},
        None => {
            store.bind(named_key);
        },
    }
}

/// Empties the list bound to `named_key`; does nothing if the name is unbound.
pub fn remove_all_elements(store: &mut NamedListStore, named_key: &str)
    requires
        old(store).wf(),
    ensures
        final(store).wf(),
        final(store)@ == reset(old(store)@, named_key@),
        old(store)@.contains_key(named_key@) ==> final(store)@[named_key@] == Seq::<
            Seq<char>,
        >::empty(),
{
    match store.lookup(named_key) {
        Some(h) => {
            let empty: Vec<String> = Vec::new();
            store.write(h, empty);
            assert(texts(empty@) =~= Seq::empty());
        },
        None => {},
    }
}

/// Appends `secret_code` to the list bound to `named_key`; does nothing if
/// the name is unbound.
pub fn create_or_update_secret_code(
    store: &mut NamedListStore,
    named_key: &str,
    secret_code: String,
)
    requires
        old(store).wf(),
    ensures
        final(store).wf(),
        final(store)@ == appended(old(store)@, named_key@, secret_code@),
{
    match store.lookup(named_key) {
        Some(h) => {
            let mut existing = store.read(h);
            let ghost before = existing@;
            existing.push(secret_code);
            assert(texts(existing@) =~= texts(before).push(secret_code@));
            store.write(h, existing);
        },
        None => {},
    }
}

/// Removes from the list bound to `named_key`, for each record of
/// `values_to_remove` in order, the first record that contains its
/// identifier; does nothing if the name is unbound.
pub fn remove_secret_code_if_exists(
    store: &mut NamedListStore,
    named_key: &str,
    values_to_remove: Vec<String>,
)
    requires
        old(store).wf(),
    ensures
        final(store).wf(),
        final(store)@ == removed(old(store)@, named_key@, texts(values_to_remove@)),
{
    match store.lookup(named_key) {
        Some(h) => {
            let mut existing = store.read(h);
            remove_matching(&mut existing, &values_to_remove);
            store.write(h, existing);
        },
        None => {},
    }
}

/// The dispatch entrypoint: binds `named_key` if needed, removes the records
/// that `data` matches, then appends `data` for `"add"` or clears the list
/// for `"delall"`.
pub fn call(store: &mut NamedListStore, data: Vec<String>, method: &str, named_key: &str)
    requires
        old(store).wf(),
    ensures
        final(store).wf(),
        final(store)@ == after_call(old(store)@, named_key@, texts(data@), method@),
{
    let ghost m0 = store@;
    let ghost prior = if m0.contains_key(named_key@) {
        m0[named_key@]
    } else {
        Seq::empty()
    };
    let ghost batch = texts(data@);
    create_lists_if_not_exists(store, named_key);
    remove_secret_code_if_exists(store, named_key, copy_records(&data));
    let ghost m2 = store@;
    let ghost kept = remove_batch(prior, batch);
    assert(m2 == m0.insert(named_key@, kept));
    match operation_of(method) {
        Operation::Add => {
            let mut i: usize = 0;
            while i < data.len()
                invariant
                    store.wf(),
                    i <= data@.len(),
                    batch == texts(data@),
                    store@ == m0.insert(named_key@, kept + batch.take(i as int)),
                decreases data@.len() - i,
            {
                let record = data[i].clone();
                create_or_update_secret_code(store, named_key, record);
                assert(kept + batch.take(i + 1) =~= (kept + batch.take(i as int)).push(record@));
                i += 1;
            }
            assert(batch.take(i as int) =~= batch);
        },
        Operation::DeleteAll => {
            remove_all_elements(store, named_key);
        },
        Operation::RemoveOnly => {},
    }
}

} // verus!
