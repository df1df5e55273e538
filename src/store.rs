//! The key-value store that holds named lists, reached through handles.

use vstd::prelude::*;
use crate::list::{copy_records, texts};

verus! {

/// A capability for the location of one named list in the store.
#[derive(Clone, Copy, Debug)]
pub struct ListHandle {
    pub index: usize,
}

/// Lists of strings bound to names. Each name is bound at most once, and a
/// bound name keeps its handle for the life of the store.
pub struct NamedListStore {
    names: Vec<String>,
    lists: Vec<Vec<String>>,
}

impl View for NamedListStore {
    type V = Map<Seq<char>, Seq<Seq<char>>>;

    /// Each bound name, with the texts of its list.
    closed spec fn view(&self) -> Map<Seq<char>, Seq<Seq<char>>> {
        Map::new(
            |n: Seq<char>| exists|i: int| 0 <= i < self.names@.len() && self.names@[i]@ == n,
            |n: Seq<char>|
                texts(
                    self.lists@[choose|i: int|
                        0 <= i < self.names@.len() && self.names@[i]@ == n]@,
                ),
        )
    }
}

impl NamedListStore {
    /// Well-formedness: one list per name, and no name bound twice.
    pub closed spec fn wf(&self) -> bool {
        &&& self.names@.len() == self.lists@.len()
        &&& forall|i: int, j: int|
            0 <= i < j < self.names@.len() ==> self.names@[i]@ != self.names@[j]@
    }

    /// `h` designates a list of this store.
    pub closed spec fn is_handle(&self, h: ListHandle) -> bool {
        h.index < self.names@.len()
    }

    /// The name that `h` is bound to.
    pub closed spec fn name_of(&self, h: ListHandle) -> Seq<char> {
        self.names@[h.index as int]@
    }

    proof fn lemma_view_at(&self, i: int)
        requires
            self.wf(),
            0 <= i < self.names@.len(),
        ensures
            self@.contains_key(self.names@[i]@),
            self@[self.names@[i]@] == texts(self.lists@[i]@),
    {
        let n = self.names@[i]@;
        assert(self@.contains_key(n));
        let j = choose|j: int| 0 <= j < self.names@.len() && self.names@[j]@ == n;
        assert(j == i);
    }

    /// An empty store.
    pub fn new() -> (r: Self)
        ensures
            r.wf(),
            r@ == Map::<Seq<char>, Seq<Seq<char>>>::empty(),
    {
        let r = NamedListStore { names: Vec::new(), lists: Vec::new() };
        assert(r@ =~= Map::<Seq<char>, Seq<Seq<char>>>::empty());
        r
    }

    /// The handle bound to `name`, if there is one.
    pub fn lookup(&self, name: &str) -> (r: Option<ListHandle>)
        requires
            self.wf(),
        ensures
            r is Some <==> self@.contains_key(name@),
            r matches Some(h) ==> self.is_handle(h) && self.name_of(h) == name@,
    {
        let key: String = name.to_owned();
        let mut i: usize = 0;
        while i < self.names.len()
            invariant
                self.wf(),
                key@ == name@,
                i <= self.names@.len(),
                forall|j: int| 0 <= j < i ==> self.names@[j]@ != name@,
            decreases self.names@.len() - i,
        {
            if self.names[i] == key {
                proof {
                    self.lemma_view_at(i as int);
                }
                return Some(ListHandle { index: i });
            }
            i += 1;
        }
        None
    }

    /// Binds the unbound `name` to a new, empty list.
    pub fn bind(&mut self, name: &str) -> (r: ListHandle)
        requires
            old(self).wf(),
            !old(self)@.contains_key(name@),
        ensures
            final(self).wf(),
            final(self)@ == old(self)@.insert(name@, Seq::empty()),
            final(self).is_handle(r),
            final(self).name_of(r) == name@,
            forall|h: ListHandle|
                old(self).is_handle(h) ==> final(self).is_handle(h) && final(self).name_of(h)
                    == old(self).name_of(h),
    {
        let ghost prev = *self;
        let index: usize = self.names.len();
        self.names.push(name.to_owned());
        self.lists.push(Vec::new());
        proof {
            assert forall|i: int| 0 <= i < index implies prev.names@[i]@ != name@ by {
                if prev.names@[i]@ == name@ {
                    prev.lemma_view_at(i);
                }
            }
            assert forall|n: Seq<char>|
                self@.contains_key(n) == prev@.insert(name@, Seq::empty()).contains_key(n) by {
                if n == name@ {
                    assert(self.names@[index as int]@ == n);
                } else if self@.contains_key(n) {
                    let j = choose|j: int| 0 <= j < self.names@.len() && self.names@[j]@ == n;
                    assert(j < index);
                    assert(prev.names@[j]@ == n);
                } else if prev@.contains_key(n) {
                    let j = choose|j: int| 0 <= j < prev.names@.len() && prev.names@[j]@ == n;
                    assert(self.names@[j]@ == n);
                }
            }
            assert forall|n: Seq<char>| #[trigger] self@.contains_key(n) implies self@[n] == prev@.insert(
                name@,
                Seq::empty(),
            )[n] by {
                let j = choose|j: int| 0 <= j < self.names@.len() && self.names@[j]@ == n;
                self.lemma_view_at(j);
                if n != name@ {
                    prev.lemma_view_at(j);
                } else {
                    assert(texts(self.lists@[j]@) =~= Seq::empty());
                }
            }
            assert(self@ =~= prev@.insert(name@, Seq::empty()));
        }
        ListHandle { index }
    }

    /// A copy of the list that `h` designates.
    pub fn read(&self, h: ListHandle) -> (r: Vec<String>)
        requires
            self.wf(),
            self.is_handle(h),
        ensures
            self@.contains_key(self.name_of(h)),
            texts(r@) == self@[self.name_of(h)],
    {
        proof {
            self.lemma_view_at(h.index as int);
        }
        copy_records(&self.lists[h.index])
    }

    /// Replaces the contents of the list that `h` designates.
    pub fn write(&mut self, h: ListHandle, list: Vec<String>)
        requires
            old(self).wf(),
            old(self).is_handle(h),
        ensures
            final(self).wf(),
            final(self)@ == old(self)@.insert(old(self).name_of(h), texts(list@)),
            forall|g: ListHandle|
                old(self).is_handle(g) ==> final(self).is_handle(g) && final(self).name_of(g)
                    == old(self).name_of(g),
    {
        let ghost prev = *self;
        let ghost contents = texts(list@);
        self.lists.set(h.index, list);
        proof {
            let name = prev.names@[h.index as int]@;
            assert forall|n: Seq<char>|
                self@.contains_key(n) == prev@.insert(name, contents).contains_key(n) by {
                if n == name {
                    prev.lemma_view_at(h.index as int);
                }
            }
            assert forall|n: Seq<char>| #[trigger] self@.contains_key(n) implies self@[n] == prev@.insert(
                name,
                contents,
            )[n] by {
                let j = choose|j: int| 0 <= j < self.names@.len() && self.names@[j]@ == n;
                self.lemma_view_at(j);
                if j != h.index {
                    prev.lemma_view_at(j);
                }
            }
            assert(self@ =~= prev@.insert(name, contents));
        }
    }

    /// A copy of the list bound to `name`, if there is one.
    pub fn get_list(&self, name: &str) -> (r: Option<Vec<String>>)
        requires
            self.wf(),
        ensures
            r is Some <==> self@.contains_key(name@),
            r matches Some(v) ==> texts(v@) == self@[name@],
    {
        match self.lookup(name) {
            Some(h) => Some(self.read(h)),
            None => None,
        }
    }
}

} // verus!
