//! The table of open event streams.

use vstd::prelude::*;

verus! {

/// The streams that are open, by the identifier of the request that each belongs to.
///
/// A list of entries, because `vstd`'s map with string keys does not hand out what it removes.
pub struct StreamTable<S> {
    entries: Vec<(String, S)>,
}

impl<S> View for StreamTable<S> {
    type V = Map<Seq<char>, S>;

    closed spec fn view(&self) -> Map<Seq<char>, S> {
        Map::new(
            |id: Seq<char>| exists|i: int| self.entry_is(i, id),
            |id: Seq<char>| self.entries[choose|i: int| self.entry_is(i, id)].1,
        )
    }
}

impl<S> StreamTable<S> {
    /// Whether the entry at a position is that of a request.
    spec fn entry_is(&self, i: int, id: Seq<char>) -> bool {
        0 <= i < self.entries.len() && self.entries[i].0@ == id
    }

    /// No request has two entries.
    pub closed spec fn wf(&self) -> bool {
        forall|i: int, j: int|
            0 <= i < j < self.entries.len() ==> (#[trigger] self.entries[i]).0@ != (
            #[trigger] self.entries[j]).0@
    }

    /// A table without streams.
    pub fn new() -> (table: Self)
        ensures
            table.wf(),
            table@ == Map::<Seq<char>, S>::empty(),
    {
        let table = StreamTable { entries: Vec::new() };
        assert(table@ == Map::<Seq<char>, S>::empty());
        table
    }

    /// The position of a request's entry.
    fn position(&self, id: &String) -> (position: Option<usize>)
        requires
            self.wf(),
        ensures
            match position {
                Some(i) => self.entry_is(i as int, id@) && self@.contains_key(id@) && self@[id@]
                    == self.entries[i as int].1,
                None => !self@.contains_key(id@) && forall|i: int| !self.entry_is(i, id@),
            },
    {
        let mut i: usize = 0;
        while i < self.entries.len()
            invariant
                self.wf(),
                i <= self.entries.len(),
                forall|j: int| 0 <= j < i ==> !self.entry_is(j, id@),
            decreases self.entries.len() - i,
        {
            if self.entries[i].0 == *id {
                assert(self.entry_is(i as int, id@));
                return Some(i);
            }
            i = i + 1;
        }
        None
    }

    /// Records the stream of a request, in place of one that the request had before.
    pub fn insert(&mut self, id: String, stream: S)
        requires
            old(self).wf(),
        ensures
            final(self).wf(),
            final(self)@ == old(self)@.insert(id@, stream),
    {
        let _ = self.remove(&id);
        let ghost before = *self;
        self.entries.push((id, stream));
        assert forall|k: Seq<char>| self@.contains_key(k) == before@.insert(id@, stream).contains_key(
            k,
        ) by {
            if before@.contains_key(k) {
                let i = choose|i: int| before.entry_is(i, k);
                assert(self.entry_is(i, k));
            }
            assert(self.entry_is(self.entries.len() - 1, id@));
            if self@.contains_key(k) && k != id@ {
                let i = choose|i: int| self.entry_is(i, k);
                assert(before.entry_is(i, k));
            }
        }
        assert forall|i: int| 0 <= i < before.entries.len() implies (
        #[trigger] self.entries[i]).0@ != id@ by {
            if self.entries[i].0@ == id@ {
                assert(before.entry_is(i, id@));
                assert(before@.contains_key(id@));
            }
        }
        assert forall|k: Seq<char>| #[trigger] self@.contains_key(k) implies self@[k]
            == before@.insert(id@, stream)[k] by {
            let i = choose|i: int| self.entry_is(i, k);
            if k == id@ {
                assert(self.entry_is(self.entries.len() - 1, k));
            } else {
                assert(before.entry_is(i, k));
                let j = choose|j: int| before.entry_is(j, k);
                assert(self.entries[i].0@ == self.entries[j].0@);
            }
        }
        assert(self@ == before@.insert(id@, stream));
        assert(self@ == old(self)@.insert(id@, stream));
    }

    /// Takes the stream of a request out of the table.
    pub fn remove(&mut self, id: &String) -> (stream: Option<S>)
        requires
            old(self).wf(),
        ensures
            final(self).wf(),
            final(self)@ == old(self)@.remove(id@),
            match stream {
                Some(stream) => old(self)@.contains_key(id@) && stream == old(self)@[id@],
                None => !old(self)@.contains_key(id@),
            },
    {
        match self.position(id) {
            Some(i) => {
                let ghost before = *self;
                let entry = self.entries.remove(i);
                assert forall|k: Seq<char>| self@.contains_key(k) == before@.remove(id@).contains_key(
                    k,
                ) by {
                    if before@.remove(id@).contains_key(k) {
                        let j = choose|j: int| before.entry_is(j, k);
                        if j < i {
                            assert(self.entry_is(j, k));
                        } else {
                            assert(self.entry_is(j - 1, k));
                        }
                    }
                    if self@.contains_key(k) {
                        let j = choose|j: int| self.entry_is(j, k);
                        if j < i {
                            assert(before.entry_is(j, k));
                        } else {
                            assert(before.entry_is(j + 1, k));
                        }
                    }
                }
                assert forall|k: Seq<char>| #[trigger] self@.contains_key(k) implies self@[k]
                    == before@.remove(id@)[k] by {
                    let j = choose|j: int| self.entry_is(j, k);
                    let l = choose|l: int| before.entry_is(l, k);
                    let j_before = if j < i { j } else { j + 1 };
                    assert(before.entry_is(j_before, k));
                    assert(before.entries[j_before].0@ == before.entries[l].0@);
                }
                assert(self@ == before@.remove(id@));
                Some(entry.1)
            },
            None => {
                assert(self@ == self@.remove(id@));
                None
            },
        }
    }
}

} // verus!
