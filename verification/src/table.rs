//! A table from names to items, in which a name occurs once.

use vstd::prelude::*;
use vstd::string::StringExecFns;

verus! {

/// One entry of a table.
struct Entry<T> {
    name: String,
    item: T,
}

/// A finite map from names to items. It is kept as the list of its entries, in which no name
/// occurs twice.
pub struct Table<T> {
    entries: Vec<Entry<T>>,
}

impl<T> Table<T> {
    /// No two entries have the same name.
    #[verifier::type_invariant]
    spec fn distinct(&self) -> bool {
        forall|i: int, j: int|
            0 <= i < j < self.entries.len() ==> self.entries[i].name@ != self.entries[j].name@
    }

    /// Entry `i` has the name `name`.
    spec fn names(&self, i: int, name: Seq<char>) -> bool {
        0 <= i < self.entries.len() && self.entries[i].name@ == name
    }

    /// The position of the entry with a name.
    spec fn slot(&self, name: Seq<char>) -> int {
        choose|i: int| self.names(i, name)
    }

    /// The map that the table stands for.
    pub closed spec fn view(&self) -> Map<Seq<char>, T> {
        Map::new(
            |name: Seq<char>| exists|i: int| self.names(i, name),
            |name: Seq<char>| self.entries[self.slot(name)].item,
        )
    }

    /// A table without entries.
    pub fn new() -> (r: Table<T>)
        ensures
            r@ == Map::<Seq<char>, T>::empty(),
    {
        let r = Table { entries: Vec::new() };
        assert(r@ =~= Map::<Seq<char>, T>::empty());
        r
    }

    /// Where the entry with a name stands, if there is one.
    fn position(&self, name: &str) -> (r: Option<usize>)
        ensures
            match r {
                Some(i) => self.names(i as int, name@),
                None => forall|i: int| !self.names(i, name@),
            },
    {
        let key = String::from_str(name);
        let mut i: usize = 0;
        while i < self.entries.len()
            invariant
                i <= self.entries.len(),
                key@ == name@,
                forall|j: int| 0 <= j < i ==> self.entries[j].name@ != name@,
            decreases self.entries.len() - i,
        {
            if self.entries[i].name == key {
                return Some(i);
            }
            i = i + 1;
        }
        None
    }

    /// Whether the table has an entry of this name.
    pub fn contains(&self, name: &str) -> (r: bool)
        ensures
            r == self@.contains_key(name@),
    {
        self.position(name).is_some()
    }

    /// The item under a name.
    pub fn get(&self, name: &str) -> (r: Option<&T>)
        ensures
            match r {
                Some(item) => self@.contains_key(name@) && *item == self@[name@],
                None => !self@.contains_key(name@),
            },
    {
        proof {
            use_type_invariant(self);
        }
        match self.position(name) {
            Some(i) => {
                proof {
                    let k = self.slot(name@);
                    assert(self.names(k, name@));
                }
                Some(&self.entries[i].item)
            },
            None => None,
        }
    }

    /// Puts an item under a name. An item that was there under the name is replaced and
    /// handed back; the other entries stay as they are.
    pub fn insert(&mut self, name: String, item: T) -> (r: Option<T>)
        ensures
            final(self)@ == old(self)@.insert(name@, item),
            r == if old(self)@.contains_key(name@) {
                Some(old(self)@[name@])
            } else {
                None::<T>
            },
    {
        proof {
            use_type_invariant(&*self);
        }
        let ghost before = *self;
        let removed = self.remove(name.as_str());
        let ghost between = *self;
        proof {
            use_type_invariant(&*self);
            assert(!between@.contains_key(name@));
            assert forall|i: int| 0 <= i < between.entries.len() implies between.entries[i].name@
                != name@ by {
                if between.entries[i].name@ == name@ {
                    assert(between.names(i, name@));
                }
            }
        }
        let mut list: Vec<Entry<T>> = Vec::new();
        core::mem::swap(&mut self.entries, &mut list);
        list.push(Entry { name, item });
        core::mem::swap(&mut self.entries, &mut list);
        proof {
            let after = *self;
            assert forall|k: Seq<char>| after@.contains_key(k) <==> between@.insert(
                name@,
                item,
            ).contains_key(k) by {
                if after@.contains_key(k) {
                    let i = choose|i: int| after.names(i, k);
                    if i < between.entries.len() {
                        assert(between.names(i, k));
                    }
                }
                if between@.contains_key(k) {
                    let i = choose|i: int| between.names(i, k);
                    assert(after.names(i, k));
                }
                if k == name@ {
                    assert(after.names(between.entries.len() as int, k));
                }
            }
            assert forall|k: Seq<char>| after@.contains_key(k) implies after@[k] == between@.insert(
                name@,
                item,
            )[k] by {
                let i = after.slot(k);
                assert(after.names(i, k));
                if k != name@ {
                    assert(between.names(i, k));
                    let j = between.slot(k);
                    assert(between.names(j, k));
                }
            }
            assert(after@ =~= between@.insert(name@, item));
            assert(between@.insert(name@, item) =~= before@.insert(name@, item));
        }
        removed
    }

    /// Takes the entry of a name out of the table and hands its item back. The other
    /// entries stay as they are, in their order.
    pub fn remove(&mut self, name: &str) -> (r: Option<T>)
        ensures
            final(self)@ == old(self)@.remove(name@),
            r == if old(self)@.contains_key(name@) {
                Some(old(self)@[name@])
            } else {
                None::<T>
            },
    {
        proof {
            use_type_invariant(&*self);
        }
        let ghost before = *self;
        match self.position(name) {
            None => {
                assert(before@ =~= before@.remove(name@));
                None
            },
            Some(i) => {
                let mut list: Vec<Entry<T>> = Vec::new();
                core::mem::swap(&mut self.entries, &mut list);
                let entry = list.remove(i);
                core::mem::swap(&mut self.entries, &mut list);
                proof {
                    let after = *self;
                    let p = i as int;
                    assert(before.names(before.slot(name@), name@));
                    assert forall|k: Seq<char>| after@.contains_key(k) <==> before@.remove(
                        name@,
                    ).contains_key(k) by {
                        if after@.contains_key(k) {
                            let j = choose|j: int| after.names(j, k);
                            if j < p {
                                assert(before.names(j, k));
                            } else {
                                assert(before.names(j + 1, k));
                            }
                        }
                        if before@.contains_key(k) && k != name@ {
                            let j = choose|j: int| before.names(j, k);
                            if j < p {
                                assert(after.names(j, k));
                            } else {
                                assert(after.names(j - 1, k));
                            }
                        }
                    }
                    assert forall|k: Seq<char>| after@.contains_key(k) implies after@[k]
                        == before@.remove(name@)[k] by {
                        let j = after.slot(k);
                        assert(after.names(j, k));
                        let b = before.slot(k);
                        if j < p {
                            assert(before.names(j, k));
                        } else {
                            assert(before.names(j + 1, k));
                        }
                        assert(before.names(b, k));
                    }
                    assert(after@ =~= before@.remove(name@));
                }
                Some(entry.item)
            },
        }
    }

    /// Empties the table and hands back what it held: every name once, and beside each name
    /// the item that stood under it. The order is left open.
    pub fn drain(&mut self) -> (r: (Vec<String>, Vec<T>))
        ensures
            final(self)@ == Map::<Seq<char>, T>::empty(),
            holds_all(old(self)@, r.0@, r.1@),
    {
        proof {
            use_type_invariant(&*self);
        }
        let ghost before = *self;
        let mut names: Vec<String> = Vec::new();
        let mut items: Vec<T> = Vec::new();
        let mut rest: Vec<Entry<T>> = Vec::new();
        core::mem::swap(&mut self.entries, &mut rest);
        assert(self@ =~= Map::<Seq<char>, T>::empty());
        let ghost n = rest.len() as int;
        while rest.len() > 0
            invariant
                rest@ == before.entries@.take(rest.len() as int),
                before.entries.len() == n,
                rest.len() <= n,
                names.len() == n - rest.len(),
                items.len() == n - rest.len(),
                forall|i: int|
                    0 <= i < items.len() ==> #[trigger] items[i] == before.entries[n - 1 - i].item,
                forall|i: int|
                    0 <= i < names.len() ==> (#[trigger] names[i])@ == before.entries[n - 1
                        - i].name@,
            decreases rest.len(),
        {
            let entry = rest.pop().unwrap();
            names.push(entry.name);
            items.push(entry.item);
        }
        proof {
            assert forall|i: int| 0 <= i < names.len() implies before@.contains_key(
                (#[trigger] names[i])@,
            ) && before@[names[i]@] == items[i] by {
                let k = names[i]@;
                assert(before.names(n - 1 - i, k));
                assert(before.names(before.slot(k), k));
            }
            assert forall|k: Seq<char>| before@.contains_key(k) implies exists|i: int|
                0 <= i < names.len() && (#[trigger] names[i])@ == k by {
                let j = choose|j: int| before.names(j, k);
                assert(names[n - 1 - j]@ == k);
            }
        }
        (names, items)
    }
}

/// `names` and `items` hold what a map holds: every name of the map once, and beside each
/// name the item under it.
pub open spec fn holds_all<T>(map: Map<Seq<char>, T>, names: Seq<String>, items: Seq<T>) -> bool {
    &&& names.len() == items.len()
    &&& forall|i: int, j: int| 0 <= i < j < names.len() ==> names[i]@ != names[j]@
    &&& forall|i: int|
        0 <= i < names.len() ==> map.contains_key((#[trigger] names[i])@) && map[names[i]@]
            == items[i]
    &&& forall|k: Seq<char>|
        map.contains_key(k) ==> exists|i: int| 0 <= i < names.len() && (#[trigger] names[i])@ == k
}

} // verus!
