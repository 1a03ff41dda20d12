//! A table from names to handlers in which no name occurs twice, looked up
//! through a hash of the name.

use std::collections::HashMap;
use vstd::prelude::*;
use crate::lexicographic::same_bytes;

verus! {

broadcast use vstd::std_specs::hash::group_hash_axioms;

/// Place of the name `k` among `names`.
pub open spec fn place_of(names: Seq<Vec<u8>>, k: Seq<u8>) -> int {
    choose|i: int| 0 <= i < names.len() && #[trigger] names[i]@ == k
}

/// The table that pairs each of `names` with the handler at the same place.
pub open spec fn paired<A>(names: Seq<Vec<u8>>, handlers: Seq<A>) -> Map<Seq<u8>, A> {
    Map::new(
        |k: Seq<u8>| exists|i: int| 0 <= i < names.len() && #[trigger] names[i]@ == k,
        |k: Seq<u8>| handlers[place_of(names, k)],
    )
}

/// No name occurs twice.
pub open spec fn distinct(names: Seq<Vec<u8>>) -> bool {
    forall|i: int, j: int| 0 <= i < j < names.len() ==> #[trigger] names[i]@ != #[trigger] names[j]@
}

/// The modulus of the hash.
pub const HASH_MODULUS: u64 = 1_000_000_007;

/// The hash of a name: its bytes as the digits of a number to the base 31,
/// reduced by the modulus after every digit.
pub open spec fn hash_of(name: Seq<u8>) -> u64
    decreases name.len(),
{
    if name.len() == 0 {
        7
    } else {
        ((hash_of(name.drop_last()) * 31 + name.last()) % (HASH_MODULUS as int)) as u64
    }
}

/// Computes the hash of a name.
pub fn hash_name(name: &[u8]) -> (h: u64)
    ensures
        h == hash_of(name@),
{
    let mut h: u64 = 7;
    let mut i: usize = 0;
    while i < name.len()
        invariant
            i <= name@.len(),
            h == hash_of(name@.subrange(0, i as int)),
            h < HASH_MODULUS,
        decreases name@.len() - i,
    {
        proof {
            assert(name@.subrange(0, i + 1).drop_last() =~= name@.subrange(0, i as int));
        }
        h = (h * 31 + name[i] as u64) % HASH_MODULUS;
        i += 1;
    }
    proof {
        assert(name@.subrange(0, i as int) =~= name@);
    }
    h
}

/// The index lists the place of every name under the hash of the name, and
/// lists no place that does not exist.
pub open spec fn indexed(names: Seq<Vec<u8>>, index: Map<u64, Vec<usize>>) -> bool {
    &&& forall|i: int|
        0 <= i < names.len() ==> index.contains_key(hash_of(#[trigger] names[i]@)) && index[hash_of(
            names[i]@,
        )]@.contains(i as usize)
    &&& forall|h: u64, j: int|
        index.contains_key(h) && 0 <= j < index[h]@.len() ==> (#[trigger] index[h]@[j]) < names.len()
}

/// Names with the handler registered for each.
#[derive(Debug)]
pub struct Table<A> {
    names: Vec<Vec<u8>>,
    handlers: Vec<A>,
    index: HashMap<u64, Vec<usize>>,
}

impl<A> View for Table<A> {
    type V = Map<Seq<u8>, A>;

    closed spec fn view(&self) -> Map<Seq<u8>, A> {
        paired(self.names@, self.handlers@)
    }
}

impl<A> Table<A> {
    #[verifier::type_invariant]
    spec fn well_formed(self) -> bool {
        &&& self.names@.len() == self.handlers@.len()
        &&& distinct(self.names@)
        &&& indexed(self.names@, self.index@)
    }
}

impl<A: Copy> Table<A> {
    /// The table without any name.
    pub fn new() -> (r: Table<A>)
        ensures
            r@ == Map::<Seq<u8>, A>::empty(),
    {
        let r = Table { names: Vec::new(), handlers: Vec::new(), index: HashMap::new() };
        proof {
            assert(r@ =~= Map::<Seq<u8>, A>::empty());
        }
        r
    }

    /// Place of `name` among the names, if it is registered: the places
    /// listed under its hash are tried, and no others.
    fn find(&self, name: &[u8]) -> (r: Option<usize>)
        ensures
            match r {
                Some(i) => i < self.names@.len() && self.names@[i as int]@ == name@,
                None => forall|i: int| 0 <= i < self.names@.len() ==> self.names@[i]@ != name@,
            },
    {
        proof {
            use_type_invariant(self);
        }
        let h = hash_name(name);
        let total = self.names.len();
        let places = match self.index.get(&h) {
            Some(places) => places,
            None => {
                return None;
            },
        };
        let mut j: usize = 0;
        while j < places.len()
            invariant
                j <= places@.len(),
                total == self.names@.len(),
                self.index@.contains_key(h),
                places@ == self.index@[h]@,
                h == hash_of(name@),
                indexed(self.names@, self.index@),
                forall|t: int| 0 <= t < j ==> self.names@[places@[t] as int]@ != name@,
            decreases places@.len() - j,
        {
            let i = places[j];
            if same_bytes(self.names[i].as_slice(), name) {
                return Some(i);
            }
            j += 1;
        }
        proof {
            assert forall|i: int| 0 <= i < self.names@.len() implies self.names@[i]@ != name@ by {
                if self.names@[i]@ == name@ {
                    assert(places@.contains(i as usize));
                    let t = choose|t: int| 0 <= t < places@.len() && places@[t] == i as usize;
                    assert(self.names@[places@[t] as int]@ != name@);
                }
            }
        }
        None
    }

    /// The handler registered for `name`.
    pub fn get(&self, name: &[u8]) -> (r: Option<A>)
        ensures
            match r {
                Some(a) => self@.contains_key(name@) && a == self@[name@],
                None => !self@.contains_key(name@),
            },
    {
        proof {
            use_type_invariant(self);
        }
        match self.find(name) {
            Some(i) => {
                proof {
                    let j = place_of(self.names@, name@);
                    if i < j {
                        assert(self.names@[i as int]@ != self.names@[j]@);
                    } else if j < i {
                        assert(self.names@[j]@ != self.names@[i as int]@);
                    }
                }
                Some(self.handlers[i])
            },
            None => None,
        }
    }

    /// Registers `handler` for `name`, unless the name is registered
    /// already; tells whether it did.
    pub fn try_insert(&mut self, name: Vec<u8>, handler: A) -> (r: bool)
        ensures
            r == !old(self)@.contains_key(name@),
            final(self)@ == if r {
                old(self)@.insert(name@, handler)
            } else {
                old(self)@
            },
    {
        proof {
            use_type_invariant(&*self);
        }
        if self.find(name.as_slice()).is_some() {
            return false;
        }
        let ghost before_names = self.names@;
        let ghost before_handlers = self.handlers@;
        let ghost before_index = self.index@;
        let ghost k = name@;
        let h = hash_name(name.as_slice());
        let mut other = Table { names: Vec::new(), handlers: Vec::new(), index: HashMap::new() };
        core::mem::swap(self, &mut other);
        let Table { names: mut names, handlers: mut handlers, index: mut index } = other;
        let place = names.len();
        let mut places = match index.remove(&h) {
            Some(places) => places,
            None => Vec::new(),
        };
        let ghost before_places = places@;
        places.push(place);
        index.insert(h, places);
        names.push(name);
        handlers.push(handler);
        proof {
            let n = before_names.len() as int;
            assert(before_index.contains_key(h) ==> before_places == before_index[h]@);
            assert forall|i: int| 0 <= i < names@.len() implies index@.contains_key(
                hash_of(#[trigger] names@[i]@),
            ) && index@[hash_of(names@[i]@)]@.contains(i as usize) by {
                if i == n {
                    assert(places@[before_places.len() as int] == place);
                } else {
                    assert(names@[i] == before_names[i]);
                    let g = hash_of(before_names[i]@);
                    assert(before_index.contains_key(g) && before_index[g]@.contains(i as usize));
                    if g == h {
                        let t = choose|t: int| 0 <= t < before_places.len() && before_places[t] == i as usize;
                        assert(places@[t] == i as usize);
                    }
                }
            }
            assert forall|g: u64, j: int| index@.contains_key(g) && 0 <= j < index@[g]@.len() implies (
            #[trigger] index@[g]@[j]) < names@.len() by {
                if g == h {
                    if j < before_places.len() {
                        assert(places@[j] == before_places[j]);
                        assert(before_index.contains_key(h));
                        assert(before_index[h]@[j] < before_names.len());
                    }
                } else {
                    assert(before_index.contains_key(g));
                    assert(before_index[g]@[j] < before_names.len());
                }
            }
            let target = paired(before_names, before_handlers).insert(k, handler);
            assert forall|key: Seq<u8>| paired(names@, handlers@).contains_key(key) <==> target.contains_key(
                key,
            ) by {
                if paired(names@, handlers@).contains_key(key) {
                    let i = place_of(names@, key);
                    if i < n {
                        assert(before_names[i]@ == key);
                    }
                }
                if target.contains_key(key) {
                    if key == k {
                        assert(names@[n]@ == key);
                    } else {
                        let i = place_of(before_names, key);
                        assert(names@[i]@ == key);
                    }
                }
            }
            assert forall|key: Seq<u8>| paired(names@, handlers@).contains_key(key) implies paired(
                names@,
                handlers@,
            )[key] == target[key] by {
                let i = place_of(names@, key);
                if i < n {
                    assert(before_names[i]@ == key);
                    let j = place_of(before_names, key);
                    if i < j {
                        assert(before_names[i]@ != before_names[j]@);
                    } else if j < i {
                        assert(before_names[j]@ != before_names[i]@);
                    }
                }
            }
            assert(paired(names@, handlers@) =~= target);
        }
        *self = Table { names, handlers, index };
        true
    }
}

} // verus!
