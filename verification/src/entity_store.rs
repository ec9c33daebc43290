use std::any::TypeId;
use std::collections::hash_map::Entry;
use std::collections::HashMap;
use vstd::prelude::*;

verus! {

broadcast use vstd::std_specs::hash::group_hash_axioms;

/// The state of identifier allocation, as a mathematical value.
///
/// Identifiers count from 1. Those from 1 to `issued` have been handed out at
/// least once; `free` lists the ones that were given back and wait for reuse,
/// the most recently released last.
pub struct Identities {
    pub issued: nat,
    pub free: Seq<u32>,
}

impl Identities {
    /// The identifiers that are held by somebody: handed out and not given back.
    pub open spec fn live(self) -> Set<u32> {
        Set::new(|id: u32| 1 <= id <= self.issued && !self.free.contains(id))
    }

    /// What holds of every state that allocations and releases lead to: no
    /// identifier waits for reuse twice, none that waits was never issued, and
    /// every identifier issued is either live or waits for reuse.
    pub open spec fn wf(self) -> bool {
        &&& self.issued <= u32::MAX
        &&& self.free.no_duplicates()
        &&& forall|i: int| 0 <= i < self.free.len() ==> 1 <= #[trigger] self.free[i] <= self.issued
        &&& self.live().finite()
        &&& self.live().len() + self.free.len() == self.issued
    }

    /// Whether an identifier is left to hand out.
    pub open spec fn can_allocate(self) -> bool {
        self.free.len() > 0 || self.issued < u32::MAX
    }

    /// The identifier that the next allocation hands out: the one released most
    /// recently, or the first that was never issued where none waits for reuse.
    pub open spec fn next(self) -> u32 {
        if self.free.len() > 0 {
            self.free.last()
        } else {
            (self.issued + 1) as u32
        }
    }

    /// The state after the next allocation.
    pub open spec fn allocate(self) -> Identities {
        if self.free.len() > 0 {
            Identities { issued: self.issued, free: self.free.drop_last() }
        } else {
            Identities { issued: self.issued + 1, free: self.free }
        }
    }

    /// The state after `id` is given back. Releasing an identifier that is not
    /// live changes nothing.
    pub open spec fn release(self, id: u32) -> Identities {
        if self.live().contains(id) {
            Identities { issued: self.issued, free: self.free.push(id) }
        } else {
            self
        }
    }

    /// The state in which nothing was ever allocated.
    pub open spec fn fresh() -> Identities {
        Identities { issued: 0, free: Seq::empty() }
    }

    pub proof fn lemma_fresh()
        ensures
            Self::fresh().wf(),
            Self::fresh().live() == Set::<u32>::empty(),
    {
        assert(Self::fresh().live() =~= Set::<u32>::empty());
    }

    /// An allocation hands out an identifier that nobody holds, and makes it
    /// live: no identifier is ever held twice.
    pub proof fn lemma_allocate(self)
        requires
            self.wf(),
            self.can_allocate(),
        ensures
            !self.live().contains(self.next()),
            self.allocate().live() == self.live().insert(self.next()),
            self.allocate().wf(),
            self.allocate().live().len() == self.live().len() + 1,
    {
        let after = self.allocate();
        let id = self.next();
        if self.free.len() > 0 {
            let last = self.free.len() - 1;
            assert(self.free[last] == id);
            assert(self.free.contains(id));
            assert forall|x: u32| after.live().contains(x) == self.live().insert(id).contains(
                x,
            ) by {
                if x == id {
                    if after.free.contains(x) {
                        let j = choose|j: int| 0 <= j < after.free.len() && after.free[j] == x;
                        assert(self.free[j] == x);
                    }
                } else {
                    if self.free.contains(x) {
                        let j = choose|j: int| 0 <= j < self.free.len() && self.free[j] == x;
                        assert(after.free[j] == x);
                    }
                    if after.free.contains(x) {
                        let j = choose|j: int| 0 <= j < after.free.len() && after.free[j] == x;
                        assert(self.free[j] == x);
                    }
                }
            }
            assert(forall|i: int|
                0 <= i < after.free.len() ==> after.free[i] == self.free[i]);
        } else {
            assert forall|x: u32| after.live().contains(x) == self.live().insert(id).contains(
                x,
            ) by {
            }
        }
        assert(after.live() =~= self.live().insert(id));
    }

    /// Giving back a live identifier takes it, and nothing else, out of the live
    /// ones; giving back any other changes nothing.
    pub proof fn lemma_release(self, id: u32)
        requires
            self.wf(),
        ensures
            self.release(id).wf(),
            self.release(id).live() == self.live().remove(id),
            self.live().contains(id) ==> self.release(id).live().len() + 1 == self.live().len(),
            !self.live().contains(id) ==> self.release(id) == self,
    {
        let after = self.release(id);
        if self.live().contains(id) {
            assert forall|x: u32| after.live().contains(x) == self.live().remove(id).contains(
                x,
            ) by {
                if x == id {
                    assert(after.free[self.free.len() as int] == id);
                } else {
                    if self.free.contains(x) {
                        let j = choose|j: int| 0 <= j < self.free.len() && self.free[j] == x;
                        assert(after.free[j] == x);
                    }
                    if after.free.contains(x) {
                        let j = choose|j: int| 0 <= j < after.free.len() && after.free[j] == x;
                        assert(self.free[j] == x);
                    }
                }
            }
            assert(after.live() =~= self.live().remove(id));
            assert forall|i: int, j: int|
                0 <= i < after.free.len() && 0 <= j < after.free.len() && i
                    != j implies after.free[i] != after.free[j] by {
                if i == self.free.len() {
                    assert(self.free[j] == after.free[j]);
                    assert(self.free.contains(after.free[j]));
                } else if j == self.free.len() {
                    assert(self.free[i] == after.free[i]);
                    assert(self.free.contains(after.free[i]));
                }
            }
        } else {
            assert(self.live().remove(id) =~= self.live());
        }
    }

    /// An identifier that was just given back is the next to be handed out, and
    /// handing it out restores the live identifiers.
    pub proof fn lemma_release_then_allocate(self, id: u32)
        requires
            self.wf(),
            self.live().contains(id),
        ensures
            self.release(id).can_allocate(),
            self.release(id).next() == id,
            self.release(id).allocate() == self,
    {
        let mid = self.release(id);
        assert(mid.free.last() == id);
        assert(mid.free.drop_last() =~= self.free);
    }
}

/// `std::any::TypeId`, the token that stands for a type at run time. The library
/// carries such tokens and compares them; it never looks inside one.
#[verifier::external_type_specification]
#[verifier::external_body]
pub struct ExTypeId(TypeId);

/// `TypeId`'s `==`: two tokens compare equal exactly when they are the same token.
#[verifier::external_body]
fn same_type(a: &TypeId, b: &TypeId) -> (same: bool)
    ensures
        same == (*a == *b),
{
    a == b
}

/// Hands out entity identifiers, takes them back for reuse, and records which
/// component types each entity holds.
pub struct EntityStore {
    current_id: u32,
    count_entities: usize,
    reusable: Vec<u32>,
    store: HashMap<u32, Vec<TypeId>>,
}

impl View for EntityStore {
    type V = Identities;

    closed spec fn view(&self) -> Identities {
        Identities { issued: self.current_id as nat, free: self.reusable@ }
    }
}

impl EntityStore {
    /// The component types recorded for each entity, in the order they were recorded.
    pub closed spec fn types(&self) -> Map<u32, Seq<TypeId>> {
        self.store@.map_values(|held: Vec<TypeId>| held@)
    }

    /// The invariant of the store: its allocation state is sound, and the
    /// count it keeps is the number of live identifiers. A new store has it,
    /// and every operation keeps it.
    pub closed spec fn wf(&self) -> bool {
        &&& self@.wf()
        &&& self.count_entities == self@.live().len()
    }

    /// A well-formed store has a well-formed allocation state.
    pub proof fn lemma_wf(&self)
        requires
            self.wf(),
        ensures
            self@.wf(),
    {
    }

    /// A store without entities, in which no identifier was issued yet.
    pub fn new() -> (s: EntityStore)
        ensures
            s.wf(),
            s@ == Identities::fresh(),
            s.types() == Map::<u32, Seq<TypeId>>::empty(),
    {
        let s = EntityStore {
            current_id: 0,
            count_entities: 0,
            reusable: Vec::new(),
            store: HashMap::new(),
        };
        proof {
            Identities::lemma_fresh();
            assert(s@.free =~= Seq::<u32>::empty());
            assert(s.types() =~= Map::<u32, Seq<TypeId>>::empty());
        }
        s
    }

    /// Allocates an identifier that no live entity has: the one released most
    /// recently where one waits for reuse, else the next that was never issued.
    pub fn get_new_id(&mut self) -> (id: u32)
        requires
            old(self).wf(),
            old(self)@.can_allocate(),
        ensures
            final(self).wf(),
            id == old(self)@.next(),
            final(self)@ == old(self)@.allocate(),
            !old(self)@.live().contains(id),
            final(self)@.live() == old(self)@.live().insert(id),
            final(self).types() == old(self).types(),
    {
        proof {
            old(self)@.lemma_allocate();
        }
        let id: u32 = match self.reusable.pop() {
            Some(reused) => reused,
            None => {
                self.current_id += 1;
                self.current_id
            },
        };
        self.count_entities += 1;
        proof {
            assert(final(self)@.free =~= old(self)@.allocate().free);
        }
        id
    }

    /// The number of live entities: the identifiers that were issued, less
    /// those that wait for reuse.
    pub fn count(&self) -> (n: usize)
        requires
            self.wf(),
        ensures
            n == self@.live().len(),
            n == self@.issued - self@.free.len(),
    {
        self.count_entities
    }

    /// Whether `id` is held by a live entity.
    pub fn is_live(&self, id: u32) -> (live: bool)
        ensures
            live == self@.live().contains(id),
    {
        if id < 1 || id > self.current_id {
            return false;
        }
        let mut i: usize = 0;
        while i < self.reusable.len()
            invariant
                i <= self.reusable.len(),
                forall|j: int| 0 <= j < i ==> self.reusable[j] != id,
            decreases self.reusable.len() - i,
        {
            if self.reusable[i] == id {
                return false;
            }
            i += 1;
        }
        true
    }

    /// Records that entity `id` holds a component of type `type_id`.
    pub fn insert(&mut self, id: u32, type_id: TypeId)
        ensures
            final(self)@ == old(self)@,
            final(self).wf() == old(self).wf(),
            final(self).types() == old(self).types().insert(
                id,
                if old(self).types().contains_key(id) {
                    old(self).types()[id].push(type_id)
                } else {
                    seq![type_id]
                },
            ),
    {
        match self.store.entry(id) {
            Entry::Occupied(slot) => {
                slot.into_mut().push(type_id);
            },
            Entry::Vacant(slot) => {
                let mut held: Vec<TypeId> = Vec::new();
                held.push(type_id);
                slot.insert(held);
            },
        }
        proof {
            let expected = old(self).types().insert(
                id,
                if old(self).types().contains_key(id) {
                    old(self).types()[id].push(type_id)
                } else {
                    seq![type_id]
                },
            );
            assert(final(self).types() =~= expected);
        }
    }

    /// Whether anything is recorded for entity `id`.
    pub fn contains_id(&self, id: u32) -> (found: bool)
        ensures
            found == self.types().contains_key(id),
    {
        self.store.contains_key(&id)
    }

    /// Whether entity `id` is recorded as holding a component of type `type_id`.
    pub fn contains_type(&self, id: u32, type_id: TypeId) -> (found: bool)
        ensures
            found == (self.types().contains_key(id) && self.types()[id].contains(type_id)),
    {
        match self.store.get(&id) {
            Some(held) => {
                let mut i: usize = 0;
                while i < held.len()
                    invariant
                        i <= held.len(),
                        self.types().contains_key(id),
                        self.types()[id] == held@,
                        forall|j: int| 0 <= j < i ==> held[j] != type_id,
                    decreases held.len() - i,
                {
                    if same_type(&held[i], &type_id) {
                        assert(self.types()[id][i as int] == type_id);
                        return true;
                    }
                    i += 1;
                }
                false
            },
            None => false,
        }
    }

    /// Forgets everything recorded for entity `id` and gives its identifier back
    /// for reuse. An identifier that is not live is not given back again.
    pub fn remove_all(&mut self, id: u32)
        requires
            old(self).wf(),
        ensures
            final(self).wf(),
            final(self)@ == old(self)@.release(id),
            final(self)@.live() == old(self)@.live().remove(id),
            final(self).types() == old(self).types().remove(id),
    {
        proof {
            old(self)@.lemma_release(id);
        }
        self.store.remove(&id);
        if self.is_live(id) {
            self.reusable.push(id);
            self.count_entities -= 1;
        }
        proof {
            assert(final(self).types() =~= old(self).types().remove(id));
        }
    }

    /// Forgets that entity `id` holds a component of type `type_id`, however often
    /// that was recorded. An entity for which nothing is left is forgotten itself.
    pub fn remove(&mut self, id: u32, type_id: TypeId)
        ensures
            final(self)@ == old(self)@,
            final(self).wf() == old(self).wf(),
            final(self).types() == if !old(self).types().contains_key(id) {
                old(self).types()
            } else if without(old(self).types()[id], type_id).len() == 0 {
                old(self).types().remove(id)
            } else {
                old(self).types().insert(id, without(old(self).types()[id], type_id))
            },
    {
        match self.store.remove(&id) {
            Some(held) => {
                let mut kept: Vec<TypeId> = Vec::new();
                let mut i: usize = 0;
                while i < held.len()
                    invariant
                        i <= held.len(),
                        kept@ == without(held@.take(i as int), type_id),
                    decreases held.len() - i,
                {
                    proof {
                        reveal(Seq::filter);
                        assert(held@.take(i + 1).drop_last() =~= held@.take(i as int));
                    }
                    if !same_type(&held[i], &type_id) {
                        kept.push(held[i]);
                    }
                    i += 1;
                }
                proof {
                    assert(held@.take(i as int) =~= held@);
                }
                if kept.len() > 0 {
                    self.store.insert(id, kept);
                    proof {
                        assert(final(self).types() =~= old(self).types().insert(
                            id,
                            without(old(self).types()[id], type_id),
                        ));
                    }
                } else {
                    proof {
                        assert(final(self).types() =~= old(self).types().remove(id));
                    }
                }
            },
            None => {
                proof {
                    assert(final(self).types() =~= old(self).types());
                }
            },
        }
    }
}

/// `held` without the occurrences of `type_id`, the rest in its order.
pub open spec fn without(held: Seq<TypeId>, type_id: TypeId) -> Seq<TypeId> {
    held.filter(|t: TypeId| t != type_id)
}

} // verus!
