use vstd::prelude::*;

verus! {

/// The number of entities that can be live at once.
pub const MAX_ENTS: usize = 200;

/// The mark of an identifier that nobody holds.
pub const EMPTY: u32 = 0;

/// The mark of an identifier that a live entity holds.
pub const RESERVED: u32 = 1;

/// Hands out entity identifiers from a bounded range that counts from 0, and
/// takes them back for reuse, the most recently released first.
pub struct EntityFactory {
    entity_masks: [u32; MAX_ENTS],
    reusable_space: Vec<u32>,
    entities_number: u32,
}

impl EntityFactory {
    /// The identifiers that live entities hold.
    pub closed spec fn live(&self) -> Set<u32> {
        Set::new(|id: u32| id < MAX_ENTS && self.entity_masks@[id as int] == RESERVED)
    }

    /// The identifiers that wait for reuse, the most recently released last.
    pub closed spec fn free(&self) -> Seq<u32> {
        self.reusable_space@
    }

    /// The invariant of the factory: the marks, the identifiers that wait for
    /// reuse and the count of live entities agree. A new factory has it, and
    /// every operation keeps it.
    pub closed spec fn wf(&self) -> bool {
        &&& self.reusable_space@.no_duplicates()
        &&& self.entities_number + self.reusable_space@.len() <= MAX_ENTS
        &&& forall|i: int|
            0 <= i < self.reusable_space@.len() ==> (#[trigger] self.reusable_space@[i])
                < self.entities_number + self.reusable_space@.len()
        &&& forall|id: u32|
            id < MAX_ENTS ==> (#[trigger] self.entity_masks@[id as int] == RESERVED <==> id
                < self.entities_number + self.reusable_space@.len()
                && !self.reusable_space@.contains(id))
        &&& self.live().finite()
        &&& self.live().len() == self.entities_number
    }

    /// A factory without entities.
    pub fn new() -> (f: EntityFactory)
        ensures
            f.wf(),
            f.live() == Set::<u32>::empty(),
            f.free() == Seq::<u32>::empty(),
    {
        let f = EntityFactory {
            entities_number: 0,
            reusable_space: Vec::new(),
            entity_masks: [EMPTY; MAX_ENTS],
        };
        proof {
            assert(f.live() =~= Set::<u32>::empty());
            assert(f.free() =~= Seq::<u32>::empty());
        }
        f
    }

    /// Whether an identifier is left to hand out.
    pub open spec fn can_add(&self) -> bool {
        self.free().len() > 0 || self.live().len() < MAX_ENTS
    }

    /// The identifier that the next entity gets: the one released most recently,
    /// or, where none waits for reuse, the number of live entities.
    pub open spec fn next(&self) -> u32 {
        if self.free().len() > 0 {
            self.free().last()
        } else {
            self.live().len() as u32
        }
    }

    /// Makes an entity and returns its identifier, which no live entity has; or
    /// returns nothing where the factory is full.
    pub fn add_entity(&mut self) -> (added: Option<u32>)
        requires
            old(self).wf(),
        ensures
            final(self).wf(),
            match added {
                Some(id) => {
                    &&& old(self).can_add()
                    &&& id == old(self).next()
                    &&& !old(self).live().contains(id)
                    &&& final(self).live() == old(self).live().insert(id)
                    &&& final(self).free() == if old(self).free().len() > 0 {
                        old(self).free().drop_last()
                    } else {
                        old(self).free()
                    }
                },
                None => {
                    &&& !old(self).can_add()
                    &&& final(self).live() == old(self).live()
                    &&& final(self).free() == old(self).free()
                },
            },
    {
        let index: u32 = match self.reusable_space.pop() {
            Some(reused) => {
                proof {
                    let last = old(self).reusable_space@.len() - 1;
                    assert(old(self).reusable_space@[last] == reused);
                    assert(old(self).reusable_space@.contains(reused));
                    assert(old(self).entity_masks@[reused as int] != RESERVED);
                }
                reused
            },
            None => {
                if self.entities_number >= MAX_ENTS as u32 {
                    return None;
                }
                self.entities_number
            },
        };
        self.entity_masks[index as usize] = RESERVED;
        self.entities_number += 1;
        proof {
            let before = old(self).reusable_space@;
            let after = self.reusable_space@;
            let marks = self.entity_masks@;
            let issued = self.entities_number + after.len();
            assert(self.live() =~= old(self).live().insert(index));
            assert(after =~= if before.len() > 0 {
                before.drop_last()
            } else {
                before
            });
            assert forall|id: u32| id < MAX_ENTS implies (#[trigger] marks[id as int] == RESERVED
                <==> id < issued && !after.contains(id)) by {
                if before.contains(id) && id != index {
                    let j = choose|j: int| 0 <= j < before.len() && before[j] == id;
                    assert(after[j] == id);
                }
                if after.contains(id) {
                    let j = choose|j: int| 0 <= j < after.len() && after[j] == id;
                    assert(before[j] == id);
                }
            }
        }
        Some(index)
    }

    /// Gives the identifier of a live entity back for reuse. An identifier that
    /// no live entity holds is left alone.
    pub fn delete_entity(&mut self, entity_id: u32)
        requires
            old(self).wf(),
        ensures
            final(self).wf(),
            final(self).live() == old(self).live().remove(entity_id),
            final(self).free() == if old(self).live().contains(entity_id) {
                old(self).free().push(entity_id)
            } else {
                old(self).free()
            },
    {
        if entity_id >= MAX_ENTS as u32 || self.entity_masks[entity_id as usize] != RESERVED {
            proof {
                assert(old(self).live().remove(entity_id) =~= old(self).live());
            }
            return ;
        }
        proof {
            assert(self.live().contains(entity_id));
            if self.live().len() == 0 {
                self.live().lemma_len0_is_empty();
            }
        }
        self.entity_masks[entity_id as usize] = EMPTY;
        self.reusable_space.push(entity_id);
        self.entities_number -= 1;
        proof {
            let before = old(self).reusable_space@;
            let after = self.reusable_space@;
            let marks = self.entity_masks@;
            let issued = self.entities_number + after.len();
            assert(self.live() =~= old(self).live().remove(entity_id));
            assert(after[before.len() as int] == entity_id);
            assert forall|id: u32| id < MAX_ENTS implies (#[trigger] marks[id as int] == RESERVED
                <==> id < issued && !after.contains(id)) by {
                if before.contains(id) {
                    let j = choose|j: int| 0 <= j < before.len() && before[j] == id;
                    assert(after[j] == id);
                }
                if after.contains(id) && id != entity_id {
                    let j = choose|j: int| 0 <= j < after.len() && after[j] == id;
                    assert(before[j] == id);
                }
            }
            assert forall|i: int, j: int|
                0 <= i < after.len() && 0 <= j < after.len() && i != j implies after[i]
                != after[j] by {
                if i == before.len() {
                    assert(before[j] == after[j]);
                    assert(before.contains(after[j]));
                } else if j == before.len() {
                    assert(before[i] == after[i]);
                    assert(before.contains(after[i]));
                }
            }
        }
    }

    /// The number of live entities.
    pub fn count_entities(&self) -> (n: u32)
        requires
            self.wf(),
        ensures
            n == self.live().len(),
    {
        self.entities_number
    }

    /// The number of identifiers that wait for reuse.
    pub fn count_reusable_space(&self) -> (n: u32)
        requires
            self.wf(),
        ensures
            n == self.free().len(),
    {
        self.reusable_space.len() as u32
    }
}

} // verus!
