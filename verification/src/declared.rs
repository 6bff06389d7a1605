//! What the trusted headers say is declared.

use vstd::prelude::*;
use crate::class::{BlockNumber, CasmHash, ClassHash, SierraHash};
use crate::felt::Felt;

verus! {

/// A copy of `items`.
fn copy_of<T: Copy>(items: &Vec<T>) -> (r: Vec<T>)
    ensures
        r@ == items@,
{
    let mut r: Vec<T> = Vec::new();
    let mut i: usize = 0;
    while i < items.len()
        invariant
            i <= items@.len(),
            r@ == items@.subrange(0, i as int),
        decreases items@.len() - i,
    {
        r.push(items[i]);
        assert(r@ =~= items@.subrange(0, i + 1));
        i += 1;
    }
    assert(r@ =~= items@);
    r
}

/// A copy of `items` with `hash` at its end.
fn copy_with<T: Copy>(items: &Vec<T>, hash: T) -> (r: Vec<T>)
    ensures
        r@ == items@.push(hash),
{
    let mut r = copy_of(items);
    r.push(hash);
    assert(r@ =~= items@.push(hash));
    r
}

/// A copy of `items` that leaves out the item at `at`.
fn copy_without<T: Copy>(items: &Vec<T>, at: usize) -> (r: Vec<T>)
    requires
        at < items@.len(),
    ensures
        r@ == items@.remove(at as int),
{
    let mut r: Vec<T> = Vec::new();
    let mut i: usize = 0;
    while i < items.len()
        invariant
            i <= items@.len(),
            at < items@.len(),
            i <= at ==> r@ == items@.subrange(0, i as int),
            i > at ==> r@ == items@.subrange(0, at as int) + items@.subrange(at + 1, i as int),
        decreases items@.len() - i,
    {
        if i != at {
            r.push(items[i]);
        }
        proof {
            if i < at {
                assert(r@ =~= items@.subrange(0, i + 1));
            } else if i == at {
                assert(r@ =~= items@.subrange(0, at as int) + items@.subrange(at + 1, i + 1));
            } else {
                assert(r@ =~= items@.subrange(0, at as int) + items@.subrange(at + 1, i + 1));
            }
        }
        i += 1;
    }
    assert(r@ =~= items@.remove(at as int));
    r
}

/// A finite set of class hashes.
#[derive(Debug)]
pub struct ClassHashSet {
    items: Vec<ClassHash>,
}

impl Clone for ClassHashSet {
    fn clone(&self) -> (r: ClassHashSet)
        ensures
            r@ == self@,
    {
        proof {
            use_type_invariant(self);
        }
        ClassHashSet { items: copy_of(&self.items) }
    }
}

impl View for ClassHashSet {
    type V = Set<ClassHash>;

    closed spec fn view(&self) -> Set<ClassHash> {
        self.items@.to_set()
    }
}

impl ClassHashSet {
    #[verifier::type_invariant]
    spec fn no_hash_twice(&self) -> bool {
        self.items@.no_duplicates()
    }

    /// The empty set.
    pub fn new() -> (r: ClassHashSet)
        ensures
            r@ == Set::<ClassHash>::empty(),
    {
        let r = ClassHashSet { items: Vec::new() };
        assert(r.items@.to_set() =~= Set::<ClassHash>::empty());
        r
    }

    fn position(&self, hash: &ClassHash) -> (r: Option<usize>)
        ensures
            match r {
                Some(i) => i < self.items@.len() && self.items@[i as int] == *hash,
                None => !self.items@.contains(*hash),
            },
    {
        let mut i: usize = 0;
        while i < self.items.len()
            invariant
                i <= self.items@.len(),
                forall|j: int| 0 <= j < i ==> self.items@[j] != *hash,
            decreases self.items@.len() - i,
        {
            proof {
                Felt::lemma_view_injective(self.items@[i as int].0, hash.0);
            }
            if self.items[i].0 == hash.0 {
                return Some(i);
            }
            i += 1;
        }
        None
    }

    /// Whether the hash is in the set.
    pub fn contains(&self, hash: &ClassHash) -> (r: bool)
        ensures
            r == self@.contains(*hash),
    {
        self.position(hash).is_some()
    }

    /// Adds the hash.  Returns whether it was new.
    pub fn insert(&mut self, hash: ClassHash) -> (r: bool)
        ensures
            final(self)@ == old(self)@.insert(hash),
            r == !old(self)@.contains(hash),
    {
        proof {
            use_type_invariant(&*self);
        }
        match self.position(&hash) {
            Some(_) => {
                assert(self@ =~= self@.insert(hash));
                false
            },
            None => {
                self.items = copy_with(&self.items, hash);
                assert(self.items@.to_set() =~= old(self).items@.to_set().insert(hash)) by {
                    assert forall|h: ClassHash|
                        self.items@.to_set().contains(h) == old(self).items@.to_set().insert(
                            hash,
                        ).contains(h) by {
                        if old(self).items@.contains(h) {
                            let i = old(self).items@.index_of(h);
                            assert(self.items@[i] == h);
                        }
                        if h == hash {
                            assert(self.items@[self.items@.len() - 1] == h);
                        }
                    }
                }
                true
            },
        }
    }

    /// Takes the hash out.  Returns whether it was in the set.
    pub fn remove(&mut self, hash: &ClassHash) -> (r: bool)
        ensures
            final(self)@ == old(self)@.remove(*hash),
            r == old(self)@.contains(*hash),
    {
        proof {
            use_type_invariant(&*self);
        }
        match self.position(hash) {
            None => {
                assert(self@ =~= self@.remove(*hash));
                false
            },
            Some(i) => {
                self.items = copy_without(&self.items, i);
                proof {
                    let before = old(self).items@;
                    let after = self.items@;
                    assert(after =~= before.remove(i as int));
                    assert forall|h: ClassHash|
                        after.to_set().contains(h) == before.to_set().remove(*hash).contains(
                            h,
                        ) by {
                        if after.contains(h) {
                            let k = after.index_of(h);
                            if k < i {
                                assert(before[k] == h);
                            } else {
                                assert(before[k + 1] == h);
                            }
                        }
                        if before.contains(h) && h != *hash {
                            let k = before.index_of(h);
                            if k < i {
                                assert(after[k] == h);
                            } else {
                                assert(after[k - 1] == h);
                            }
                        }
                    }
                    assert(after.to_set() =~= before.to_set().remove(*hash));
                }
                true
            },
        }
    }

    /// Whether the set holds no hash.
    pub fn is_empty(&self) -> (r: bool)
        ensures
            r == (self@ == Set::<ClassHash>::empty()),
    {
        let r = self.items.len() == 0;
        proof {
            if r {
                assert(self.items@.to_set() =~= Set::<ClassHash>::empty());
            } else {
                assert(self.items@.to_set().contains(self.items@[0]));
            }
        }
        r
    }

    /// The number of hashes in the set.
    pub fn len(&self) -> (r: usize)
        ensures
            self@.finite(),
            r == self@.len(),
    {
        proof {
            use_type_invariant(self);
            self.items@.unique_seq_to_set();
            vstd::seq_lib::seq_to_set_is_finite(self.items@);
        }
        self.items.len()
    }

    /// The hashes of the set, each once, in no particular order.
    pub fn to_vec(&self) -> (r: Vec<ClassHash>)
        ensures
            r@.no_duplicates(),
            r@.to_set() == self@,
    {
        proof {
            use_type_invariant(self);
        }
        copy_of(&self.items)
    }

    /// The set of the hashes in `hashes`.
    pub fn from_vec(hashes: &Vec<ClassHash>) -> (r: ClassHashSet)
        ensures
            r@ == hashes@.to_set(),
    {
        let mut r = ClassHashSet::new();
        let mut i: usize = 0;
        while i < hashes.len()
            invariant
                i <= hashes@.len(),
                r@ == hashes@.subrange(0, i as int).to_set(),
            decreases hashes@.len() - i,
        {
            r.insert(hashes[i]);
            proof {
                let a = hashes@.subrange(0, i as int);
                let b = hashes@.subrange(0, i + 1);
                assert(b =~= a.push(hashes@[i as int]));
                assert forall|h: ClassHash| b.to_set().contains(h) == a.to_set().insert(
                    hashes@[i as int],
                ).contains(h) by {
                    if a.contains(h) {
                        let k = a.index_of(h);
                        assert(b[k] == h);
                    }
                    if h == hashes@[i as int] {
                        assert(b[i as int] == h);
                    }
                    if b.contains(h) {
                        let k = b.index_of(h);
                        if k < i {
                            assert(a[k] == h);
                        }
                    }
                }
                assert(b.to_set() =~= a.to_set().insert(hashes@[i as int]));
            }
            i += 1;
        }
        assert(hashes@.subrange(0, hashes@.len() as int) =~= hashes@);
        r
    }
}

/// A finite map from the hashes of Sierra classes to the hashes of their
/// compiled forms.
#[derive(Debug)]
pub struct CasmHashMap {
    items: Vec<(SierraHash, CasmHash)>,
}

impl View for CasmHashMap {
    type V = Map<SierraHash, CasmHash>;

    closed spec fn view(&self) -> Map<SierraHash, CasmHash> {
        Map::new(
            |k: SierraHash| CasmHashMap::has_key(self.items@, k),
            |k: SierraHash| self.items@[CasmHashMap::key_index(self.items@, k)].1,
        )
    }
}

impl Clone for CasmHashMap {
    fn clone(&self) -> (r: CasmHashMap)
        ensures
            r@ == self@,
    {
        proof {
            use_type_invariant(self);
        }
        CasmHashMap { items: copy_of(&self.items) }
    }
}

impl CasmHashMap {
    spec fn has_key(items: Seq<(SierraHash, CasmHash)>, k: SierraHash) -> bool {
        exists|i: int| 0 <= i < items.len() && (#[trigger] items[i]).0 == k
    }

    spec fn key_index(items: Seq<(SierraHash, CasmHash)>, k: SierraHash) -> int {
        choose|i: int| 0 <= i < items.len() && (#[trigger] items[i]).0 == k
    }

    spec fn distinct_keys(items: Seq<(SierraHash, CasmHash)>) -> bool {
        forall|i: int, j: int|
            0 <= i < j < items.len() ==> (#[trigger] items[i]).0 != (#[trigger] items[j]).0
    }

    #[verifier::type_invariant]
    spec fn no_key_twice(&self) -> bool {
        CasmHashMap::distinct_keys(self.items@)
    }

    proof fn lemma_key_at(items: Seq<(SierraHash, CasmHash)>, i: int)
        requires
            CasmHashMap::distinct_keys(items),
            0 <= i < items.len(),
        ensures
            CasmHashMap::has_key(items, items[i].0),
            CasmHashMap::key_index(items, items[i].0) == i,
    {
        let k = items[i].0;
        assert(items[i].0 == k);
        let j = CasmHashMap::key_index(items, k);
        assert(0 <= j < items.len() && items[j].0 == k);
        if j != i {
            assert(items[i].0 != items[j].0);
        }
    }

    /// The empty map.
    pub fn new() -> (r: CasmHashMap)
        ensures
            r@ == Map::<SierraHash, CasmHash>::empty(),
    {
        let r = CasmHashMap { items: Vec::new() };
        assert(r@ =~= Map::<SierraHash, CasmHash>::empty());
        r
    }

    fn position(&self, hash: &SierraHash) -> (r: Option<usize>)
        ensures
            match r {
                Some(i) => i < self.items@.len() && self.items@[i as int].0 == *hash,
                None => !CasmHashMap::has_key(self.items@, *hash),
            },
    {
        let mut i: usize = 0;
        while i < self.items.len()
            invariant
                i <= self.items@.len(),
                forall|j: int| 0 <= j < i ==> (#[trigger] self.items@[j]).0 != *hash,
            decreases self.items@.len() - i,
        {
            proof {
                Felt::lemma_view_injective(self.items@[i as int].0.0, hash.0);
            }
            if self.items[i].0.0 == hash.0 {
                return Some(i);
            }
            i += 1;
        }
        None
    }

    /// Whether the map has an entry for the hash.
    pub fn contains_key(&self, hash: &SierraHash) -> (r: bool)
        ensures
            r == self@.dom().contains(*hash),
    {
        self.position(hash).is_some()
    }

    /// Sets the entry for `hash`.  Returns the value that the map held for
    /// it before.
    pub fn insert(&mut self, hash: SierraHash, casm_hash: CasmHash) -> (r: Option<CasmHash>)
        ensures
            final(self)@ == old(self)@.insert(hash, casm_hash),
            r == if old(self)@.dom().contains(hash) {
                Some(old(self)@[hash])
            } else {
                None
            },
    {
        proof {
            use_type_invariant(&*self);
        }
        let ghost before = self.items@;
        match self.position(&hash) {
            Some(i) => {
                let previous = self.items[i].1;
                let mut items = copy_of(&self.items);
                items.set(i, (hash, casm_hash));
                self.items = items;
                proof {
                    let after = self.items@;
                    CasmHashMap::lemma_key_at(before, i as int);
                    assert forall|a: int| 0 <= a < after.len() implies (#[trigger] after[a]).0
                        == before[a].0 by {}
                    assert forall|k: SierraHash|
                        CasmHashMap::has_key(after, k) == CasmHashMap::has_key(
                            before,
                            k,
                        ) && (CasmHashMap::has_key(after, k) ==> CasmHashMap::key_index(after, k)
                            == CasmHashMap::key_index(before, k)) by {
                        if CasmHashMap::has_key(after, k) {
                            let a = CasmHashMap::key_index(after, k);
                            assert(before[a].0 == k);
                            CasmHashMap::lemma_key_at(before, a);
                        }
                        if CasmHashMap::has_key(before, k) {
                            let b = CasmHashMap::key_index(before, k);
                            assert(after[b].0 == k);
                            CasmHashMap::lemma_key_at(after, b);
                        }
                    }
                    assert(self@ =~= old(self)@.insert(hash, casm_hash));
                }
                Some(previous)
            },
            None => {
                self.items = copy_with(&self.items, (hash, casm_hash));
                proof {
                    let after = self.items@;
                    CasmHashMap::lemma_key_at(after, after.len() - 1);
                    assert forall|k: SierraHash|
                        k != hash implies CasmHashMap::has_key(after, k) == CasmHashMap::has_key(
                        before,
                        k,
                    ) && (CasmHashMap::has_key(after, k) ==> CasmHashMap::key_index(after, k)
                        == CasmHashMap::key_index(before, k)) by {
                        if CasmHashMap::has_key(after, k) {
                            let a = CasmHashMap::key_index(after, k);
                            assert(before[a].0 == k);
                            CasmHashMap::lemma_key_at(before, a);
                        }
                        if CasmHashMap::has_key(before, k) {
                            let b = CasmHashMap::key_index(before, k);
                            assert(after[b].0 == k);
                            CasmHashMap::lemma_key_at(after, b);
                        }
                    }
                    assert(self@ =~= old(self)@.insert(hash, casm_hash));
                }
                None
            },
        }
    }

    /// Takes the entry for `hash` out.  Returns the value that the map held
    /// for it.
    pub fn remove(&mut self, hash: &SierraHash) -> (r: Option<CasmHash>)
        ensures
            final(self)@ == old(self)@.remove(*hash),
            r == if old(self)@.dom().contains(*hash) {
                Some(old(self)@[*hash])
            } else {
                None
            },
    {
        proof {
            use_type_invariant(&*self);
        }
        let ghost before = self.items@;
        match self.position(hash) {
            Some(i) => {
                let previous = self.items[i].1;
                self.items = copy_without(&self.items, i);
                proof {
                    let after = self.items@;
                    CasmHashMap::lemma_key_at(before, i as int);
                    assert forall|a: int| 0 <= a < after.len() implies #[trigger] after[a] == before[if a
                        < i {
                        a
                    } else {
                        a + 1
                    }] by {}
                    assert(CasmHashMap::distinct_keys(after)) by {
                        assert forall|a: int, b: int| 0 <= a < b < after.len() implies (
                        #[trigger] after[a]).0 != (#[trigger] after[b]).0 by {
                            let a0 = if a < i { a } else { a + 1 };
                            let b0 = if b < i { b } else { b + 1 };
                            assert(before[a0].0 != before[b0].0);
                        }
                    }
                    assert forall|k: SierraHash|
                        CasmHashMap::has_key(after, k) == (k != *hash && CasmHashMap::has_key(
                            before,
                            k,
                        )) && (CasmHashMap::has_key(after, k) ==> after[CasmHashMap::key_index(
                            after,
                            k,
                        )].1 == before[CasmHashMap::key_index(before, k)].1) by {
                        if CasmHashMap::has_key(after, k) {
                            let a = CasmHashMap::key_index(after, k);
                            let a0 = if a < i { a } else { a + 1 };
                            assert(after[a] == before[a0]);
                            assert(before[a0].0 == k);
                            CasmHashMap::lemma_key_at(before, a0);
                        }
                        if k != *hash && CasmHashMap::has_key(before, k) {
                            let b = CasmHashMap::key_index(before, k);
                            let b1 = if b < i { b } else { b - 1 };
                            assert(after[b1] == before[b]);
                            assert(after[b1].0 == k);
                        }
                    }
                    assert(self@ =~= old(self)@.remove(*hash));
                }
                Some(previous)
            },
            None => {
                assert(self@ =~= old(self)@.remove(*hash));
                None
            },
        }
    }

    /// Whether the map holds no entry.
    pub fn is_empty(&self) -> (r: bool)
        ensures
            r == (self@ == Map::<SierraHash, CasmHash>::empty()),
    {
        let r = self.items.len() == 0;
        proof {
            if r {
                assert(self@ =~= Map::<SierraHash, CasmHash>::empty());
            } else {
                assert(self.items@[0].0 == self.items@[0].0);
                assert(self@.dom().contains(self.items@[0].0));
            }
        }
        r
    }

    /// The hashes that the map has an entry for, each once, in no particular
    /// order.
    pub fn keys(&self) -> (r: Vec<SierraHash>)
        ensures
            r@.no_duplicates(),
            r@.to_set() == self@.dom(),
    {
        proof {
            use_type_invariant(self);
        }
        let mut r: Vec<SierraHash> = Vec::new();
        let mut i: usize = 0;
        while i < self.items.len()
            invariant
                i <= self.items@.len(),
                r@.len() == i,
                forall|j: int| 0 <= j < i ==> #[trigger] r@[j] == self.items@[j].0,
            decreases self.items@.len() - i,
        {
            r.push(self.items[i].0);
            i += 1;
        }
        proof {
            let items = self.items@;
            assert forall|a: int, b: int| 0 <= a < r@.len() && 0 <= b < r@.len() && a != b implies r@[a]
                != r@[b] by {
                if a < b {
                    assert(items[a].0 != items[b].0);
                } else {
                    assert(items[b].0 != items[a].0);
                }
            }
            assert forall|k: SierraHash| r@.to_set().contains(k) == self@.dom().contains(k) by {
                if r@.contains(k) {
                    let a = r@.index_of(k);
                    assert(items[a].0 == k);
                }
                if CasmHashMap::has_key(items, k) {
                    let b = CasmHashMap::key_index(items, k);
                    assert(r@[b] == k);
                }
            }
            assert(r@.to_set() =~= self@.dom());
        }
        r
    }
}

/// What the header of one block declares, by the form of the class.
#[derive(Clone, Debug)]
pub struct DeclaredClasses {
    pub sierra: CasmHashMap,
    pub cairo: ClassHashSet,
}

/// The classes that the header of one block declares.
#[derive(Clone, Debug)]
pub struct ExpectedDeclarations {
    pub block_number: BlockNumber,
    pub classes: ClassHashSet,
}

impl Default for ExpectedDeclarations {
    fn default() -> (r: ExpectedDeclarations)
        ensures
            r.block_number == BlockNumber(0),
            r.classes@ == Set::<ClassHash>::empty(),
    {
        ExpectedDeclarations { block_number: BlockNumber(0), classes: ClassHashSet::new() }
    }
}

} // verus!
