//! The storage boundary of this layer.
//!
//! Of the key-value engine behind a batch, this layer reads and writes one
//! thing only: which bytecodes are already resolvable by content hash (the
//! bytecode-resolution cache). The oracle is owned by the Vm instance for the
//! batch's lifetime; tracers that inspect it mid-execution receive a shared
//! reference, under the single-writer convention that only the Vm mutates it.

use vstd::prelude::*;

verus! {

/// The bytecode-resolution cache: the set of content hashes the storage
/// already recognizes, in order of first registration.
#[derive(Clone, PartialEq, Eq, Debug)]
pub struct StorageOracle {
    known: Vec<u64>,
}

impl View for StorageOracle {
    type V = Seq<u64>;

    /// The registered hashes, in registration order.
    closed spec fn view(&self) -> Seq<u64> {
        self.known@
    }
}

impl StorageOracle {
    /// The set of hashes the cache recognizes.
    pub open spec fn known_set(&self) -> Set<u64> {
        self@.to_set()
    }

    /// Registered hashes are never duplicated.
    pub open spec fn wf(&self) -> bool {
        self@.no_duplicates()
    }

    /// An empty cache: no bytecode is recognized.
    pub fn new() -> (s: Self)
        ensures
            s@ == Seq::<u64>::empty(),
            s.wf(),
    {
        StorageOracle { known: Vec::new() }
    }

    /// Is a bytecode with this content hash already resolvable?
    pub fn is_bytecode_known(&self, hash: u64) -> (r: bool)
        ensures
            r == self.known_set().contains(hash),
    {
        let mut i: usize = 0;
        while i < self.known.len()
            invariant
                i <= self.known@.len(),
                forall|j: int| 0 <= j < i ==> self.known@[j] != hash,
            decreases self.known@.len() - i,
        {
            if self.known[i] == hash {
                return true;
            }
            i = i + 1;
        }
        proof {
            if self.known_set().contains(hash) {
                let j = choose|j: int| 0 <= j < self.known@.len() && self.known@[j] == hash;
                assert(self.known@[j] == hash);
            }
        }
        false
    }

    /// Marks a bytecode as resolvable. Registering a hash twice leaves the
    /// cache unchanged.
    pub fn mark_bytecode_known(&mut self, hash: u64)
        requires
            old(self).wf(),
        ensures
            final(self).wf(),
            final(self)@ == mark_known_spec(old(self)@, hash),
            final(self).known_set() == old(self).known_set().insert(hash),
    {
        let already = self.is_bytecode_known(hash);
        if !already {
            self.known.push(hash);
        }
        proof {
            if already {
                assert(self.known_set() =~= old(self).known_set().insert(hash));
            } else {
                lemma_push_to_set(old(self)@, hash);
                assert(old(self)@.push(hash).drop_last() =~= old(self)@);
            }
        }
    }

    /// How many bytecodes the cache recognizes.
    pub fn cache_size(&self) -> (n: usize)
        ensures
            n == self@.len(),
    {
        self.known.len()
    }

    /// A copy of the oracle, for snapshotting.
    pub fn duplicate(&self) -> (r: Self)
        ensures
            r@ == self@,
    {
        StorageOracle { known: clone_hashes(&self.known) }
    }

    /// The registered hashes as a list, in registration order.
    pub fn registered(&self) -> (r: Vec<u64>)
        ensures
            r@ == self@,
    {
        clone_hashes(&self.known)
    }
}

/// An element-wise copy of a hash list.
pub fn clone_hashes(v: &Vec<u64>) -> (r: Vec<u64>)
    ensures
        r@ == v@,
{
    let mut r: Vec<u64> = Vec::new();
    let mut i: usize = 0;
    while i < v.len()
        invariant
            i <= v@.len(),
            r@ == v@.take(i as int),
        decreases v@.len() - i,
    {
        r.push(v[i]);
        proof {
            assert(r@ =~= v@.take(i + 1));
        }
        i = i + 1;
    }
    proof {
        assert(v@.take(v@.len() as int) =~= v@);
    }
    r
}

/// What registering one hash does to the registration sequence.
pub open spec fn mark_known_spec(known: Seq<u64>, hash: u64) -> Seq<u64> {
    if known.to_set().contains(hash) {
        known
    } else {
        known.push(hash)
    }
}

/// Pushing an element onto a sequence inserts it into the sequence's set.
pub proof fn lemma_push_to_set(s: Seq<u64>, x: u64)
    ensures
        s.push(x).to_set() == s.to_set().insert(x),
{
    assert forall|y: u64| s.push(x).to_set().contains(y) implies s.to_set().insert(x).contains(y) by {
        let j = choose|j: int| 0 <= j < s.push(x).len() && s.push(x)[j] == y;
        if j < s.len() {
            assert(s[j] == y);
        }
    }
    assert forall|y: u64| s.to_set().insert(x).contains(y) implies s.push(x).to_set().contains(y) by {
        if y == x {
            assert(s.push(x)[s.len() as int] == y);
        } else {
            let j = choose|j: int| 0 <= j < s.len() && s[j] == y;
            assert(s.push(x)[j] == y);
        }
    }
    assert(s.push(x).to_set() =~= s.to_set().insert(x));
}

} // verus!
