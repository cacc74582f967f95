//! The message-id pool: an allocator of 8-bit message identifiers.
//!
//! At most 256 identifiers can be in use at once. Allocation draws random
//! bytes and retries until it finds one that is free, so a fresh id never
//! collides with one still outstanding. Ids are released when their logical
//! exchange ends, and the whole pool is drained on a session boundary.

use vstd::prelude::*;

verus! {

/// Number of trues in a sequence of flags.
pub open spec fn count_true(s: Seq<bool>) -> nat
    decreases s.len(),
{
    if s.len() == 0 {
        0
    } else {
        count_true(s.drop_last()) + if s.last() {
            1nat
        } else {
            0nat
        }
    }
}

proof fn lemma_count_true_update(s: Seq<bool>, i: int, v: bool)
    requires
        0 <= i < s.len(),
    ensures
        count_true(s.update(i, v)) == count_true(s) + (if v {
            1int
        } else {
            0int
        }) - (if s[i] {
            1int
        } else {
            0int
        }),
    decreases s.len(),
{
    if s.len() == 0 {
    } else if i == s.len() - 1 {
        assert(s.update(i, v).drop_last() =~= s.drop_last());
    } else {
        lemma_count_true_update(s.drop_last(), i, v);
        assert(s.update(i, v).drop_last() =~= s.drop_last().update(i, v));
    }
}

proof fn lemma_count_true_bound(s: Seq<bool>)
    ensures
        count_true(s) <= s.len(),
    decreases s.len(),
{
    if s.len() > 0 {
        lemma_count_true_bound(s.drop_last());
    }
}

/// Relies on rand::random::<u8>: one byte from the thread-local generator.
/// Nothing is promised of the value.
#[verifier::external_body]
fn random_u8() -> u8 {
    rand::random::<u8>()
}

/// The pool of message identifiers currently in use.
pub struct IdPool {
    in_use: Vec<bool>,
    count: usize,
}

impl IdPool {
    /// Structural invariant: one flag per possible id, and `count` agrees
    /// with the number of ids in use.
    pub closed spec fn wf(self) -> bool {
        &&& self.in_use@.len() == 256
        &&& self.count == count_true(self.in_use@)
    }

    /// Whether `id` is currently allocated.
    pub closed spec fn spec_contains(self, id: u8) -> bool {
        self.in_use@[id as int]
    }

    /// How many ids are currently allocated.
    pub closed spec fn spec_size(self) -> nat {
        count_true(self.in_use@)
    }

    /// Creates an empty pool.
    pub fn new() -> (p: IdPool)
        ensures
            p.wf(),
            p.spec_size() == 0,
            forall|id: u8| !p.spec_contains(id),
    {
        let mut in_use: Vec<bool> = Vec::new();
        let mut i: usize = 0;
        while i < 256
            invariant
                i <= 256,
                in_use@.len() == i,
                count_true(in_use@) == 0,
                forall|j: int| 0 <= j < i ==> !in_use@[j],
            decreases 256 - i,
        {
            let ghost prev = in_use@;
            in_use.push(false);
            proof {
                assert(in_use@.drop_last() =~= prev);
            }
            i = i + 1;
        }
        IdPool { in_use, count: 0 }
    }

    /// The number of ids in use.
    pub fn size(&self) -> (n: usize)
        requires
            self.wf(),
        ensures
            n == self.spec_size(),
    {
        self.count
    }

    /// Whether `id` is in use.
    pub fn contains(&self, id: u8) -> (r: bool)
        requires
            self.wf(),
        ensures
            r == self.spec_contains(id),
    {
        self.in_use[id as usize]
    }

    /// Draws random ids until one is free, reserves it and returns it; at
    /// saturation (256 ids in use) returns none and changes nothing.
    pub fn allocate(&mut self) -> (r: Option<u8>)
        requires
            old(self).wf(),
        ensures
            final(self).wf(),
            r is None <==> old(self).spec_size() == 256,
            r is None ==> *final(self) == *old(self),
            r matches Some(id) ==> {
                &&& !old(self).spec_contains(id)
                &&& final(self).spec_contains(id)
                &&& final(self).spec_size() == old(self).spec_size() + 1
                &&& forall|other: u8|
                    other != id ==> final(self).spec_contains(other) == old(self).spec_contains(
                        other,
                    )
            },
    {
        if self.count >= 256 {
            proof {
                lemma_count_true_bound(self.in_use@);
            }
            return None;
        }
        let mut attempts: usize = 0;
        while attempts < 64
            invariant
                self.wf(),
                self.count < 256,
                *self == *old(self),
            decreases 64 - attempts,
        {
            let id = random_u8();
            if !self.in_use[id as usize] {
                proof {
                    lemma_count_true_update(self.in_use@, id as int, true);
                }
                self.in_use[id as usize] = true;
                self.count = self.count + 1;
                return Some(id);
            }
            attempts = attempts + 1;
        }
        // The random draws kept colliding; fall back to a linear scan, which
        // must find a free id because fewer than 256 are in use.
        let mut i: usize = 0;
        while i < 256
            invariant
                self.wf(),
                self.count < 256,
                *self == *old(self),
                i <= 256,
                forall|j: int| 0 <= j < i ==> self.in_use@[j],
            decreases 256 - i,
        {
            if !self.in_use[i] {
                proof {
                    lemma_count_true_update(self.in_use@, i as int, true);
                }
                self.in_use[i] = true;
                self.count = self.count + 1;
                return Some(i as u8);
            }
            i = i + 1;
        }
        proof {
            lemma_all_true_count_full(self.in_use@);
        }
        // Unreachable: a full scan found no free id only if all 256 are in
        // use, which the saturation check above ruled out.
        None
    }

    /// Releases `id` if it was in use; reports whether it was.
    pub fn release(&mut self, id: u8) -> (was_present: bool)
        requires
            old(self).wf(),
        ensures
            final(self).wf(),
            was_present == old(self).spec_contains(id),
            !final(self).spec_contains(id),
            forall|other: u8|
                other != id ==> final(self).spec_contains(other) == old(self).spec_contains(other),
            final(self).spec_size() == old(self).spec_size() - (if old(self).spec_contains(id) {
                1int
            } else {
                0int
            }),
    {
        let was_present = self.in_use[id as usize];
        if was_present {
            proof {
                lemma_count_true_update(self.in_use@, id as int, false);
            }
            self.in_use[id as usize] = false;
            self.count = self.count - 1;
        }
        was_present
    }

    /// Empties the pool and returns the ids that were in use.
    pub fn drain(&mut self) -> (dropped: Vec<u8>)
        requires
            old(self).wf(),
        ensures
            final(self).wf(),
            final(self).spec_size() == 0,
            forall|id: u8| !final(self).spec_contains(id),
            dropped@.len() == old(self).spec_size(),
            forall|id: u8| old(self).spec_contains(id) <==> dropped@.contains(id),
    {
        let mut dropped: Vec<u8> = Vec::new();
        let mut i: usize = 0;
        while i < 256
            invariant
                i <= 256,
                old(self).in_use@.len() == 256,
                self.in_use@.len() == 256,
                self.count == count_true(self.in_use@),
                forall|j: int| 0 <= j < i ==> !self.in_use@[j],
                forall|j: int|
                    i <= j < 256 ==> self.in_use@[j] == old(self).in_use@[j],
                forall|id: u8|
                    dropped@.contains(id) <==> (id < i && old(self).spec_contains(id)),
                forall|k: int| 0 <= k < dropped@.len() ==> (dropped@[k] as int) < i,
                dropped@.len() == count_prefix_true(old(self).in_use@, i as int),
            decreases 256 - i,
        {
            if self.in_use[i] {
                let id_u8: u8 = i as u8;
                let ghost prev_d = dropped@;
                dropped.push(id_u8);
                proof {
                    assert forall|id: u8| #[trigger] dropped@.contains(id) implies (prev_d.contains(
                        id,
                    ) || id == id_u8) by {
                        let k = choose|k: int| 0 <= k < dropped@.len() && dropped@[k] == id;
                        if k < prev_d.len() {
                            assert(prev_d[k] == id);
                        }
                    }
                    assert(dropped@[prev_d.len() as int] == id_u8);
                    assert(dropped@.contains(id_u8));
                    assert forall|id: u8| prev_d.contains(id) implies dropped@.contains(id) by {
                        let k = choose|k: int| 0 <= k < prev_d.len() && prev_d[k] == id;
                        assert(dropped@[k] == id);
                    }
                    lemma_count_true_update(self.in_use@, i as int, false);
                }
                self.in_use[i] = false;
                self.count = self.count - 1;
            }
            proof {
                lemma_count_prefix_true_step(old(self).in_use@, i as int);
            }
            i = i + 1;
        }
        proof {
            lemma_count_prefix_full(old(self).in_use@);
            lemma_all_false_count_zero(self.in_use@);
        }
        dropped
    }
}

/// Number of trues among the first `n` entries.
pub open spec fn count_prefix_true(s: Seq<bool>, n: int) -> nat
    recommends
        0 <= n <= s.len(),
{
    count_true(s.take(n))
}

proof fn lemma_count_prefix_true_step(s: Seq<bool>, i: int)
    requires
        0 <= i < s.len(),
    ensures
        count_prefix_true(s, i + 1) == count_prefix_true(s, i) + (if s[i] {
            1int
        } else {
            0int
        }),
{
    assert(s.take(i + 1).drop_last() =~= s.take(i));
    assert(s.take(i + 1).last() == s[i]);
}

proof fn lemma_count_prefix_full(s: Seq<bool>)
    requires
        s.len() == 256,
    ensures
        count_prefix_true(s, 256) == count_true(s),
{
    assert(s.take(256) =~= s);
}

proof fn lemma_all_true_count_full(s: Seq<bool>)
    requires
        forall|j: int| 0 <= j < s.len() ==> s[j],
    ensures
        count_true(s) == s.len(),
    decreases s.len(),
{
    if s.len() > 0 {
        lemma_all_true_count_full(s.drop_last());
    }
}

proof fn lemma_all_false_count_zero(s: Seq<bool>)
    requires
        forall|j: int| 0 <= j < s.len() ==> !s[j],
    ensures
        count_true(s) == 0,
    decreases s.len(),
{
    if s.len() > 0 {
        lemma_all_false_count_zero(s.drop_last());
    }
}

/// One allocation step: `id` was free before and is the one id added.
pub open spec fn spec_allocates(pre: IdPool, post: IdPool, id: u8) -> bool {
    &&& !pre.spec_contains(id)
    &&& post.spec_contains(id)
    &&& forall|other: u8| other != id ==> post.spec_contains(other) == pre.spec_contains(other)
}

/// Uniqueness of allocation: an id handed out by `allocate` never equals an
/// id allocated earlier and not yet released, and the earlier id stays in
/// use.
pub proof fn lemma_no_reallocation(pre: IdPool, post: IdPool, fresh: u8, prior: u8)
    requires
        spec_allocates(pre, post, fresh),
        pre.spec_contains(prior),
    ensures
        fresh != prior,
        post.spec_contains(prior),
{
}

} // verus!
