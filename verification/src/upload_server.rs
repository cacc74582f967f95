//! The server side of the upload subsystem: the per-connection session
//! registry keyed by file hash, the preparation decision for an upload
//! destination, and the per-worker-stream chunk inquiry and chunk data
//! handling with its pending-hash bookkeeping.
//!
//! All disk probing and writing happens outside; this module is handed the
//! facts (does the file exist, what does the stored chunk hold) and produces
//! the verdicts and the exact reply frames.

use crate::hashing::{bytes_eq, sha256, sha256_of, str_eq};
use crate::header::{
    spec_frame, PayloadType, WsmHeader, OPCODE_REPLY, OPCODE_WORKER_HELLO, RESERVED_FINAL_FLAG,
};
use crate::upload::{PreparationResult, UploadMetadata};
use vstd::bytes::{spec_u64_from_le_bytes, u64_from_le_bytes};
use vstd::prelude::*;
use vstd::string::StringSliceAdditionalSpecFns;
use vstd::utf8::encode_utf8;

verus! {

// ---------------------------------------------------------------------------
// Pending chunk hashes, per worker stream
// ---------------------------------------------------------------------------
/// The hash announced for `key` by the first matching entry, if any.
pub open spec fn pc_find(s: Seq<(u64, Vec<u8>)>, key: u64) -> Option<Seq<u8>>
    decreases s.len(),
{
    if s.len() == 0 {
        None
    } else if s[0].0 == key {
        Some(s[0].1@)
    } else {
        pc_find(s.drop_first(), key)
    }
}

/// The hashes a worker stream has been promised chunks for: for each
/// inquired chunk id, the hash the client announced.
pub struct PendingChunks {
    entries: Vec<(u64, Vec<u8>)>,
}

proof fn lemma_pc_find_skip_front(s: Seq<(u64, Vec<u8>)>, i: int, key: u64)
    requires
        0 <= i < s.len(),
        forall|j: int| 0 <= j < i ==> (#[trigger] s[j]).0 != key,
    ensures
        pc_find(s, key) == pc_find(s.skip(i), key),
    decreases i,
{
    if i == 0 {
        assert(s.skip(0) =~= s);
    } else {
        assert(s[0].0 != key);
        assert(s.drop_first() =~= s.skip(1));
        lemma_pc_find_skip_front(s.skip(1), i - 1, key);
        assert(s.skip(1).skip(i - 1) =~= s.skip(i));
    }
}

proof fn lemma_pc_find_update(s: Seq<(u64, Vec<u8>)>, i: int, v: Vec<u8>)
    requires
        0 <= i < s.len(),
        forall|a: int, b: int| 0 <= a < b < s.len() ==> (#[trigger] s[a]).0 != (#[trigger] s[b]).0,
    ensures
        pc_find(s.update(i, (s[i].0, v)), s[i].0) == Some(v@),
        forall|k: u64|
            k != s[i].0 ==> pc_find(s.update(i, (s[i].0, v)), k) == pc_find(s, k),
        forall|a: int, b: int|
            0 <= a < b < s.len() ==> (#[trigger] s.update(i, (s[i].0, v))[a]).0 != (#[trigger] s.update(
                i,
                (s[i].0, v),
            )[b]).0,
    decreases s.len(),
{
    let t = s.update(i, (s[i].0, v));
    if i == 0 {
        assert(t[0].0 == s[0].0);
        assert(t.drop_first() =~= s.drop_first());
        assert forall|k: u64| k != s[0].0 implies pc_find(t, k) == pc_find(s, k) by {
            assert(pc_find(t, k) == pc_find(t.drop_first(), k));
            assert(pc_find(s, k) == pc_find(s.drop_first(), k));
        }
    } else {
        assert(t[0] == s[0]);
        assert(t.drop_first() =~= s.drop_first().update(i - 1, (s[i].0, v)));
        assert(s.drop_first()[i - 1] == s[i]);
        assert forall|a: int, b: int|
            0 <= a < b < s.drop_first().len() implies (#[trigger] s.drop_first()[a]).0
            != (#[trigger] s.drop_first()[b]).0 by {
            assert(s.drop_first()[a] == s[a + 1]);
            assert(s.drop_first()[b] == s[b + 1]);
        }
        lemma_pc_find_update(s.drop_first(), i - 1, v);
        assert(s[0].0 != s[i].0);
        assert forall|k: u64| k != s[i].0 implies pc_find(t, k) == pc_find(s, k) by {
            if k == s[0].0 {
                assert(pc_find(t, k) == Some(t[0].1@));
            } else {
                assert(pc_find(t, k) == pc_find(t.drop_first(), k));
                assert(pc_find(s, k) == pc_find(s.drop_first(), k));
            }
        }
        assert(pc_find(t, s[i].0) == pc_find(t.drop_first(), s[i].0));
    }
}

proof fn lemma_pc_find_push(s: Seq<(u64, Vec<u8>)>, key: u64, v: Vec<u8>)
    requires
        pc_find(s, key) is None,
    ensures
        pc_find(s.push((key, v)), key) == Some(v@),
        forall|k: u64| k != key ==> pc_find(s.push((key, v)), k) == pc_find(s, k),
    decreases s.len(),
{
    let t = s.push((key, v));
    if s.len() == 0 {
        assert(t[0] == (key, v));
        assert(t.drop_first() =~= Seq::<(u64, Vec<u8>)>::empty());
        assert forall|k: u64| k != key implies pc_find(t, k) == pc_find(s, k) by {
            assert(pc_find(t, k) == pc_find(t.drop_first(), k));
        }
    } else {
        assert(t[0] == s[0]);
        assert(s[0].0 != key);
        assert(t.drop_first() =~= s.drop_first().push((key, v)));
        lemma_pc_find_push(s.drop_first(), key, v);
        assert(pc_find(t, key) == pc_find(t.drop_first(), key));
        assert forall|k: u64| k != key implies pc_find(t, k) == pc_find(s, k) by {
            if k == s[0].0 {
                assert(pc_find(t, k) == Some(t[0].1@));
            } else {
                assert(pc_find(t, k) == pc_find(t.drop_first(), k));
                assert(pc_find(s, k) == pc_find(s.drop_first(), k));
            }
        }
    }
}

proof fn lemma_pc_find_remove(s: Seq<(u64, Vec<u8>)>, i: int)
    requires
        0 <= i < s.len(),
        forall|a: int, b: int| 0 <= a < b < s.len() ==> (#[trigger] s[a]).0 != (#[trigger] s[b]).0,
    ensures
        pc_find(s.remove(i), s[i].0) is None,
        forall|k: u64| k != s[i].0 ==> pc_find(s.remove(i), k) == pc_find(s, k),
        forall|a: int, b: int|
            0 <= a < b < s.remove(i).len() ==> (#[trigger] s.remove(i)[a]).0 != (#[trigger] s.remove(
                i,
            )[b]).0,
    decreases s.len(),
{
    let t = s.remove(i);
    if i == 0 {
        assert(t =~= s.drop_first());
        assert forall|j: int| 0 <= j < s.drop_first().len() implies (#[trigger] s.drop_first()[j]).0
            != s[0].0 by {
            assert(s.drop_first()[j] == s[j + 1]);
        }
        lemma_pc_find_none_when_no_key(s.drop_first(), s[0].0);
        assert forall|k: u64| k != s[0].0 implies pc_find(t, k) == pc_find(s, k) by {
            assert(pc_find(s, k) == pc_find(s.drop_first(), k));
        }
    } else {
        assert(t[0] == s[0]);
        assert(t.drop_first() =~= s.drop_first().remove(i - 1));
        assert(s.drop_first()[i - 1] == s[i]);
        assert forall|a: int, b: int|
            0 <= a < b < s.drop_first().len() implies (#[trigger] s.drop_first()[a]).0
            != (#[trigger] s.drop_first()[b]).0 by {
            assert(s.drop_first()[a] == s[a + 1]);
            assert(s.drop_first()[b] == s[b + 1]);
        }
        lemma_pc_find_remove(s.drop_first(), i - 1);
        assert(s[0].0 != s[i].0);
        assert(pc_find(t, s[i].0) == pc_find(t.drop_first(), s[i].0));
        assert forall|k: u64| k != s[i].0 implies pc_find(t, k) == pc_find(s, k) by {
            if k == s[0].0 {
                assert(pc_find(t, k) == Some(t[0].1@));
            } else {
                assert(pc_find(t, k) == pc_find(t.drop_first(), k));
                assert(pc_find(s, k) == pc_find(s.drop_first(), k));
            }
        }
    }
}

proof fn lemma_pc_find_none_when_no_key(s: Seq<(u64, Vec<u8>)>, key: u64)
    requires
        forall|j: int| 0 <= j < s.len() ==> (#[trigger] s[j]).0 != key,
    ensures
        pc_find(s, key) is None,
    decreases s.len(),
{
    if s.len() > 0 {
        lemma_pc_find_none_when_no_key(s.drop_first(), key);
    }
}

impl PendingChunks {
    /// Structural invariant: no chunk id appears twice.
    pub closed spec fn wf(self) -> bool {
        forall|a: int, b: int|
            0 <= a < b < self.entries@.len() ==> (#[trigger] self.entries@[a]).0
                != (#[trigger] self.entries@[b]).0
    }

    /// The hash on record for a chunk id.
    pub closed spec fn spec_get(self, key: u64) -> Option<Seq<u8>> {
        pc_find(self.entries@, key)
    }

    /// Creates an empty record.
    pub fn new() -> (p: PendingChunks)
        ensures
            p.wf(),
            forall|k: u64| p.spec_get(k) is None,
    {
        PendingChunks { entries: Vec::new() }
    }

    /// Records (or replaces) the announced hash for a chunk id.
    pub fn insert(&mut self, key: u64, value: Vec<u8>)
        requires
            old(self).wf(),
        ensures
            final(self).wf(),
            final(self).spec_get(key) == Some(value@),
            forall|k: u64| k != key ==> final(self).spec_get(k) == old(self).spec_get(k),
    {
        let ghost s0 = self.entries@;
        let mut i: usize = 0;
        while i < self.entries.len()
            invariant
                self.entries@ == s0,
                s0 == old(self).entries@,
                i <= s0.len(),
                forall|a: int, b: int|
                    0 <= a < b < s0.len() ==> (#[trigger] s0[a]).0 != (#[trigger] s0[b]).0,
                forall|j: int| 0 <= j < i ==> (#[trigger] s0[j]).0 != key,
            decreases s0.len() - i,
        {
            if self.entries[i].0 == key {
                proof {
                    lemma_pc_find_skip_front(s0, i as int, key);
                    assert(s0.skip(i as int)[0] == s0[i as int]);
                    lemma_pc_find_update(s0, i as int, value);
                }
                self.entries[i] = (key, value);
                return ;
            }
            i = i + 1;
        }
        proof {
            lemma_pc_find_none_when_no_key(s0, key);
            lemma_pc_find_push(s0, key, value);
            assert forall|a: int, b: int|
                0 <= a < b < s0.push((key, value)).len() implies (#[trigger] s0.push(
                (key, value),
            )[a]).0 != (#[trigger] s0.push((key, value))[b]).0 by {
                if b < s0.len() {
                } else {
                    assert(s0.push((key, value))[b].0 == key);
                    assert(s0.push((key, value))[a].0 == s0[a].0);
                }
            }
        }
        self.entries.push((key, value));
    }

    /// Takes the announced hash for a chunk id off the record, if any.
    pub fn take(&mut self, key: u64) -> (r: Option<Vec<u8>>)
        requires
            old(self).wf(),
        ensures
            final(self).wf(),
            match r {
                Some(v) => old(self).spec_get(key) == Some(v@),
                None => old(self).spec_get(key) is None,
            },
            final(self).spec_get(key) is None,
            forall|k: u64| k != key ==> final(self).spec_get(k) == old(self).spec_get(k),
    {
        let ghost s0 = self.entries@;
        let mut i: usize = 0;
        while i < self.entries.len()
            invariant
                self.entries@ == s0,
                s0 == old(self).entries@,
                i <= s0.len(),
                forall|a: int, b: int|
                    0 <= a < b < s0.len() ==> (#[trigger] s0[a]).0 != (#[trigger] s0[b]).0,
                forall|j: int| 0 <= j < i ==> (#[trigger] s0[j]).0 != key,
            decreases s0.len() - i,
        {
            if self.entries[i].0 == key {
                proof {
                    lemma_pc_find_skip_front(s0, i as int, key);
                    assert(s0.skip(i as int)[0] == s0[i as int]);
                    lemma_pc_find_remove(s0, i as int);
                }
                let entry = self.entries.remove(i);
                return Some(entry.1);
            }
            i = i + 1;
        }
        proof {
            lemma_pc_find_none_when_no_key(s0, key);
        }
        None
    }
}

// ---------------------------------------------------------------------------
// Upload sessions, per connection
// ---------------------------------------------------------------------------
/// The metadata of the first session whose file hash reads `key`, if any.
pub open spec fn st_find(s: Seq<UploadMetadata>, key: Seq<char>) -> Option<UploadMetadata>
    decreases s.len(),
{
    if s.len() == 0 {
        None
    } else if s[0].file_hash@ == key {
        Some(s[0])
    } else {
        st_find(s.drop_first(), key)
    }
}

/// The in-progress uploads of one connection, keyed by their overall file
/// hash. Several may run at once as long as their hashes differ; a worker
/// stream binds to one of them by announcing the hash.
pub struct SessionTable {
    entries: Vec<UploadMetadata>,
}

proof fn lemma_st_find_skip_front(s: Seq<UploadMetadata>, i: int, key: Seq<char>)
    requires
        0 <= i < s.len(),
        forall|j: int| 0 <= j < i ==> (#[trigger] s[j]).file_hash@ != key,
    ensures
        st_find(s, key) == st_find(s.skip(i), key),
    decreases i,
{
    if i == 0 {
        assert(s.skip(0) =~= s);
    } else {
        assert(s[0].file_hash@ != key);
        assert(s.drop_first() =~= s.skip(1));
        lemma_st_find_skip_front(s.skip(1), i - 1, key);
        assert(s.skip(1).skip(i - 1) =~= s.skip(i));
    }
}

proof fn lemma_st_find_none_when_no_key(s: Seq<UploadMetadata>, key: Seq<char>)
    requires
        forall|j: int| 0 <= j < s.len() ==> (#[trigger] s[j]).file_hash@ != key,
    ensures
        st_find(s, key) is None,
    decreases s.len(),
{
    if s.len() > 0 {
        lemma_st_find_none_when_no_key(s.drop_first(), key);
    }
}

proof fn lemma_st_find_update(s: Seq<UploadMetadata>, i: int, m: UploadMetadata)
    requires
        0 <= i < s.len(),
        s[i].file_hash@ == m.file_hash@,
        forall|a: int, b: int|
            0 <= a < b < s.len() ==> (#[trigger] s[a]).file_hash@ != (#[trigger] s[b]).file_hash@,
    ensures
        st_find(s.update(i, m), m.file_hash@) == Some(m),
        forall|k: Seq<char>|
            k != m.file_hash@ ==> st_find(s.update(i, m), k) == st_find(s, k),
        forall|a: int, b: int|
            0 <= a < b < s.len() ==> (#[trigger] s.update(i, m)[a]).file_hash@ != (#[trigger] s.update(
                i,
                m,
            )[b]).file_hash@,
    decreases s.len(),
{
    let t = s.update(i, m);
    if i == 0 {
        assert(t[0] == m);
        assert(t.drop_first() =~= s.drop_first());
        assert forall|k: Seq<char>| k != m.file_hash@ implies st_find(t, k) == st_find(s, k) by {
            assert(st_find(t, k) == st_find(t.drop_first(), k));
            assert(st_find(s, k) == st_find(s.drop_first(), k));
        }
    } else {
        assert(t[0] == s[0]);
        assert(t.drop_first() =~= s.drop_first().update(i - 1, m));
        assert(s.drop_first()[i - 1] == s[i]);
        assert forall|a: int, b: int|
            0 <= a < b < s.drop_first().len() implies (#[trigger] s.drop_first()[a]).file_hash@
            != (#[trigger] s.drop_first()[b]).file_hash@ by {
            assert(s.drop_first()[a] == s[a + 1]);
            assert(s.drop_first()[b] == s[b + 1]);
        }
        lemma_st_find_update(s.drop_first(), i - 1, m);
        assert(s[0].file_hash@ != s[i].file_hash@);
        assert(st_find(t, m.file_hash@) == st_find(t.drop_first(), m.file_hash@));
        assert forall|k: Seq<char>| k != m.file_hash@ implies st_find(t, k) == st_find(s, k) by {
            if k == s[0].file_hash@ {
                assert(st_find(t, k) == Some(t[0]));
            } else {
                assert(st_find(t, k) == st_find(t.drop_first(), k));
                assert(st_find(s, k) == st_find(s.drop_first(), k));
            }
        }
    }
}

proof fn lemma_st_find_push(s: Seq<UploadMetadata>, m: UploadMetadata)
    requires
        st_find(s, m.file_hash@) is None,
    ensures
        st_find(s.push(m), m.file_hash@) == Some(m),
        forall|k: Seq<char>| k != m.file_hash@ ==> st_find(s.push(m), k) == st_find(s, k),
    decreases s.len(),
{
    let t = s.push(m);
    if s.len() == 0 {
        assert(t[0] == m);
        assert(t.drop_first() =~= Seq::<UploadMetadata>::empty());
        assert forall|k: Seq<char>| k != m.file_hash@ implies st_find(t, k) == st_find(s, k) by {
            assert(st_find(t, k) == st_find(t.drop_first(), k));
        }
    } else {
        assert(t[0] == s[0]);
        assert(s[0].file_hash@ != m.file_hash@);
        assert(t.drop_first() =~= s.drop_first().push(m));
        lemma_st_find_push(s.drop_first(), m);
        assert(st_find(t, m.file_hash@) == st_find(t.drop_first(), m.file_hash@));
        assert forall|k: Seq<char>| k != m.file_hash@ implies st_find(t, k) == st_find(s, k) by {
            if k == s[0].file_hash@ {
                assert(st_find(t, k) == Some(t[0]));
            } else {
                assert(st_find(t, k) == st_find(t.drop_first(), k));
                assert(st_find(s, k) == st_find(s.drop_first(), k));
            }
        }
    }
}

proof fn lemma_st_find_remove(s: Seq<UploadMetadata>, i: int)
    requires
        0 <= i < s.len(),
        forall|a: int, b: int|
            0 <= a < b < s.len() ==> (#[trigger] s[a]).file_hash@ != (#[trigger] s[b]).file_hash@,
    ensures
        st_find(s.remove(i), s[i].file_hash@) is None,
        forall|k: Seq<char>| k != s[i].file_hash@ ==> st_find(s.remove(i), k) == st_find(s, k),
        forall|a: int, b: int|
            0 <= a < b < s.remove(i).len() ==> (#[trigger] s.remove(i)[a]).file_hash@
                != (#[trigger] s.remove(i)[b]).file_hash@,
    decreases s.len(),
{
    let t = s.remove(i);
    if i == 0 {
        assert(t =~= s.drop_first());
        assert forall|j: int| 0 <= j < s.drop_first().len() implies (#[trigger] s.drop_first()[
            j
        ]).file_hash@ != s[0].file_hash@ by {
            assert(s.drop_first()[j] == s[j + 1]);
        }
        lemma_st_find_none_when_no_key(s.drop_first(), s[0].file_hash@);
        assert forall|k: Seq<char>| k != s[0].file_hash@ implies st_find(t, k) == st_find(s, k) by {
            assert(st_find(s, k) == st_find(s.drop_first(), k));
        }
    } else {
        assert(t[0] == s[0]);
        assert(t.drop_first() =~= s.drop_first().remove(i - 1));
        assert(s.drop_first()[i - 1] == s[i]);
        assert forall|a: int, b: int|
            0 <= a < b < s.drop_first().len() implies (#[trigger] s.drop_first()[a]).file_hash@
            != (#[trigger] s.drop_first()[b]).file_hash@ by {
            assert(s.drop_first()[a] == s[a + 1]);
            assert(s.drop_first()[b] == s[b + 1]);
        }
        lemma_st_find_remove(s.drop_first(), i - 1);
        assert(s[0].file_hash@ != s[i].file_hash@);
        assert(st_find(t, s[i].file_hash@) == st_find(t.drop_first(), s[i].file_hash@));
        assert forall|k: Seq<char>| k != s[i].file_hash@ implies st_find(t, k) == st_find(s, k) by {
            if k == s[0].file_hash@ {
                assert(st_find(t, k) == Some(t[0]));
            } else {
                assert(st_find(t, k) == st_find(t.drop_first(), k));
                assert(st_find(s, k) == st_find(s.drop_first(), k));
            }
        }
    }
}

impl SessionTable {
    /// Structural invariant: no file hash appears twice.
    pub closed spec fn wf(self) -> bool {
        forall|a: int, b: int|
            0 <= a < b < self.entries@.len() ==> (#[trigger] self.entries@[a]).file_hash@
                != (#[trigger] self.entries@[b]).file_hash@
    }

    /// The session on record under a file hash.
    pub closed spec fn spec_get(self, key: Seq<char>) -> Option<UploadMetadata> {
        st_find(self.entries@, key)
    }

    /// Whether some session's file hash reads `bytes` in UTF-8.
    pub closed spec fn spec_has_hash_bytes(self, bytes: Seq<u8>) -> bool {
        exists|j: int|
            0 <= j < self.entries@.len() && encode_utf8(
                (#[trigger] self.entries@[j]).file_hash@,
            ) == bytes
    }

    /// Creates an empty table.
    pub fn new() -> (t: SessionTable)
        ensures
            t.wf(),
            forall|k: Seq<char>| t.spec_get(k) is None,
    {
        SessionTable { entries: Vec::new() }
    }

    /// Registers (or refreshes) the session for `m.file_hash`.
    pub fn insert(&mut self, m: UploadMetadata)
        requires
            old(self).wf(),
        ensures
            final(self).wf(),
            final(self).spec_get(m.file_hash@) == Some(m),
            forall|k: Seq<char>|
                k != m.file_hash@ ==> final(self).spec_get(k) == old(self).spec_get(k),
    {
        let ghost s0 = self.entries@;
        let mut i: usize = 0;
        while i < self.entries.len()
            invariant
                self.entries@ == s0,
                s0 == old(self).entries@,
                i <= s0.len(),
                forall|a: int, b: int|
                    0 <= a < b < s0.len() ==> (#[trigger] s0[a]).file_hash@ != (#[trigger] s0[
                        b
                    ]).file_hash@,
                forall|j: int| 0 <= j < i ==> (#[trigger] s0[j]).file_hash@ != m.file_hash@,
            decreases s0.len() - i,
        {
            if str_eq(self.entries[i].file_hash.as_str(), m.file_hash.as_str()) {
                proof {
                    lemma_st_find_update(s0, i as int, m);
                }
                self.entries[i] = m;
                return ;
            }
            i = i + 1;
        }
        proof {
            lemma_st_find_none_when_no_key(s0, m.file_hash@);
            lemma_st_find_push(s0, m);
            assert forall|a: int, b: int|
                0 <= a < b < s0.push(m).len() implies (#[trigger] s0.push(m)[a]).file_hash@
                != (#[trigger] s0.push(m)[b]).file_hash@ by {
                if b < s0.len() {
                } else {
                    assert(s0.push(m)[b] == m);
                    assert(s0.push(m)[a] == s0[a]);
                }
            }
        }
        self.entries.push(m);
    }

    /// Removes the session under a file hash, reporting whether one was
    /// there.
    pub fn remove(&mut self, key: &str) -> (was_present: bool)
        requires
            old(self).wf(),
        ensures
            final(self).wf(),
            was_present == (old(self).spec_get(key@) is Some),
            final(self).spec_get(key@) is None,
            forall|k: Seq<char>| k != key@ ==> final(self).spec_get(k) == old(self).spec_get(k),
    {
        let ghost s0 = self.entries@;
        let mut i: usize = 0;
        while i < self.entries.len()
            invariant
                self.entries@ == s0,
                s0 == old(self).entries@,
                i <= s0.len(),
                forall|a: int, b: int|
                    0 <= a < b < s0.len() ==> (#[trigger] s0[a]).file_hash@ != (#[trigger] s0[
                        b
                    ]).file_hash@,
                forall|j: int| 0 <= j < i ==> (#[trigger] s0[j]).file_hash@ != key@,
            decreases s0.len() - i,
        {
            if str_eq(self.entries[i].file_hash.as_str(), key) {
                proof {
                    lemma_st_find_skip_front(s0, i as int, key@);
                    assert(s0.skip(i as int)[0] == s0[i as int]);
                    lemma_st_find_remove(s0, i as int);
                }
                self.entries.remove(i);
                return true;
            }
            i = i + 1;
        }
        proof {
            lemma_st_find_none_when_no_key(s0, key@);
        }
        false
    }

    /// Looks a session up under a file hash.
    pub fn get<'a>(&'a self, key: &str) -> (r: Option<&'a UploadMetadata>)
        requires
            self.wf(),
        ensures
            match r {
                Some(m) => self.spec_get(key@) == Some(*m),
                None => self.spec_get(key@) is None,
            },
    {
        let ghost s0 = self.entries@;
        let mut i: usize = 0;
        while i < self.entries.len()
            invariant
                self.entries@ == s0,
                i <= s0.len(),
                forall|j: int| 0 <= j < i ==> (#[trigger] s0[j]).file_hash@ != key@,
            decreases s0.len() - i,
        {
            if str_eq(self.entries[i].file_hash.as_str(), key) {
                proof {
                    lemma_st_find_skip_front(s0, i as int, key@);
                    assert(s0.skip(i as int)[0] == s0[i as int]);
                }
                return Some(&self.entries[i]);
            }
            i = i + 1;
        }
        proof {
            lemma_st_find_none_when_no_key(s0, key@);
        }
        None
    }

    /// Looks a session up by the raw bytes of a hash, as a worker stream's
    /// hello announces it: the match is against the UTF-8 bytes of the
    /// stored hash.
    pub fn get_by_hash_bytes<'a>(&'a self, bytes: &[u8]) -> (r: Option<&'a UploadMetadata>)
        requires
            self.wf(),
        ensures
            match r {
                Some(m) => encode_utf8(m.file_hash@) == bytes@ && self.spec_get(m.file_hash@)
                    == Some(*m),
                None => !self.spec_has_hash_bytes(bytes@),
            },
    {
        let ghost s0 = self.entries@;
        let mut i: usize = 0;
        while i < self.entries.len()
            invariant
                self.entries@ == s0,
                i <= s0.len(),
                forall|a: int, b: int|
                    0 <= a < b < s0.len() ==> (#[trigger] s0[a]).file_hash@ != (#[trigger] s0[
                        b
                    ]).file_hash@,
                forall|j: int| 0 <= j < i ==> encode_utf8((#[trigger] s0[j]).file_hash@) != bytes@,
            decreases s0.len() - i,
        {
            if bytes_eq(self.entries[i].file_hash.as_str().as_bytes(), bytes) {
                proof {
                    assert forall|j: int| 0 <= j < i implies (#[trigger] s0[j]).file_hash@ != s0[
                        i as int
                    ].file_hash@ by {
                        if s0[j].file_hash@ == s0[i as int].file_hash@ {
                            assert(encode_utf8(s0[j].file_hash@) == encode_utf8(
                                s0[i as int].file_hash@,
                            ));
                        }
                    }
                    lemma_st_find_skip_front(s0, i as int, s0[i as int].file_hash@);
                    assert(s0.skip(i as int)[0] == s0[i as int]);
                }
                return Some(&self.entries[i]);
            }
            i = i + 1;
        }
        None
    }
}

// ---------------------------------------------------------------------------
// Preparing an upload destination
// ---------------------------------------------------------------------------
/// How the server acts on the destination of an announced upload, decided
/// from what is on disk. The outcomes are mutually exclusive and evaluated
/// in this order.
#[derive(Debug, Clone, Copy, PartialEq, Eq, Structural)]
pub enum PrepareOutcome {
    /// The final file is already there: the upload is rejected outright,
    /// even for identical content.
    AlreadyExists,
    /// A lock marker is there but the stored hash could not be read: the
    /// preparation fails.
    HashUnreadable,
    /// The stored hash matches the announced one: previously stored chunks
    /// may be reused.
    Resumable,
    /// The markers belong to different content: they are deleted, then the
    /// destination is set up afresh.
    Stale,
    /// Nothing is on disk: the destination is set up afresh.
    Fresh,
}

impl PrepareOutcome {
    /// The acknowledgement the client is sent for this outcome, if the
    /// preparation succeeded.
    pub open spec fn spec_prep_result(self) -> Option<PreparationResult> {
        match self {
            PrepareOutcome::AlreadyExists => None,
            PrepareOutcome::HashUnreadable => None,
            PrepareOutcome::Resumable => Some(PreparationResult::Resumable),
            PrepareOutcome::Stale => Some(PreparationResult::New),
            PrepareOutcome::Fresh => Some(PreparationResult::New),
        }
    }
}

/// The preparation decision table, over the facts gathered from disk: does
/// the final file exist, does the lock marker exist, and what does the hash
/// marker hold (none when it could not be read). The stored hash is compared
/// against the announced one with surrounding whitespace stripped.
pub fn prepare_decision(
    final_file_exists: bool,
    lock_exists: bool,
    stored_hash: Option<&str>,
    request_hash: &str,
) -> (r: PrepareOutcome)
    ensures
        r == PrepareOutcome::AlreadyExists <==> final_file_exists,
        r == PrepareOutcome::HashUnreadable <==> (!final_file_exists && lock_exists
            && stored_hash is None),
        r == PrepareOutcome::Resumable <==> (!final_file_exists && lock_exists
            && (stored_hash matches Some(h) && crate::text::spec_trim(h@) == request_hash@)),
        r == PrepareOutcome::Stale <==> (!final_file_exists && lock_exists
            && (stored_hash matches Some(h) && crate::text::spec_trim(h@) != request_hash@)),
        r == PrepareOutcome::Fresh <==> (!final_file_exists && !lock_exists),
{
    if final_file_exists {
        PrepareOutcome::AlreadyExists
    } else if lock_exists {
        match stored_hash {
            None => PrepareOutcome::HashUnreadable,
            Some(h) => {
                let trimmed = crate::text::trim(h);
                if str_eq(trimmed, request_hash) {
                    PrepareOutcome::Resumable
                } else {
                    PrepareOutcome::Stale
                }
            },
        }
    } else {
        PrepareOutcome::Fresh
    }
}

// ---------------------------------------------------------------------------
// Control-stream replies
// ---------------------------------------------------------------------------
/// The acknowledgement of an accepted upload initiation: a one-byte payload,
/// 1 for a fresh upload and 2 for a resumable one, not final.
pub open spec fn spec_init_reply(message_id: u8, prep: PreparationResult) -> Seq<u8> {
    spec_frame(
        WsmHeader {
            opcode: OPCODE_REPLY,
            message_id,
            payload_type: 0x03,
            reserved: 0,
            payload_len: 1,
        },
        seq![
            match prep {
                PreparationResult::New => 1u8,
                PreparationResult::Resumable => 2u8,
            },
        ],
    )
}

/// Builds the acknowledgement of an accepted upload initiation.
pub fn init_reply(message_id: u8, prep: PreparationResult) -> (v: Vec<u8>)
    ensures
        v@ == spec_init_reply(message_id, prep),
{
    let header = WsmHeader::new(OPCODE_REPLY, message_id, PayloadType::Raw, 1);
    let mut v = header.to_bytes();
    let code: u8 = match prep {
        PreparationResult::New => 1,
        PreparationResult::Resumable => 2,
    };
    v.push(code);
    proof {
        assert(v@ =~= spec_init_reply(message_id, prep));
    }
    v
}

/// The acknowledgement of a worker-allocation request: a bare reply header,
/// not final. The server reserves nothing here; worker streams are accepted
/// as they come.
pub open spec fn spec_worker_alloc_reply(message_id: u8) -> Seq<u8> {
    spec_frame(
        WsmHeader {
            opcode: OPCODE_REPLY,
            message_id,
            payload_type: 0x03,
            reserved: 0,
            payload_len: 0,
        },
        Seq::empty(),
    )
}

/// Builds the acknowledgement of a worker-allocation request.
pub fn worker_alloc_reply(message_id: u8) -> (v: Vec<u8>)
    ensures
        v@ == spec_worker_alloc_reply(message_id),
{
    let v = WsmHeader::new(OPCODE_REPLY, message_id, PayloadType::Raw, 0).to_bytes();
    proof {
        assert(v@ =~= spec_worker_alloc_reply(message_id));
    }
    v
}

/// The final answer to a finalize request: one byte, 1 on success and 0 on
/// failure.
pub open spec fn spec_finalize_reply(message_id: u8, success: bool) -> Seq<u8> {
    spec_frame(
        WsmHeader {
            opcode: OPCODE_REPLY,
            message_id,
            payload_type: 0x03,
            reserved: RESERVED_FINAL_FLAG,
            payload_len: 1,
        },
        seq![
            if success {
                1u8
            } else {
                0u8
            },
        ],
    )
}

/// Builds the final answer to a finalize request.
pub fn finalize_reply(message_id: u8, success: bool) -> (v: Vec<u8>)
    ensures
        v@ == spec_finalize_reply(message_id, success),
{
    let header = WsmHeader::with_reserved(
        OPCODE_REPLY,
        message_id,
        PayloadType::Raw,
        1,
        RESERVED_FINAL_FLAG,
    );
    let mut v = header.to_bytes();
    let code: u8 = if success {
        1
    } else {
        0
    };
    v.push(code);
    proof {
        assert(v@ =~= spec_finalize_reply(message_id, success));
    }
    v
}

// ---------------------------------------------------------------------------
// Worker streams
// ---------------------------------------------------------------------------
/// What a worker stream may carry after its hello.
#[derive(Debug, Clone, Copy, PartialEq, Eq, Structural)]
pub enum WorkerOp {
    /// A chunk inquiry.
    Inquiry,
    /// Chunk data.
    Data,
    /// Anything else ends the stream.
    Unexpected,
}

/// Routes an opcode on a bound worker stream.
pub fn worker_route(opcode: u8) -> (r: WorkerOp)
    ensures
        r == WorkerOp::Inquiry <==> opcode == crate::header::OPCODE_CHUNK_INQUIRY,
        r == WorkerOp::Data <==> opcode == crate::header::OPCODE_CHUNK_DATA,
{
    if opcode == crate::header::OPCODE_CHUNK_INQUIRY {
        WorkerOp::Inquiry
    } else if opcode == crate::header::OPCODE_CHUNK_DATA {
        WorkerOp::Data
    } else {
        WorkerOp::Unexpected
    }
}

/// Binds a fresh worker stream to a session: the first frame must be a
/// worker hello whose payload spells the file hash of a registered upload.
/// On any other opcode, or an unknown hash, the stream is dropped.
pub fn match_worker_hello<'a>(
    sessions: &'a SessionTable,
    header: &WsmHeader,
    payload: &[u8],
) -> (r: Option<&'a UploadMetadata>)
    requires
        sessions.wf(),
    ensures
        header.opcode != OPCODE_WORKER_HELLO ==> r is None,
        r matches Some(m) ==> {
            &&& header.opcode == OPCODE_WORKER_HELLO
            &&& encode_utf8(m.file_hash@) == payload@
            &&& sessions.spec_get(m.file_hash@) == Some(*m)
        },
        header.opcode == OPCODE_WORKER_HELLO && r is None ==> !sessions.spec_has_hash_bytes(
            payload@,
        ),
{
    if header.opcode == OPCODE_WORKER_HELLO {
        sessions.get_by_hash_bytes(payload)
    } else {
        None
    }
}

/// The reply to a chunk inquiry whose chunk is already stored with the
/// announced content: code 2 (skip), final.
pub open spec fn spec_inquiry_skip_reply() -> Seq<u8> {
    spec_frame(
        WsmHeader {
            opcode: OPCODE_REPLY,
            message_id: 0,
            payload_type: 0x03,
            reserved: RESERVED_FINAL_FLAG,
            payload_len: 1,
        },
        seq![2u8],
    )
}

/// The reply to a chunk inquiry whose chunk must be sent: code 1 (load),
/// not final.
pub open spec fn spec_inquiry_load_reply() -> Seq<u8> {
    spec_frame(
        WsmHeader {
            opcode: OPCODE_REPLY,
            message_id: 0,
            payload_type: 0x03,
            reserved: 0,
            payload_len: 1,
        },
        seq![1u8],
    )
}

/// Handles a chunk inquiry on a bound worker stream. The payload is the
/// chunk id followed by the hash the client computed; `stored_chunk` is what
/// the chunk file holds on disk, if it exists. When the stored bytes hash to
/// exactly the announced value the chunk is skipped (final reply, code 2);
/// otherwise the announced hash goes on record and the client is asked to
/// send the chunk (reply code 1).
pub fn handle_chunk_inquiry(
    pending: &mut PendingChunks,
    payload: &[u8],
    stored_chunk: Option<&Vec<u8>>,
) -> (reply: Vec<u8>)
    requires
        old(pending).wf(),
        payload@.len() == 40,
    ensures
        final(pending).wf(),
        ({
            let cid = spec_u64_from_le_bytes(payload@.subrange(0, 8));
            let client_hash = payload@.subrange(8, 40);
            let skip = stored_chunk matches Some(d) && sha256_of(d@) == client_hash;
            &&& skip ==> reply@ == spec_inquiry_skip_reply() && *final(pending) == *old(pending)
            &&& !skip ==> {
                &&& reply@ == spec_inquiry_load_reply()
                &&& final(pending).spec_get(cid) == Some(client_hash)
                &&& forall|k: u64|
                    k != cid ==> final(pending).spec_get(k) == old(pending).spec_get(k)
            }
        }),
{
    let id_bytes = vstd::slice::slice_subrange(payload, 0, 8);
    let chunk_id = u64_from_le_bytes(id_bytes);
    let client_hash = vstd::slice::slice_subrange(payload, 8, 40);
    let mut skip = false;
    match stored_chunk {
        Some(data) => {
            let digest = sha256(data.as_slice());
            if bytes_eq(digest.as_slice(), client_hash) {
                skip = true;
            }
        },
        None => {},
    }
    if skip {
        let header = WsmHeader::with_reserved(
            OPCODE_REPLY,
            0,
            PayloadType::Raw,
            1,
            RESERVED_FINAL_FLAG,
        );
        let mut v = header.to_bytes();
        v.push(2);
        proof {
            assert(v@ =~= spec_inquiry_skip_reply());
        }
        v
    } else {
        let mut hash_vec: Vec<u8> = Vec::new();
        hash_vec.extend_from_slice(client_hash);
        proof {
            assert(hash_vec@ =~= payload@.subrange(8, 40));
        }
        pending.insert(chunk_id, hash_vec);
        let header = WsmHeader::new(OPCODE_REPLY, 0, PayloadType::Raw, 1);
        let mut v = header.to_bytes();
        v.push(1);
        proof {
            assert(v@ =~= spec_inquiry_load_reply());
        }
        v
    }
}

/// Decides whether received chunk data may be written to disk: the chunk id
/// must have a hash on record from an inquiry, and the received bytes must
/// hash to exactly that value. The record for the chunk id is consumed
/// either way.
pub fn chunk_data_decision(pending: &mut PendingChunks, payload: &[u8]) -> (accept: bool)
    requires
        old(pending).wf(),
        payload@.len() > 8,
    ensures
        final(pending).wf(),
        ({
            let cid = spec_u64_from_le_bytes(payload@.subrange(0, 8));
            let data = payload@.skip(8);
            &&& accept <==> old(pending).spec_get(cid) == Some(sha256_of(data))
            &&& final(pending).spec_get(cid) is None
            &&& forall|k: u64| k != cid ==> final(pending).spec_get(k) == old(pending).spec_get(k)
        }),
{
    let id_bytes = vstd::slice::slice_subrange(payload, 0, 8);
    let chunk_id = u64_from_le_bytes(id_bytes);
    let data = vstd::slice::slice_subrange(payload, 8, payload.len());
    proof {
        assert(data@ =~= payload@.skip(8));
    }
    match pending.take(chunk_id) {
        Some(expected) => {
            let digest = sha256(data);
            bytes_eq(digest.as_slice(), expected.as_slice())
        },
        None => false,
    }
}

/// The answer on a worker stream after chunk data: a bare reply header,
/// final exactly when the chunk was verified and stored; a non-final reply
/// asks the client to send the chunk again.
pub open spec fn spec_chunk_data_reply(stored_ok: bool) -> Seq<u8> {
    spec_frame(
        WsmHeader {
            opcode: OPCODE_REPLY,
            message_id: 0,
            payload_type: 0x03,
            reserved: if stored_ok {
                RESERVED_FINAL_FLAG
            } else {
                0
            },
            payload_len: 0,
        },
        Seq::empty(),
    )
}

/// Builds the answer on a worker stream after chunk data.
pub fn chunk_data_reply(stored_ok: bool) -> (v: Vec<u8>)
    ensures
        v@ == spec_chunk_data_reply(stored_ok),
{
    let reserved: u8 = if stored_ok {
        RESERVED_FINAL_FLAG
    } else {
        0
    };
    let v = WsmHeader::with_reserved(OPCODE_REPLY, 0, PayloadType::Raw, 0, reserved).to_bytes();
    proof {
        assert(v@ =~= spec_chunk_data_reply(stored_ok));
    }
    v
}

} // verus!
