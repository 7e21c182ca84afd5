//! The snapshot registry: a process-wide mapping from an 8-bit memory id
//! to the staged snapshot buffer registered under it.
//!
//! Registration is one-shot per memory id. The staged buffer is a plain
//! in-heap byte buffer; only explicit snapshot and upload operations touch
//! it.

use vstd::prelude::*;

use crate::Error;

verus! {

/// One registered slot: the staged snapshot buffer for a memory id.
struct SnapshotEntry {
    memory_id: u8,
    staged: Vec<u8>,
}

/// Mapping from memory id to staged snapshot buffer.
pub struct Registry {
    entries: Vec<SnapshotEntry>,
}

/// The staged buffer of the first entry from `i` on that carries
/// `memory_id`, if one does.
spec fn find_from(s: Seq<SnapshotEntry>, memory_id: u8, i: int) -> Option<Seq<u8>>
    decreases s.len() - i,
{
    if i < 0 || i >= s.len() {
        None
    } else if s[i].memory_id == memory_id {
        Some(s[i].staged@)
    } else {
        find_from(s, memory_id, i + 1)
    }
}

proof fn lemma_find_from_match(s: Seq<SnapshotEntry>, memory_id: u8, i: int, k: int)
    requires
        0 <= i <= k < s.len(),
        s[k].memory_id == memory_id,
        forall|j: int| i <= j < k ==> s[j].memory_id != memory_id,
    ensures
        find_from(s, memory_id, i) == Some(s[k].staged@),
    decreases k - i,
{
    if i < k {
        lemma_find_from_match(s, memory_id, i + 1, k);
    }
}

proof fn lemma_find_from_none(s: Seq<SnapshotEntry>, memory_id: u8, i: int)
    requires
        0 <= i,
        forall|j: int| i <= j < s.len() ==> s[j].memory_id != memory_id,
    ensures
        find_from(s, memory_id, i) is None,
    decreases s.len() - i,
{
    if i < s.len() {
        lemma_find_from_none(s, memory_id, i + 1);
    }
}

proof fn lemma_find_from_none_converse(s: Seq<SnapshotEntry>, memory_id: u8, i: int, k: int)
    requires
        0 <= i <= k < s.len(),
        find_from(s, memory_id, i) is None,
    ensures
        s[k].memory_id != memory_id,
    decreases k - i,
{
    if i < k {
        lemma_find_from_none_converse(s, memory_id, i + 1, k);
    }
}

proof fn lemma_find_from_update(
    s: Seq<SnapshotEntry>,
    k: int,
    e: SnapshotEntry,
    memory_id: u8,
    i: int,
)
    requires
        0 <= k < s.len(),
        0 <= i,
        e.memory_id == s[k].memory_id,
        forall|a: int, b: int|
            0 <= a < b < s.len() ==> s[a].memory_id != s[b].memory_id,
    ensures
        find_from(s.update(k, e), memory_id, i) == if s[k].memory_id == memory_id && i <= k {
            Some(e.staged@)
        } else {
            find_from(s, memory_id, i)
        },
    decreases s.len() - i,
{
    let u = s.update(k, e);
    if i >= s.len() {
        assert(find_from(u, memory_id, i) is None);
        assert(find_from(s, memory_id, i) is None);
    } else {
        lemma_find_from_update(s, k, e, memory_id, i + 1);
        if i == k {
            assert(u[i] == e);
            if e.memory_id == memory_id {
                assert(find_from(u, memory_id, i) == Some(e.staged@));
            } else {
                assert(find_from(u, memory_id, i) == find_from(u, memory_id, i + 1));
                assert(find_from(s, memory_id, i) == find_from(s, memory_id, i + 1));
            }
        } else {
            assert(u[i] == s[i]);
            if i < k && s[i].memory_id == memory_id {
                assert(s[i].memory_id != s[k].memory_id);
            }
        }
    }
}

proof fn lemma_find_from_push(s: Seq<SnapshotEntry>, e: SnapshotEntry, memory_id: u8, i: int)
    requires
        0 <= i <= s.len(),
    ensures
        find_from(s.push(e), memory_id, i) == if find_from(s, memory_id, i) is Some {
            find_from(s, memory_id, i)
        } else if e.memory_id == memory_id {
            Some(e.staged@)
        } else {
            None
        },
    decreases s.len() - i,
{
    if i == s.len() {
        assert(s.push(e)[i] == e);
        assert(find_from(s, memory_id, i) is None);
        if e.memory_id == memory_id {
            assert(find_from(s.push(e), memory_id, i) == Some(e.staged@));
        } else {
            assert(find_from(s.push(e), memory_id, i + 1) is None);
            assert(find_from(s.push(e), memory_id, i) is None);
        }
    } else {
        lemma_find_from_push(s, e, memory_id, i + 1);
        assert(s.push(e)[i] == s[i]);
    }
}

impl Registry {
    /// The staged buffer registered under `memory_id`, if the id is
    /// registered.
    pub closed spec fn staged_opt(self, memory_id: u8) -> Option<Seq<u8>> {
        find_from(self.entries@, memory_id, 0)
    }

    /// Whether `memory_id` is registered.
    pub open spec fn contains_id(self, memory_id: u8) -> bool {
        self.staged_opt(memory_id) is Some
    }

    /// The staged buffer registered under `memory_id`.
    pub open spec fn staged(self, memory_id: u8) -> Seq<u8>
        recommends
            self.contains_id(memory_id),
    {
        self.staged_opt(memory_id)->Some_0
    }

    /// Each memory id is registered at most once.
    pub closed spec fn wf(self) -> bool {
        forall|a: int, b: int|
            0 <= a < b < self.entries@.len() ==> self.entries@[a].memory_id
                != self.entries@[b].memory_id
    }

    /// An empty registry: no memory id is registered.
    pub fn new() -> (r: Registry)
        ensures
            r.wf(),
            forall|memory_id: u8| r.staged_opt(memory_id) is None,
    {
        Registry { entries: Vec::new() }
    }

    /// The index of the entry registered under `memory_id`, if any.
    fn find_index(&self, memory_id: u8) -> (res: Option<usize>)
        ensures
            match res {
                Some(i) => {
                    &&& i < self.entries@.len()
                    &&& self.entries@[i as int].memory_id == memory_id
                    &&& self.staged_opt(memory_id) == Some(self.entries@[i as int].staged@)
                },
                None => self.staged_opt(memory_id) is None,
            },
    {
        let n: usize = self.entries.len();
        let mut i: usize = 0;
        while i < n
            invariant
                i <= n,
                n == self.entries@.len(),
                forall|j: int| 0 <= j < i ==> self.entries@[j].memory_id != memory_id,
            decreases n - i,
        {
            if self.entries[i].memory_id == memory_id {
                proof {
                    lemma_find_from_match(self.entries@, memory_id, 0, i as int);
                }
                return Some(i);
            }
            i = i + 1;
        }
        proof {
            lemma_find_from_none(self.entries@, memory_id, 0);
        }
        None
    }

    /// Registers `memory_id` with an empty staged buffer. Registration is
    /// exclusive: an id that is already present is refused and the
    /// registry is unchanged.
    pub fn register(&mut self, memory_id: u8) -> (res: Result<(), Error>)
        requires
            old(self).wf(),
        ensures
            final(self).wf(),
            match res {
                Ok(()) => {
                    &&& !old(self).contains_id(memory_id)
                    &&& final(self).staged_opt(memory_id) == Some(Seq::<u8>::empty())
                    &&& forall|other: u8|
                        other != memory_id ==> final(self).staged_opt(other) == old(
                            self,
                        ).staged_opt(other)
                },
                Err(e) => {
                    &&& e == Error::MemoryIdAlreadyRegistered
                    &&& old(self).contains_id(memory_id)
                    &&& *final(self) == *old(self)
                },
            },
    {
        match self.find_index(memory_id) {
            Some(_) => Err(Error::MemoryIdAlreadyRegistered),
            None => {
                let ghost pre = self.entries@;
                let entry = SnapshotEntry { memory_id, staged: Vec::new() };
                let ghost e = entry;
                self.entries.push(entry);
                proof {
                    assert forall|other: u8| #![all_triggers] true implies find_from(
                        pre.push(e),
                        other,
                        0,
                    ) == if find_from(pre, other, 0) is Some {
                        find_from(pre, other, 0)
                    } else if other == memory_id {
                        Some(e.staged@)
                    } else {
                        None
                    } by {
                        lemma_find_from_push(pre, e, other, 0);
                    }
                    assert forall|a: int, b: int|
                        0 <= a < b < self.entries@.len() implies self.entries@[a].memory_id
                        != self.entries@[b].memory_id by {
                        if b == pre.len() as int && a < b {
                            lemma_find_from_none_converse(pre, memory_id, 0, a);
                        }
                    }
                }
                Ok(())
            },
        }
    }

    /// Replaces the staged buffer of `memory_id` with `bytes`.
    pub fn set_staged(&mut self, memory_id: u8, bytes: Vec<u8>) -> (res: Result<(), Error>)
        requires
            old(self).wf(),
        ensures
            final(self).wf(),
            match res {
                Ok(()) => {
                    &&& old(self).contains_id(memory_id)
                    &&& final(self).staged_opt(memory_id) == Some(bytes@)
                    &&& forall|other: u8|
                        other != memory_id ==> final(self).staged_opt(other) == old(
                            self,
                        ).staged_opt(other)
                },
                Err(e) => {
                    &&& e == Error::MemoryIdNotRegistered
                    &&& !old(self).contains_id(memory_id)
                    &&& *final(self) == *old(self)
                },
            },
    {
        match self.find_index(memory_id) {
            None => Err(Error::MemoryIdNotRegistered),
            Some(i) => {
                let ghost pre = self.entries@;
                let mut entry = self.entries.remove(i);
                entry.staged = bytes;
                let ghost e = entry;
                self.entries.insert(i, entry);
                proof {
                    assert(self.entries@ =~= pre.update(i as int, e));
                    assert forall|other: u8| #![all_triggers] true implies find_from(
                        pre.update(i as int, e),
                        other,
                        0,
                    ) == if memory_id == other {
                        Some(e.staged@)
                    } else {
                        find_from(pre, other, 0)
                    } by {
                        lemma_find_from_update(pre, i as int, e, other, 0);
                    }
                }
                Ok(())
            },
        }
    }

    /// Sets the staged buffer of `memory_id` back to empty.
    pub fn clear(&mut self, memory_id: u8) -> (res: Result<(), Error>)
        requires
            old(self).wf(),
        ensures
            final(self).wf(),
            match res {
                Ok(()) => {
                    &&& old(self).contains_id(memory_id)
                    &&& final(self).staged_opt(memory_id) == Some(Seq::<u8>::empty())
                    &&& forall|other: u8|
                        other != memory_id ==> final(self).staged_opt(other) == old(
                            self,
                        ).staged_opt(other)
                },
                Err(e) => {
                    &&& e == Error::MemoryIdNotRegistered
                    &&& !old(self).contains_id(memory_id)
                    &&& *final(self) == *old(self)
                },
            },
    {
        self.set_staged(memory_id, Vec::new())
    }

    /// Appends `bytes` to the staged buffer of `memory_id`.
    pub fn append(&mut self, memory_id: u8, bytes: Vec<u8>) -> (res: Result<(), Error>)
        requires
            old(self).wf(),
        ensures
            final(self).wf(),
            match res {
                Ok(()) => {
                    &&& old(self).contains_id(memory_id)
                    &&& final(self).staged_opt(memory_id) == Some(
                        old(self).staged(memory_id) + bytes@,
                    )
                    &&& forall|other: u8|
                        other != memory_id ==> final(self).staged_opt(other) == old(
                            self,
                        ).staged_opt(other)
                },
                Err(e) => {
                    &&& e == Error::MemoryIdNotRegistered
                    &&& !old(self).contains_id(memory_id)
                    &&& *final(self) == *old(self)
                },
            },
    {
        match self.find_index(memory_id) {
            None => Err(Error::MemoryIdNotRegistered),
            Some(i) => {
                let ghost pre = self.entries@;
                let mut entry = self.entries.remove(i);
                let mut tail = bytes;
                entry.staged.append(&mut tail);
                let ghost e = entry;
                self.entries.insert(i, entry);
                proof {
                    assert(self.entries@ =~= pre.update(i as int, e));
                    assert forall|other: u8| #![all_triggers] true implies find_from(
                        pre.update(i as int, e),
                        other,
                        0,
                    ) == if memory_id == other {
                        Some(e.staged@)
                    } else {
                        find_from(pre, other, 0)
                    } by {
                        lemma_find_from_update(pre, i as int, e, other, 0);
                    }
                }
                Ok(())
            },
        }
    }

    /// The staged buffer of `memory_id`, if the id is registered.
    pub fn staged_bytes(&self, memory_id: u8) -> (res: Option<&Vec<u8>>)
        ensures
            match res {
                Some(v) => self.staged_opt(memory_id) == Some(v@),
                None => self.staged_opt(memory_id) is None,
            },
    {
        match self.find_index(memory_id) {
            Some(i) => Some(&self.entries[i].staged),
            None => None,
        }
    }

    /// A copy of `length` staged bytes from `offset` on, for a chunked
    /// download. A slice that reaches outside the staged buffer is
    /// refused.
    pub fn read_chunk(&self, memory_id: u8, offset: u64, length: u64) -> (res: Result<
        Vec<u8>,
        Error,
    >)
        ensures
            match res {
                Ok(v) => {
                    &&& self.contains_id(memory_id)
                    &&& offset + length <= self.staged(memory_id).len()
                    &&& v@ == self.staged(memory_id).subrange(offset as int, offset + length)
                },
                Err(e) => match e {
                    Error::MemoryIdNotRegistered => !self.contains_id(memory_id),
                    Error::OutOfRange => {
                        &&& self.contains_id(memory_id)
                        &&& offset + length > self.staged(memory_id).len()
                    },
                    _ => false,
                },
            },
    {
        let i: usize = match self.find_index(memory_id) {
            None => {
                return Err(Error::MemoryIdNotRegistered);
            },
            Some(i) => i,
        };
        let staged: &Vec<u8> = &self.entries[i].staged;
        let staged_len: usize = staged.len();
        if offset > staged_len as u64 || length > staged_len as u64 - offset {
            return Err(Error::OutOfRange);
        }
        let mut chunk: Vec<u8> = Vec::new();
        let mut j: u64 = 0;
        while j < length
            invariant
                j <= length,
                offset + length <= staged@.len(),
                staged@.len() <= usize::MAX,
                staged@ == self.staged(memory_id),
                self.contains_id(memory_id),
                chunk@ == self.staged(memory_id).subrange(offset as int, offset + j),
            decreases length - j,
        {
            chunk.push(staged[(offset + j) as usize]);
            proof {
                assert(chunk@ =~= self.staged(memory_id).subrange(
                    offset as int,
                    offset + j + 1,
                ));
            }
            j = j + 1;
        }
        Ok(chunk)
    }
}

} // verus!
