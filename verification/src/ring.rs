//! Fixed-capacity circular byte buffer with one producer and one consumer.
//!
//! The buffer owns a storage region of fixed size, a read cursor and a count
//! of pending bytes; the write cursor is the read cursor advanced by the
//! count, wrapping at the capacity. A write accepts at most the remaining
//! room and never blocks; a read copies at most what is pending and returns
//! empty-handed rather than wait. Callers must check the returned counts: a
//! write beyond capacity silently truncates.

use vstd::arithmetic::div_mod::{lemma_add_mod_noop, lemma_mod_multiples_vanish, lemma_small_mod};
use vstd::prelude::*;

verus! {

/// How many of `req` offered bytes a buffer with `pend` bytes pending out of
/// `cap` capacity accepts: everything that still fits, never more than
/// offered.
pub open spec fn accept_count(req: int, pend: int, cap: int) -> int {
    if req <= cap - pend {
        req
    } else {
        cap - pend
    }
}

/// How many bytes a read asking for `req` bytes copies out of `avail`
/// pending: everything asked for, or everything pending if that is less.
pub open spec fn copy_count(req: int, avail: int) -> int {
    if req <= avail {
        req
    } else {
        avail
    }
}

/// The pending bytes after `b` is written into a buffer of capacity `cap`
/// holding `p`: `p` followed by the longest prefix of `b` that fits.
pub open spec fn ring_after_write(p: Seq<u8>, cap: int, b: Seq<u8>) -> Seq<u8> {
    p + b.take(accept_count(b.len() as int, p.len() as int, cap))
}

/// The bytes a read asking for `req` returns from a buffer holding `p`.
pub open spec fn read_result(p: Seq<u8>, req: int) -> Seq<u8> {
    p.take(copy_count(req, p.len() as int))
}

/// The pending bytes after a read asking for `req` from a buffer holding `p`.
pub open spec fn ring_after_read(p: Seq<u8>, req: int) -> Seq<u8> {
    p.skip(copy_count(req, p.len() as int))
}

/// The concatenation of a run of reads: the first read asks for `reqs[0]`
/// bytes of the pending `p`, the next for `reqs[1]` of what is left, and so
/// on.
pub open spec fn drain_reads(p: Seq<u8>, reqs: Seq<int>) -> Seq<u8>
    decreases reqs.len(),
{
    if reqs.len() == 0 {
        Seq::empty()
    } else {
        read_result(p, reqs[0]) + drain_reads(ring_after_read(p, reqs[0]), reqs.skip(1))
    }
}

/// The total number of bytes a run of reads asks for.
pub open spec fn sum_of(reqs: Seq<int>) -> int
    decreases reqs.len(),
{
    if reqs.len() == 0 {
        0
    } else {
        reqs[0] + sum_of(reqs.skip(1))
    }
}

/// Law: however a consumer splits its reads, the bytes come out in arrival
/// order — the concatenation of the reads is a prefix of what was pending —
/// and once the reads ask for at least the pending count in total, they
/// return all of it, nothing reordered, duplicated or dropped.
pub proof fn lemma_reads_deliver_in_order(p: Seq<u8>, reqs: Seq<int>)
    requires
        forall|i: int| 0 <= i < reqs.len() ==> reqs[i] >= 0,
    ensures
        drain_reads(p, reqs).is_prefix_of(p),
        sum_of(reqs) >= p.len() ==> drain_reads(p, reqs) == p,
    decreases reqs.len(),
{
    if reqs.len() == 0 {
        assert(drain_reads(p, reqs).is_prefix_of(p));
        if sum_of(reqs) >= p.len() {
            assert(drain_reads(p, reqs) =~= p);
        }
    } else {
        let n = copy_count(reqs[0], p.len() as int);
        let tail = reqs.skip(1);
        assert forall|i: int| 0 <= i < tail.len() implies tail[i] >= 0 by {
            assert(tail[i] == reqs[i + 1]);
        }
        lemma_reads_deliver_in_order(p.skip(n), tail);
        let rest = drain_reads(p.skip(n), tail);
        assert(ring_after_read(p, reqs[0]) == p.skip(n));
        assert forall|i: int| 0 <= i < n + rest.len() implies (p.take(n) + rest)[i] == p[i] by {
            if i >= n {
                assert(rest[i - n] == p.skip(n).subrange(0, rest.len() as int)[i - n]);
                assert(p.skip(n)[i - n] == p[i]);
            }
        }
        assert(drain_reads(p, reqs) =~= p.subrange(0, n + rest.len()));
        if sum_of(reqs) >= p.len() {
            if reqs[0] >= p.len() {
                assert(rest.len() == 0);
                assert(drain_reads(p, reqs) =~= p);
            } else {
                assert(sum_of(tail) >= p.skip(n).len());
                assert(rest == p.skip(n));
                assert(drain_reads(p, reqs) =~= p);
            }
        }
    }
}

/// Law: a write that fits into an empty buffer is accepted whole and is all
/// that is pending afterwards; a read asking for at least as much returns
/// exactly those bytes, in order, and leaves the buffer empty.
pub proof fn lemma_ring_round_trip(cap: int, b: Seq<u8>, req: int)
    requires
        b.len() <= cap,
        req >= b.len(),
    ensures
        ring_after_write(Seq::<u8>::empty(), cap, b) == b,
        read_result(ring_after_write(Seq::<u8>::empty(), cap, b), req) == b,
        ring_after_read(ring_after_write(Seq::<u8>::empty(), cap, b), req) == Seq::<u8>::empty(),
{
    assert(Seq::<u8>::empty() + b.take(b.len() as int) =~= b);
    assert(read_result(b, req) =~= b);
    assert(ring_after_read(b, req) =~= Seq::<u8>::empty());
}

/// Law: as long as everything fits, it does not matter in how many chunks
/// bytes arrive — the producer delivering `a` and then `b` leaves the same
/// pending bytes as delivering them in one piece.
pub proof fn lemma_chunked_delivery(p: Seq<u8>, cap: int, a: Seq<u8>, b: Seq<u8>)
    requires
        p.len() + a.len() + b.len() <= cap,
    ensures
        ring_after_write(ring_after_write(p, cap, a), cap, b) == ring_after_write(p, cap, a + b),
{
    assert(a.take(a.len() as int) =~= a);
    assert(b.take(b.len() as int) =~= b);
    assert((a + b).take((a + b).len() as int) =~= a + b);
    assert(p + a + b =~= p + (a + b));
}

/// Law: a write beyond the remaining room is truncated — the accepted count
/// falls short of the request — and the buffer then holds what it held
/// before followed by the longest accepted prefix of the request.
pub proof fn lemma_capacity_overrun(p: Seq<u8>, cap: int, b: Seq<u8>)
    requires
        p.len() <= cap,
        b.len() > cap - p.len(),
    ensures
        accept_count(b.len() as int, p.len() as int, cap) < b.len(),
        ring_after_write(p, cap, b) == p + b.take(cap - p.len()),
{
}

/// A position `offset` slots past `start` on a ring of `cap` slots, written
/// without the modulo: it wraps past the end at most once.
proof fn lemma_wrap_index(start: int, offset: int, cap: int)
    requires
        0 <= start < cap,
        0 <= offset <= cap,
    ensures
        (start + offset) % cap == if start + offset < cap {
            start + offset
        } else {
            start + offset - cap
        },
{
    if start + offset < cap {
        lemma_small_mod((start + offset) as nat, cap as nat);
    } else {
        lemma_mod_multiples_vanish(1, start + offset - cap, cap);
        lemma_small_mod((start + offset - cap) as nat, cap as nat);
    }
}

/// Distinct offsets within one revolution land on distinct slots.
proof fn lemma_wrap_index_injective(start: int, o1: int, o2: int, cap: int)
    requires
        0 <= start < cap,
        0 <= o1 < cap,
        0 <= o2 < cap,
        o1 != o2,
    ensures
        (start + o1) % cap != (start + o2) % cap,
{
    lemma_wrap_index(start, o1, cap);
    lemma_wrap_index(start, o2, cap);
}

/// Single-producer/single-consumer circular byte buffer.
pub struct RingBuffer {
    storage: Vec<u8>,
    read_at: usize,
    count: usize,
}

impl RingBuffer {
    /// Capacity: the size of the storage region, fixed at construction.
    pub closed spec fn cap(self) -> nat {
        self.storage@.len()
    }

    /// The count never exceeds the capacity, and the read cursor stays
    /// inside the storage region.
    pub closed spec fn wf(self) -> bool {
        &&& self.count <= self.storage@.len()
        &&& if self.storage@.len() == 0 {
            self.read_at == 0
        } else {
            self.read_at < self.storage@.len()
        }
    }

    /// The pending bytes, oldest first: `count` slots starting at the read
    /// cursor, wrapping at the capacity.
    pub closed spec fn pending(self) -> Seq<u8> {
        Seq::new(
            self.count as nat,
            |i: int| self.storage@[(self.read_at + i) % self.storage@.len() as int],
        )
    }

    /// A well-formed buffer never holds more pending bytes than its
    /// capacity.
    pub broadcast proof fn lemma_pending_le_cap(self)
        requires
            #[trigger] self.wf(),
        ensures
            self.pending().len() <= self.cap(),
    {
    }

    /// A fresh buffer of the given capacity, holding nothing.
    pub fn new(capacity: usize) -> (r: RingBuffer)
        ensures
            r.wf(),
            r.cap() == capacity,
            r.pending() == Seq::<u8>::empty(),
    {
        let mut storage: Vec<u8> = Vec::new();
        let mut i: usize = 0;
        while i < capacity
            invariant
                i <= capacity,
                storage@.len() == i,
            decreases capacity - i,
        {
            storage.push(0);
            i = i + 1;
        }
        let r = RingBuffer { storage, read_at: 0, count: 0 };
        proof {
            assert(r.pending() =~= Seq::<u8>::empty());
        }
        r
    }

    /// Number of bytes pending.
    pub fn available(&self) -> (n: usize)
        ensures
            n == self.pending().len(),
    {
        self.count
    }

    /// The fixed capacity.
    pub fn capacity(&self) -> (n: usize)
        ensures
            n == self.cap(),
    {
        self.storage.len()
    }

    /// Room left for the producer.
    pub fn free_space(&self) -> (n: usize)
        requires
            self.wf(),
        ensures
            n == self.cap() - self.pending().len(),
    {
        self.storage.len() - self.count
    }

    /// Appends as much of `bytes` as fits and reports how much that was.
    /// Never blocks; a full buffer accepts nothing.
    pub fn write(&mut self, bytes: &[u8]) -> (n: usize)
        requires
            old(self).wf(),
        ensures
            final(self).wf(),
            final(self).cap() == old(self).cap(),
            n == accept_count(
                bytes@.len() as int,
                old(self).pending().len() as int,
                old(self).cap() as int,
            ),
            final(self).pending() == ring_after_write(
                old(self).pending(),
                old(self).cap() as int,
                bytes@,
            ),
    {
        let cap = self.storage.len();
        let free = cap - self.count;
        let n = if bytes.len() <= free {
            bytes.len()
        } else {
            free
        };
        let ghost p0 = self.pending();
        if n == 0 {
            proof {
                assert(p0 + bytes@.take(0) =~= p0);
            }
            return 0;
        }
        let ghost start = self.read_at as int;
        let ghost pend0 = self.count as int;
        let mut w = if self.read_at >= cap - self.count {
            self.read_at - (cap - self.count)
        } else {
            self.read_at + self.count
        };
        proof {
            lemma_wrap_index(start, pend0, cap as int);
            assert forall|k: int| 0 <= k < pend0 implies self.storage@[(start + k) % (
            cap as int)] == p0[k] by {}
        }
        let mut i: usize = 0;
        while i < n
            invariant
                i <= n,
                n <= bytes@.len(),
                pend0 + n <= cap,
                cap == self.storage@.len(),
                0 < cap,
                self.read_at == start,
                0 <= start < cap,
                self.count == pend0,
                p0.len() == pend0,
                w == (start + pend0 + i) % (cap as int),
                w < cap,
                forall|k: int|
                    0 <= k < pend0 ==> self.storage@[(start + k) % (cap as int)] == p0[k],
                forall|k: int|
                    pend0 <= k < pend0 + i ==> #[trigger] self.storage@[(start + k) % (cap as int)]
                        == bytes@[k - pend0],
            decreases n - i,
        {
            self.storage.set(w, bytes[i]);
            proof {
                assert forall|k: int| 0 <= k < pend0 implies self.storage@[(start + k) % (
                cap as int)] == p0[k] by {
                    lemma_wrap_index_injective(start, k, pend0 + i, cap as int);
                }
                assert forall|k: int| pend0 <= k < pend0 + i + 1 implies #[trigger] self.storage@[(
                start + k) % (cap as int)] == bytes@[k - pend0] by {
                    if k < pend0 + i {
                        lemma_wrap_index_injective(start, k - pend0 + pend0, pend0 + i, cap as int);
                    } else {
                        assert(self.storage@[w as int] == bytes@[i as int]);
                    }
                }
            }
            i = i + 1;
            w = if w + 1 == cap {
                0
            } else {
                w + 1
            };
            proof {
                lemma_wrap_index(start, pend0 + i - 1, cap as int);
                lemma_wrap_index(start, pend0 + i, cap as int);
            }
        }
        self.count = self.count + n;
        proof {
            assert forall|k: int| 0 <= k < pend0 + n implies self.pending()[k] == ring_after_write(
                p0,
                cap as int,
                bytes@,
            )[k] by {
                assert(self.pending()[k] == self.storage@[(start + k) % (cap as int)]);
            }
            assert(self.pending() =~= ring_after_write(p0, cap as int, bytes@));
        }
        n
    }

    /// Copies out up to `max` of the oldest pending bytes, in arrival order,
    /// and advances past them. Never blocks; an empty buffer yields nothing.
    pub fn read(&mut self, max: usize) -> (out: Vec<u8>)
        requires
            old(self).wf(),
        ensures
            final(self).wf(),
            final(self).cap() == old(self).cap(),
            out@ == read_result(old(self).pending(), max as int),
            final(self).pending() == ring_after_read(old(self).pending(), max as int),
    {
        let n = if max <= self.count {
            max
        } else {
            self.count
        };
        let mut out: Vec<u8> = Vec::new();
        let ghost p0 = self.pending();
        if n == 0 {
            proof {
                assert(out@ =~= read_result(p0, max as int));
                assert(p0.skip(0) =~= p0);
            }
            return out;
        }
        let cap = self.storage.len();
        let ghost start = self.read_at as int;
        proof {
            lemma_small_mod(self.read_at as nat, cap as nat);
            assert forall|k: int| 0 <= k < p0.len() implies p0[k] == self.storage@[(start + k) % (
            cap as int)] by {}
        }
        let mut r = self.read_at;
        let mut i: usize = 0;
        while i < n
            invariant
                i <= n,
                n <= self.count,
                self.count <= cap,
                cap == self.storage@.len(),
                0 < cap,
                self.read_at == start,
                0 <= start < cap,
                p0.len() == self.count,
                r == (start + i) % (cap as int),
                r < cap,
                forall|k: int|
                    0 <= k < p0.len() ==> p0[k] == self.storage@[(start + k) % (cap as int)],
                out@.len() == i,
                out@ == p0.take(i as int),
            decreases n - i,
        {
            let b = self.storage[r];
            proof {
                assert(b == p0[i as int]);
                assert(out@.push(b) =~= p0.take(i + 1));
            }
            out.push(b);
            i = i + 1;
            r = if r + 1 == cap {
                0
            } else {
                r + 1
            };
            proof {
                lemma_wrap_index(start, i - 1, cap as int);
                lemma_wrap_index(start, i as int, cap as int);
            }
        }
        self.read_at = r;
        self.count = self.count - n;
        proof {
            assert forall|k: int| 0 <= k < p0.len() - n implies self.pending()[k] == p0.skip(
                n as int,
            )[k] by {
                lemma_add_mod_noop(start + n, k, cap as int);
                lemma_small_mod(k as nat, cap as nat);
                assert(self.pending()[k] == self.storage@[(r + k) % (cap as int)]);
                assert((start + n + k) % (cap as int) == (r + k) % (cap as int));
                assert(p0.skip(n as int)[k] == p0[k + n]);
                assert(p0[k + n] == self.storage@[(start + (k + n)) % (cap as int)]);
            }
            assert(self.pending() =~= p0.skip(n as int));
            assert(p0.skip(n as int) =~= ring_after_read(p0, max as int));
        }
        out
    }
}

} // verus!
