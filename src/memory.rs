use vstd::prelude::*;
use crate::scanner::le_i32;
use crate::scanner::i32_from_le;

verus! {

/// Size of one transfer when reading another process's memory.
pub const CHUNK_SIZE: usize = 4096;

/// Length of the transfer that starts at `offset` of a `size`-byte range.
pub open spec fn chunk_len(size: int, chunk: int, offset: int) -> int {
    if size - offset < chunk { size - offset } else { chunk }
}

/// Whether `n` transfers of `chunk` bytes are exactly what covers `size` bytes:
/// enough of them, and one fewer would not be.
pub open spec fn exact_cover(n: int, size: int, chunk: int) -> bool {
    &&& n * chunk >= size
    &&& (n == 0 || (n - 1) * chunk < size)
}

/// The `k`-th transfer of the plan: its offset and length.
pub open spec fn planned_chunk(size: int, chunk: int, k: int) -> (int, int) {
    (k * chunk, chunk_len(size, chunk, k * chunk))
}

/// Splits a `size`-byte range into transfers of at most `chunk` bytes, as
/// `(offset, length)` pairs in increasing order.
pub fn plan_chunks(size: usize, chunk: usize) -> (r: Vec<(usize, usize)>)
    requires
        chunk > 0,
    ensures
        exact_cover(r@.len() as int, size as int, chunk as int),
        forall|k: int| 0 <= k < r@.len() ==> {
            let (o, l) = #[trigger] r@[k];
            (o as int, l as int) == planned_chunk(size as int, chunk as int, k)
        },
{
    let mut r: Vec<(usize, usize)> = Vec::new();
    let mut offset: usize = 0;
    assert(0 * chunk == 0) by (nonlinear_arith);
    while offset < size
        invariant
            chunk > 0,
            offset <= size,
            offset < size ==> offset as int == r@.len() * chunk,
            offset == size ==> exact_cover(r@.len() as int, size as int, chunk as int),
            forall|k: int| 0 <= k < r@.len() ==> {
                let (o, l) = #[trigger] r@[k];
                (o as int, l as int) == planned_chunk(size as int, chunk as int, k)
            },
        decreases size - offset,
    {
        let len = if size - offset < chunk { size - offset } else { chunk };
        let ghost n = r@.len() as int;
        r.push((offset, len));
        offset = offset + len;
        proof {
            let c = chunk as int;
            assert((n + 1) * c == n * c + c) by (nonlinear_arith);
            assert(r@[n] == (((offset - len) as usize), len));
        }
    }
    r
}

/// Bytes that a transfer of `len` bytes contributes when it handed back
/// `got`: `got` itself when it succeeded, nothing when it failed, and zeros
/// for whatever it did not deliver.
pub open spec fn delivered(ok: bool, got: Seq<u8>, len: int) -> Seq<u8> {
    let kept = if ok { got } else { Seq::<u8>::empty() };
    kept + Seq::new((len - kept.len()) as nat, |i: int| 0u8)
}

/// Number of bytes a transfer actually delivered.
pub open spec fn delivered_count(ok: bool, got: Seq<u8>) -> int {
    if ok { got.len() as int } else { 0 }
}

/// A read of another process's memory, split into transfers of at most
/// `chunk` bytes. The caller performs each requested transfer and records
/// its outcome; a failed or short transfer leaves zeros in the buffer and
/// its missing range in `failed`, and the read moves on to the next chunk.
pub struct ChunkedRead {
    pub base: usize,
    pub size: usize,
    pub chunk: usize,
    /// Number of transfers recorded so far.
    pub requests: usize,
    /// Offset of the next transfer within the range.
    pub offset: usize,
    /// One byte per offset read so far; zero where the transfer failed.
    pub buffer: Vec<u8>,
    /// Ranges `(offset, length)` within the read that were not delivered.
    pub failed: Vec<(usize, usize)>,
}

impl ChunkedRead {
    pub open spec fn wf(&self) -> bool {
        &&& self.chunk > 0
        &&& self.base + self.size <= usize::MAX + 1
        &&& self.offset <= self.size
        &&& self.offset < self.size ==> self.offset as int == self.requests * self.chunk
        &&& self.offset == self.size ==> exact_cover(self.requests as int, self.size as int, self.chunk as int)
        &&& self.buffer@.len() == self.offset
        &&& forall|k: int| 0 <= k < self.failed@.len() ==> {
            let (o, l) = #[trigger] self.failed@[k];
            o + l <= self.offset && l > 0
        }
    }

    /// Starts a read of `size` bytes at address `base`.
    pub fn new(base: usize, size: usize, chunk: usize) -> (r: Self)
        requires
            chunk > 0,
            base + size <= usize::MAX + 1,
        ensures
            r.wf(),
            r.base == base && r.size == size && r.chunk == chunk,
            r.requests == 0 && r.offset == 0,
            r.buffer@.len() == 0 && r.failed@.len() == 0,
    {
        assert(0 * chunk == 0) by (nonlinear_arith);
        ChunkedRead { base, size, chunk, requests: 0, offset: 0, buffer: Vec::new(), failed: Vec::new() }
    }

    /// Whether every chunk has been recorded.
    pub fn is_done(&self) -> (r: bool)
        requires
            self.wf(),
        ensures
            r == (self.offset == self.size),
    {
        self.offset >= self.size
    }

    /// The next transfer to perform, as `(address, length)`; `None` once the
    /// whole range has been covered. It is always the next transfer of
    /// the plan that `plan_chunks` gives for the range.
    pub fn next_request(&self) -> (r: Option<(usize, usize)>)
        requires
            self.wf(),
        ensures
            r is None <==> self.offset == self.size,
            r matches Some((a, l)) ==> {
                &&& a == self.base + self.offset
                &&& l == chunk_len(self.size as int, self.chunk as int, self.offset as int)
                &&& (self.offset as int, l as int) == planned_chunk(self.size as int, self.chunk as int, self.requests as int)
            },
    {
        if self.offset >= self.size {
            return None;
        }
        let len = if self.size - self.offset < self.chunk { self.size - self.offset } else { self.chunk };
        Some((self.base + self.offset, len))
    }

    /// Records the outcome of the transfer that `next_request` asked for:
    /// whether it succeeded and the bytes it delivered.
    pub fn record(&mut self, ok: bool, got: &[u8])
        requires
            old(self).wf(),
            old(self).offset < old(self).size,
            got@.len() <= chunk_len(old(self).size as int, old(self).chunk as int, old(self).offset as int),
        ensures
            final(self).wf(),
            final(self).base == old(self).base,
            final(self).size == old(self).size,
            final(self).chunk == old(self).chunk,
            final(self).requests == old(self).requests + 1,
            final(self).offset == old(self).offset + chunk_len(old(self).size as int, old(self).chunk as int, old(self).offset as int),
            final(self).buffer@ == old(self).buffer@ + delivered(ok, got@, chunk_len(old(self).size as int, old(self).chunk as int, old(self).offset as int)),
            ({
                let len = chunk_len(old(self).size as int, old(self).chunk as int, old(self).offset as int);
                let n = delivered_count(ok, got@);
                if n < len {
                    final(self).failed@ == old(self).failed@.push(((old(self).offset + n) as usize, (len - n) as usize))
                } else {
                    final(self).failed@ == old(self).failed@
                }
            }),
    {
        let len = if self.size - self.offset < self.chunk { self.size - self.offset } else { self.chunk };
        let ghost old_buffer = self.buffer@;
        let n: usize = if ok { got.len() } else { 0 };
        assert(self.requests <= self.requests * self.chunk) by (nonlinear_arith)
            requires self.chunk > 0, self.requests >= 0;
        if ok {
            let mut i: usize = 0;
            while i < got.len()
                invariant
                    i <= got@.len(),
                    self.base == old(self).base,
                    self.size == old(self).size,
                    self.chunk == old(self).chunk,
                    self.requests == old(self).requests,
                    self.offset == old(self).offset,
                    self.failed == old(self).failed,
                    self.buffer@ == old_buffer + got@.subrange(0, i as int),
                decreases got@.len() - i,
            {
                self.buffer.push(got[i]);
                proof { assert(got@.subrange(0, i + 1) == got@.subrange(0, i as int).push(got@[i as int])); }
                i += 1;
            }
            assert(got@.subrange(0, got@.len() as int) == got@);
        }
        let ghost mid = self.buffer@;
        let mut z: usize = n;
        while z < len
            invariant
                n <= z <= len,
                self.base == old(self).base,
                self.size == old(self).size,
                self.chunk == old(self).chunk,
                self.requests == old(self).requests,
                self.offset == old(self).offset,
                self.failed == old(self).failed,
                self.buffer@ == mid + Seq::new((z - n) as nat, |i: int| 0u8),
            decreases len - z,
        {
            self.buffer.push(0u8);
            proof { assert(Seq::new((z + 1 - n) as nat, |i: int| 0u8) == Seq::new((z - n) as nat, |i: int| 0u8).push(0u8)); }
            z += 1;
        }
        if n < len {
            self.failed.push((self.offset + n, len - n));
        }
        proof {
            let c = self.chunk as int;
            let q = self.requests as int;
            assert((q + 1) * c == q * c + c) by (nonlinear_arith);
            assert(mid == old_buffer + (if ok { got@ } else { Seq::<u8>::empty() }));
            assert(self.buffer@ =~= old_buffer + delivered(ok, got@, len as int));
        }
        self.requests = self.requests + 1;
        self.offset = self.offset + len;
    }
}

/// The value of a 4-byte read: present only when the transfer succeeded and
/// delivered all four bytes.
pub fn i32_from_transfer(ok: bool, got: &[u8]) -> (r: Option<i32>)
    ensures
        r is Some <==> ok && got@.len() == 4,
        r matches Some(v) ==> v as int == le_i32(got@[0], got@[1], got@[2], got@[3]),
{
    if ok && got.len() == 4 {
        Some(i32_from_le(got[0], got[1], got[2], got[3]))
    } else {
        None
    }
}

/// Whether a 4-byte write took effect: the transfer succeeded and wrote the
/// full width.
pub fn write_complete(ok: bool, written: usize) -> (r: bool)
    ensures
        r == (ok && written == 4),
{
    ok && written == 4
}

} // verus!
