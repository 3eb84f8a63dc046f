//! An owned byte buffer bound to a range of physical addresses.

use vstd::prelude::*;

verus! {

/// A run of `len` zero bytes.
pub open spec fn zeros(len: int) -> Seq<u8> {
    Seq::new(len as nat, |i: int| 0u8)
}

/// A contiguous piece of memory: the bytes that lie at the addresses
/// `base .. base + data.len()`.
pub struct Region {
    base: usize,
    data: Vec<u8>,
}

impl Region {
    /// The region does not wrap around the end of the address space.
    pub open spec fn wf(&self) -> bool {
        0 <= self.spec_base() && self.spec_base() + self.bytes().len() <= usize::MAX
    }

    /// Lowest address of the region.
    pub closed spec fn spec_base(&self) -> int {
        self.base as int
    }

    /// The bytes of the region, lowest address first.
    pub closed spec fn bytes(&self) -> Seq<u8> {
        self.data@
    }

    /// Address one past the last byte of the region.
    pub open spec fn spec_end(&self) -> int {
        self.spec_base() + self.bytes().len()
    }

    /// Whether the `len` bytes starting at `addr` lie inside the region.
    pub open spec fn covers(&self, addr: int, len: int) -> bool {
        0 <= len && self.spec_base() <= addr && addr + len <= self.spec_end()
    }

    /// The byte that the region holds at address `addr`.
    pub open spec fn byte_at(&self, addr: int) -> u8
        recommends
            self.covers(addr, 1),
    {
        self.bytes()[addr - self.spec_base()]
    }

    /// The `len` bytes that the region holds from address `addr` on.
    pub open spec fn slice(&self, addr: int, len: int) -> Seq<u8>
        recommends
            self.covers(addr, len),
    {
        self.bytes().subrange(addr - self.spec_base(), addr - self.spec_base() + len)
    }

    /// A region of `len` zero bytes starting at address `base`.
    pub fn new(base: usize, len: usize) -> (r: Region)
        requires
            base + len <= usize::MAX,
        ensures
            r.wf(),
            r.spec_base() == base,
            r.bytes() == zeros(len as int),
    {
        let mut data: Vec<u8> = Vec::new();
        let mut i: usize = 0;
        while i < len
            invariant
                i <= len,
                data@ == zeros(i as int),
            decreases len - i,
        {
            data.push(0u8);
            i += 1;
            assert(data@ =~= zeros(i as int));
        }
        Region { base, data }
    }

    /// Lowest address of the region.
    pub fn base(&self) -> (a: usize)
        ensures
            a == self.spec_base(),
    {
        self.base
    }

    /// Number of bytes in the region.
    pub fn len(&self) -> (n: usize)
        ensures
            n == self.bytes().len(),
    {
        self.data.len()
    }

    /// Address one past the last byte of the region.
    pub fn end(&self) -> (a: usize)
        requires
            self.wf(),
        ensures
            a == self.spec_end(),
    {
        self.base + self.data.len()
    }

    /// Whether the `len` bytes starting at `addr` lie inside the region.
    pub fn contains(&self, addr: usize, len: usize) -> (b: bool)
        requires
            self.wf(),
        ensures
            b == self.covers(addr as int, len as int),
    {
        self.base <= addr && len <= self.data.len() && addr - self.base <= self.data.len() - len
    }

    /// Sets the `len` bytes starting at `addr` to zero and leaves every other
    /// byte as it was.
    pub fn zero(&mut self, addr: usize, len: usize)
        requires
            old(self).wf(),
            old(self).covers(addr as int, len as int),
        ensures
            final(self).wf(),
            final(self).spec_base() == old(self).spec_base(),
            final(self).bytes().len() == old(self).bytes().len(),
            final(self).slice(addr as int, len as int) == zeros(len as int),
            forall|k: int|
                0 <= k < old(self).bytes().len() && !(addr - old(self).spec_base() <= k < addr
                    - old(self).spec_base() + len) ==> final(self).bytes()[k] == old(self).bytes()[k],
    {
        let off: usize = addr - self.base;
        let total: usize = self.data.len();
        let mut i: usize = 0;
        while i < len
            invariant
                i <= len,
                off + len <= total,
                total == self.data@.len(),
                self.base == old(self).base,
                self.data@.len() == old(self).data@.len(),
                forall|k: int| off <= k < off + i ==> self.data@[k] == 0u8,
                forall|k: int|
                    0 <= k < self.data@.len() && !(off <= k < off + i) ==> self.data@[k] == old(
                        self,
                    ).data@[k],
            decreases len - i,
        {
            self.data.set(off + i, 0u8);
            i += 1;
        }
        assert(self.slice(addr as int, len as int) =~= zeros(len as int));
    }

    /// Copies `src` into the region from address `addr` on and leaves every
    /// other byte as it was.
    pub fn write(&mut self, addr: usize, src: &[u8])
        requires
            old(self).wf(),
            old(self).covers(addr as int, src@.len() as int),
        ensures
            final(self).wf(),
            final(self).spec_base() == old(self).spec_base(),
            final(self).bytes().len() == old(self).bytes().len(),
            final(self).slice(addr as int, src@.len() as int) == src@,
            forall|k: int|
                0 <= k < old(self).bytes().len() && !(addr - old(self).spec_base() <= k < addr
                    - old(self).spec_base() + src@.len()) ==> final(self).bytes()[k] == old(
                    self,
                ).bytes()[k],
    {
        let off: usize = addr - self.base;
        let len: usize = src.len();
        let total: usize = self.data.len();
        let mut i: usize = 0;
        while i < len
            invariant
                i <= len,
                len == src@.len(),
                off + len <= total,
                total == self.data@.len(),
                self.base == old(self).base,
                self.data@.len() == old(self).data@.len(),
                forall|k: int| off <= k < off + i ==> self.data@[k] == src@[k - off],
                forall|k: int|
                    0 <= k < self.data@.len() && !(off <= k < off + i) ==> self.data@[k] == old(
                        self,
                    ).data@[k],
            decreases len - i,
        {
            self.data.set(off + i, src[i]);
            i += 1;
        }
        assert(self.slice(addr as int, src@.len() as int) =~= src@);
    }

    /// A copy of the `len` bytes that the region holds from address `addr` on.
    pub fn read(&self, addr: usize, len: usize) -> (out: Vec<u8>)
        requires
            self.wf(),
            self.covers(addr as int, len as int),
        ensures
            out@ == self.slice(addr as int, len as int),
    {
        let off: usize = addr - self.base;
        let total: usize = self.data.len();
        let mut out: Vec<u8> = Vec::new();
        let mut i: usize = 0;
        while i < len
            invariant
                i <= len,
                off + len <= total,
                total == self.data@.len(),
                out@ == self.data@.subrange(off as int, off + i),
            decreases len - i,
        {
            out.push(self.data[off + i]);
            i += 1;
            assert(out@ =~= self.data@.subrange(off as int, off + i));
        }
        out
    }
}

} // verus!
