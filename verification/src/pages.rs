//! Blocks of physical pages backing user address spaces.
//!
//! A block is modeled as the bytes it holds; the physical placement of the
//! pages is the business of the page allocator underneath the kernel, and the
//! rest of the kernel addresses a page only by its position in the owning
//! address space.

use vstd::prelude::*;

verus! {

/// The size of one page, in bytes.
pub const PAGE_SIZE: usize = 4096;

/// A block of pages in user memory space, owned by exactly one `Memory`.
#[derive(Debug)]
pub struct UserPages {
    /// The number of pages in the block.
    pub count: usize,
    /// The contents of the block, `count * PAGE_SIZE` bytes.
    pub bytes: Vec<u8>,
}

impl View for UserPages {
    type V = Seq<u8>;

    open spec fn view(&self) -> Seq<u8> {
        self.bytes@
    }
}

impl UserPages {
    /// The block holds exactly one page's worth of bytes per page.
    pub open spec fn wf(self) -> bool {
        self.bytes@.len() == self.count * PAGE_SIZE
    }

    /// A new block of `count` pages; the allocator hands pages out zeroed.
    pub fn new(count: usize) -> (r: UserPages)
        requires
            count * PAGE_SIZE <= usize::MAX,
        ensures
            r.wf(),
            r.count == count,
            r@.len() == count * PAGE_SIZE,
            forall|i: int| 0 <= i < r@.len() ==> r@[i] == 0,
    {
        let total: usize = count * PAGE_SIZE;
        let mut bytes: Vec<u8> = Vec::new();
        let mut i: usize = 0;
        while i < total
            invariant
                i <= total,
                bytes@.len() == i,
                forall|j: int| 0 <= j < i ==> bytes@[j] == 0,
            decreases total - i,
        {
            bytes.push(0);
            i = i + 1;
        }
        UserPages { count, bytes }
    }

    /// A new block of pages initialized to zero.
    pub fn zeroed(count: usize) -> (r: UserPages)
        requires
            count * PAGE_SIZE <= usize::MAX,
        ensures
            r.wf(),
            r.count == count,
            r@.len() == count * PAGE_SIZE,
            forall|i: int| 0 <= i < r@.len() ==> r@[i] == 0,
    {
        UserPages::new(count)
    }

    /// A new block with the least page count that fits `size` bytes.
    pub fn with_capacity(size: usize) -> (r: UserPages)
        requires
            size + PAGE_SIZE <= usize::MAX,
        ensures
            r.wf(),
            r.count == (size + PAGE_SIZE - 1) / (PAGE_SIZE as int),
            size <= r@.len(),
            r@.len() < size + PAGE_SIZE,
            forall|i: int| 0 <= i < r@.len() ==> r@[i] == 0,
    {
        let count: usize = (size + PAGE_SIZE - 1) / PAGE_SIZE;  // Round up to nearest page
        proof {
            assert(count * PAGE_SIZE <= size + PAGE_SIZE - 1 && size <= count * PAGE_SIZE
                && count * PAGE_SIZE < size + PAGE_SIZE) by (nonlinear_arith)
                requires
                    count == (size + PAGE_SIZE - 1) / (PAGE_SIZE as int),
                    PAGE_SIZE == 4096,
                    size + PAGE_SIZE <= usize::MAX,
            ;
        }
        UserPages::new(count)
    }

    /// Clears the contents of the pages by writing zeros to them.
    pub fn clear(&mut self)
        ensures
            final(self).count == old(self).count,
            final(self)@.len() == old(self)@.len(),
            forall|i: int| 0 <= i < final(self)@.len() ==> final(self)@[i] == 0,
            old(self).wf() ==> final(self).wf(),
    {
        let n: usize = self.bytes.len();
        let mut i: usize = 0;
        while i < n
            invariant
                i <= n,
                self.bytes@.len() == n,
                self.count == old(self).count,
                forall|j: int| 0 <= j < i ==> self.bytes@[j] == 0,
            decreases n - i,
        {
            self.bytes.set(i, 0);
            i = i + 1;
        }
    }

    /// An empty block, holding no pages at all.
    pub fn empty() -> (r: UserPages)
        ensures
            r.wf(),
            r.count == 0,
            r@.len() == 0,
    {
        UserPages { count: 0, bytes: Vec::new() }
    }

    /// The number of pages in this block.
    pub fn len(&self) -> (r: usize)
        ensures
            r == self.count,
    {
        self.count
    }

    /// The size in bytes of the block.
    pub fn size(&self) -> (r: usize)
        requires
            self.wf(),
        ensures
            r == self@.len(),
            r == self.count * PAGE_SIZE,
    {
        self.bytes.len()
    }

    /// The byte offset of page `index` within the block, if it is in range.
    pub fn page(&self, index: usize) -> (r: Option<usize>)
        requires
            self.wf(),
        ensures
            index < self.count ==> r == Some((index * PAGE_SIZE) as usize),
            index >= self.count ==> r is None,
    {
        if index >= self.count {
            return None;
        }
        let total: usize = self.bytes.len();
        proof {
            assert(index * PAGE_SIZE < self.count * PAGE_SIZE) by (nonlinear_arith)
                requires
                    index < self.count,
                    PAGE_SIZE > 0,
            ;
            assert(self.count * PAGE_SIZE == total);
        }
        Some(index * PAGE_SIZE)
    }

    /// Reads the byte at offset `i`.
    pub fn read_byte(&self, i: usize) -> (r: u8)
        requires
            i < self@.len(),
        ensures
            r == self@[i as int],
    {
        self.bytes[i]
    }

    /// Writes the byte at offset `i`.
    pub fn write_byte(&mut self, i: usize, b: u8)
        requires
            i < old(self)@.len(),
        ensures
            final(self)@ == old(self)@.update(i as int, b),
            final(self).count == old(self).count,
    {
        self.bytes.set(i, b);
    }

    /// Copies `data` into the block starting at byte offset `offset`.
    pub fn write_bytes(&mut self, offset: usize, data: &[u8])
        requires
            offset + data@.len() <= old(self)@.len(),
        ensures
            final(self).count == old(self).count,
            final(self)@.len() == old(self)@.len(),
            forall|i: int|
                0 <= i < data@.len() ==> final(self)@[offset + i] == data@[i],
            forall|i: int|
                0 <= i < old(self)@.len() && !(offset <= i < offset + data@.len())
                    ==> final(self)@[i] == old(self)@[i],
    {
        let n: usize = data.len();
        let cap: usize = self.bytes.len();
        let mut i: usize = 0;
        while i < n
            invariant
                i <= n,
                n == data@.len(),
                offset + n <= cap,
                cap == self.bytes@.len(),
                self.count == old(self).count,
                self.bytes@.len() == old(self)@.len(),
                forall|j: int| 0 <= j < i ==> self.bytes@[offset + j] == data@[j],
                forall|j: int|
                    0 <= j < self.bytes@.len() && !(offset <= j < offset + i)
                        ==> self.bytes@[j] == old(self)@[j],
            decreases n - i,
        {
            self.bytes.set(offset + i, data[i]);
            i = i + 1;
        }
    }
}

} // verus!
