//! An address space: a page table, the physical page blocks backing it, and
//! the user-visible address range `[user_start, user_end)`.
//!
//! The mapped pages of an address space are, in order, the pages of its
//! blocks; `flat_bytes` is the byte contents the page table makes visible to
//! the owning process, and every contract below is stated against it.

use vstd::prelude::*;
use crate::page_table::{MapEntry, Mode, PageTable};
use crate::pages::{PAGE_SIZE, UserPages};

verus! {

/// The lowest user-space virtual address.
pub const USER_START: usize = 0xC000_0000;

/// The mode every user page is mapped with: read, write, execute, user.
pub open spec fn user_mode_bits() -> u8 {
    0x39
}

/// The number of pages held by a sequence of blocks.
pub open spec fn total_pages(s: Seq<UserPages>) -> nat
    decreases s.len(),
{
    if s.len() == 0 {
        0
    } else {
        total_pages(s.drop_last()) + s.last().count as nat
    }
}

/// The bytes of a sequence of blocks, concatenated in order.
pub open spec fn flat_bytes(s: Seq<UserPages>) -> Seq<u8>
    decreases s.len(),
{
    if s.len() == 0 {
        Seq::empty()
    } else {
        flat_bytes(s.drop_last()) + s.last()@
    }
}

/// Every block holds one page's worth of bytes per page.
pub open spec fn blocks_wf(s: Seq<UserPages>) -> bool {
    forall|i: int| 0 <= i < s.len() ==> s[i].wf()
}

/// Well-formed blocks hold exactly `total_pages * PAGE_SIZE` bytes.
pub proof fn lemma_flat_len(s: Seq<UserPages>)
    requires
        blocks_wf(s),
    ensures
        flat_bytes(s).len() == total_pages(s) * PAGE_SIZE,
    decreases s.len(),
{
    if s.len() == 0 {
    } else {
        assert(blocks_wf(s.drop_last()));
        lemma_flat_len(s.drop_last());
        assert(s.last().wf());
        assert((total_pages(s.drop_last()) + s.last().count) * PAGE_SIZE
            == total_pages(s.drop_last()) * PAGE_SIZE + s.last().count * PAGE_SIZE)
            by (nonlinear_arith);
    }
}

/// Appending a block appends its pages.
pub proof fn lemma_total_pages_push(s: Seq<UserPages>, b: UserPages)
    ensures
        total_pages(s.push(b)) == total_pages(s) + b.count,
        flat_bytes(s.push(b)) == flat_bytes(s) + b@,
{
    assert(s.push(b).drop_last() =~= s);
    assert(s.push(b).last() == b);
}

/// A prefix of the blocks holds a prefix of the pages.
pub proof fn lemma_take_succ(s: Seq<UserPages>, b: int)
    requires
        0 <= b < s.len(),
    ensures
        total_pages(s.take(b + 1)) == total_pages(s.take(b)) + s[b].count,
        flat_bytes(s.take(b + 1)) == flat_bytes(s.take(b)) + s[b]@,
{
    assert(s.take(b + 1).drop_last() =~= s.take(b));
    assert(s.take(b + 1).last() == s[b]);
}

/// Taking all blocks is the identity.
pub proof fn lemma_take_all(s: Seq<UserPages>)
    ensures
        total_pages(s.take(s.len() as int)) == total_pages(s),
        flat_bytes(s.take(s.len() as int)) == flat_bytes(s),
{
    assert(s.take(s.len() as int) =~= s);
}

/// Where byte `i` of block `b` lands in the flattened contents.
pub proof fn lemma_flat_index(s: Seq<UserPages>, b: int, i: int)
    requires
        0 <= b < s.len(),
        0 <= i < s[b]@.len(),
    ensures
        flat_bytes(s.take(b)).len() + i < flat_bytes(s).len(),
        flat_bytes(s)[flat_bytes(s.take(b)).len() + i] == s[b]@[i],
    decreases s.len(),
{
    if b == s.len() - 1 {
        assert(s.take(b) =~= s.drop_last());
    } else {
        lemma_flat_index(s.drop_last(), b, i);
        assert(s.drop_last().take(b) =~= s.take(b));
        assert(s.drop_last()[b] == s[b]);
    }
}

/// Updating one byte of one block updates the matching byte of the
/// flattened contents and nothing else.
pub proof fn lemma_flat_update(s1: Seq<UserPages>, s2: Seq<UserPages>, b: int, i: int)
    requires
        s1.len() == s2.len(),
        0 <= b < s1.len(),
        forall|j: int| 0 <= j < s1.len() && j != b ==> s1[j] == s2[j],
        s2[b].count == s1[b].count,
        0 <= i < s1[b]@.len(),
        s2[b]@ == s1[b]@.update(i, s2[b]@[i]),
    ensures
        total_pages(s2) == total_pages(s1),
        flat_bytes(s2) == flat_bytes(s1).update(flat_bytes(s1.take(b)).len() + i, s2[b]@[i]),
    decreases s1.len(),
{
    let byte = s2[b]@[i];
    lemma_flat_index(s1, b, i);
    if b == s1.len() - 1 {
        assert(s1.drop_last() =~= s2.drop_last());
        assert(s1.take(b) =~= s1.drop_last());
        assert(flat_bytes(s2) =~= flat_bytes(s1).update(
            flat_bytes(s1.take(b)).len() + i,
            byte,
        ));
        assert(total_pages(s2) == total_pages(s1));
    } else {
        assert(s2.drop_last()[b] == s2[b]);
        assert(forall|j: int|
            0 <= j < s1.drop_last().len() && j != b ==> s1.drop_last()[j] == s2.drop_last()[j]);
        lemma_flat_update(s1.drop_last(), s2.drop_last(), b, i);
        assert(s1.drop_last().take(b) =~= s1.take(b));
        assert(s2.last() == s1.last());
        lemma_flat_index(s1.drop_last(), b, i);
        assert(flat_bytes(s2) =~= flat_bytes(s1).update(
            flat_bytes(s1.take(b)).len() + i,
            byte,
        ));
    }
}

/// An address space.  `user_end` only grows, and every mapped page lies
/// within `[user_start, user_end)`.
#[derive(Debug)]
pub struct Memory {
    pub page_table: PageTable,
    pub pages: Vec<UserPages>,
    pub user_start: usize,
    pub user_end: usize,
}

impl Memory {
    /// The internal invariant: the user range covers exactly the owned
    /// pages, and the page table maps the `k`-th user page to the `k`-th
    /// owned page, read/write/execute/user, and nothing else.
    pub open spec fn wf(self) -> bool {
        &&& self.user_start == USER_START
        &&& blocks_wf(self.pages@)
        &&& self.user_end == self.user_start + total_pages(self.pages@) * PAGE_SIZE
        &&& self.user_end <= usize::MAX
        &&& forall|k: int|
            0 <= k < total_pages(self.pages@)
                ==> #[trigger] self.page_table@.contains_pair(
                (self.user_start + k * PAGE_SIZE) as usize,
                (MapEntry { phys: k as usize, mode: (Mode { bits: user_mode_bits() }) }),
            )
        &&& forall|v: usize|
            self.page_table@.dom().contains(v)
                ==> self.user_start <= v < self.user_end && (v - self.user_start) % (
            PAGE_SIZE as int) == 0
    }

    /// The bytes the address space maps, in virtual-address order.
    pub open spec fn mapped_bytes(self) -> Seq<u8> {
        flat_bytes(self.pages@)
    }

    /// An empty address space: no user pages, kernel mappings only.
    pub fn new() -> (m: Memory)
        ensures
            m.wf(),
            m.user_start == USER_START,
            m.user_end == USER_START,
            m.pages@.len() == 0,
            m.mapped_bytes() == Seq::<u8>::empty(),
    {
        Memory {
            page_table: PageTable::new_kernel_mapped(),
            pages: Vec::new(),
            user_start: USER_START,
            user_end: USER_START,
        }
    }

    /// Extends the mapped range with the supplied pages, advancing
    /// `user_end` by one page per page supplied.  Pages are mapped as they
    /// come: callers must pre-zero them if zero-initialization is required.
    pub fn grow(&mut self, pages: UserPages)
        requires
            old(self).wf(),
            pages.wf(),
            old(self).user_end + pages.count * PAGE_SIZE <= usize::MAX,
        ensures
            final(self).wf(),
            final(self).user_start == old(self).user_start,
            final(self).user_end == old(self).user_end + pages.count * PAGE_SIZE,
            final(self).pages@ == old(self).pages@.push(pages),
            final(self).mapped_bytes() == old(self).mapped_bytes() + pages@,
            forall|i: int|
                0 <= i < pages.count
                    ==> #[trigger] final(self).page_table@.contains_pair(
                    (old(self).user_end + i * PAGE_SIZE) as usize,
                    (MapEntry {
                        phys: (total_pages(old(self).pages@) + i) as usize,
                        mode: (Mode { bits: user_mode_bits() }),
                    }),
                ),
            forall|v: usize|
                old(self).page_table@.dom().contains(v)
                    ==> final(self).page_table@.contains_pair(v, old(self).page_table@[v]),
    {
        let count: usize = pages.len();
        proof {
            lemma_flat_len(old(self).pages@);
            assert(count * PAGE_SIZE <= usize::MAX);
        }
        let base_phys: usize = (self.user_end - self.user_start) / PAGE_SIZE;
        proof {
            let ghost t = total_pages(old(self).pages@);
            assert(t * PAGE_SIZE / (PAGE_SIZE as int) == t) by (nonlinear_arith);
            assert(base_phys == total_pages(old(self).pages@));
        }
        let mut i: usize = 0;
        while i < count
            invariant
                i <= count,
                self.pages == old(self).pages,
                self.user_start == old(self).user_start,
                self.user_end == old(self).user_end + i * PAGE_SIZE,
                old(self).user_end + count * PAGE_SIZE <= usize::MAX,
                base_phys == total_pages(old(self).pages@),
                base_phys + count <= usize::MAX,
                old(self).wf(),
                self.user_end % PAGE_SIZE == 0,
                forall|v: usize|
                    old(self).page_table@.dom().contains(v)
                        ==> self.page_table@.contains_pair(v, old(self).page_table@[v]),
                forall|j: int|
                    0 <= j < i
                        ==> #[trigger] self.page_table@.contains_pair(
                        (old(self).user_end + j * PAGE_SIZE) as usize,
                        (MapEntry {
                            phys: (base_phys + j) as usize,
                            mode: (Mode { bits: user_mode_bits() }),
                        }),
                    ),
                forall|v: usize|
                    self.page_table@.dom().contains(v)
                        ==> old(self).user_start <= v < self.user_end && (v - old(
                        self,
                    ).user_start) % (PAGE_SIZE as int) == 0,
            decreases count - i,
        {
            proof {
                assert((i + 1) * PAGE_SIZE == i * PAGE_SIZE + PAGE_SIZE) by (nonlinear_arith);
                assert(i * PAGE_SIZE <= count * PAGE_SIZE && (i + 1) * PAGE_SIZE <= count
                    * PAGE_SIZE) by (nonlinear_arith)
                    requires
                        0 <= i < count,
                ;
            }
            let ghost prev_table = self.page_table@;
            let ghost virt_i = self.user_end;
            self.page_table.map(self.user_end, base_phys + i, Mode::rwxu());
            self.user_end = self.user_end + PAGE_SIZE;
            proof {
                assert forall|j: int| 0 <= j < i + 1 implies #[trigger] self
                    .page_table@.contains_pair(
                    (old(self).user_end + j * PAGE_SIZE) as usize,
                    (MapEntry {
                        phys: (base_phys + j) as usize,
                        mode: (Mode { bits: user_mode_bits() }),
                    }),
                ) by {
                    assert(j * PAGE_SIZE <= i * PAGE_SIZE);
                    if j < i {
                        assert(prev_table.contains_pair(
                            (old(self).user_end + j * PAGE_SIZE) as usize,
                            (MapEntry {
                                phys: (base_phys + j) as usize,
                                mode: (Mode { bits: user_mode_bits() }),
                            }),
                        ));
                        assert((old(self).user_end + j * PAGE_SIZE) as usize != virt_i);
                    } else {
                        assert((old(self).user_end + j * PAGE_SIZE) as usize == virt_i);
                    }
                }
            }
            i = i + 1;
        }
        self.pages.push(pages);
        proof {
            lemma_total_pages_push(old(self).pages@, pages);
            lemma_flat_len(old(self).pages@);
            let ghost t = total_pages(old(self).pages@);
            let ghost c = pages.count as nat;
            assert((t + c) * PAGE_SIZE == t * PAGE_SIZE + c * PAGE_SIZE) by (nonlinear_arith);
            assert forall|k: int| 0 <= k < total_pages(self.pages@) implies #[trigger] self
                .page_table@.contains_pair(
                (self.user_start + k * PAGE_SIZE) as usize,
                (MapEntry { phys: k as usize, mode: (Mode { bits: user_mode_bits() }) }),
            ) by {
                let us = self.user_start;
                let ue = old(self).user_end as int;
                assert(k * PAGE_SIZE <= (t + c) * PAGE_SIZE) by (nonlinear_arith)
                    requires
                        0 <= k <= t + c,
                ;
                if k < t {
                    assert(old(self).page_table@.contains_pair(
                        (old(self).user_start + k * PAGE_SIZE) as usize,
                        (MapEntry { phys: k as usize, mode: (Mode { bits: user_mode_bits() }) }),
                    ));
                    let v = (old(self).user_start + k * PAGE_SIZE) as usize;
                    assert(self.page_table@.contains_pair(v, old(self).page_table@[v]));
                } else {
                    let j = k - t;
                    assert(0 <= j < c);
                    assert(self.page_table@.contains_pair(
                        (old(self).user_end + j * PAGE_SIZE) as usize,
                        (MapEntry {
                            phys: (base_phys + j) as usize,
                            mode: (Mode { bits: user_mode_bits() }),
                        }),
                    ));
                    assert(ue + j * PAGE_SIZE == us + k * PAGE_SIZE) by (nonlinear_arith)
                        requires
                            ue == us + t * PAGE_SIZE,
                            j == k - t,
                    ;
                    assert((old(self).user_end + j * PAGE_SIZE) as usize == (self.user_start + k
                        * PAGE_SIZE) as usize);
                    assert((base_phys + j) as usize == k as usize);
                }
            }
        }
    }

    /// The full mapped contents, copied out in virtual-address order.
    fn flatten(&self) -> (v: Vec<u8>)
        requires
            blocks_wf(self.pages@),
        ensures
            v@ == flat_bytes(self.pages@),
    {
        let mut out: Vec<u8> = Vec::new();
        let n: usize = self.pages.len();
        let mut b: usize = 0;
        proof {
            assert(flat_bytes(self.pages@.take(0)) =~= Seq::<u8>::empty());
        }
        while b < n
            invariant
                b <= n,
                n == self.pages@.len(),
                blocks_wf(self.pages@),
                out@ == flat_bytes(self.pages@.take(b as int)),
            decreases n - b,
        {
            let blk_len: usize = self.pages[b].size();
            let mut i: usize = 0;
            while i < blk_len
                invariant
                    i <= blk_len,
                    b < n,
                    n == self.pages@.len(),
                    blocks_wf(self.pages@),
                    blk_len == self.pages@[b as int]@.len(),
                    out@ == flat_bytes(self.pages@.take(b as int)) + self.pages@[b as int]@.take(
                        i as int),
                decreases blk_len - i,
            {
                let byte: u8 = self.pages[b].read_byte(i);
                out.push(byte);
                proof {
                    assert(self.pages@[b as int]@.take(i + 1) =~= self.pages@[b as int]@.take(
                        i as int).push(byte));
                }
                i = i + 1;
            }
            proof {
                lemma_take_succ(self.pages@, b as int);
                assert(self.pages@[b as int]@.take(blk_len as int) =~= self.pages@[b as int]@);
            }
            b = b + 1;
        }
        proof {
            lemma_take_all(self.pages@);
        }
        out
    }

    /// An address space holding a copy of a program image: enough pages for
    /// the image, the image copied in, the tail of the last page zeroed.
    pub fn from_image(data: &[u8]) -> (m: Memory)
        requires
            USER_START + data@.len() + PAGE_SIZE <= usize::MAX,
        ensures
            m.wf(),
            m.user_start == USER_START,
            data@.len() <= m.mapped_bytes().len() < data@.len() + PAGE_SIZE,
            m.user_end == USER_START + m.mapped_bytes().len(),
            m.mapped_bytes().subrange(0, data@.len() as int) == data@,
            forall|i: int|
                data@.len() <= i < m.mapped_bytes().len() ==> m.mapped_bytes()[i] == 0,
    {
        let mut pages = UserPages::with_capacity(data.len());
        pages.write_bytes(0, data);
        let mut m = Memory::new();
        proof {
            lemma_flat_len(m.pages@);
        }
        m.grow(pages);
        proof {
            lemma_flat_len(m.pages@);
            assert(m.mapped_bytes() =~= pages@);
            assert(m.mapped_bytes().subrange(0, data@.len() as int) =~= data@);
        }
        m
    }

    /// Duplicates the address space: every owned page is copied byte for
    /// byte into freshly allocated pages, and an independent page table is
    /// built over them at the same virtual layout.  This is a full copy, not
    /// copy-on-write: later writes to either address space are never seen by
    /// the other.
    pub fn clone(&self) -> (r: Memory)
        requires
            self.wf(),
        ensures
            r.wf(),
            r.user_start == self.user_start,
            r.user_end == self.user_end,
            r.mapped_bytes() == self.mapped_bytes(),
    {
        proof {
            lemma_flat_len(self.pages@);
        }
        let flat = self.flatten();
        let count: usize = (self.user_end - self.user_start) / PAGE_SIZE;
        proof {
            let ghost t = total_pages(self.pages@);
            assert(t * PAGE_SIZE / (PAGE_SIZE as int) == t) by (nonlinear_arith);
            assert(count == t);
        }
        let flat_len: usize = flat.len();
        let mut pages = UserPages::new(count);
        pages.write_bytes(0, flat.as_slice());
        proof {
            assert(pages@ =~= flat@);
        }
        let mut m = Memory::new();
        proof {
            lemma_flat_len(m.pages@);
        }
        m.grow(pages);
        proof {
            assert(m.mapped_bytes() =~= self.mapped_bytes());
        }
        m
    }

    /// Writes one byte of the mapped contents, at flat offset `off`.
    fn write_flat_byte(&mut self, off: usize, byte: u8)
        requires
            old(self).wf(),
            off < old(self).mapped_bytes().len(),
        ensures
            final(self).wf(),
            final(self).page_table == old(self).page_table,
            final(self).user_start == old(self).user_start,
            final(self).user_end == old(self).user_end,
            final(self).pages@.len() == old(self).pages@.len(),
            final(self).mapped_bytes() == old(self).mapped_bytes().update(off as int, byte),
    {
        let n: usize = self.pages.len();
        let mut b: usize = 0;
        let mut cum: usize = 0;
        proof {
            assert(flat_bytes(self.pages@.take(0)) =~= Seq::<u8>::empty());
        }
        loop
            invariant
                b < n,
                n == self.pages@.len(),
                *self == *old(self),
                old(self).wf(),
                off < old(self).mapped_bytes().len(),
                cum == flat_bytes(self.pages@.take(b as int)).len(),
                cum <= off,
            decreases n - b,
        {
            let sz: usize = self.pages[b].bytes.len();
            proof {
                lemma_take_succ(self.pages@, b as int);
            }
            if off - cum < sz {
                let ghost s1 = self.pages@;
                let blk = &mut self.pages[b];
                blk.write_byte(off - cum, byte);
                proof {
                    lemma_flat_update(s1, self.pages@, b as int, (off - cum) as int);
                }
                return;
            }
            cum = cum + sz;
            b = b + 1;
            proof {
                if b == n {
                    lemma_take_all(self.pages@);
                    assert(false);
                }
            }
        }
    }

    /// Bounds-checked write of `data` into user memory starting at the
    /// user-space address `ptr`: any range outside `[user_start, user_end)`
    /// is rejected and the address space is left unchanged.
    pub fn slice_mut(&mut self, ptr: usize, data: &[u8]) -> (r: Result<(), ()>)
        requires
            old(self).wf(),
        ensures
            r is Ok <==> old(self).user_start <= ptr && ptr + data@.len() <= old(self).user_end,
            final(self).wf(),
            final(self).page_table == old(self).page_table,
            final(self).user_start == old(self).user_start,
            final(self).user_end == old(self).user_end,
            final(self).mapped_bytes().len() == old(self).mapped_bytes().len(),
            r is Ok ==> forall|i: int|
                0 <= i < data@.len() ==> final(self).mapped_bytes()[ptr - old(self).user_start
                    + i] == data@[i],
            forall|i: int|
                0 <= i < old(self).mapped_bytes().len() && !(ptr - old(self).user_start <= i
                    < ptr - old(self).user_start + data@.len())
                    ==> final(self).mapped_bytes()[i] == old(self).mapped_bytes()[i],
            r is Err ==> final(self).mapped_bytes() == old(self).mapped_bytes(),
    {
        let len: usize = data.len();
        if ptr < self.user_start || ptr > self.user_end || len > self.user_end - ptr {
            return Err(());
        }
        proof {
            lemma_flat_len(self.pages@);
        }
        let start: usize = ptr - self.user_start;
        let mut i: usize = 0;
        while i < len
            invariant
                i <= len,
                len == data@.len(),
                start == ptr - old(self).user_start,
                start + len <= old(self).mapped_bytes().len(),
                old(self).mapped_bytes().len() == old(self).user_end - old(self).user_start,
                self.wf(),
                self.page_table == old(self).page_table,
                self.user_start == old(self).user_start,
                self.user_end == old(self).user_end,
                self.pages@.len() == old(self).pages@.len(),
                self.mapped_bytes().len() == old(self).mapped_bytes().len(),
                forall|j: int| 0 <= j < i ==> self.mapped_bytes()[start + j] == data@[j],
                forall|j: int|
                    0 <= j < old(self).mapped_bytes().len() && !(start <= j < start + i)
                        ==> self.mapped_bytes()[j] == old(self).mapped_bytes()[j],
            decreases len - i,
        {
            self.write_flat_byte(start + i, data[i]);
            i = i + 1;
        }
        Ok(())
    }

    /// Bounds-checked read of `len` bytes of user memory starting at the
    /// user-space address `ptr`: any range outside `[user_start, user_end)`
    /// is rejected.
    pub fn slice(&self, ptr: usize, len: usize) -> (r: Result<Vec<u8>, ()>)
        requires
            self.wf(),
        ensures
            r is Ok <==> self.user_start <= ptr && ptr + len <= self.user_end,
            r matches Ok(v) ==> v@ == self.mapped_bytes().subrange(
                ptr - self.user_start,
                ptr - self.user_start + len,
            ),
    {
        if ptr < self.user_start || ptr > self.user_end || len > self.user_end - ptr {
            return Err(());
        }
        proof {
            lemma_flat_len(self.pages@);
        }
        let flat = self.flatten();
        let flat_len: usize = flat.len();
        let start: usize = ptr - self.user_start;
        let mut out: Vec<u8> = Vec::new();
        let mut i: usize = 0;
        while i < len
            invariant
                i <= len,
                flat_len == flat@.len(),
                start + len <= flat_len,
                out@ == flat@.subrange(start as int, start + i),
            decreases len - i,
        {
            out.push(flat[start + i]);
            proof {
                assert(flat@.subrange(start as int, start + i + 1) =~= flat@.subrange(
                    start as int,
                    start + i,
                ).push(flat@[start + i]));
            }
            i = i + 1;
        }
        Ok(out)
    }
}


impl Default for Memory {
    /// The default address space is an empty one.
    fn default() -> (m: Memory)
        ensures
            m.wf(),
            m.user_start == USER_START,
            m.user_end == USER_START,
            m.mapped_bytes() == Seq::<u8>::empty(),
    {
        Memory::new()
    }
}

} // verus!
