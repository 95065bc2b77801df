//! The bump allocators of the later stages: memory is handed out from a fixed range
//! and never given back.
use vstd::prelude::*;
use crate::layout::{BZ_HEAP_END, BZ_HEAP_START, HEAP_END, HEAP_START};

verus! {

/// The global allocator: the next free address and the end of the heap.
pub struct Alloc {
    head: usize,
    end: usize,
}

/// Where an allocation aligned to `align` starts when the heap is free from `head`.
pub open spec fn aligned_start(head: int, align: int) -> int {
    if head % align == 0 {
        head
    } else {
        head + align - head % align
    }
}

impl Alloc {
    pub closed spec fn spec_head(&self) -> usize {
        self.head
    }

    pub closed spec fn spec_end(&self) -> usize {
        self.end
    }

    /// The allocator over the heap of the fourth stage.
    pub fn new() -> (r: Self)
        ensures
            r.spec_head() == HEAP_START,
            r.spec_end() == HEAP_END,
    {
        Alloc { head: HEAP_START as usize, end: HEAP_END as usize }
    }

    /// Hand out the next address aligned to `align`, moving the free address `align`
    /// bytes past it (the size asked for is not looked at); `None` when that would
    /// pass the end of the heap.
    pub fn allocate(&mut self, size: usize, align: usize) -> (r: Option<usize>)
        requires
            align > 0,
            old(self).spec_head() + 2 * align <= usize::MAX,
        ensures
            final(self).spec_end() == old(self).spec_end(),
            ({
                let start = aligned_start(old(self).spec_head() as int, align as int);
                if start + align > old(self).spec_end() {
                    r is None && final(self).spec_head() == old(self).spec_head()
                } else {
                    r == Some(start as usize) && final(self).spec_head() == start + align
                }
            }),
    {
        let head = self.head;
        let res = head % align;
        let start = if res == 0 {
            head
        } else {
            head + align - res
        };
        if start + align > self.end {
            None
        } else {
            self.head = start + align;
            Some(start)
        }
    }

    /// Memory is never given back.
    pub fn dealloc(&self, _ptr: usize, _size: usize, _align: usize) {
    }
}

/// Law: an address that `allocate` hands out is aligned as asked, lies at or after the
/// previous free address, and the block of `align` bytes at it ends within the heap.
pub proof fn lemma_alloc_aligned(head: int, align: int, end: int)
    requires
        head >= 0,
        align > 0,
        aligned_start(head, align) + align <= end,
    ensures
        aligned_start(head, align) % align == 0,
        head <= aligned_start(head, align) < head + align,
{
    let r = head % align;
    assert(0 <= r < align) by (nonlinear_arith)
        requires
            r == head % align,
            align > 0,
    ;
    if r != 0 {
        assert((head + align - r) % align == 0) by (nonlinear_arith)
            requires
                r == head % align,
                align > 0,
        ;
    }
}

/// The allocator behind `malloc` for the decompressor: the next free address.
pub struct Heap {
    cur: usize,
}

impl Heap {
    pub closed spec fn spec_cur(&self) -> usize {
        self.cur
    }

    /// The heap from its start.
    pub fn new() -> (r: Self)
        ensures
            r.spec_cur() == BZ_HEAP_START,
    {
        Heap { cur: BZ_HEAP_START as usize }
    }

    /// Hand out `size` bytes at the next free address; `None` when they would pass the
    /// end of the heap.
    pub fn malloc(&mut self, size: usize) -> (r: Option<usize>)
        requires
            size + old(self).spec_cur() <= usize::MAX,
        ensures
            size + old(self).spec_cur() > BZ_HEAP_END ==> r is None && final(self).spec_cur()
                == old(self).spec_cur(),
            size + old(self).spec_cur() <= BZ_HEAP_END ==> r == Some(old(self).spec_cur())
                && final(self).spec_cur() == old(self).spec_cur() + size,
    {
        if size + self.cur > BZ_HEAP_END as usize {
            return None;
        }
        let p = self.cur;
        self.cur = self.cur + size;
        Some(p)
    }

    /// Memory is never given back.
    pub fn free(&self, _ptr: usize) {
    }
}

} // verus!
