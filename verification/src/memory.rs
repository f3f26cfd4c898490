//! Access to the memory of another process.
//!
//! The pages that hold the wanted bytes are looked up in the page table of that
//! process, mapped side by side into a window of the current address space, used
//! there, and unmapped again. The library says which pages to look up and what to
//! do with what was found; the kernel walks and changes the page tables.

use crate::error::{Error, EFAULT};
use vstd::arithmetic::div_mod::{
    lemma_div_is_ordered, lemma_fundamental_div_mod, lemma_hoist_over_denominator,
};
use vstd::prelude::*;

verus! {

/// What the machine and the layout of the address space fix.
#[derive(Clone, Copy, Debug, PartialEq, Eq, Structural)]
pub struct Paging {
    /// The size of a page in bytes.
    pub page_size: usize,
    /// An address in the page at which the window begins.
    pub window: usize,
    /// The entry flag that forbids execution.
    pub no_execute: u64,
    /// The entry flag that allows writing.
    pub writable: u64,
}

impl Paging {
    /// The page that holds an address.
    pub open spec fn page_of(self, address: int) -> int {
        address / self.page_size as int
    }

    /// The first page of the window.
    pub open spec fn window_page(self) -> int {
        self.page_of(self.window as int)
    }

    /// How many pages hold the bytes from `offset` up to `offset + len - 1`.
    pub open spec fn page_count(self, offset: usize, len: usize) -> int {
        self.page_of(offset + len - 1) - self.page_of(offset as int) + 1
    }

    /// The bytes have addresses.
    pub open spec fn addressable(self, offset: usize, len: usize) -> bool {
        &&& self.page_size > 0
        &&& 1 <= offset + len <= usize::MAX
    }

    /// The window has room for the bytes.
    pub open spec fn has_room(self, offset: usize, len: usize) -> bool {
        &&& self.window_page() + self.page_count(offset, len) <= usize::MAX
        &&& self.window_address(offset) <= usize::MAX
    }

    /// The pages that hold the bytes, in order.
    pub open spec fn pages(self, offset: usize, len: usize) -> Seq<usize> {
        Seq::new(
            self.page_count(offset, len) as nat,
            |i: int| (self.page_of(offset as int) + i) as usize,
        )
    }

    /// Where the byte at `offset` appears in the window.
    pub open spec fn window_address(self, offset: usize) -> int {
        self.window_page() * self.page_size + offset as int % self.page_size as int
    }
}

/// There are no fewer than zero pages.
proof fn lemma_page_count(paging: Paging, offset: usize, len: usize)
    requires
        paging.addressable(offset, len),
    ensures
        paging.page_count(offset, len) >= 0,
{
    let size = paging.page_size as int;
    lemma_hoist_over_denominator(offset as int, -1, size as nat);
    assert(offset + -1 * size == offset - size);
    lemma_div_is_ordered(offset - size, offset + len - 1, size);
}

/// The pages that have to be looked up for an access to the bytes from `offset`
/// up to `offset + len - 1`.
pub fn context_pages(paging: &Paging, offset: usize, len: usize) -> (pages: Vec<usize>)
    requires
        paging.addressable(offset, len),
    ensures
        pages@ == paging.pages(offset, len),
{
    proof {
        lemma_page_count(*paging, offset, len);
    }
    let start = offset / paging.page_size;
    let end = (offset + len - 1) / paging.page_size;
    assert(end <= offset + len - 1) by (nonlinear_arith)
        requires
            end == (offset + len - 1) / paging.page_size as int,
            paging.page_size > 0,
            offset + len - 1 >= 0,
    ;
    let mut pages: Vec<usize> = Vec::new();
    let mut page: usize = start;
    while page <= end
        invariant
            start <= page <= end + 1,
            end < usize::MAX,
            pages@ == Seq::new((page - start) as nat, |i: int| (start + i) as usize),
        decreases end + 1 - page,
    {
        pages.push(page);
        page += 1;
    }
    pages
}

/// What the page table of the other process says of one page.
#[derive(Clone, Copy, Debug, PartialEq, Eq, Structural)]
pub struct PageLookup {
    /// The frame that the page is mapped to, if it is mapped.
    pub frame: Option<usize>,
    /// The flags of its entry, if it has one.
    pub flags: Option<u64>,
}

impl PageLookup {
    /// The page can be mapped elsewhere.
    pub open spec fn found(self) -> bool {
        self.frame is Some && self.flags is Some
    }
}

/// One thing that the kernel does in the current address space.
#[derive(Clone, Copy, Debug, PartialEq, Eq, Structural)]
pub enum MemoryAction {
    /// Map the page to the frame, with these entry flags.
    MapPage { page: usize, frame: usize, flags: u64 },
    /// Let all changes take effect.
    Flush,
    /// Use the memory, which begins at this address.
    Access { address: usize },
    /// Unmap the page, without freeing the frame.
    UnmapPage { page: usize },
}

/// Maps the frames side by side into the window, writable and not executable.
pub open spec fn map_actions(paging: Paging, lookups: Seq<PageLookup>) -> Seq<MemoryAction> {
    Seq::new(
        lookups.len(),
        |i: int|
            MemoryAction::MapPage {
                page: (paging.window_page() + i) as usize,
                frame: lookups[i].frame->0,
                flags: lookups[i].flags->0 | (paging.no_execute | paging.writable),
            },
    )
}

/// Unmaps the first `count` pages of the window.
pub open spec fn unmap_actions(paging: Paging, count: nat) -> Seq<MemoryAction> {
    Seq::new(
        count,
        |i: int| MemoryAction::UnmapPage { page: (paging.window_page() + i) as usize },
    )
}

/// The whole access: map, use, unmap.
pub open spec fn access_script(paging: Paging, offset: usize, lookups: Seq<PageLookup>) -> Seq<
    MemoryAction,
> {
    map_actions(paging, lookups).push(MemoryAction::Flush).push(
        MemoryAction::Access { address: paging.window_address(offset) as usize },
    ) + unmap_actions(paging, lookups.len()).push(MemoryAction::Flush)
}

/// Plans an access to the bytes from `offset` up to `offset + len - 1` of another
/// process, given what was found for each of the pages that `context_pages`
/// names. Returns what the kernel has to do, in order; whatever the access
/// itself results in, the rest has to be done too. Fails if one of the pages
/// is not mapped there.
pub fn with_context_memory(
    paging: &Paging,
    offset: usize,
    len: usize,
    lookups: &Vec<PageLookup>,
) -> (script: Result<Vec<MemoryAction>, Error>)
    requires
        paging.addressable(offset, len),
        paging.has_room(offset, len),
        lookups@.len() == paging.page_count(offset, len),
    ensures
        script is Ok <==> forall|i: int| 0 <= i < lookups@.len() ==> lookups@[i].found(),
        script matches Err(error) ==> error.errno == EFAULT,
        script matches Ok(actions) ==> actions@ == access_script(*paging, offset, lookups@),
{
    // Find the physical frames for all pages.
    let mut frames: Vec<(usize, u64)> = Vec::new();
    for i in 0..lookups.len()
        invariant
            frames@.len() == i,
            forall|j: int| 0 <= j < i ==> (#[trigger] lookups@[j]).found(),
            forall|j: int|
                0 <= j < i ==> #[trigger] frames@[j] == (
                    lookups@[j].frame->0,
                    lookups@[j].flags->0,
                ),
    {
        let lookup = lookups[i];
        match lookup.frame {
            Some(frame) => match lookup.flags {
                Some(flags) => frames.push((frame, flags)),
                None => return Err(Error::new(EFAULT)),
            },
            None => return Err(Error::new(EFAULT)),
        }
    }
    let count = frames.len();
    let start = paging.window / paging.page_size;

    // Map all the physical frames into linear pages.
    let mut actions: Vec<MemoryAction> = Vec::new();
    for i in 0..count
        invariant
            count == frames@.len(),
            count == lookups@.len(),
            start == paging.window_page(),
            start + count <= usize::MAX,
            forall|j: int|
                0 <= j < count ==> #[trigger] frames@[j] == (
                    lookups@[j].frame->0,
                    lookups@[j].flags->0,
                ),
            actions@ == map_actions(*paging, lookups@).take(i as int),
    {
        let (frame, flags) = frames[i];
        actions.push(
            MemoryAction::MapPage {
                page: start + i,
                frame,
                flags: flags | (paging.no_execute | paging.writable),
            },
        );
    }
    actions.push(MemoryAction::Flush);

    let within = offset % paging.page_size;
    proof {
        lemma_fundamental_div_mod(paging.window as int, paging.page_size as int);
        assert(start * paging.page_size == paging.page_size * start) by (nonlinear_arith);
    }
    let first = start * paging.page_size;
    actions.push(MemoryAction::Access { address: first + within });

    // Unmap all the pages.
    let ghost mapped = actions@;
    for i in 0..count
        invariant
            count == lookups@.len(),
            start == paging.window_page(),
            start + count <= usize::MAX,
            actions@ == mapped + unmap_actions(*paging, count as nat).take(i as int),
    {
        actions.push(MemoryAction::UnmapPage { page: start + i });
    }
    actions.push(MemoryAction::Flush);
    assert(actions@ =~= access_script(*paging, offset, lookups@));
    Ok(actions)
}

} // verus!
