use ptrace::error::{Error, EFAULT};
use ptrace::memory::{context_pages, with_context_memory, MemoryAction, PageLookup, Paging};

const NO_EXECUTE: u64 = 1 << 63;
const WRITABLE: u64 = 2;

fn paging() -> Paging {
    Paging { page_size: 4096, window: 0x100010, no_execute: NO_EXECUTE, writable: WRITABLE }
}

fn lookup(frame: usize, flags: u64) -> PageLookup {
    PageLookup { frame: Some(frame), flags: Some(flags) }
}

#[test]
fn pages_cover_the_bytes_and_no_more() {
    assert_eq!(context_pages(&paging(), 0, 1), vec![0]);
    assert_eq!(context_pages(&paging(), 0, 4096), vec![0]);
    assert_eq!(context_pages(&paging(), 0, 4097), vec![0, 1]);
    assert_eq!(context_pages(&paging(), 4095, 2), vec![0, 1]);
    assert_eq!(context_pages(&paging(), 0x5ff0, 0x2000), vec![5, 6, 7]);
}

#[test]
fn no_bytes_need_at_most_one_page() {
    assert_eq!(context_pages(&paging(), 4096, 0), vec![]);
    assert_eq!(context_pages(&paging(), 4097, 0), vec![1]);
}

#[test]
fn an_access_maps_uses_and_unmaps() {
    let script = with_context_memory(&paging(), 0x5ff0, 0x20, &vec![lookup(70, 1), lookup(3, 7)]);
    assert_eq!(
        script,
        Ok(vec![
            MemoryAction::MapPage { page: 0x100, frame: 70, flags: 1 | NO_EXECUTE | WRITABLE },
            MemoryAction::MapPage { page: 0x101, frame: 3, flags: 7 | NO_EXECUTE },
            MemoryAction::Flush,
            MemoryAction::Access { address: 0x100ff0 },
            MemoryAction::UnmapPage { page: 0x100 },
            MemoryAction::UnmapPage { page: 0x101 },
            MemoryAction::Flush,
        ])
    );
}

#[test]
fn every_byte_appears_in_the_window() {
    let (offset, len) = (0x5ff0, 0x1020);
    let pages = context_pages(&paging(), offset, len);
    let lookups: Vec<PageLookup> = pages.iter().map(|page| lookup(page * 10, 1)).collect();
    let script = with_context_memory(&paging(), offset, len, &lookups).unwrap();
    let mut frames = vec![];
    let mut start = 0;
    for action in script {
        match action {
            MemoryAction::MapPage { page, frame, .. } => frames.push((page, frame)),
            MemoryAction::Access { address } => start = address,
            _ => {}
        }
    }
    for i in 0..len {
        let page = (start + i) / 4096;
        assert!(frames.contains(&(page, (offset + i) / 4096 * 10)));
        assert_eq!((start + i) % 4096, (offset + i) % 4096);
    }
}

#[test]
fn a_page_that_is_not_mapped_fails_the_access() {
    let no_frame = PageLookup { frame: None, flags: Some(1) };
    let no_flags = PageLookup { frame: Some(1), flags: None };
    for missing in [no_frame, no_flags] {
        let lookups = vec![lookup(70, 1), missing];
        assert_eq!(
            with_context_memory(&paging(), 0x5ff0, 0x20, &lookups),
            Err(Error { errno: EFAULT })
        );
    }
    assert_eq!(EFAULT, 14);
}

#[test]
fn an_access_to_nothing_only_flushes() {
    assert_eq!(
        with_context_memory(&paging(), 4096, 0, &vec![]),
        Ok(vec![
            MemoryAction::Flush,
            MemoryAction::Access { address: 0x100000 },
            MemoryAction::Flush,
        ])
    );
}
