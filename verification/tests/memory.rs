use udbg::memory::{
    binary_search, check_order, get_memory_map, heap_addresses, ImageNtHeaders, MappedFile,
    MappedImage, MemoryIter, MemoryPage, MemoryStep, NtHeader, Section, UiMemory, MEM_IMAGE,
    MEM_MAPPED, MEM_PRIVATE, MF_HEAP, MF_IMAGE, MF_MAP, MF_PEB, MF_PRIVATE, MF_SECTION, MF_STACK,
};

fn page(base: usize, size: usize, type_: u32) -> MemoryPage {
    MemoryPage {
        base,
        alloc_base: base,
        size,
        commit: true,
        type_,
        kind_name: "PRV".to_string(),
        protect: "RW".to_string(),
    }
}

fn section(name: &str, address: u32) -> Section {
    let mut bytes = [0u8; 8];
    bytes[..name.len()].copy_from_slice(name.as_bytes());
    Section { name: bytes, address }
}

fn none(n: usize) -> Vec<Option<MappedFile>> {
    (0..n).map(|_| None).collect()
}

#[test]
fn plain_regions_show_their_kind() {
    let pages = vec![
        page(0x1000, 0x1000, MEM_PRIVATE),
        page(0x2000, 0x1000, MEM_MAPPED),
        page(0x3000, 0x1000, MEM_IMAGE),
        page(0x4000, 0x1000, 0),
        page(0x7FFE0000, 0x1000, MEM_PRIVATE),
    ];
    let map = get_memory_map(&pages, 0x2000, &vec![], &vec![], &none(5));
    let flags: Vec<u32> = map.iter().map(|m| m.flags).collect();
    assert_eq!(flags, vec![MF_PRIVATE, MF_MAP | MF_PEB, MF_IMAGE, 0, MF_PRIVATE]);
    let usage: Vec<&str> = map.iter().map(|m| m.usage.as_str()).collect();
    assert_eq!(usage, vec!["", "PEB", "", "", "KUSER_SHARED_DATA"]);
    assert_eq!(map[0].type_, "PRV");
    assert_eq!(map[0].protect, "RW");
    assert_eq!(map[4].base, 0x7FFE0000);
    assert_eq!(map[4].size, 0x1000);
    assert_eq!(map[4].alloc_base, 0x7FFE0000);
}

#[test]
fn stacks_and_heaps_are_marked() {
    let pages = vec![
        page(0x1000, 0x1000, MEM_PRIVATE),
        page(0x2000, 0x2000, MEM_PRIVATE),
        page(0x8000, 0x1000, MEM_PRIVATE),
    ];
    let map = get_memory_map(
        &pages,
        0,
        &vec![(42, 0x3800), (43, 0x9000)],
        &vec![0x8000, 0x1fff],
        &none(3),
    );
    assert_eq!(map[0].usage, "Heap #1");
    assert_eq!(map[0].flags, MF_PRIVATE | MF_HEAP);
    assert_eq!(map[1].usage, "Stack ~42");
    assert_eq!(map[1].flags, MF_PRIVATE | MF_STACK);
    assert_eq!(map[2].usage, "Heap #0");
}

#[test]
fn images_are_marked_with_their_sections() {
    let pages = vec![
        page(0x400000, 0x1000, MEM_IMAGE),
        page(0x401000, 0x1000, MEM_IMAGE),
        page(0x402000, 0x1000, MEM_IMAGE),
        page(0x500000, 0x1000, MEM_MAPPED),
        page(0x600000, 0x1000, MEM_IMAGE),
    ];
    let mut files = none(5);
    files[0] = Some(MappedFile {
        path: "C:\\a.exe".to_string(),
        image: Some(MappedImage {
            size: 0x3000,
            sections: vec![section(".text", 0x1000), section(".textlong"[..8].as_ref(), 0x9000)],
        }),
    });
    files[1] = Some(MappedFile { path: "never".to_string(), image: None });
    files[3] = Some(MappedFile {
        path: "C:\\b.nls".to_string(),
        image: Some(MappedImage { size: 0x200000, sections: vec![section("x", 0x100000)] }),
    });
    files[4] = Some(MappedFile { path: "C:\\c.dll".to_string(), image: None });
    let map = get_memory_map(&pages, 0, &vec![], &vec![], &files);
    let usage: Vec<&str> = map.iter().map(|m| m.usage.as_str()).collect();
    assert_eq!(usage, vec!["C:\\a.exe", ".text", "", "C:\\b.nls", "C:\\c.dll"]);
    assert_eq!(map[1].flags, MF_IMAGE | MF_SECTION);
    assert_eq!(map[2].flags, MF_IMAGE);
    assert_eq!(map[4].flags, MF_IMAGE);
}

#[test]
fn a_section_name_can_fill_its_eight_bytes() {
    let pages = vec![page(0x1000, 0x1000, MEM_IMAGE), page(0x2000, 0x1000, MEM_IMAGE)];
    let mut files = none(2);
    files[0] = Some(MappedFile {
        path: "p".to_string(),
        image: Some(MappedImage {
            size: 0x2000,
            sections: vec![Section { name: *b".eightch", address: 0x1000 }],
        }),
    });
    let map = get_memory_map(&pages, 0, &vec![], &vec![], &files);
    assert_eq!(map[1].usage, ".eightch");
}

#[test]
fn the_heaps_a_process_lists() {
    assert_eq!(heap_addresses(2, Some(vec![5, 6])), vec![5, 6]);
    assert_eq!(heap_addresses(2, Some(vec![5])), vec![5]);
    assert_eq!(heap_addresses(1, Some(vec![5, 6])), vec![5]);
    assert_eq!(heap_addresses(3, None), vec![0, 0, 0]);
    assert!(heap_addresses(0, Some(vec![5])).is_empty());
    assert!(heap_addresses(1000, None).is_empty());
    assert_eq!(heap_addresses(999, None).len(), 999);
}

#[test]
fn regions_are_found_by_address() {
    let list: Vec<UiMemory> = get_memory_map(
        &vec![page(0x1000, 0x1000, 0), page(0x3000, 0x10, 0), page(0x4000, 0x1000, 0)],
        0,
        &vec![],
        &vec![],
        &none(3),
    );
    assert_eq!(binary_search(&list, 0xfff), None);
    assert_eq!(binary_search(&list, 0x1000), Some(0));
    assert_eq!(binary_search(&list, 0x1fff), Some(0));
    assert_eq!(binary_search(&list, 0x2000), None);
    assert_eq!(binary_search(&list, 0x300f), Some(1));
    assert_eq!(binary_search(&list, 0x4800), Some(2));
    assert_eq!(binary_search(&list, 0x5000), None);
}

#[test]
fn order_of_pages() {
    assert!(check_order(&vec![]));
    assert!(check_order(&vec![page(0, 0x10, 0), page(0x10, 1, 0)]));
    assert!(!check_order(&vec![page(0, 0x11, 0), page(0x10, 1, 0)]));
    assert!(!check_order(&vec![page(0x10, 1, 0), page(0, 1, 0)]));
    assert!(!check_order(&vec![page(2, usize::MAX, 0)]));
}

#[test]
fn the_walk_skips_what_has_no_memory() {
    let mut it = MemoryIter::new();
    assert_eq!(it.address, 0);
    let mut free = page(0, 0x10000, 0);
    free.commit = false;
    assert!(matches!(it.advance(Some(free)), MemoryStep::More));
    assert_eq!(it.address, 0x10000);
    match it.advance(Some(page(0x10000, 0x1000, 0))) {
        MemoryStep::Found(p) => assert_eq!(p.base, 0x10000),
        _ => panic!("nothing found"),
    }
    assert_eq!(it.address, 0x11000);
    assert!(matches!(it.advance(None), MemoryStep::End));
    assert_eq!(it.address, 0x11000);
}

#[test]
fn headers_of_images() {
    let mut nt = ImageNtHeaders {
        machine: 0x14c,
        number_of_sections: 3,
        size_of_optional_header: 0xE0,
        size_32: 0x5000,
        size_64: 0x6000,
    };
    assert!(nt.is_32());
    assert_eq!(nt.size_of_image(), 0x5000);
    assert_eq!(nt.section_table(0x400000, 0x80), Some(0x400178));
    assert_eq!(nt.section_table(usize::MAX - 0x100, 0x80), None);
    nt.machine = 0x8664;
    assert!(!nt.is_32());
    assert_eq!(nt.size_of_image(), 0x6000);
}

#[test]
fn the_whole_walk_finds_each_region_once() {
    let query = |address: usize| {
        let (size, commit) = match address {
            0 => (0x10000, false),
            0x10000 => (0x1000, true),
            0x11000 => (0x2000, true),
            0x13000 => (0xd000, false),
            0x20000 => (0x3000, true),
            _ => return None,
        };
        let mut p = page(address, size, MEM_PRIVATE);
        p.commit = commit;
        Some(p)
    };
    let mut it = MemoryIter::new();
    let mut found = Vec::new();
    let mut ends = 0;
    for _ in 0..8 {
        let answer = query(it.address);
        match it.advance(answer) {
            MemoryStep::Found(p) => found.push(p.base),
            MemoryStep::More => assert_eq!(ends, 0),
            MemoryStep::End => ends += 1,
        }
    }
    assert_eq!(found, vec![0x10000, 0x11000, 0x20000]);
    assert_eq!(ends, 3);
    assert_eq!(it.address, 0x23000);
}

#[test]
fn each_call_gives_the_next_region_with_memory() {
    let ask = |address: usize| {
        let (size, commit) = match address {
            0 => (0x10000, false),
            0x10000 => (0x10000, false),
            0x20000 => (0x1000, true),
            0x21000 => (0x2000, true),
            0x23000 => (0x1000, false),
            _ => return None,
        };
        let mut p = page(address, size, MEM_PRIVATE);
        p.commit = commit;
        Some(p)
    };
    let mut it = MemoryIter::new();
    assert_eq!(it.next(ask).unwrap().base, 0x20000);
    assert_eq!(it.address, 0x21000);
    assert_eq!(it.next(ask).unwrap().base, 0x21000);
    assert_eq!(it.address, 0x23000);
    assert!(it.next(ask).is_none());
    assert_eq!(it.address, 0x24000);
    assert!(it.next(ask).is_none());
    let mut again = MemoryIter::new();
    let mut pages = Vec::new();
    while let Some(p) = again.next(ask) {
        pages.push(p);
    }
    assert_eq!(pages.len(), 2);
    assert!(check_order(&pages));
}
