//! The map of a target's memory: what each region of it is used for.
use vstd::prelude::*;
use vstd::string::*;

use crate::loader::IMAGE_FILE_MACHINE_I386;
use crate::text::{decimal, text_of, to_decimal, utf8_or_empty};
use crate::types::Tid;

verus! {

/// Kinds of regions, as the system numbers them.
pub const MEM_PRIVATE: u32 = 0x20000;

pub const MEM_MAPPED: u32 = 0x40000;

pub const MEM_IMAGE: u32 = 0x1000000;

/// What a region is, in flags.
pub const MF_IMAGE: u32 = 0x01;

pub const MF_MAP: u32 = 0x02;

pub const MF_PRIVATE: u32 = 0x04;

pub const MF_SECTION: u32 = 0x08;

pub const MF_STACK: u32 = 0x10;

pub const MF_HEAP: u32 = 0x20;

pub const MF_PEB: u32 = 0x40;

/// Where every process has the page it shares with the system.
pub const KUSER_SHARED_DATA: usize = 0x7FFE0000;

/// A process with this many heaps or more is not asked for them.
pub const MAX_HEAPS: usize = 1000;

/// A region of memory as the system describes it.
pub struct MemoryPage {
    pub base: usize,
    pub alloc_base: usize,
    pub size: usize,
    /// Whether there is memory behind it.
    pub commit: bool,
    pub type_: u32,
    pub kind_name: String,
    pub protect: String,
}

/// A region of memory as it is shown.
pub struct UiMemory {
    pub alloc_base: usize,
    pub base: usize,
    pub size: usize,
    pub flags: u32,
    pub usage: String,
    pub type_: String,
    pub protect: String,
}

/// A shown region in terms of mathematics.
pub struct Region {
    pub alloc_base: usize,
    pub base: usize,
    pub size: usize,
    pub flags: u32,
    pub usage: Seq<char>,
    pub type_: Seq<char>,
    pub protect: Seq<char>,
}

impl View for UiMemory {
    type V = Region;

    open spec fn view(&self) -> Region {
        Region {
            alloc_base: self.alloc_base,
            base: self.base,
            size: self.size,
            flags: self.flags,
            usage: self.usage@,
            type_: self.type_@,
            protect: self.protect@,
        }
    }
}

/// A section of an image.
#[derive(Clone, Copy, Debug)]
pub struct Section {
    /// Name, filled up with zeros.
    pub name: [u8; 8],
    /// Place, counted from the start of the image.
    pub address: u32,
}

/// What an image says of itself.
pub struct MappedImage {
    pub size: usize,
    pub sections: Vec<Section>,
}

/// A file that is mapped into a region.
pub struct MappedFile {
    pub path: String,
    /// The headers at the start of the region, where they can be read.
    pub image: Option<MappedImage>,
}

/// The regions of a list in terms of mathematics.
pub open spec fn regions(list: Seq<UiMemory>) -> Seq<Region> {
    list.map_values(|m: UiMemory| m@)
}

/// Whether regions lie one after the other.
pub open spec fn in_order(list: Seq<Region>) -> bool {
    &&& forall|i: int| 0 <= i < list.len() ==> (#[trigger] list[i]).base + list[i].size <= usize::MAX
    &&& forall|i: int, j: int|
        0 <= i < j < list.len() ==> (#[trigger] list[i]).base + list[i].size <= (
        #[trigger] list[j]).base
}

/// Whether described regions lie one after the other.
pub open spec fn pages_in_order(list: Seq<MemoryPage>) -> bool {
    &&& forall|i: int| 0 <= i < list.len() ==> (#[trigger] list[i]).base + list[i].size <= usize::MAX
    &&& forall|i: int, j: int|
        0 <= i < j < list.len() ==> (#[trigger] list[i]).base + list[i].size <= (
        #[trigger] list[j]).base
}

/// The flag for a kind of region.
pub open spec fn kind_flag(type_: u32) -> u32 {
    if type_ == MEM_PRIVATE {
        MF_PRIVATE
    } else if type_ == MEM_IMAGE {
        MF_IMAGE
    } else if type_ == MEM_MAPPED {
        MF_MAP
    } else {
        0
    }
}

/// A region before anything but its place is known of its use.
pub open spec fn plain_region(page: MemoryPage, peb: usize) -> Region {
    let flags = kind_flag(page.type_);
    let known = page.base == KUSER_SHARED_DATA;
    Region {
        alloc_base: page.alloc_base,
        base: page.base,
        size: page.size,
        flags: if !known && page.base == peb {
            flags | MF_PEB
        } else {
            flags
        },
        usage: if known {
            "KUSER_SHARED_DATA"@
        } else if page.base == peb {
            "PEB"@
        } else {
            Seq::empty()
        },
        type_: page.kind_name@,
        protect: page.protect@,
    }
}

/// The regions of all pages, before more is known.
pub open spec fn plain_regions(pages: Seq<MemoryPage>, peb: usize) -> Seq<Region> {
    Seq::new(pages.len(), |i: int| plain_region(pages[i], peb))
}

/// Whether an address lies in a region.
pub open spec fn covers(r: Region, address: usize) -> bool {
    r.base <= address < r.base + r.size
}

/// The regions with one more use for the one an address lies in.
pub open spec fn marked(list: Seq<Region>, address: usize, usage: Seq<char>, flag: u32) -> Seq<
    Region,
> {
    Seq::new(
        list.len(),
        |i: int|
            if covers(list[i], address) {
                Region { usage, flags: list[i].flags | flag, ..list[i] }
            } else {
                list[i]
            },
    )
}

/// The regions with the first `n` stacks marked.
pub open spec fn with_stacks(list: Seq<Region>, stacks: Seq<(Tid, usize)>, n: int) -> Seq<Region>
    decreases n,
{
    if n <= 0 {
        list
    } else {
        let (tid, limit) = stacks[n - 1];
        marked(
            with_stacks(list, stacks, n - 1),
            limit,
            "Stack ~"@ + decimal(tid as nat),
            MF_STACK,
        )
    }
}

/// The regions with the first `n` heaps marked.
pub open spec fn with_heaps(list: Seq<Region>, heaps: Seq<usize>, n: int) -> Seq<Region>
    decreases n,
{
    if n <= 0 {
        list
    } else {
        marked(
            with_heaps(list, heaps, n - 1),
            heaps[n - 1],
            "Heap #"@ + decimal((n - 1) as nat),
            MF_HEAP,
        )
    }
}

/// The addresses of the heaps: as many as could be read of those the process
/// says it has, or zeros where it does not say where they are.
pub open spec fn heap_list(count: usize, read: Option<Seq<usize>>) -> Seq<usize> {
    if 0 < count < MAX_HEAPS {
        match read {
            Some(heaps) => if heaps.len() <= count {
                heaps
            } else {
                heaps.take(count as int)
            },
            None => Seq::new(count as nat, |i: int| 0usize),
        }
    } else {
        Seq::empty()
    }
}

/// A section's name: up to its first zero.
pub open spec fn name_bytes(name: Seq<u8>) -> Seq<u8>
    decreases name.len(),
{
    if name.len() == 0 || name[0] == 0 {
        Seq::empty()
    } else {
        seq![name[0]] + name_bytes(name.skip(1))
    }
}

/// The first section at some distance from the start of an image.
pub open spec fn section_at(sections: Seq<Section>, distance: int) -> Option<Section>
    decreases sections.len(),
{
    if sections.len() == 0 {
        None
    } else if sections[0].address == distance {
        Some(sections[0])
    } else {
        section_at(sections.skip(1), distance)
    }
}

/// A region inside an image, with the section that starts there.
pub open spec fn as_section(r: Region, sections: Seq<Section>, module: usize) -> Region {
    match section_at(sections, r.base - module) {
        Some(section) => Region {
            usage: text_of(name_bytes(section.name@)),
            flags: r.flags | MF_SECTION,
            ..r
        },
        None => r,
    }
}

/// The regions with the sections of an image marked, from region `i` to where
/// the image ends; and that place.
pub open spec fn with_sections(
    list: Seq<Region>,
    image: MappedImage,
    module: usize,
    i: int,
) -> (Seq<Region>, int)
    decreases list.len() - i,
{
    if 0 <= i < list.len() && list[i].base - module < image.size {
        with_sections(
            list.update(i, as_section(list[i], image.sections@, module)),
            image,
            module,
            i + 1,
        )
    } else {
        (list, i)
    }
}

/// What a mapped file makes of the regions from `i` on: its path is the use of
/// the first, its sections those of the ones that follow. Says where the next
/// file can start.
pub open spec fn with_file(list: Seq<Region>, file: MappedFile, i: int) -> (Seq<Region>, int) {
    let named = list.update(i, Region { usage: file.path@, ..list[i] });
    match file.image {
        Some(image) => if list[i].flags & MF_IMAGE != 0 {
            with_sections(named, image, list[i].base, i + 1)
        } else {
            (named, i + 1)
        },
        None => (named, i + 1),
    }
}

/// The regions with the mapped files marked from `i` on.
pub open spec fn with_files(list: Seq<Region>, files: Seq<Option<MappedFile>>, i: int) -> Seq<
    Region,
>
    decreases list.len() - i,
    via with_files_ends
{
    if 0 <= i < list.len() {
        match files[i] {
            Some(file) => {
                let (next, j) = with_file(list, file, i);
                with_files(next, files, j)
            },
            None => with_files(list, files, i + 1),
        }
    } else {
        list
    }
}

#[via_fn]
proof fn with_files_ends(list: Seq<Region>, files: Seq<Option<MappedFile>>, i: int) {
    if 0 <= i < list.len() {
        if let Some(file) = files[i] {
            let named = list.update(i, Region { usage: file.path@, ..list[i] });
            if let Some(image) = file.image {
                lemma_sections(named, image, list[i].base, i + 1);
            }
        }
    }
}

/// Marking the sections of an image changes the use and the flags of regions
/// between `i` and where it ends, and nothing else.
pub proof fn lemma_sections(list: Seq<Region>, image: MappedImage, module: usize, i: int)
    requires
        0 <= i <= list.len(),
    ensures
        ({
            let (next, j) = with_sections(list, image, module, i);
            &&& i <= j <= list.len()
            &&& same_places(list, next)
            &&& forall|k: int| 0 <= k < i ==> next[k] == list[k]
            &&& forall|k: int| j <= k < list.len() ==> next[k] == list[k]
            &&& forall|k: int|
                i <= k < j ==> #[trigger] next[k] == as_section(list[k], image.sections@, module)
            &&& j < list.len() ==> list[j].base - module >= image.size
        }),
    decreases list.len() - i,
{
    if i < list.len() && list[i].base - module < image.size {
        let next = list.update(i, as_section(list[i], image.sections@, module));
        lemma_sections(next, image, module, i + 1);
    }
}

/// Whether two lists show the same places.
pub open spec fn same_places(a: Seq<Region>, b: Seq<Region>) -> bool {
    &&& a.len() == b.len()
    &&& forall|i: int|
        0 <= i < a.len() ==> (#[trigger] b[i]) == (Region {
            flags: b[i].flags,
            usage: b[i].usage,
            ..a[i]
        })
}

/// The map of a target's memory.
pub open spec fn memory_map(
    pages: Seq<MemoryPage>,
    peb: usize,
    stacks: Seq<(Tid, usize)>,
    heaps: Seq<usize>,
    files: Seq<Option<MappedFile>>,
) -> Seq<Region> {
    with_files(
        with_heaps(
            with_stacks(plain_regions(pages, peb), stacks, stacks.len() as int),
            heaps,
            heaps.len() as int,
        ),
        files,
        0,
    )
}

proof fn lemma_stacks(list: Seq<Region>, stacks: Seq<(Tid, usize)>, n: int)
    ensures
        same_places(list, with_stacks(list, stacks, n)),
    decreases n,
{
    if n > 0 {
        lemma_stacks(list, stacks, n - 1);
    }
}

proof fn lemma_heaps(list: Seq<Region>, heaps: Seq<usize>, n: int)
    ensures
        same_places(list, with_heaps(list, heaps, n)),
    decreases n,
{
    if n > 0 {
        lemma_heaps(list, heaps, n - 1);
    }
}

proof fn lemma_files(list: Seq<Region>, files: Seq<Option<MappedFile>>, i: int)
    requires
        0 <= i,
    ensures
        same_places(list, with_files(list, files, i)),
    decreases list.len() - i,
{
    if i < list.len() {
        match files[i] {
            Some(file) => {
                let named = list.update(i, Region { usage: file.path@, ..list[i] });
                if let Some(image) = file.image {
                    lemma_sections(named, image, list[i].base, i + 1);
                }
                let (next, j) = with_file(list, file, i);
                assert(same_places(list, next));
                lemma_files(next, files, j);
            },
            None => lemma_files(list, files, i + 1),
        }
    }
}

/// The map shows every page once, in order, where it is.
pub proof fn lemma_map_places(
    pages: Seq<MemoryPage>,
    peb: usize,
    stacks: Seq<(Tid, usize)>,
    heaps: Seq<usize>,
    files: Seq<Option<MappedFile>>,
)
    ensures
        same_places(
            plain_regions(pages, peb),
            memory_map(pages, peb, stacks, heaps, files),
        ),
{
    let a = plain_regions(pages, peb);
    let b = with_stacks(a, stacks, stacks.len() as int);
    let c = with_heaps(b, heaps, heaps.len() as int);
    lemma_stacks(a, stacks, stacks.len() as int);
    lemma_heaps(b, heaps, heaps.len() as int);
    lemma_files(c, files, 0);
}

/// A region before anything but its place is known of its use.
fn new_region(page: &MemoryPage, peb: usize) -> (r: UiMemory)
    ensures
        r@ == plain_region(*page, peb),
{
    let mut usage = String::new();
    let mut flags: u32 = if page.type_ == MEM_PRIVATE {
        MF_PRIVATE
    } else if page.type_ == MEM_IMAGE {
        MF_IMAGE
    } else if page.type_ == MEM_MAPPED {
        MF_MAP
    } else {
        0
    };
    if page.base == KUSER_SHARED_DATA {
        usage = "KUSER_SHARED_DATA".to_owned();
    } else if page.base == peb {
        usage = "PEB".to_owned();
        flags = flags | MF_PEB;
    }
    UiMemory {
        alloc_base: page.alloc_base,
        base: page.base,
        size: page.size,
        flags,
        usage,
        type_: page.kind_name.clone(),
        protect: page.protect.clone(),
    }
}

/// The region an address lies in, by halving the list.
pub fn binary_search(list: &Vec<UiMemory>, address: usize) -> (r: Option<usize>)
    requires
        in_order(regions(list@)),
    ensures
        match r {
            Some(i) => i < list.len() && covers(list@[i as int]@, address),
            None => forall|i: int| 0 <= i < list.len() ==> !covers(#[trigger] list@[i]@, address),
        },
{
    let ghost all = regions(list@);
    let mut from: usize = 0;
    let mut to: usize = list.len();
    while from < to
        invariant
            from <= to <= list.len(),
            all == regions(list@),
            in_order(all),
            forall|i: int| 0 <= i < from ==> !covers(#[trigger] all[i], address),
            forall|i: int| to <= i < list.len() ==> !covers(#[trigger] all[i], address),
        decreases to - from,
    {
        let mid: usize = from + (to - from) / 2;
        let m = &list[mid];
        assert(all[mid as int] == list@[mid as int]@);
        if address < m.base {
            assert forall|i: int| mid <= i < list.len() implies !covers(
                #[trigger] all[i],
                address,
            ) by {
                if mid < i {
                    assert(all[mid as int].base <= all[i].base);
                }
            }
            to = mid;
        } else if address - m.base < m.size {
            return Some(mid);
        } else {
            assert forall|i: int| 0 <= i <= mid implies !covers(#[trigger] all[i], address) by {
                if i < mid {
                    assert(all[i].base + all[i].size <= all[mid as int].base);
                }
            }
            from = mid + 1;
        }
    }
    assert forall|i: int| 0 <= i < list.len() implies !covers(#[trigger] list@[i]@, address) by {
        assert(!covers(all[i], address));
    }
    None
}

/// Gives the region an address lies in one more use.
fn mark(list: &mut Vec<UiMemory>, address: usize, usage: String, flag: u32)
    requires
        in_order(regions(old(list)@)),
    ensures
        regions(final(list)@) == marked(regions(old(list)@), address, usage@, flag),
        in_order(regions(final(list)@)),
{
    let ghost before = regions(list@);
    let ghost result = marked(before, address, usage@, flag);
    assert(in_order(result)) by {
        assert forall|i: int, j: int| 0 <= i < j < result.len() implies (#[trigger] result[i]).base
            + result[i].size <= (#[trigger] result[j]).base by {
            assert(before[i].base + before[i].size <= before[j].base);
        }
        assert forall|i: int| 0 <= i < result.len() implies (#[trigger] result[i]).base
            + result[i].size <= usize::MAX by {
            assert(before[i].base + before[i].size <= usize::MAX);
        }
    }
    match binary_search(list, address) {
        Some(i) => {
            assert forall|j: int| 0 <= j < before.len() && j != i implies !covers(
                #[trigger] before[j],
                address,
            ) by {
                assert(covers(before[i as int], address));
                if j < i {
                    assert(before[j].base + before[j].size <= before[i as int].base);
                } else {
                    assert(before[i as int].base + before[i as int].size <= before[j].base);
                }
            }
            let ghost list0 = list@;
            let mut m = list.remove(i);
            m.usage = usage;
            m.flags = m.flags | flag;
            list.insert(i, m);
            assert(regions(list@) =~= result) by {
                assert forall|j: int| 0 <= j < before.len() implies regions(list@)[j]
                    == result[j] by {
                    if j != i {
                        assert(list@[j] == list0[j]);
                        assert(before[j] == list0[j]@);
                    }
                }
            }
        },
        None => {
            assert(regions(list@) =~= result) by {
                assert forall|j: int| 0 <= j < before.len() implies before[j] == result[j] by {
                    assert(before[j] == list@[j]@);
                }
            }
        },
    }
}

/// The first section at some distance from the start of an image.
fn find_section(sections: &Vec<Section>, distance: usize) -> (r: Option<Section>)
    ensures
        r == section_at(sections@, distance as int),
{
    let mut i: usize = 0;
    assert(sections@.skip(0) =~= sections@);
    while i < sections.len()
        invariant
            i <= sections.len(),
            section_at(sections@, distance as int) == section_at(
                sections@.skip(i as int),
                distance as int,
            ),
        decreases sections.len() - i,
    {
        assert(sections@.skip(i as int)[0] == sections@[i as int]);
        assert(sections@.skip(i as int).skip(1) =~= sections@.skip(i + 1));
        if sections[i].address as usize == distance {
            return Some(sections[i]);
        }
        i += 1;
    }
    None
}

/// A section's name as text.
fn section_name(section: &Section) -> (r: String)
    ensures
        r@ == text_of(name_bytes(section.name@)),
{
    let mut bytes: Vec<u8> = Vec::new();
    let mut i: usize = 0;
    let ghost name = section.name@;
    assert(name.skip(0) =~= name);
    assert(name_bytes(name) =~= bytes@ + name_bytes(name.skip(0)));
    while i < 8 && section.name[i] != 0
        invariant
            i <= 8,
            name == section.name@,
            name_bytes(name) == bytes@ + name_bytes(name.skip(i as int)),
        decreases 8 - i,
    {
        let ghost before = bytes@;
        let ghost rest = name.skip(i as int);
        assert(rest[0] == name[i as int]);
        assert(rest.skip(1) =~= name.skip(i + 1));
        bytes.push(section.name[i]);
        assert(before + (seq![rest[0]] + name_bytes(rest.skip(1))) =~= bytes@ + name_bytes(
            rest.skip(1),
        ));
        i += 1;
    }
    assert(name_bytes(name) =~= bytes@) by {
        if i < 8 {
            assert(name.skip(i as int)[0] == name[i as int]);
        }
    }
    utf8_or_empty(bytes.as_slice())
}

/// Marks the sections of an image from region `i` on, and says where it ends.
fn mark_sections(list: &mut Vec<UiMemory>, image: &MappedImage, module: usize, i: usize) -> (r:
    usize)
    requires
        i <= old(list).len(),
        forall|k: int| i <= k < old(list).len() ==> module <= #[trigger] old(list)@[k].base,
    ensures
        with_sections(regions(old(list)@), *image, module, i as int) == (
            regions(final(list)@),
            r as int,
        ),
        i <= r <= final(list).len(),
{
    let ghost all = with_sections(regions(list@), *image, module, i as int);
    let mut j: usize = i;
    while j < list.len() && list[j].base - module < image.size
        invariant
            i <= j <= list.len(),
            forall|k: int| j <= k < list.len() ==> module <= #[trigger] list@[k].base,
            all == with_sections(regions(list@), *image, module, j as int),
        decreases list.len() - j,
    {
        let ghost before = list@;
        let ghost seen = regions(before);
        assert(seen[j as int] == before[j as int]@);
        let distance: usize = list[j].base - module;
        if let Some(section) = find_section(&image.sections, distance) {
            let mut m = list.remove(j);
            m.usage = section_name(&section);
            m.flags = m.flags | MF_SECTION;
            list.insert(j, m);
        }
        assert(regions(list@) =~= seen.update(
            j as int,
            as_section(seen[j as int], image.sections@, module),
        ));
        j += 1;
    }
    assert(j < list.len() ==> regions(list@)[j as int] == list@[j as int]@);
    j
}

/// The addresses of the heaps.
pub fn heap_addresses(count: usize, read: Option<Vec<usize>>) -> (r: Vec<usize>)
    ensures
        r@ == heap_list(
            count,
            match read {
                Some(heaps) => Some(heaps@),
                None => None,
            },
        ),
{
    let mut result: Vec<usize> = Vec::new();
    if count == 0 || count >= MAX_HEAPS {
        return result;
    }
    match read {
        Some(heaps) => {
            let mut i: usize = 0;
            while i < heaps.len() && i < count
                invariant
                    i <= heaps.len(),
                    i <= count,
                    result@ == heaps@.take(i as int),
                decreases heaps.len() - i,
            {
                result.push(heaps[i]);
                assert(heaps@.take(i as int).push(heaps@[i as int]) =~= heaps@.take(i + 1));
                i += 1;
            }
            assert(i == heaps.len() ==> heaps@.take(i as int) =~= heaps@);
        },
        None => {
            let mut i: usize = 0;
            while i < count
                invariant
                    i <= count,
                    result@ == Seq::new(i as nat, |k: int| 0usize),
                decreases count - i,
            {
                result.push(0);
                assert(result@ =~= Seq::new((i + 1) as nat, |k: int| 0usize));
                i += 1;
            }
        },
    }
    result
}

fn mark_stacks(list: &mut Vec<UiMemory>, stacks: &Vec<(Tid, usize)>)
    requires
        in_order(regions(old(list)@)),
    ensures
        regions(final(list)@) == with_stacks(
            regions(old(list)@),
            stacks@,
            stacks.len() as int,
        ),
        in_order(regions(final(list)@)),
{
    let ghost start = regions(list@);
    let mut i: usize = 0;
    while i < stacks.len()
        invariant
            i <= stacks.len(),
            regions(list@) == with_stacks(start, stacks@, i as int),
            in_order(regions(list@)),
        decreases stacks.len() - i,
    {
        let (tid, limit) = stacks[i];
        let mut usage = "Stack ~".to_owned();
        let number = to_decimal(tid as usize);
        usage.append(number.as_str());
        mark(list, limit, usage, MF_STACK);
        i += 1;
    }
}

fn mark_heaps(list: &mut Vec<UiMemory>, heaps: &Vec<usize>)
    requires
        in_order(regions(old(list)@)),
    ensures
        regions(final(list)@) == with_heaps(regions(old(list)@), heaps@, heaps.len() as int),
        in_order(regions(final(list)@)),
{
    let ghost start = regions(list@);
    let mut i: usize = 0;
    while i < heaps.len()
        invariant
            i <= heaps.len(),
            regions(list@) == with_heaps(start, heaps@, i as int),
            in_order(regions(list@)),
        decreases heaps.len() - i,
    {
        let mut usage = "Heap #".to_owned();
        let number = to_decimal(i);
        usage.append(number.as_str());
        mark(list, heaps[i], usage, MF_HEAP);
        i += 1;
    }
}

fn mark_files(list: &mut Vec<UiMemory>, files: &Vec<Option<MappedFile>>)
    requires
        in_order(regions(old(list)@)),
        files.len() == old(list).len(),
    ensures
        regions(final(list)@) == with_files(regions(old(list)@), files@, 0),
{
    let ghost start = regions(list@);
    let mut i: usize = 0;
    while i < list.len()
        invariant
            i <= list.len(),
            files.len() == list.len(),
            in_order(regions(list@)),
            with_files(start, files@, 0) == with_files(regions(list@), files@, i as int),
        decreases list.len() - i,
    {
        let ghost before = list@;
        let ghost seen = regions(before);
        assert(seen[i as int] == before[i as int]@);
        match &files[i] {
            Some(file) => {
                let mut m = list.remove(i);
                let module: usize = m.base;
                let flags: u32 = m.flags;
                m.usage = file.path.clone();
                list.insert(i, m);
                let ghost named = seen.update(
                    i as int,
                    Region { usage: file.path@, ..seen[i as int] },
                );
                assert(regions(list@) =~= named);
                proof {
                    lemma_same_order(seen, named);
                }
                let image: Option<&MappedImage> = match &file.image {
                    Some(image) => if flags & MF_IMAGE != 0 {
                        Some(image)
                    } else {
                        None
                    },
                    None => None,
                };
                if let Some(image) = image {
                    assert forall|k: int| i + 1 <= k < list.len() implies module
                        <= #[trigger] list@[k].base by {
                        assert(named[k] == list@[k]@);
                        assert(named[i as int].base <= named[k].base);
                    }
                    proof {
                        lemma_sections(named, *image, module, i + 1);
                        lemma_same_order(
                            named,
                            with_sections(named, *image, module, i + 1).0,
                        );
                    }
                    i = mark_sections(list, image, module, i + 1);
                } else {
                    i += 1;
                }
            },
            None => {
                i += 1;
            },
        }
    }
}

/// Regions in the same places are in the same order.
proof fn lemma_same_order(a: Seq<Region>, b: Seq<Region>)
    requires
        in_order(a),
        same_places(a, b),
    ensures
        in_order(b),
{
    assert forall|i: int, j: int| 0 <= i < j < b.len() implies (#[trigger] b[i]).base + b[i].size
        <= (#[trigger] b[j]).base by {
        assert(a[i].base + a[i].size <= a[j].base);
    }
    assert forall|i: int| 0 <= i < b.len() implies (#[trigger] b[i]).base + b[i].size
        <= usize::MAX by {
        assert(a[i].base + a[i].size <= usize::MAX);
    }
}

/// The map of a target's memory: what each region of it is used for. The stacks
/// are given by thread, the heaps as the process lists them, and for each page
/// the file mapped there.
pub fn get_memory_map(
    pages: &Vec<MemoryPage>,
    peb: usize,
    stacks: &Vec<(Tid, usize)>,
    heaps: &Vec<usize>,
    files: &Vec<Option<MappedFile>>,
) -> (r: Vec<UiMemory>)
    requires
        pages_in_order(pages@),
        files.len() == pages.len(),
    ensures
        regions(r@) == memory_map(pages@, peb, stacks@, heaps@, files@),
{
    let mut list: Vec<UiMemory> = Vec::new();
    let mut i: usize = 0;
    while i < pages.len()
        invariant
            i <= pages.len(),
            list.len() == i,
            forall|k: int| 0 <= k < i ==> #[trigger] list@[k]@ == plain_region(pages@[k], peb),
        decreases pages.len() - i,
    {
        list.push(new_region(&pages[i], peb));
        i += 1;
    }
    assert(regions(list@) =~= plain_regions(pages@, peb));
    assert(in_order(regions(list@))) by {
        let all = regions(list@);
        assert forall|a: int, b: int| 0 <= a < b < all.len() implies (#[trigger] all[a]).base
            + all[a].size <= (#[trigger] all[b]).base by {
            assert(pages@[a].base + pages@[a].size <= pages@[b].base);
        }
        assert forall|a: int| 0 <= a < all.len() implies (#[trigger] all[a]).base + all[a].size
            <= usize::MAX by {
            assert(pages@[a].base + pages@[a].size <= usize::MAX);
        }
    }
    proof {
        lemma_stacks(regions(list@), stacks@, stacks.len() as int);
    }
    mark_stacks(&mut list, stacks);
    proof {
        lemma_heaps(regions(list@), heaps@, heaps.len() as int);
    }
    mark_heaps(&mut list, heaps);
    mark_files(&mut list, files);
    list
}

/// Whether described regions lie one after the other.
pub fn check_order(pages: &Vec<MemoryPage>) -> (r: bool)
    ensures
        r == pages_in_order(pages@),
{
    let mut i: usize = 0;
    let mut end: usize = 0;
    while i < pages.len()
        invariant
            i <= pages.len(),
            forall|a: int|
                0 <= a < i ==> (#[trigger] pages@[a]).base + pages@[a].size <= end,
            forall|a: int, b: int|
                0 <= a < b < i ==> (#[trigger] pages@[a]).base + pages@[a].size <= (
                #[trigger] pages@[b]).base,
            i == 0 ==> end == 0,
            i > 0 ==> end == pages@[i - 1].base + pages@[i - 1].size,
        decreases pages.len() - i,
    {
        let page = &pages[i];
        if page.base < end || page.size > usize::MAX - page.base {
            assert(!pages_in_order(pages@)) by {
                if pages_in_order(pages@) {
                    assert(pages@[i as int].base + pages@[i as int].size <= usize::MAX);
                    if i > 0 {
                        assert(pages@[i - 1].base + pages@[i - 1].size <= pages@[i as int].base);
                    }
                }
            }
            return false;
        }
        end = page.base + page.size;
        i += 1;
    }
    true
}

/// The parts of an image's headers by which its sections are found.
#[derive(Clone, Copy, Debug, PartialEq, Eq, Structural)]
pub struct ImageNtHeaders {
    pub machine: u16,
    pub number_of_sections: u16,
    pub size_of_optional_header: u16,
    /// Size of the image, read as a header of 32 bits.
    pub size_32: u32,
    /// The same, read as a header of 64 bits.
    pub size_64: u32,
}

/// Distance of the optional header from the start of the headers.
pub const OPTIONAL_HEADER: usize = 24;

/// Headers of either width.
pub trait NtHeader {
    /// The machine number.
    spec fn machine_number(&self) -> u16;

    /// Whether the image is for 32-bit processors.
    fn is_32(&self) -> (r: bool)
        ensures
            r == (self.machine_number() == IMAGE_FILE_MACHINE_I386),
    ;
}

impl NtHeader for ImageNtHeaders {
    open spec fn machine_number(&self) -> u16 {
        self.machine
    }

    fn is_32(&self) -> (r: bool) {
        self.machine == IMAGE_FILE_MACHINE_I386
    }
}

impl ImageNtHeaders {
    /// Size of the image in memory.
    pub fn size_of_image(&self) -> (r: usize)
        ensures
            r == (if self.machine == IMAGE_FILE_MACHINE_I386 {
                self.size_32
            } else {
                self.size_64
            }),
    {
        if self.is_32() {
            self.size_32 as usize
        } else {
            self.size_64 as usize
        }
    }

    /// Where the headers of the sections start, behind the optional header; nothing
    /// where there is no such place in memory.
    pub fn section_table(&self, module: usize, nt_offset: usize) -> (r: Option<usize>)
        ensures
            ({
                let place = module + nt_offset + OPTIONAL_HEADER + self.size_of_optional_header;
                r == (if place <= usize::MAX {
                    Some(place as usize)
                } else {
                    None
                })
            }),
    {
        let headers: usize = match module.checked_add(nt_offset) {
            Some(n) => n,
            None => {
                return None;
            },
        };
        let optional: usize = match headers.checked_add(OPTIONAL_HEADER) {
            Some(n) => n,
            None => {
                return None;
            },
        };
        optional.checked_add(self.size_of_optional_header as usize)
    }
}

/// What a step of the walk over the memory came to.
pub enum MemoryStep {
    /// A region with memory behind it.
    Found(MemoryPage),
    /// Nothing yet; the walk goes on.
    More,
    End,
}

/// Where the walk goes with what the system says of the region at an address, and
/// what that step of it came to.
pub open spec fn advanced(address: usize, page: Option<MemoryPage>) -> (usize, MemoryStep) {
    match page {
        Some(p) => (
            (address + p.size) as usize,
            if p.commit {
                MemoryStep::Found(p)
            } else {
                MemoryStep::More
            },
        ),
        None => (address, MemoryStep::End),
    }
}

/// The first steps of a walk over memory of which the system always says the
/// same, and where the walk is after them.
pub open spec fn walk(query: spec_fn(usize) -> Option<MemoryPage>, steps: nat) -> (
    usize,
    Seq<MemoryStep>,
)
    decreases steps,
{
    if steps == 0 {
        (0, Seq::empty())
    } else {
        let (address, before) = walk(query, (steps - 1) as nat);
        let (next, step) = advanced(address, query(address));
        (next, before.push(step))
    }
}

/// Where the region of a number starts: the first at zero, each other one where
/// the one before it ends.
pub open spec fn region_start(query: spec_fn(usize) -> Option<MemoryPage>, k: nat) -> int
    decreases k,
{
    if k == 0 {
        0
    } else {
        let start = region_start(query, (k - 1) as nat);
        match query(start as usize) {
            Some(p) => start + p.size,
            None => start,
        }
    }
}

/// What the system says of the region of a number.
pub open spec fn region(query: spec_fn(usize) -> Option<MemoryPage>, k: nat) -> Option<MemoryPage> {
    query(region_start(query, k) as usize)
}

/// The regions that some steps of a walk found, in order.
pub open spec fn found(steps: Seq<MemoryStep>) -> Seq<MemoryPage>
    decreases steps.len(),
{
    if steps.len() == 0 {
        Seq::empty()
    } else {
        let init = found(steps.drop_last());
        match steps.last() {
            MemoryStep::Found(p) => init.push(p),
            _ => init,
        }
    }
}

/// The first regions of a memory, in order.
pub open spec fn first_regions(query: spec_fn(usize) -> Option<MemoryPage>, count: nat) -> Seq<
    MemoryPage,
> {
    Seq::new(count, |k: int| region(query, k as nat)->0)
}

/// A walk finds the regions with memory behind them, in order, none of them
/// skipped or repeated, up to the first region the system refuses to describe;
/// from there on it is at its end.
pub proof fn lemma_walk(
    query: spec_fn(usize) -> Option<MemoryPage>,
    described: nat,
    steps: nat,
)
    requires
        described <= steps,
        forall|k: nat| k < described ==> (#[trigger] region(query, k)) is Some,
        described < steps ==> region(query, described) is None,
        forall|k: nat| k <= described ==> #[trigger] region_start(query, k) <= usize::MAX,
    ensures
        walk(query, steps).0 == region_start(query, described),
        walk(query, steps).1.len() == steps,
        forall|k: int|
            0 <= k < described ==> #[trigger] walk(query, steps).1[k] == advanced(
                region_start(query, k as nat) as usize,
                region(query, k as nat),
            ).1,
        forall|k: int| described <= k < steps ==> #[trigger] walk(query, steps).1[k] is End,
        found(walk(query, steps).1) == first_regions(query, described).filter(
            |p: MemoryPage| p.commit,
        ),
    decreases steps,
{
    reveal(Seq::filter);
    let all = walk(query, steps).1;
    let regions = first_regions(query, described);
    if steps == 0 {
        assert(regions.filter(|p: MemoryPage| p.commit) =~= Seq::empty());
    } else {
        let last = (steps - 1) as nat;
        let before = walk(query, last).1;
        assert(all.drop_last() =~= before);
        if described < steps {
            lemma_walk(query, described, last);
        } else {
            assert(region(query, last) is Some);
            assert(region_start(query, last) <= usize::MAX);
            assert(region_start(query, described) <= usize::MAX);
            lemma_walk(query, last, last);
            lemma_region_starts(query, last);
            assert(regions.drop_last() =~= first_regions(query, last));
            assert(regions.last() == region(query, last)->0);
        }
        assert forall|k: int| 0 <= k < last implies all[k] == before[k] by {}
    }
}

/// No region starts before the memory does.
proof fn lemma_region_starts(query: spec_fn(usize) -> Option<MemoryPage>, k: nat)
    ensures
        0 <= region_start(query, k),
    decreases k,
{
    if k > 0 {
        lemma_region_starts(query, (k - 1) as nat);
    }
}

/// The next region with memory behind it from an address on, in memory of which the
/// system always says the same, and where the walk is after it.
pub open spec fn next_region(query: spec_fn(usize) -> Option<MemoryPage>, address: usize) -> (
    usize,
    Option<MemoryPage>,
)
    decreases usize::MAX - address,
{
    match query(address) {
        Some(p) => if p.commit {
            ((address + p.size) as usize, Some(p))
        } else if 0 < p.size <= usize::MAX - address {
            next_region(query, (address + p.size) as usize)
        } else {
            (address, None)
        },
        None => (address, None),
    }
}

/// What some calls for the next region give, one after the other.
pub open spec fn next_regions(
    query: spec_fn(usize) -> Option<MemoryPage>,
    address: usize,
    calls: nat,
) -> Seq<Option<MemoryPage>>
    decreases calls,
{
    if calls == 0 {
        Seq::empty()
    } else {
        let (next, r) = next_region(query, address);
        seq![r] + next_regions(query, next, (calls - 1) as nat)
    }
}

/// The regions with memory behind them among those from one number up to another.
pub open spec fn committed(query: spec_fn(usize) -> Option<MemoryPage>, from: nat, to: nat) -> Seq<
    MemoryPage,
>
    decreases to - from,
{
    if from >= to {
        Seq::empty()
    } else {
        let rest = committed(query, from + 1, to);
        match region(query, from) {
            Some(p) => if p.commit {
                seq![p] + rest
            } else {
                rest
            },
            None => rest,
        }
    }
}

/// Whether the system describes just the first regions of a memory, in such a way
/// that a walk over them comes to an end.
pub open spec fn describes(query: spec_fn(usize) -> Option<MemoryPage>, described: nat) -> bool {
    &&& forall|k: nat|
        k < described ==> ((#[trigger] region(query, k)) matches Some(p) && (p.commit || p.size > 0))
    &&& region(query, described) is None
    &&& forall|k: nat| k <= described ==> 0 <= #[trigger] region_start(query, k) <= usize::MAX
}

proof fn lemma_committed_last(
    query: spec_fn(usize) -> Option<MemoryPage>,
    from: nat,
    to: nat,
)
    requires
        from <= to,
        region(query, to) is Some,
    ensures
        committed(query, from, to + 1) == (if region(query, to)->0.commit {
            committed(query, from, to).push(region(query, to)->0)
        } else {
            committed(query, from, to)
        }),
    decreases to - from,
{
    if from < to {
        lemma_committed_last(query, from + 1, to);
    } else {
        assert(committed(query, to + 1, to + 1) =~= Seq::empty());
    }
    assert(committed(query, from, to + 1) =~= (if region(query, to)->0.commit {
        committed(query, from, to).push(region(query, to)->0)
    } else {
        committed(query, from, to)
    }));
}

proof fn lemma_committed(query: spec_fn(usize) -> Option<MemoryPage>, to: nat)
    requires
        forall|k: nat| k < to ==> (#[trigger] region(query, k)) is Some,
    ensures
        committed(query, 0, to) == first_regions(query, to).filter(|p: MemoryPage| p.commit),
    decreases to,
{
    reveal(Seq::filter);
    let regions = first_regions(query, to);
    if to > 0 {
        let last = (to - 1) as nat;
        assert(region(query, last) is Some);
        lemma_committed(query, last);
        lemma_committed_last(query, 0, last);
        assert(regions.drop_last() =~= first_regions(query, last));
        assert(regions.last() == region(query, last)->0);
    }
}

/// Where the next region with memory behind it is found from a region on, and what
/// is left after it.
proof fn lemma_next(
    query: spec_fn(usize) -> Option<MemoryPage>,
    from: nat,
    described: nat,
) -> (after: nat)
    requires
        describes(query, described),
        from <= described,
    ensures
        from <= after <= described,
        ({
            let left = committed(query, from, described);
            let (next, r) = next_region(query, region_start(query, from) as usize);
            &&& next == region_start(query, after)
            &&& left.len() == 0 ==> r is None && after == described
            &&& left.len() > 0 ==> r == Some(left[0]) && committed(query, after, described)
                == left.skip(1)
        }),
    decreases described - from,
{
    let start = region_start(query, from);
    assert(0 <= start <= usize::MAX);
    if from == described {
        assert(region(query, described) is None);
        from
    } else {
        let p = region(query, from)->0;
        assert(region(query, from) is Some);
        assert(region_start(query, from + 1) == start + p.size);
        assert(0 <= region_start(query, from + 1) <= usize::MAX);
        if p.commit {
            let left = committed(query, from, described);
            assert(left.skip(1) =~= committed(query, from + 1, described));
            from + 1
        } else {
            lemma_next(query, from + 1, described)
        }
    }
}

proof fn lemma_nexts_from(
    query: spec_fn(usize) -> Option<MemoryPage>,
    from: nat,
    described: nat,
    calls: nat,
)
    requires
        describes(query, described),
        from <= described,
    ensures
        ({
            let left = committed(query, from, described);
            let all = next_regions(query, region_start(query, from) as usize, calls);
            &&& all.len() == calls
            &&& forall|i: int|
                0 <= i < calls ==> #[trigger] all[i] == (if i < left.len() {
                    Some(left[i])
                } else {
                    None
                })
        }),
    decreases calls,
{
    if calls > 0 {
        let start = region_start(query, from) as usize;
        let left = committed(query, from, described);
        let after = lemma_next(query, from, described);
        lemma_nexts_from(query, after, described, (calls - 1) as nat);
        let (next, r) = next_region(query, start);
        assert(0 <= region_start(query, after) <= usize::MAX);
        let rest = next_regions(query, next, (calls - 1) as nat);
        let all = next_regions(query, start, calls);
        assert forall|i: int| 0 <= i < calls implies #[trigger] all[i] == (if i < left.len() {
            Some(left[i])
        } else {
            None
        }) by {
            if i > 0 {
                assert(all[i] == rest[i - 1]);
                if left.len() == 0 {
                    assert(committed(query, described, described) =~= Seq::empty());
                }
            }
        }
    }
}

/// Calls for the next region, from the start of the memory on, give the regions with
/// memory behind them in order, none of them skipped or repeated, up to the first
/// region the system refuses to describe; from there on they give nothing.
pub proof fn lemma_nexts(
    query: spec_fn(usize) -> Option<MemoryPage>,
    described: nat,
    calls: nat,
)
    requires
        describes(query, described),
    ensures
        ({
            let regions = first_regions(query, described).filter(|p: MemoryPage| p.commit);
            let all = next_regions(query, 0, calls);
            &&& all.len() == calls
            &&& forall|i: int|
                0 <= i < calls ==> #[trigger] all[i] == (if i < regions.len() {
                    Some(regions[i])
                } else {
                    None
                })
        }),
{
    lemma_committed(query, described);
    lemma_nexts_from(query, 0, described, calls);
}

proof fn lemma_committed_order(
    query: spec_fn(usize) -> Option<MemoryPage>,
    from: nat,
    described: nat,
)
    requires
        describes(query, described),
        from <= described,
        forall|k: nat|
            k < described ==> (#[trigger] region(query, k))->0.base == region_start(query, k),
    ensures
        pages_in_order(committed(query, from, described)),
        forall|i: int|
            0 <= i < committed(query, from, described).len() ==> region_start(query, from)
                <= (#[trigger] committed(query, from, described)[i]).base,
    decreases described - from,
{
    if from < described {
        let p = region(query, from)->0;
        assert(region(query, from) is Some);
        assert(region_start(query, from + 1) == region_start(query, from) + p.size);
        assert(region_start(query, from + 1) <= usize::MAX);
        let rest = committed(query, from + 1, described);
        lemma_committed_order(query, from + 1, described);
        if p.commit {
            let all = committed(query, from, described);
            assert forall|i: int| 0 <= i < all.len() implies {
                &&& region_start(query, from) <= (#[trigger] all[i]).base
                &&& all[i].base + all[i].size <= usize::MAX
            } by {
                if i > 0 {
                    assert(all[i] == rest[i - 1]);
                }
            }
            assert forall|i: int, j: int| 0 <= i < j < all.len() implies (#[trigger] all[i]).base
                + all[i].size <= (#[trigger] all[j]).base by {
                assert(all[j] == rest[j - 1]);
                if i > 0 {
                    assert(all[i] == rest[i - 1]);
                }
            }
        }
    }
}

/// The regions that a walk finds lie one after the other, where the system describes
/// the region that starts at the very address it is asked for. They can be made a
/// map of.
pub proof fn lemma_found_in_order(query: spec_fn(usize) -> Option<MemoryPage>, described: nat)
    requires
        describes(query, described),
        forall|k: nat|
            k < described ==> (#[trigger] region(query, k))->0.base == region_start(query, k),
    ensures
        pages_in_order(first_regions(query, described).filter(|p: MemoryPage| p.commit)),
{
    lemma_committed(query, described);
    lemma_committed_order(query, 0, described);
}

/// Whether a function that asks the system finds memory of which it always says the
/// same.
pub open spec fn agrees<F: Fn(usize) -> Option<MemoryPage>>(
    ask: F,
    query: spec_fn(usize) -> Option<MemoryPage>,
) -> bool {
    forall|address: usize, page: Option<MemoryPage>|
        call_ensures(ask, (address,), page) ==> page == query(address)
}

/// The end of some regions that lie one after the other from an address on.
pub open spec fn end_of(address: int, pages: Seq<MemoryPage>) -> int
    decreases pages.len(),
{
    if pages.len() == 0 {
        address
    } else {
        end_of(address, pages.drop_last()) + pages.last().size
    }
}

/// Whether some regions without memory behind them are what the system was found to
/// say from an address on.
pub open spec fn are_skipped<F: Fn(usize) -> Option<MemoryPage>>(
    ask: F,
    address: int,
    pages: Seq<MemoryPage>,
) -> bool {
    forall|k: int|
        0 <= k < pages.len() ==> {
            &&& !(#[trigger] pages[k]).commit
            &&& call_ensures(ask, (end_of(address, pages.take(k)) as usize,), Some(pages[k]))
        }
}

/// A walk over the memory of a target.
pub struct MemoryIter {
    /// Where the system is asked next.
    pub address: usize,
}

impl MemoryIter {
    /// A walk from the start of the memory.
    pub fn new() -> (r: MemoryIter)
        ensures
            r.address == 0,
    {
        MemoryIter { address: 0 }
    }

    /// The next region with memory behind it, found by asking the system for one
    /// region after the other; nothing where it refuses to describe one. The walk is
    /// then behind the region that was found, or at the one that was refused.
    pub fn next<F: Fn(usize) -> Option<MemoryPage>>(&mut self, ask: F) -> (r: Option<MemoryPage>)
        requires
            forall|address: usize| #[trigger] call_requires(ask, (address,)),
            forall|address: usize, page: Option<MemoryPage>| #[trigger]
                call_ensures(ask, (address,), page) ==> (page matches Some(p) ==> {
                    &&& address + p.size <= usize::MAX
                    &&& p.commit || p.size > 0
                }),
        ensures
            exists|skipped: Seq<MemoryPage>|
                {
                    let at = end_of(old(self).address as int, skipped);
                    &&& #[trigger] are_skipped(ask, old(self).address as int, skipped)
                    &&& 0 <= at <= usize::MAX
                    &&& call_ensures(ask, (at as usize,), r)
                    &&& match r {
                        Some(p) => p.commit && final(self).address == at + p.size,
                        None => final(self).address == at,
                    }
                },
            forall|query: spec_fn(usize) -> Option<MemoryPage>| #[trigger]
                agrees(ask, query) ==> final(self).address == next_region(
                    query,
                    old(self).address,
                ).0 && r == next_region(query, old(self).address).1,
    {
        let ghost start = self.address;
        let ghost mut skipped: Seq<MemoryPage> = Seq::empty();
        loop
            invariant
                forall|address: usize| #[trigger] call_requires(ask, (address,)),
                forall|address: usize, page: Option<MemoryPage>| #[trigger]
                    call_ensures(ask, (address,), page) ==> (page matches Some(p) ==> {
                        &&& address + p.size <= usize::MAX
                        &&& p.commit || p.size > 0
                    }),
                start == old(self).address,
                self.address == end_of(start as int, skipped),
                are_skipped(ask, start as int, skipped),
                forall|query: spec_fn(usize) -> Option<MemoryPage>| #[trigger]
                    agrees(ask, query) ==> next_region(query, self.address) == next_region(
                        query,
                        start,
                    ),
            decreases usize::MAX - self.address,
        {
            let page = ask(self.address);
            let ghost answer = page;
            match self.advance(page) {
                MemoryStep::Found(p) => {
                    assert(are_skipped(ask, start as int, skipped));
                    return Some(p);
                },
                MemoryStep::More => {
                    proof {
                        let p = answer->0;
                        let more = skipped.push(p);
                        assert(more.drop_last() =~= skipped);
                        assert forall|k: int| 0 <= k < more.len() implies {
                            &&& !(#[trigger] more[k]).commit
                            &&& call_ensures(
                                ask,
                                (end_of(start as int, more.take(k)) as usize,),
                                Some(more[k]),
                            )
                        } by {
                            if k < skipped.len() {
                                assert(more.take(k) =~= skipped.take(k));
                                assert(more[k] == skipped[k]);
                            } else {
                                assert(more.take(k) =~= skipped);
                            }
                        }
                        skipped = more;
                    }
                },
                MemoryStep::End => {
                    assert(are_skipped(ask, start as int, skipped));
                    return None;
                },
            }
        }
    }

    /// Takes in what the system says of the region at the walk's address.
    pub fn advance(&mut self, page: Option<MemoryPage>) -> (r: MemoryStep)
        requires
            page matches Some(p) ==> old(self).address + p.size <= usize::MAX,
        ensures
            final(self).address == advanced(old(self).address, page).0,
            r == advanced(old(self).address, page).1,
    {
        match page {
            Some(p) => {
                self.address = self.address + p.size;
                if p.commit {
                    MemoryStep::Found(p)
                } else {
                    MemoryStep::More
                }
            },
            None => MemoryStep::End,
        }
    }
}

} // verus!
