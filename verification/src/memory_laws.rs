//! What a region of the memory map shows, told from what is known of the memory.
use vstd::prelude::*;

use crate::memory::{
    as_section, covers, heap_list, in_order, lemma_sections, memory_map, name_bytes, pages_in_order,
    plain_region, plain_regions, regions, section_at, with_file, with_files, with_heaps,
    with_sections, with_stacks, MappedFile, MappedImage, MemoryPage, Region, Section, UiMemory,
};
use crate::text::{decimal, text_of};
use crate::types::Tid;

verus! {

/// Whether a section is the first of its image at some distance from its start.
pub open spec fn is_first_at(sections: Seq<Section>, distance: int, k: int) -> bool {
    &&& 0 <= k < sections.len()
    &&& sections[k].address == distance
    &&& forall|j: int| 0 <= j < k ==> (#[trigger] sections[j]).address != distance
}

/// A section is found at a distance exactly where one of the image has that
/// address, and it is the first of those that have.
pub proof fn lemma_section_at(sections: Seq<Section>, distance: int)
    ensures
        section_at(sections, distance) is Some <==> exists|k: int|
            0 <= k < sections.len() && (#[trigger] sections[k]).address == distance,
        forall|k: int| #[trigger]
            is_first_at(sections, distance, k) ==> section_at(sections, distance) == Some(
                sections[k],
            ),
        section_at(sections, distance) matches Some(s) ==> exists|k: int| #[trigger]
            is_first_at(sections, distance, k) && sections[k] == s,
    decreases sections.len(),
{
    if sections.len() > 0 {
        let rest = sections.skip(1);
        lemma_section_at(rest, distance);
        if sections[0].address == distance {
            assert(is_first_at(sections, distance, 0));
            assert forall|k: int| #[trigger] is_first_at(sections, distance, k) implies k == 0 by {
                if k > 0 {
                    assert(sections[0].address != distance);
                }
            }
        } else {
            assert forall|k: int| #[trigger]
                is_first_at(sections, distance, k) implies is_first_at(rest, distance, k - 1)
                && rest[k - 1] == sections[k] by {
                assert forall|j: int| 0 <= j < k - 1 implies (#[trigger] rest[j]).address
                    != distance by {
                    assert(rest[j] == sections[j + 1]);
                }
            }
            assert forall|k: int| #[trigger] is_first_at(rest, distance, k) implies is_first_at(
                sections,
                distance,
                k + 1,
            ) && rest[k] == sections[k + 1] by {
                assert forall|j: int| 0 <= j < k + 1 implies (#[trigger] sections[j]).address
                    != distance by {
                    if j > 0 {
                        assert(rest[j - 1] == sections[j]);
                    }
                }
            }
            if exists|k: int|
                0 <= k < sections.len() && (#[trigger] sections[k]).address == distance {
                let k = choose|k: int|
                    0 <= k < sections.len() && (#[trigger] sections[k]).address == distance;
                assert(rest[k - 1].address == distance);
            }
            if let Some(s) = section_at(rest, distance) {
                let k = choose|k: int| #[trigger]
                    is_first_at(rest, distance, k) && rest[k] == s;
                assert(is_first_at(sections, distance, k + 1));
            }
            if section_at(sections, distance) is Some {
                let k = choose|k: int|
                    0 <= k < rest.len() && (#[trigger] rest[k]).address == distance;
                assert(sections[k + 1].address == distance);
            }
        }
    }
}

/// Whether a name of eight bytes is `n` bytes long: none of these is a zero, and
/// a zero or the end follows.
pub open spec fn is_name_length(name: Seq<u8>, n: int) -> bool {
    &&& 0 <= n <= name.len()
    &&& forall|i: int| 0 <= i < n ==> #[trigger] name[i] != 0
    &&& n < name.len() ==> name[n] == 0
}

/// The bytes of a section's name are those before its first zero.
pub proof fn lemma_name_bytes(name: Seq<u8>)
    ensures
        is_name_length(name, name_bytes(name).len() as int),
        name_bytes(name) == name.take(name_bytes(name).len() as int),
    decreases name.len(),
{
    if name.len() > 0 && name[0] != 0 {
        let rest = name.skip(1);
        lemma_name_bytes(rest);
        let n = name_bytes(name).len() as int;
        assert(n == name_bytes(rest).len() + 1);
        assert(name_bytes(name) =~= name.take(n));
        assert forall|i: int| 0 <= i < n implies #[trigger] name[i] != 0 by {
            if i > 0 {
                assert(rest[i - 1] == name[i]);
            }
        }
        if n < name.len() {
            assert(rest[n - 1] == name[n]);
        }
    } else {
        assert(name_bytes(name) =~= name.take(0));
    }
}

/// Whether a region inside an image is shown with the first section that starts
/// there, or as it was where none does.
pub open spec fn shows_section(r: Region, sections: Seq<Section>, distance: int, shown: Region) ->
    bool {
    &&& forall|k: int, n: int|
        #![trigger is_first_at(sections, distance, k), is_name_length(sections[k].name@, n)]
        is_first_at(sections, distance, k) && is_name_length(sections[k].name@, n) ==> shown == (
        Region { usage: text_of(sections[k].name@.take(n)), flags: r.flags | 0x08, ..r })
    &&& (forall|k: int| 0 <= k < sections.len() ==> (#[trigger] sections[k]).address != distance)
        ==> shown == r
}

/// What a section makes of a region that starts where it does.
pub proof fn lemma_as_section(r: Region, sections: Seq<Section>, module: usize)
    ensures
        shows_section(r, sections, r.base - module, as_section(r, sections, module)),
{
    let distance = r.base - module;
    lemma_section_at(sections, distance);
    assert forall|k: int, n: int|
        #![trigger is_first_at(sections, distance, k), is_name_length(sections[k].name@, n)]
        is_first_at(sections, distance, k) && is_name_length(sections[k].name@, n) implies
        as_section(r, sections, module) == (Region {
        usage: text_of(sections[k].name@.take(n)),
        flags: r.flags | 0x08,
        ..r
    }) by {
        let name = sections[k].name@;
        lemma_name_bytes(name);
        let m = name_bytes(name).len() as int;
        assert(m == n) by {
            if m < n {
                assert(name[m] != 0);
            } else if n < m {
                assert(name[n] != 0);
            }
        }
    }
}

/// Whether a region starts a mapped image whose headers are known.
pub open spec fn starts_image(list: Seq<Region>, files: Seq<Option<MappedFile>>, i: int) -> bool {
    list[i].flags & 0x01 != 0 && (files[i] matches Some(f) && f.image is Some)
}

/// The size that the image of a mapped file gives itself.
pub open spec fn image_size(files: Seq<Option<MappedFile>>, i: int) -> usize {
    files[i]->0.image->0.size
}

/// Whether a region lies inside an image that starts at one before it.
pub open spec fn inside(list: Seq<Region>, files: Seq<Option<MappedFile>>, k: int) -> bool
    decreases k,
{
    exists|i: int|
        #![trigger starts_image(list, files, i)]
        0 <= i < k && !inside(list, files, i) && starts_image(list, files, i) && list[k].base
            - list[i].base < image_size(files, i)
}

/// Whether a region lies inside the image that starts at region `i`.
pub open spec fn inside_of(list: Seq<Region>, files: Seq<Option<MappedFile>>, i: int, k: int) -> bool {
    &&& 0 <= i < k
    &&& !inside(list, files, i)
    &&& starts_image(list, files, i)
    &&& list[k].base - list[i].base < image_size(files, i)
}

/// Whether a region is shown as the mapped files say: inside an image with its
/// section, elsewhere with the path of the file mapped there, if one is.
pub open spec fn shows_file(
    list: Seq<Region>,
    files: Seq<Option<MappedFile>>,
    k: int,
    shown: Region,
) -> bool {
    &&& !inside(list, files, k) ==> shown == (match files[k] {
        Some(file) => Region { usage: file.path@, ..list[k] },
        None => list[k],
    })
    &&& forall|i: int| #[trigger]
        inside_of(list, files, i, k) ==> shows_section(
            list[k],
            files[i]->0.image->0.sections@,
            list[k].base - list[i].base,
            shown,
        )
}

/// The regions that are looked at for sections all lie inside the image.
proof fn lemma_sections_within(list: Seq<Region>, image: MappedImage, module: usize, i: int)
    requires
        0 <= i <= list.len(),
    ensures
        forall|k: int|
            i <= k < with_sections(list, image, module, i).1 ==> (#[trigger] list[k]).base - module
                < image.size,
    decreases list.len() - i,
{
    if i < list.len() && list[i].base - module < image.size {
        let next = list.update(i, as_section(list[i], image.sections@, module));
        lemma_sections_within(next, image, module, i + 1);
        assert forall|k: int|
            i <= k < with_sections(list, image, module, i).1 implies (#[trigger] list[k]).base
            - module < image.size by {
            if k > i {
                lemma_sections(next, image, module, i + 1);
                assert(next[k] == list[k]);
            }
        }
    }
}

proof fn lemma_files_from(
    list: Seq<Region>,
    seen: Seq<Region>,
    files: Seq<Option<MappedFile>>,
    i: int,
    k: int,
)
    requires
        in_order(list),
        files.len() == list.len(),
        seen.len() == list.len(),
        0 <= i <= list.len(),
        0 <= k < list.len(),
        forall|m: int| i <= m < list.len() ==> #[trigger] seen[m] == list[m],
        i < list.len() ==> !inside(list, files, i),
    ensures
        k < i ==> with_files(seen, files, i)[k] == seen[k],
        k >= i ==> shows_file(list, files, k, with_files(seen, files, i)[k]),
    decreases list.len() - i,
{
    if i < list.len() {
        match files[i] {
            Some(file) => {
                let named = seen.update(i, Region { usage: file.path@, ..seen[i] });
                let (next, j) = with_file(seen, file, i);
                let images = starts_image(list, files, i);
                if images {
                    lemma_sections(named, file.image->0, list[i].base, i + 1);
                    lemma_sections_within(named, file.image->0, list[i].base, i + 1);
                    assert forall|m: int| i < m < j implies (#[trigger] list[m]).base
                        - list[i].base < image_size(files, i) by {
                        assert(named[m] == list[m]);
                    }
                }
                assert forall|m: int| j <= m < list.len() implies #[trigger] next[m] == list[m] by {
                    if images {
                        assert(next[m] == named[m]);
                    }
                }
                if j < list.len() {
                    if images {
                        assert(list[j].base - list[i].base >= image_size(files, i)) by {
                            assert(named[j].base == list[j].base);
                        }
                    }
                    assert(!inside(list, files, j)) by {
                        lemma_next_outside(list, files, i, j);
                    }
                }
                lemma_files_from(list, next, files, j, k);
                if i <= k < j {
                    if k == i {
                        assert(next[k] == named[k]);
                        lemma_outside(list, files, k);
                    } else {
                        assert(named[k] == list[k]);
                        lemma_inside_run(list, files, i, j, k);
                        lemma_as_section(
                            list[k],
                            file.image->0.sections@,
                            list[i].base,
                        );
                        assert(next[k] == as_section(
                            named[k],
                            file.image->0.sections@,
                            list[i].base,
                        ));
                    }
                }
            },
            None => {
                if i + 1 < list.len() {
                    lemma_next_outside(list, files, i, i + 1);
                }
                lemma_files_from(list, seen, files, i + 1, k);
                if k == i {
                    lemma_outside(list, files, k);
                }
            },
        }
    }
}

proof fn lemma_outside(list: Seq<Region>, files: Seq<Option<MappedFile>>, k: int)
    requires
        !inside(list, files, k),
    ensures
        forall|i: int| !#[trigger] inside_of(list, files, i, k),
{
    assert forall|i: int| !#[trigger] inside_of(list, files, i, k) by {
        assert(starts_image(list, files, i) || !starts_image(list, files, i));
    }
}

/// The region behind an image, or behind a region that starts none, lies in none.
proof fn lemma_next_outside(list: Seq<Region>, files: Seq<Option<MappedFile>>, i: int, j: int)
    requires
        in_order(list),
        0 <= i < j < list.len(),
        !inside(list, files, i),
        starts_image(list, files, i) ==> {
            &&& list[j].base - list[i].base >= image_size(files, i)
            &&& forall|m: int|
                i < m < j ==> (#[trigger] list[m]).base - list[i].base < image_size(files, i)
        },
        !starts_image(list, files, i) ==> j == i + 1,
    ensures
        !inside(list, files, j),
{
    if inside(list, files, j) {
        let p = choose|p: int|
            #![trigger starts_image(list, files, p)]
            0 <= p < j && !inside(list, files, p) && starts_image(list, files, p) && list[j].base
                - list[p].base < image_size(files, p);
        assert(list[i].base + list[i].size <= list[j].base);
        if p < i {
            assert(starts_image(list, files, p));
            assert(inside(list, files, i));
        } else if p > i {
            assert(starts_image(list, files, i));
            assert(list[p].base - list[i].base < image_size(files, i));
            assert(inside(list, files, p));
        }
    }
}

/// Every region between the first of an image and the next outside lies in that
/// image and in no other.
proof fn lemma_inside_run(
    list: Seq<Region>,
    files: Seq<Option<MappedFile>>,
    i: int,
    j: int,
    k: int,
)
    requires
        in_order(list),
        0 <= i < k < j <= list.len(),
        !inside(list, files, i),
        starts_image(list, files, i),
        forall|m: int| i < m < j ==> (#[trigger] list[m]).base - list[i].base < image_size(files, i),
    ensures
        inside(list, files, k),
        forall|p: int| #[trigger] inside_of(list, files, p, k) ==> p == i,
{
    assert(list[k].base - list[i].base < image_size(files, i));
    assert forall|p: int| #[trigger] inside_of(list, files, p, k) implies p == i by {
        if p < i {
            assert(list[i].base + list[i].size <= list[k].base);
            assert(inside(list, files, i));
        } else if p > i {
            assert(list[p].base - list[i].base < image_size(files, i));
            assert(inside(list, files, p));
        }
    }
}

/// Whether an address lies in a region.
pub open spec fn within(r: Region, address: usize) -> bool {
    r.base <= address < r.base + r.size
}

/// Whether a place in a list is the last whose address lies in a region.
pub open spec fn is_last_in(r: Region, list: Seq<usize>, j: int) -> bool {
    &&& 0 <= j < list.len()
    &&& within(r, list[j])
    &&& forall|m: int| j < m < list.len() ==> !within(r, #[trigger] list[m])
}

/// Whether no address of a list lies in a region.
pub open spec fn none_in(r: Region, list: Seq<usize>) -> bool {
    forall|j: int| 0 <= j < list.len() ==> !within(r, #[trigger] list[j])
}

proof fn lemma_last_in(r: Region, list: Seq<usize>, address: usize)
    ensures
        within(r, address) ==> !none_in(r, list.push(address)) && forall|j: int|
            #[trigger] is_last_in(r, list.push(address), j) <==> j == list.len(),
        !within(r, address) ==> none_in(r, list.push(address)) == none_in(r, list) && forall|j: int|
            #[trigger] is_last_in(r, list.push(address), j) <==> is_last_in(r, list, j),
{
    let more = list.push(address);
    let n = list.len() as int;
    assert(more[n] == address);
    assert forall|i: int| 0 <= i < n implies more[i] == list[i] by {}
    if within(r, address) {
        assert forall|j: int| #[trigger] is_last_in(r, more, j) <==> j == n by {
            if is_last_in(r, more, j) && j < n {
                assert(!within(r, more[n]));
            }
        }
    } else {
        if none_in(r, list) {
            assert forall|j: int| 0 <= j < more.len() implies !within(r, #[trigger] more[j]) by {
                if j < n {
                    assert(!within(r, list[j]));
                }
            }
        }
        if none_in(r, more) {
            assert forall|j: int| 0 <= j < n implies !within(r, #[trigger] list[j]) by {
                assert(!within(r, more[j]));
            }
        }
        assert forall|j: int| #[trigger] is_last_in(r, more, j) <==> is_last_in(r, list, j) by {
            if is_last_in(r, list, j) {
                assert forall|m: int| j < m < more.len() implies !within(r, #[trigger] more[m]) by {
                    if m < n {
                        assert(!within(r, list[m]));
                    }
                }
            }
            if is_last_in(r, more, j) {
                assert(j != n);
                assert forall|m: int| j < m < n implies !within(r, #[trigger] list[m]) by {
                    assert(!within(r, more[m]));
                }
            }
        }
    }
}

/// The limits of some stacks.
pub open spec fn limits(stacks: Seq<(Tid, usize)>) -> Seq<usize> {
    Seq::new(stacks.len(), |i: int| stacks[i].1)
}

/// Whether a region is shown with the last of the stacks whose limit lies in it.
pub open spec fn shows_stack(r: Region, stacks: Seq<(Tid, usize)>, shown: Region) -> bool {
    &&& none_in(r, limits(stacks)) ==> shown == r
    &&& forall|j: int| #[trigger]
        is_last_in(r, limits(stacks), j) ==> shown == (Region {
            usage: "Stack ~"@ + decimal(stacks[j].0 as nat),
            flags: r.flags | 0x10,
            ..r
        })
}

proof fn lemma_stacks_shown(list: Seq<Region>, stacks: Seq<(Tid, usize)>, k: int)
    requires
        0 <= k < list.len(),
    ensures
        shows_stack(list[k], stacks, with_stacks(list, stacks, stacks.len() as int)[k]),
        with_stacks(list, stacks, stacks.len() as int).len() == list.len(),
    decreases stacks.len(),
{
    if stacks.len() > 0 {
        let last = stacks.len() - 1;
        let init = stacks.drop_last();
        lemma_stacks_shown(list, init, k);
        lemma_same_stacks(list, stacks, init, last);
        let r = list[k];
        lemma_stacks_kept(list, init, last, k);
        let f = r.flags;
        assert((f | 0x10) | 0x10 == f | 0x10) by (bit_vector);
        assert(limits(stacks) =~= limits(init).push(stacks[last].1));
        lemma_last_in(r, limits(init), stacks[last].1);
        let before = with_stacks(list, stacks, last)[k];
        let after = with_stacks(list, stacks, last + 1)[k];
        assert(after == (if within(r, stacks[last].1) {
            Region {
                usage: "Stack ~"@ + decimal(stacks[last].0 as nat),
                flags: before.flags | 0x10,
                ..before
            }
        } else {
            before
        }));
    }
}

proof fn lemma_same_stacks(
    list: Seq<Region>,
    a: Seq<(Tid, usize)>,
    b: Seq<(Tid, usize)>,
    n: int,
)
    requires
        0 <= n <= a.len(),
        n <= b.len(),
        forall|i: int| 0 <= i < n ==> a[i] == b[i],
    ensures
        with_stacks(list, a, n) == with_stacks(list, b, n),
    decreases n,
{
    if n > 0 {
        lemma_same_stacks(list, a, b, n - 1);
    }
}

/// Stacks leave a region where it is, and add no more than their own flag.
proof fn lemma_stacks_kept(list: Seq<Region>, stacks: Seq<(Tid, usize)>, n: int, k: int)
    requires
        0 <= k < list.len(),
    ensures
        ({
            let all = with_stacks(list, stacks, n);
            &&& all.len() == list.len()
            &&& all[k].flags == list[k].flags || all[k].flags == list[k].flags | 0x10
            &&& all[k] == (Region { usage: all[k].usage, flags: all[k].flags, ..list[k] })
        }),
    decreases n,
{
    if n > 0 {
        lemma_stacks_kept(list, stacks, n - 1, k);
        let f = list[k].flags;
        assert((f | 0x10) | 0x10 == f | 0x10) by (bit_vector);
    }
}

/// Whether a region is shown with the last of the heaps that start in it.
pub open spec fn shows_heap(r: Region, heaps: Seq<usize>, shown: Region) -> bool {
    &&& none_in(r, heaps) ==> shown == r
    &&& forall|j: int| #[trigger]
        is_last_in(r, heaps, j) ==> shown == (Region {
            usage: "Heap #"@ + decimal(j as nat),
            flags: r.flags | 0x20,
            ..r
        })
}

proof fn lemma_heaps_shown(list: Seq<Region>, heaps: Seq<usize>, k: int)
    requires
        0 <= k < list.len(),
    ensures
        shows_heap(list[k], heaps, with_heaps(list, heaps, heaps.len() as int)[k]),
        with_heaps(list, heaps, heaps.len() as int).len() == list.len(),
    decreases heaps.len(),
{
    if heaps.len() > 0 {
        let last = heaps.len() - 1;
        let init = heaps.drop_last();
        lemma_heaps_shown(list, init, k);
        lemma_same_heaps(list, heaps, init, last);
        let r = list[k];
        lemma_heaps_kept(list, init, last, k);
        let f = r.flags;
        assert((f | 0x20) | 0x20 == f | 0x20) by (bit_vector);
        assert(heaps =~= init.push(heaps[last]));
        lemma_last_in(r, init, heaps[last]);
        let before = with_heaps(list, heaps, last)[k];
        let after = with_heaps(list, heaps, last + 1)[k];
        assert(after == (if within(r, heaps[last]) {
            Region {
                usage: "Heap #"@ + decimal(last as nat),
                flags: before.flags | 0x20,
                ..before
            }
        } else {
            before
        }));
    }
}

proof fn lemma_same_heaps(list: Seq<Region>, a: Seq<usize>, b: Seq<usize>, n: int)
    requires
        0 <= n <= a.len(),
        n <= b.len(),
        forall|i: int| 0 <= i < n ==> a[i] == b[i],
    ensures
        with_heaps(list, a, n) == with_heaps(list, b, n),
    decreases n,
{
    if n > 0 {
        lemma_same_heaps(list, a, b, n - 1);
    }
}

/// Heaps leave a region where it is, and add no more than their own flag.
proof fn lemma_heaps_kept(list: Seq<Region>, heaps: Seq<usize>, n: int, k: int)
    requires
        0 <= k < list.len(),
    ensures
        ({
            let all = with_heaps(list, heaps, n);
            &&& all.len() == list.len()
            &&& all[k].flags == list[k].flags || all[k].flags == list[k].flags | 0x20
            &&& all[k] == (Region { usage: all[k].usage, flags: all[k].flags, ..list[k] })
        }),
    decreases n,
{
    if n > 0 {
        lemma_heaps_kept(list, heaps, n - 1, k);
        let f = list[k].flags;
        assert((f | 0x20) | 0x20 == f | 0x20) by (bit_vector);
    }
}

/// Whether a region is shown as its page alone says.
pub open spec fn shows_page(page: MemoryPage, peb: usize, shown: Region) -> bool {
    &&& shown.alloc_base == page.alloc_base
    &&& shown.base == page.base
    &&& shown.size == page.size
    &&& shown.type_ == page.kind_name@
    &&& shown.protect == page.protect@
    &&& ({
        let kind: u32 = if page.type_ == 0x20000 {
            0x04
        } else if page.type_ == 0x40000 {
            0x02
        } else if page.type_ == 0x1000000 {
            0x01
        } else {
            0
        };
        if page.base == 0x7ffe0000 {
            shown.usage == "KUSER_SHARED_DATA"@ && shown.flags == kind
        } else if page.base == peb {
            shown.usage == "PEB"@ && shown.flags == kind | 0x40
        } else {
            shown.usage == Seq::<char>::empty() && shown.flags == kind
        }
    })
}

/// Whether a page starts a mapped image whose headers are known.
pub open spec fn page_starts_image(
    pages: Seq<MemoryPage>,
    files: Seq<Option<MappedFile>>,
    i: int,
) -> bool {
    pages[i].type_ == 0x1000000 && (files[i] matches Some(f) && f.image is Some)
}

/// What the map shows of each page, in this order: what the page itself says, the
/// last of the stacks in it, the last of the heaps in it, and the file mapped there
/// or, inside an image, the section that starts there.
pub proof fn lemma_map_shows(
    pages: Seq<MemoryPage>,
    peb: usize,
    stacks: Seq<(Tid, usize)>,
    heaps: Seq<usize>,
    files: Seq<Option<MappedFile>>,
    k: int,
) -> (lists: (Seq<Region>, Seq<Region>, Seq<Region>))
    requires
        pages_in_order(pages),
        files.len() == pages.len(),
        0 <= k < pages.len(),
    ensures
        lists.0.len() == pages.len(),
        lists.1.len() == pages.len(),
        lists.2.len() == pages.len(),
        memory_map(pages, peb, stacks, heaps, files).len() == pages.len(),
        forall|i: int|
            #![trigger lists.0[i]]
            #![trigger lists.1[i]]
            #![trigger lists.2[i]]
            0 <= i < pages.len() ==> {
                &&& shows_page(pages[i], peb, lists.0[i])
                &&& shows_stack(lists.0[i], stacks, lists.1[i])
                &&& shows_heap(lists.1[i], heaps, lists.2[i])
                &&& starts_image(lists.2, files, i) <==> page_starts_image(pages, files, i)
                &&& lists.2[i].base == pages[i].base
            },
        shows_file(lists.2, files, k, memory_map(pages, peb, stacks, heaps, files)[k]),
{
    let a = plain_regions(pages, peb);
    let b = with_stacks(a, stacks, stacks.len() as int);
    let c = with_heaps(b, heaps, heaps.len() as int);
    crate::memory::lemma_map_places(pages, peb, stacks, heaps, files);
    lemma_stacks_kept(a, stacks, stacks.len() as int, k);
    lemma_heaps_kept(b, heaps, heaps.len() as int, k);
    assert forall|i: int|
        #![trigger a[i]]
        #![trigger b[i]]
        #![trigger c[i]]
        0 <= i < pages.len() implies {
        &&& shows_page(pages[i], peb, a[i])
        &&& shows_stack(a[i], stacks, b[i])
        &&& shows_heap(b[i], heaps, c[i])
        &&& starts_image(c, files, i) <==> page_starts_image(pages, files, i)
        &&& c[i].base == pages[i].base
    } by {
        assert(a[i] == plain_region(pages[i], peb));
        lemma_stacks_shown(a, stacks, i);
        lemma_heaps_shown(b, heaps, i);
        lemma_stacks_kept(a, stacks, stacks.len() as int, i);
        lemma_heaps_kept(b, heaps, heaps.len() as int, i);
        let f = a[i].flags;
        let g = c[i].flags;
        let kind = crate::memory::kind_flag(pages[i].type_);
        assert(g & 0x01 != 0 <==> kind == 1) by (bit_vector)
            requires
                kind == 0 || kind == 1 || kind == 2 || kind == 4,
                f == kind || f == kind | 0x40,
                g == f || g == f | 0x10 || g == f | 0x20 || g == (f | 0x10) | 0x20,
        ;
    }
    assert(in_order(c)) by {
        assert forall|i: int, j: int| 0 <= i < j < c.len() implies (#[trigger] c[i]).base
            + c[i].size <= (#[trigger] c[j]).base by {
            lemma_stacks_kept(a, stacks, stacks.len() as int, i);
            lemma_heaps_kept(b, heaps, heaps.len() as int, i);
            assert(c[j].base == pages[j].base);
            assert(pages[i].base + pages[i].size <= pages[j].base);
        }
        assert forall|i: int| 0 <= i < c.len() implies (#[trigger] c[i]).base + c[i].size
            <= usize::MAX by {
            lemma_stacks_kept(a, stacks, stacks.len() as int, i);
            lemma_heaps_kept(b, heaps, heaps.len() as int, i);
            assert(pages[i].base + pages[i].size <= usize::MAX);
        }
    }
    lemma_files_from(c, c, files, 0, k);
    (a, b, c)
}

/// Of a mapped image the first region shows the path of its file, and each other
/// region the section that starts there.
pub proof fn lemma_image_shows(
    list: Seq<Region>,
    files: Seq<Option<MappedFile>>,
    i: int,
    k: int,
)
    requires
        in_order(list),
        files.len() == list.len(),
        0 <= i < k < list.len(),
        !inside(list, files, i),
        starts_image(list, files, i),
        list[k].base - list[i].base < image_size(files, i),
    ensures
        with_files(list, files, 0)[i] == (Region { usage: files[i]->0.path@, ..list[i] }),
        shows_section(
            list[k],
            files[i]->0.image->0.sections@,
            list[k].base - list[i].base,
            with_files(list, files, 0)[k],
        ),
{
    lemma_files_from(list, list, files, 0, k);
    lemma_files_from(list, list, files, 0, i);
    assert(inside_of(list, files, i, k));
}

/// The heaps are as many of those that could be read as the process says it has;
/// zeros, where none could be; and none, where it says an unlikely number.
pub proof fn lemma_heap_list(count: usize, heaps: Seq<usize>)
    ensures
        0 < count < 1000 ==> {
            &&& heap_list(count, Some(heaps)).is_prefix_of(heaps)
            &&& heap_list(count, Some(heaps)).len() == (if heaps.len() < count {
                heaps.len() as int
            } else {
                count as int
            })
            &&& heap_list(count, None).len() == count
            &&& forall|i: int| 0 <= i < count ==> #[trigger] heap_list(count, None)[i] == 0
        },
        count == 0 || count >= 1000 ==> {
            &&& heap_list(count, Some(heaps)).len() == 0
            &&& heap_list(count, None).len() == 0
        },
{
    if 0 < count < 1000 {
        let r = heap_list(count, Some(heaps));
        assert(r =~= heaps.take(r.len() as int));
    }
}

/// An address lies in a region from its first byte up to, and not at, its end.
pub proof fn lemma_covers(r: Region, address: usize)
    ensures
        covers(r, address) <==> r.base <= address && address - r.base < r.size,
{
}

/// The regions of a list are its entries, field by field.
pub proof fn lemma_regions(list: Seq<UiMemory>)
    ensures
        regions(list).len() == list.len(),
        forall|i: int|
            0 <= i < list.len() ==> {
                let r = #[trigger] regions(list)[i];
                &&& r.alloc_base == list[i].alloc_base
                &&& r.base == list[i].base
                &&& r.size == list[i].size
                &&& r.flags == list[i].flags
                &&& r.usage == list[i].usage@
                &&& r.type_ == list[i].type_@
                &&& r.protect == list[i].protect@
            },
{
}

} // verus!
