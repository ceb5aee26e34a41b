//! Noting the modules of a target.
use std::collections::BTreeMap;
use vstd::prelude::*;
use vstd::string::*;

use crate::modules::{
    module_at, modules_without, ModuleData, RuntimeFunction, Symbol, SymbolManager, SymbolsData,
    WinModule, SYMBOL_EXPORT, SYMBOL_FUNCTION,
};
use crate::text::{
    file_name, is_under, name_of, text_of, trim_padding, under_root, unpadded, upper,
    utf8_or_empty,
};

verus! {

broadcast use vstd::std_specs::btree::group_btree_axioms;

/// Machine number of images for 64-bit processors.
pub const COFF_MACHINE_X86_64: u16 = 0x8664;

/// Machine number of images for 32-bit processors.
pub const IMAGE_FILE_MACHINE_I386: u16 = 0x14c;

/// What the headers of an image say: its machine, and of the optional header
/// the entry point and the size of the image.
pub type Headers = (u16, Option<(u64, u32)>);

/// The number in two bytes, the low one first.
pub open spec fn le16(bytes: Seq<u8>, at: int) -> int {
    bytes[at] + 0x100 * bytes[at + 1]
}

/// The number in four bytes, the low ones first.
pub open spec fn le32(bytes: Seq<u8>, at: int) -> int {
    le16(bytes, at) + 0x10000 * le16(bytes, at + 2)
}

/// Whether headers say what stands in the bytes of an image, behind the place that
/// its first header gives for the second.
pub open spec fn says(bytes: Seq<u8>, headers: Headers) -> bool {
    let at = le32(bytes, 0x3c);
    &&& at + 24 <= bytes.len()
    &&& headers.0 == le16(bytes, at + 4)
    &&& headers.1 is Some <==> le16(bytes, at + 20) > 0
    &&& headers.1 matches Some((entry, image_size)) ==> {
        &&& at + 84 <= bytes.len()
        &&& entry == le32(bytes, at + 40)
        &&& image_size == le32(bytes, at + 80)
    }
}

/// What the headers at the start of some bytes say, where they are an image.
pub uninterp spec fn pe_headers(bytes: Seq<u8>) -> Option<(u16, Option<(u64, u32)>)>;

/// Why an image is not understood.
#[verifier::external_type_specification]
#[verifier::external_body]
pub struct ExGoblinError(goblin::error::Error);

/// `goblin::pe::header::Header::parse`: the same bytes always give the same
/// headers, or are always refused. Refused are bytes too short to hold the place
/// of the second header, and those that do not start with its two letters. Where
/// they are not refused, the headers are numbers that stand in the bytes.
#[verifier::external_body]
fn parse_headers(bytes: &[u8]) -> (r: Result<Headers, goblin::error::Error>)
    ensures
        match r {
            Ok(headers) => pe_headers(bytes@) == Some(headers),
            Err(_) => pe_headers(bytes@) is None,
        },
        r matches Ok(headers) ==> says(bytes@, headers),
        bytes@.len() < 64 ==> r is Err,
        bytes@.len() >= 2 && (bytes@[0] != 0x4d || bytes@[1] != 0x5a) ==> r is Err,
{
    let h = goblin::pe::header::Header::parse(bytes)?;
    let o = h.optional_header.map(
        |o|
            (o.standard_fields.address_of_entry_point, o.windows_fields.size_of_image),
    );
    Ok((h.coff_header.machine, o))
}

/// An export of an image.
pub struct Export {
    pub name: Option<String>,
    pub rva: usize,
    /// The entry of the unwind table it lies in.
    pub function: Option<RuntimeFunction>,
}

/// What a full reading of an image gives.
pub struct PeImage {
    pub pdb_signature: Option<String>,
    /// Name of the symbol file, as bytes of the image.
    pub pdb_filename: Option<Vec<u8>>,
    pub exports: Vec<Export>,
    /// Entries of the unwind table; those that could not be read are missing.
    pub functions: Vec<Option<RuntimeFunction>>,
    /// Token of the symbol file that was found for it.
    pub pdb: Option<usize>,
}

/// How the loading of a module came out.
pub enum Loaded {
    Done,
    /// There is a module at that base already.
    Known,
    /// Neither its file nor its memory could be read.
    Unreadable,
    /// Its headers are not those of an image.
    BadHeaders(goblin::error::Error),
    NoOptionalHeader,
}

/// Where a module comes from.
pub struct ModuleFile<'a> {
    pub base: usize,
    /// Size in memory, or zero where only the headers tell.
    pub size: usize,
    pub path: &'a str,
    /// Handle of its file, or zero.
    pub file: usize,
}

/// The name of a module: that of its file, but for the native system library in
/// a process under emulation.
pub open spec fn module_name(path: Seq<char>, wow64: bool, machine: u16) -> Seq<char> {
    let name = file_name(path);
    if wow64 && machine == COFF_MACHINE_X86_64 && name == "ntdll.dll"@ {
        "ntdll64.dll"@
    } else {
        name
    }
}

/// The last export at a place of the image.
pub open spec fn last_export(exports: Seq<Export>, rva: usize) -> Option<int>
    decreases exports.len(),
{
    if exports.len() == 0 {
        None
    } else if exports.last().rva == rva {
        Some(exports.len() - 1)
    } else {
        last_export(exports.drop_last(), rva)
    }
}

/// Whether a symbol says what an export does.
pub open spec fn is_symbol_of(symbol: Symbol, export: Export) -> bool {
    &&& symbol.name@ == (match export.name {
        Some(name) => name@,
        None => "<>"@,
    })
    &&& symbol.type_id == 0
    &&& symbol.len == (match export.function {
        Some(f) => Some(f.end_address.wrapping_sub(f.begin_address)),
        None => None,
    })
    &&& symbol.offset == export.rva as u32
    &&& symbol.flags == SYMBOL_FUNCTION | SYMBOL_EXPORT
}

/// Whether a table holds just the exports of an image, the last at each place.
pub open spec fn holds_exports(map: Map<usize, Symbol>, exports: Seq<Export>) -> bool {
    forall|rva: usize|
        #![trigger map.dom().contains(rva)]
        match last_export(exports, rva) {
            Some(i) => map.dom().contains(rva) && is_symbol_of(map[rva], exports[i]),
            None => !map.dom().contains(rva),
        }
}

/// The entries of the unwind table that could be read.
pub open spec fn readable(functions: Seq<Option<RuntimeFunction>>) -> Seq<RuntimeFunction>
    decreases functions.len(),
{
    if functions.len() == 0 {
        Seq::empty()
    } else {
        let init = readable(functions.drop_last());
        match functions.last() {
            Some(f) => init.push(f),
            None => init,
        }
    }
}

/// Whether a module has the symbols of an image.
pub open spec fn has_symbols(module: WinModule, image: Option<PeImage>) -> bool {
    match image {
        Some(image) => {
            &&& holds_exports(module.syms.exports@, image.exports@)
            &&& module.syms.pdb == image.pdb
            &&& module.syms.pdb_name@ == unpadded(
                match image.pdb_filename {
                    Some(bytes) => text_of(bytes@),
                    None => Seq::empty(),
                },
            )
            &&& module.syms.pdb_sig@ == (match image.pdb_signature {
                Some(sig) => sig@.map_values(|c: char| upper(c)),
                None => Seq::empty(),
            })
            &&& module.funcs@ == readable(image.functions@)
        },
        None => {
            &&& module.syms.exports@ == Map::<usize, Symbol>::empty()
            &&& module.syms.pdb is None
            &&& module.syms.pdb_name@ == Seq::<char>::empty()
            &&& module.syms.pdb_sig@ == Seq::<char>::empty()
            &&& module.funcs@ == Seq::<RuntimeFunction>::empty()
        },
    }
}

/// Where a module comes from, in terms of mathematics.
pub struct Origin {
    pub base: usize,
    pub size: usize,
    pub path: Seq<char>,
    pub file: usize,
}

impl<'a> View for ModuleFile<'a> {
    type V = Origin;

    open spec fn view(&self) -> Origin {
        Origin { base: self.base, size: self.size, path: self.path@, file: self.file }
    }
}

/// Whether a module is what its file and its headers say.
pub open spec fn is_module_of(
    module: WinModule,
    from: Origin,
    root: &str,
    wow64: bool,
    machine: u16,
    entry: u64,
    image_size: u32,
) -> bool {
    &&& module.data.base == from.base
    &&& module.data.size == if from.size > 0 {
        from.size
    } else {
        image_size as usize
    }
    &&& module.data.entry == entry as usize
    &&& module.data.machine == machine
    &&& module.data.user_module == !under_root(root@, root.spec_bytes().len(), from.path)
    &&& module.data.name@ == module_name(from.path, wow64, machine)
    &&& module.data.path@ == from.path
    &&& module.file == from.file
}

/// Whether the list of modules, and the outcome, are those of a module with
/// given headers: it is noted at the end of the list, or nothing is.
pub open spec fn headers_outcome(
    before: Seq<WinModule>,
    after: Seq<WinModule>,
    wow64: bool,
    from: Origin,
    root: &str,
    headers: Option<Headers>,
    image: Option<PeImage>,
    r: Loaded,
) -> bool {
    match headers {
        Some((machine, Some((entry, image_size)))) => {
            let module = after.last();
            &&& r is Done
            &&& after == before.push(module)
            &&& is_module_of(module, from, root, wow64, machine, entry, image_size)
            &&& has_symbols(module, image)
        },
        Some((_, None)) => r is NoOptionalHeader && after == before,
        None => r is BadHeaders && after == before,
    }
}

/// The same for a module whose headers have to be read: one that is known is not
/// read, and one that cannot be read is not noted.
pub open spec fn load_outcome(
    before: Seq<WinModule>,
    after: Seq<WinModule>,
    wow64: bool,
    from: Origin,
    root: &str,
    bytes: Option<Seq<u8>>,
    image: Option<PeImage>,
    r: Loaded,
) -> bool {
    if module_at(before, from.base) {
        r is Known && after == before
    } else {
        match bytes {
            None => r is Unreadable && after == before,
            Some(bytes) => {
                &&& headers_outcome(
                    before,
                    after,
                    wow64,
                    from,
                    root,
                    pe_headers(bytes),
                    image,
                    r,
                )
                &&& pe_headers(bytes) matches Some(headers) ==> says(bytes, headers)
            },
        }
    }
}

/// The bytes the headers are read from: the file's, or else the memory's.
pub open spec fn header_bytes(mapped: Option<&[u8]>, memory: Option<&[u8]>) -> Option<Seq<u8>> {
    match mapped {
        Some(bytes) => Some(bytes@),
        None => match memory {
            Some(bytes) => Some(bytes@),
            None => None,
        },
    }
}

/// The exported symbols of an image, by place.
fn get_exports_from_pe(exports: &Vec<Export>) -> (r: BTreeMap<usize, Symbol>)
    ensures
        holds_exports(r@, exports@),
{
    let mut result: BTreeMap<usize, Symbol> = BTreeMap::new();
    let mut i: usize = 0;
    while i < exports.len()
        invariant
            i <= exports.len(),
            holds_exports(result@, exports@.take(i as int)),
        decreases exports.len() - i,
    {
        let e = &exports[i];
        let name = match &e.name {
            Some(name) => name.clone(),
            None => "<>".to_owned(),
        };
        let len: Option<u32> = match e.function {
            Some(f) => Some(f.end_address.wrapping_sub(f.begin_address)),
            None => None,
        };
        let symbol = Symbol {
            name,
            type_id: 0,
            len,
            offset: e.rva as u32,
            flags: SYMBOL_FUNCTION | SYMBOL_EXPORT,
        };
        let ghost before = result@;
        let ghost seen = exports@.take(i as int);
        let ghost more = exports@.take(i + 1);
        result.insert(e.rva, symbol);
        proof {
            assert(more.drop_last() =~= seen);
            assert(more.last() == exports@[i as int]);
            assert forall|rva: usize| #![trigger result@.dom().contains(rva)]
                match last_export(more, rva) {
                    Some(k) => result@.dom().contains(rva) && is_symbol_of(result@[rva], more[k]),
                    None => !result@.dom().contains(rva),
                } by {
                assert(before.dom().contains(rva) == before.dom().contains(rva));
                lemma_last_export(seen, rva);
                if rva != exports@[i as int].rva {
                    assert(last_export(more, rva) == last_export(seen, rva));
                    assert(result@.dom().contains(rva) == before.dom().contains(rva));
                    if let Some(k) = last_export(seen, rva) {
                        assert(more[k] == seen[k]);
                    }
                }
            }
        }
        i += 1;
    }
    assert(exports@.take(i as int) =~= exports@);
    result
}

/// The last export at a place is one at that place, and none after it is.
pub proof fn lemma_last_export(exports: Seq<Export>, rva: usize)
    ensures
        match last_export(exports, rva) {
            Some(i) => {
                &&& 0 <= i < exports.len()
                &&& exports[i].rva == rva
                &&& forall|j: int| i < j < exports.len() ==> (#[trigger] exports[j]).rva != rva
            },
            None => forall|j: int| 0 <= j < exports.len() ==> (#[trigger] exports[j]).rva != rva,
        },
    decreases exports.len(),
{
    if exports.len() > 0 && exports.last().rva != rva {
        let init = exports.drop_last();
        lemma_last_export(init, rva);
        assert forall|j: int| 0 <= j < init.len() implies init[j] == exports[j] by {}
        match last_export(init, rva) {
            Some(i) => {
                assert forall|j: int| i < j < exports.len() implies (#[trigger] exports[j]).rva
                    != rva by {
                    if j < init.len() {
                        assert(init[j].rva != rva);
                    }
                }
            },
            None => {
                assert forall|j: int| 0 <= j < exports.len() implies (#[trigger] exports[j]).rva
                    != rva by {
                    if j < init.len() {
                        assert(init[j].rva != rva);
                    }
                }
            },
        }
    }
}

/// The entries of the unwind table that could be read.
fn keep_readable(functions: &Vec<Option<RuntimeFunction>>) -> (r: Vec<RuntimeFunction>)
    ensures
        r@ == readable(functions@),
{
    let mut result: Vec<RuntimeFunction> = Vec::new();
    let mut i: usize = 0;
    while i < functions.len()
        invariant
            i <= functions.len(),
            result@ == readable(functions@.take(i as int)),
        decreases functions.len() - i,
    {
        assert(functions@.take(i + 1).drop_last() =~= functions@.take(i as int));
        if let Some(f) = functions[i] {
            result.push(f);
        }
        i += 1;
    }
    assert(functions@.take(i as int) =~= functions@);
    result
}

/// The name of a module.
fn name_module(path: &str, wow64: bool, machine: u16) -> (r: String)
    ensures
        r@ == module_name(path@, wow64, machine),
{
    let name = name_of(path).to_owned();
    if wow64 && machine == COFF_MACHINE_X86_64 && name == "ntdll.dll".to_owned() {
        "ntdll64.dll".to_owned()
    } else {
        name
    }
}

/// The symbols of an image, and its unwind table.
fn read_symbols(image: &Option<PeImage>) -> (r: (SymbolsData, Vec<RuntimeFunction>))
    ensures
        forall|module: WinModule|
            #![trigger has_symbols(module, *image)]
            module.syms == r.0 && module.funcs == r.1 ==> has_symbols(module, *image),
{
    match image {
        Some(image) => {
            let pdb_name = match &image.pdb_filename {
                Some(bytes) => utf8_or_empty(bytes.as_slice()),
                None => String::new(),
            };
            let pdb_sig = match &image.pdb_signature {
                Some(sig) => sig.as_str().to_ascii_uppercase(),
                None => String::new(),
            };
            let syms = SymbolsData {
                exports: get_exports_from_pe(&image.exports),
                pdb: image.pdb,
                pdb_name: trim_padding(pdb_name.as_str()).to_owned(),
                pdb_sig,
            };
            (syms, keep_readable(&image.functions))
        },
        None => (
            SymbolsData {
                exports: BTreeMap::new(),
                pdb: None,
                pdb_name: String::new(),
                pdb_sig: String::new(),
            },
            Vec::new(),
        ),
    }
}

impl SymbolManager {
    /// Notes a module whose headers were read, or says why not.
    pub fn add_with_headers(
        &mut self,
        from: ModuleFile,
        root: &str,
        headers: Result<Headers, goblin::error::Error>,
        image: &Option<PeImage>,
    ) -> (r: Loaded)
        ensures
            final(self).is_wow64 == old(self).is_wow64,
            final(self).symbol_cache == old(self).symbol_cache,
            headers_outcome(
                old(self).list@,
                final(self).list@,
                old(self).is_wow64,
                from@,
                root,
                match headers {
                    Ok(headers) => Some(headers),
                    Err(_) => None,
                },
                *image,
                r,
            ),
            headers matches Err(e) ==> r == Loaded::BadHeaders(e),
    {
        let (machine, optional) = match headers {
            Ok(headers) => headers,
            Err(e) => {
                return Loaded::BadHeaders(e);
            },
        };
        let (entry, image_size) = match optional {
            Some(o) => o,
            None => {
                return Loaded::NoOptionalHeader;
            },
        };
        let size: usize = if from.size > 0 {
            from.size
        } else {
            image_size as usize
        };
        let data = ModuleData {
            base: from.base,
            size,
            entry: entry as usize,
            machine,
            user_module: !is_under(root, from.path),
            name: name_module(from.path, self.is_wow64, machine),
            path: from.path.to_owned(),
        };
        let (syms, funcs) = read_symbols(image);
        let module = WinModule { data, syms, funcs, file: from.file };
        let ghost added = module;
        self.list.push(module);
        assert(self.list@.last() == added);
        assert(has_symbols(added, *image));
        Loaded::Done
    }

    /// Notes a module, unless one is known at its base. Its headers are read from
    /// its file, or from the memory it was loaded to.
    pub fn check_load_module(
        &mut self,
        from: ModuleFile,
        root: &str,
        mapped: Option<&[u8]>,
        memory: Option<&[u8]>,
        image: &Option<PeImage>,
    ) -> (r: Loaded)
        ensures
            final(self).is_wow64 == old(self).is_wow64,
            final(self).symbol_cache == old(self).symbol_cache,
            load_outcome(
                old(self).list@,
                final(self).list@,
                old(self).is_wow64,
                from@,
                root,
                header_bytes(mapped, memory),
                *image,
                r,
            ),
    {
        if self.has_module(from.base) {
            return Loaded::Known;
        }
        let bytes: &[u8] = match mapped {
            Some(bytes) => bytes,
            None => match memory {
                Some(bytes) => bytes,
                None => {
                    return Loaded::Unreadable;
                },
            },
        };
        self.add_with_headers(from, root, parse_headers(bytes), image)
    }

    /// The modules the system lists that are not known yet.
    pub fn missing(&self, present: &Vec<usize>) -> (r: Vec<usize>)
        ensures
            r@ == present@.filter(|base: usize| !module_at(self.list@, base)),
    {
        let mut result: Vec<usize> = Vec::new();
        let ghost unknown = |base: usize| !module_at(self.list@, base);
        let mut i: usize = 0;
        assert(present@.take(0).filter(unknown) =~= Seq::empty()) by {
            reveal(Seq::filter);
        }
        while i < present.len()
            invariant
                i <= present.len(),
                unknown == (|base: usize| !module_at(self.list@, base)),
                result@ == present@.take(i as int).filter(unknown),
            decreases present.len() - i,
        {
            proof {
                reveal(Seq::filter);
                assert(present@.take(i + 1).drop_last() =~= present@.take(i as int));
                assert(present@.take(i + 1).last() == present@[i as int]);
            }
            if !self.has_module(present[i]) {
                result.push(present[i]);
            }
            i += 1;
        }
        assert(present@.take(i as int) =~= present@);
        result
    }

    /// Forgets the modules that were known before a look at the system's list and
    /// are not in it.
    pub fn drop_stale(&mut self, known: &Vec<usize>, present: &Vec<usize>)
        ensures
            final(self).is_wow64 == old(self).is_wow64,
            final(self).symbol_cache == old(self).symbol_cache,
            final(self).list@ == modules_left(old(self).list@, known@, present@),
    {
        let mut i: usize = 0;
        proof {
            lemma_none_stale(self.list@, known@.take(0), present@);
        }
        while i < known.len()
            invariant
                i <= known.len(),
                self.is_wow64 == old(self).is_wow64,
                self.symbol_cache == old(self).symbol_cache,
                self.list@ == modules_left(old(self).list@, known@.take(i as int), present@),
            decreases known.len() - i,
        {
            let base: usize = known[i];
            let ghost some = known@.take(i as int);
            let ghost more = known@.take(i + 1);
            assert(more =~= some.push(base));
            if !holds_base(present, base) {
                self.remove(base);
            }
            proof {
                lemma_one_more_known(old(self).list@, some, base, present@);
            }
            i += 1;
        }
        assert(known@.take(i as int) =~= known@);
    }

    /// The bases of the known modules.
    pub fn bases(&self) -> (r: Vec<usize>)
        ensures
            r@ == self.list@.map_values(|m: WinModule| m.data.base),
    {
        let mut result: Vec<usize> = Vec::new();
        let mut i: usize = 0;
        while i < self.list.len()
            invariant
                i <= self.list.len(),
                result.len() == i,
                forall|k: int| 0 <= k < i ==> result@[k] == (#[trigger] self.list@[k]).data.base,
            decreases self.list.len() - i,
        {
            result.push(self.list[i].data.base);
            i += 1;
        }
        assert(result@ =~= self.list@.map_values(|m: WinModule| m.data.base));
        result
    }
}

/// Whether a module was known before and is not in the system's list.
pub open spec fn is_stale(known: Seq<usize>, present: Seq<usize>, base: usize) -> bool {
    known.contains(base) && !present.contains(base)
}

/// The modules that are not stale, in their order.
pub open spec fn modules_left(
    list: Seq<WinModule>,
    known: Seq<usize>,
    present: Seq<usize>,
) -> Seq<WinModule> {
    list.filter(|m: WinModule| !is_stale(known, present, m.data.base))
}

/// Where nothing was known, no module is stale.
proof fn lemma_none_stale(list: Seq<WinModule>, known: Seq<usize>, present: Seq<usize>)
    requires
        known.len() == 0,
    ensures
        modules_left(list, known, present) == list,
    decreases list.len(),
{
    reveal(Seq::filter);
    if list.len() > 0 {
        lemma_none_stale(list.drop_last(), known, present);
        assert(list.drop_last().push(list.last()) =~= list);
    }
}

/// What one more known base does to the modules that are left.
proof fn lemma_one_more_known(
    list: Seq<WinModule>,
    known: Seq<usize>,
    base: usize,
    present: Seq<usize>,
)
    ensures
        modules_left(list, known.push(base), present) == (if present.contains(base) {
            modules_left(list, known, present)
        } else {
            modules_without(modules_left(list, known, present), base)
        }),
    decreases list.len(),
{
    reveal(Seq::filter);
    let more = known.push(base);
    assert forall|b: usize| #[trigger] more.contains(b) <==> known.contains(b) || b == base by {
        if known.contains(b) {
            let k = choose|k: int| 0 <= k < known.len() && known[k] == b;
            assert(more[k] == b);
        }
        assert(more[known.len() as int] == base);
        if more.contains(b) && b != base {
            let k = choose|k: int| 0 <= k < more.len() && more[k] == b;
            assert(known[k] == b);
        }
    }
    if list.len() > 0 {
        let init = list.drop_last();
        let left = modules_left(init, known, present);
        lemma_one_more_known(init, known, base, present);
        assert(left.push(list.last()).drop_last() =~= left);
    }
}

/// Which modules are left: those of the list that are not stale.
pub proof fn lemma_left(
    list: Seq<WinModule>,
    known: Seq<usize>,
    present: Seq<usize>,
    m: WinModule,
)
    ensures
        modules_left(list, known, present).contains(m) <==> list.contains(m) && !is_stale(
            known,
            present,
            m.data.base,
        ),
{
    broadcast use vstd::seq_lib::group_filter_ensures;

    let keep = |m: WinModule| !is_stale(known, present, m.data.base);
    let kept = list.filter(keep);
    if kept.contains(m) {
        let k = choose|k: int| 0 <= k < kept.len() && kept[k] == m;
        assert(keep(kept[k]));
        list.lemma_filter_contains_rev(keep, m);
    }
    if list.contains(m) && !is_stale(known, present, m.data.base) {
        let k = choose|k: int| 0 <= k < list.len() && list[k] == m;
        assert(keep(list[k]));
        assert(kept.contains(list[k]));
    }
}

fn holds_base(list: &Vec<usize>, base: usize) -> (r: bool)
    ensures
        r == list@.contains(base),
{
    let mut i: usize = 0;
    while i < list.len()
        invariant
            i <= list.len(),
            forall|j: int| 0 <= j < i ==> list@[j] != base,
        decreases list.len() - i,
    {
        if list[i] == base {
            assert(list@[i as int] == base);
            return true;
        }
        i += 1;
    }
    false
}

/// The path of a module that an event introduces: the name the target gives, if
/// there is such a file; else the one mapped there, else the one of its handle.
pub fn choose_path(
    named: Option<String>,
    named_exists: bool,
    mapped: Option<String>,
    by_handle: Option<String>,
) -> (r: Option<String>)
    ensures
        r == (if named is Some && named_exists {
            named
        } else if mapped is Some {
            mapped
        } else {
            by_handle
        }),
{
    if named.is_some() && named_exists {
        named
    } else if mapped.is_some() {
        mapped
    } else {
        by_handle
    }
}

} // verus!
