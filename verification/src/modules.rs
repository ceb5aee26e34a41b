//! Modules loaded in the target.
use std::collections::BTreeMap;
use vstd::prelude::*;

use crate::types::{Reason, UDbgError, UDbgResult};

verus! {

broadcast use vstd::std_specs::btree::group_btree_axioms;

/// What is known of a module without its symbols.
pub struct ModuleData {
    pub base: usize,
    pub size: usize,
    /// Entry point, counted from the base.
    pub entry: usize,
    /// Machine number out of the image header.
    pub machine: u16,
    /// Whether the module lies outside the system's own directory.
    pub user_module: bool,
    pub name: String,
    pub path: String,
}

/// An entry of the table by which stacks are unwound.
#[derive(Clone, Copy, Debug, PartialEq, Eq, Structural)]
pub struct RuntimeFunction {
    pub begin_address: u32,
    pub end_address: u32,
    pub unwind_data: u32,
}

/// Symbol flag: the symbol is a function.
pub const SYMBOL_FUNCTION: u32 = 1;

/// Symbol flag: the symbol is exported.
pub const SYMBOL_EXPORT: u32 = 2;

/// A symbol of a module.
pub struct Symbol {
    pub name: String,
    pub type_id: u32,
    /// Length in bytes, where it is known.
    pub len: Option<u32>,
    pub offset: u32,
    pub flags: u32,
}

/// The symbols of a module.
pub struct SymbolsData {
    /// Exported symbols by their place in the image.
    pub exports: BTreeMap<usize, Symbol>,
    /// Token of the loaded symbol file.
    pub pdb: Option<usize>,
    pub pdb_name: String,
    pub pdb_sig: String,
}

/// A module of the target.
pub struct WinModule {
    pub data: ModuleData,
    pub syms: SymbolsData,
    /// Unwind table; empty for 32-bit images.
    pub funcs: Vec<RuntimeFunction>,
    /// Handle of the module's file, or zero.
    pub file: usize,
}

impl WinModule {
    /// Whether an address lies in the module.
    pub open spec fn covers(self, address: usize) -> bool {
        self.data.base <= address < self.data.base + self.data.size
    }
}

/// Whether the symbol file of a module is there.
#[derive(Clone, Copy, Debug, PartialEq, Eq, Structural)]
pub enum SymbolStatus {
    Loaded,
    Unload,
}

impl WinModule {
    /// What is known of the module without its symbols.
    pub fn data(&self) -> (r: &ModuleData)
        ensures
            *r == self.data,
    {
        &self.data
    }

    /// Whether the symbol file is there.
    pub fn symbol_status(&self) -> (r: SymbolStatus)
        ensures
            r == (if self.syms.pdb is Some {
                SymbolStatus::Loaded
            } else {
                SymbolStatus::Unload
            }),
    {
        if self.syms.pdb.is_some() {
            SymbolStatus::Loaded
        } else {
            SymbolStatus::Unload
        }
    }

    /// The table by which stacks are unwound.
    pub fn runtime_function(&self) -> (r: Option<&[RuntimeFunction]>)
        ensures
            r matches Some(funcs) && funcs@ == self.funcs@,
    {
        Some(self.funcs.as_slice())
    }

    /// The symbol file that was found for the module, if any.
    pub fn symbol_file(&self) -> (r: Option<usize>)
        ensures
            r == self.syms.pdb,
    {
        self.syms.pdb
    }

    /// Takes in the symbol file that was found: the one named, or else the one the
    /// module's own image names.
    pub fn load_symbol_file(
        &mut self,
        named: bool,
        mapped: bool,
        parsed: bool,
        found: UDbgResult<usize>,
    ) -> (r: UDbgResult<()>)
        ensures
            r == (if !named && !mapped {
                Err::<(), UDbgError>(UDbgError::Text(Reason::MapFailed))
            } else if !named && !parsed {
                Err(UDbgError::Text(Reason::ParsePe))
            } else {
                match found {
                    Ok(_) => Ok(()),
                    Err(e) => Err(e),
                }
            }),
            *final(self) == (WinModule {
                syms: SymbolsData {
                    pdb: if r is Ok {
                        Some(found->Ok_0)
                    } else {
                        old(self).syms.pdb
                    },
                    ..old(self).syms
                },
                ..*old(self)
            }),
    {
        if !named && !mapped {
            return Err(UDbgError::Text(Reason::MapFailed));
        }
        if !named && !parsed {
            return Err(UDbgError::Text(Reason::ParsePe));
        }
        match found {
            Ok(pdb) => {
                self.syms.pdb = Some(pdb);
                Ok(())
            },
            Err(e) => Err(e),
        }
    }

    /// The exported symbols, in the order of their places.
    pub fn get_exports(&self) -> (r: Option<Vec<&Symbol>>)
        ensures
            r matches Some(list) && exists|places: Seq<usize>|
                #![trigger ascending(places)]
                {
                    &&& ascending(places)
                    &&& places.to_set() == self.syms.exports@.dom()
                    &&& list.len() == places.len()
                    &&& forall|i: int|
                        0 <= i < list.len() ==> *#[trigger] list@[i]
                            == self.syms.exports@[places[i]]
                },
    {
        let places = export_places(&self.syms.exports);
        let mut list: Vec<&Symbol> = Vec::new();
        let mut i: usize = 0;
        while i < places.len()
            invariant
                i <= places.len(),
                list.len() == i,
                places@.to_set() == self.syms.exports@.dom(),
                forall|k: int|
                    0 <= k < i ==> *#[trigger] list@[k] == self.syms.exports@[places@[k]],
            decreases places.len() - i,
        {
            assert(places@.to_set().contains(places@[i as int]));
            if let Some(symbol) = self.syms.exports.get(&places[i]) {
                list.push(symbol);
            }
            i += 1;
        }
        assert(ascending(places@));
        Some(list)
    }

    /// Where the module's code starts, if that is a place in memory.
    pub fn entry_point(&self) -> (r: Option<usize>)
        ensures
            r == (if self.data.base + self.data.entry <= usize::MAX {
                Some((self.data.base + self.data.entry) as usize)
            } else {
                None
            }),
    {
        self.data.base.checked_add(self.data.entry)
    }
}

/// Whether numbers grow along a list.
pub open spec fn ascending(list: Seq<usize>) -> bool {
    forall|i: int, j: int| 0 <= i < j < list.len() ==> list[i] < list[j]
}

/// Keys that a table gives in order grow.
broadcast proof fn lemma_keys_ascend(keys: Seq<&usize>)
    requires
        #[trigger] vstd::std_specs::btree::increasing_seq(keys),
    ensures
        forall|i: int, j: int| 0 <= i < j < keys.len() ==> *keys[i] < *keys[j],
{
    broadcast use vstd::laws_cmp::group_laws_cmp;

    assert(vstd::laws_cmp::obeys_cmp::<usize>());
    assert(vstd::laws_cmp::obeys_cmp::<&usize>());
    assert forall|i: int, j: int| 0 <= i < j < keys.len() implies *keys[i] < *keys[j] by {
        assert(vstd::std_specs::cmp::OrdSpec::cmp_spec(&keys[i], &keys[j]) is Less);
        assert(vstd::std_specs::cmp::OrdSpec::cmp_spec(keys[i], keys[j]) is Less);
    }
}

/// The places of exported symbols, in order.
fn export_places(exports: &BTreeMap<usize, Symbol>) -> (r: Vec<usize>)
    ensures
        ascending(r@),
        r@.to_set() == exports@.dom(),
{
    broadcast use lemma_keys_ascend;

    let mut places: Vec<usize> = Vec::new();
    for k in it: exports.keys()
        invariant
            it.seq().unref().to_set() == exports@.dom(),
            forall|i: int, j: int| 0 <= i < j < it.seq().len() ==> *it.seq()[i] < *it.seq()[j],
            places@ == it.seq().unref().take(it.index()),
            it.index() == it.seq().len() ==> places@ =~= it.seq().unref(),
    {
        assert(it.seq().unref().take(it.index() + 1) =~= places@.push(*k));
        places.push(*k);
    }
    places
}

/// The modules of a target.
pub struct SymbolManager {
    /// Whether the target is a 32-bit process on a 64-bit system.
    pub is_wow64: bool,
    /// Directory of cached symbol files.
    pub symbol_cache: String,
    pub list: Vec<WinModule>,
}

/// Whether a module starts at `base`.
pub open spec fn module_at(list: Seq<WinModule>, base: usize) -> bool {
    exists|i: int| 0 <= i < list.len() && #[trigger] list[i].data.base == base
}

/// The first module that covers an address.
pub open spec fn module_covering(list: Seq<WinModule>, address: usize) -> Option<int>
    decreases list.len(),
{
    if list.len() == 0 {
        None
    } else {
        match module_covering(list.drop_last(), address) {
            Some(i) => Some(i),
            None => if list.last().covers(address) {
                Some(list.len() - 1)
            } else {
                None
            },
        }
    }
}

/// The modules without those that start at `base`.
pub open spec fn modules_without(list: Seq<WinModule>, base: usize) -> Seq<WinModule> {
    list.filter(|m: WinModule| m.data.base != base)
}

/// A module that covers an address is found, and what is found covers it; none
/// before it does.
pub proof fn lemma_module_covering(list: Seq<WinModule>, address: usize)
    ensures
        match module_covering(list, address) {
            Some(i) => {
                &&& 0 <= i < list.len()
                &&& list[i].covers(address)
                &&& forall|j: int| 0 <= j < i ==> !(#[trigger] list[j]).covers(address)
            },
            None => forall|j: int| 0 <= j < list.len() ==> !(#[trigger] list[j]).covers(address),
        },
    decreases list.len(),
{
    if list.len() > 0 {
        let init = list.drop_last();
        lemma_module_covering(init, address);
        assert forall|j: int| 0 <= j < init.len() implies init[j] == list[j] by {}
        match module_covering(init, address) {
            Some(i) => {
                assert forall|j: int| 0 <= j < i implies !(#[trigger] list[j]).covers(address) by {
                    assert(!init[j].covers(address));
                }
            },
            None => {
                assert forall|j: int| 0 <= j < list.len() - 1 implies !(#[trigger] list[j]).covers(
                    address,
                ) by {
                    assert(!init[j].covers(address));
                }
            },
        }
    }
}

impl SymbolManager {
    /// No modules yet.
    pub fn new(symbol_cache: String) -> (r: SymbolManager)
        ensures
            r.list@ == Seq::<WinModule>::empty(),
            r.symbol_cache == symbol_cache,
            !r.is_wow64,
    {
        SymbolManager { is_wow64: false, symbol_cache, list: Vec::new() }
    }

    /// Whether a module starts at `base`.
    pub fn has_module(&self, base: usize) -> (r: bool)
        ensures
            r == module_at(self.list@, base),
    {
        let mut i: usize = 0;
        while i < self.list.len()
            invariant
                i <= self.list.len(),
                forall|j: int| 0 <= j < i ==> #[trigger] self.list[j].data.base != base,
            decreases self.list.len() - i,
        {
            if self.list[i].data.base == base {
                assert(self.list@[i as int].data.base == base);
                return true;
            }
            i += 1;
        }
        false
    }

    /// The place in the list of the first module that covers an address.
    pub fn find_module(&self, address: usize) -> (r: Option<usize>)
        ensures
            match r {
                Some(i) => module_covering(self.list@, address) == Some(i as int),
                None => module_covering(self.list@, address) is None,
            },
            r matches Some(i) ==> i < self.list.len(),
    {
        proof {
            lemma_module_covering(self.list@, address);
        }
        let mut i: usize = 0;
        while i < self.list.len()
            invariant
                i <= self.list.len(),
                forall|j: int| 0 <= j < i ==> !(#[trigger] self.list@[j]).covers(address),
            decreases self.list.len() - i,
        {
            let m = &self.list[i];
            if m.data.base <= address && address - m.data.base < m.data.size {
                assert(self.list@[i as int].covers(address));
                proof {
                    lemma_module_covering(self.list@, address);
                }
                return Some(i);
            }
            assert(!self.list@[i as int].covers(address));
            i += 1;
        }
        None
    }

    /// Forgets the modules that start at `base`.
    pub fn remove(&mut self, base: usize)
        ensures
            final(self).list@ == modules_without(old(self).list@, base),
            final(self).is_wow64 == old(self).is_wow64,
            final(self).symbol_cache == old(self).symbol_cache,
    {
        let ghost start = self.list@;
        let mut i: usize = 0;
        let mut done: Ghost<int> = Ghost(0);
        broadcast use vstd::seq_lib::group_filter_ensures;

        assert(start.take(0).filter(|m: WinModule| m.data.base != base) =~= Seq::empty());
        while i < self.list.len()
            invariant
                i <= self.list.len(),
                0 <= done@,
                done@ + (self.list.len() - i) == start.len(),
                self.list@.take(i as int) == modules_without(start.take(done@), base),
                self.list@.skip(i as int) == start.skip(done@),
                self.is_wow64 == old(self).is_wow64,
                self.symbol_cache == old(self).symbol_cache,
            decreases self.list.len() - i,
        {
            let ghost before = self.list@;
            assert(before[i as int] == start[done@]) by {
                assert(before.skip(i as int)[0] == start.skip(done@)[0]);
            }
            assert(start.take(done@ + 1).drop_last() =~= start.take(done@));
            assert(start.take(done@ + 1).last() == start[done@]);
            assert(before.skip(i as int).skip(1) =~= start.skip(done@ + 1)) by {
                assert(start.skip(done@).skip(1) =~= start.skip(done@ + 1));
            }
            proof {
                reveal(Seq::filter);
            }
            if self.list[i].data.base == base {
                self.list.remove(i);
                assert(self.list@.take(i as int) =~= before.take(i as int));
                assert(self.list@.skip(i as int) =~= before.skip(i as int).skip(1));
            } else {
                i += 1;
                assert(self.list@.take(i as int) =~= before.take(i - 1).push(before[i - 1]));
                assert(self.list@.skip(i as int) =~= before.skip(i - 1).skip(1));
            }
            proof {
                done@ = done@ + 1;
            }
        }
        assert(self.list@.take(i as int) =~= self.list@);
        assert(start.take(done@) =~= start);
    }
}

} // verus!
