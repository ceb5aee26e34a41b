//! Handles that a process holds.
use std::collections::HashMap;
use vstd::prelude::*;

use crate::types::Pid;

verus! {

broadcast use vstd::std_specs::hash::group_hash_axioms;

/// A handle as the system lists it, and what was asked of a copy of it.
pub struct HandleInfo {
    pub pid: Pid,
    pub value: usize,
    /// Number of the kind of its object.
    pub ty: u32,
    /// A copy of the handle; zero or nothing where it could not be copied.
    pub copy: Option<usize>,
    /// Name of the kind of its object.
    pub kind: Option<String>,
    /// Path of the program, where the object is a process.
    pub image_path: Option<String>,
    /// Name of the object.
    pub object_name: Option<String>,
}

/// A handle as it is shown.
pub struct UiHandle {
    pub ty: u32,
    pub handle: usize,
    pub kind: String,
    pub name: String,
}

/// A walk over the handles of a process.
pub struct HandleIter {
    pub pid: Pid,
    /// Names of kinds that were asked for already.
    pub kinds: HashMap<u32, String>,
}

/// The text, or none.
pub open spec fn text_or_empty(s: Option<String>) -> Seq<char> {
    match s {
        Some(s) => s@,
        None => Seq::empty(),
    }
}

/// The name of a kind of object: the one asked for first.
pub open spec fn kind_name(kinds: Map<u32, String>, info: HandleInfo) -> Seq<char> {
    if kinds.dom().contains(info.ty) {
        kinds[info.ty]@
    } else {
        text_or_empty(info.kind)
    }
}

/// Whether a handle is one of the process and could be copied.
pub open spec fn is_shown(pid: Pid, info: HandleInfo) -> bool {
    info.pid == pid && (info.copy matches Some(h) && h != 0)
}

fn or_empty(s: Option<String>) -> (r: String)
    ensures
        r@ == text_or_empty(s),
{
    match s {
        Some(s) => s,
        None => String::new(),
    }
}

impl HandleIter {
    /// A walk over the handles of a process.
    pub fn enum_process_handle(pid: Pid) -> (r: HandleIter)
        ensures
            r.pid == pid,
            r.kinds@ == Map::<u32, String>::empty(),
    {
        HandleIter { pid, kinds: HashMap::new() }
    }

    /// Whether the kind of a handle's object has to be asked for.
    pub fn asks_kind(&self, info: &HandleInfo) -> (r: bool)
        ensures
            r == (is_shown(self.pid, *info) && !self.kinds@.dom().contains(info.ty)),
    {
        let copied: bool = match info.copy {
            Some(h) => h != 0,
            None => false,
        };
        info.pid == self.pid && copied && !self.kinds.contains_key(&info.ty)
    }

    /// The next handle to show, if this is one of the process that could be
    /// copied. A process is shown by the path of its program.
    pub fn next(&mut self, info: HandleInfo) -> (r: Option<UiHandle>)
        ensures
            final(self).pid == old(self).pid,
            r is Some <==> is_shown(old(self).pid, info),
            r is None ==> final(self).kinds@ == old(self).kinds@,
            r matches Some(shown) ==> {
                let kind = kind_name(old(self).kinds@, info);
                &&& shown.ty == info.ty
                &&& shown.handle == info.value
                &&& shown.kind@ == kind
                &&& shown.name@ == text_or_empty(
                    if kind == "Process"@ {
                        info.image_path
                    } else {
                        info.object_name
                    },
                )
                &&& final(self).kinds@.dom() == old(self).kinds@.dom().insert(info.ty)
                &&& final(self).kinds@[info.ty]@ == kind
                &&& forall|ty: u32|
                    ty != info.ty && old(self).kinds@.dom().contains(ty)
                        ==> #[trigger] final(self).kinds@[ty] == old(self).kinds@[ty]
            },
    {
        if info.pid != self.pid {
            return None;
        }
        match info.copy {
            Some(h) => {
                if h == 0 {
                    return None;
                }
            },
            None => {
                return None;
            },
        }
        let ghost before = self.kinds@;
        let ty: u32 = info.ty;
        let kind: String = match self.kinds.get(&ty) {
            Some(kind) => kind.clone(),
            None => or_empty(info.kind),
        };
        if !self.kinds.contains_key(&ty) {
            self.kinds.insert(ty, kind.clone());
        }
        assert(self.kinds@.dom() =~= before.dom().insert(ty));
        let name = if kind == "Process".to_owned() {
            or_empty(info.image_path)
        } else {
            or_empty(info.object_name)
        };
        Some(UiHandle { ty, handle: info.value, kind, name })
    }
}

} // verus!
