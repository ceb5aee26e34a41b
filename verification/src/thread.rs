//! Threads of the target.
use crossbeam::atomic::AtomicCell;
use std::collections::HashMap;
use vstd::prelude::*;
use vstd::string::*;

use crate::enable::holds;
use crate::session::{DbgThread, StandardAdaptor};
use crate::types::{Pid, Tid, UDbgError, UDbgResult};

verus! {

broadcast use vstd::std_specs::hash::group_hash_axioms;

/// What the system says for a priority it cannot give.
pub const THREAD_PRIORITY_ERROR_RETURN: i32 = 0x7fffffff;

/// A cell that threads share.
#[verifier::external_type_specification]
#[verifier::external_body]
#[verifier::reject_recursive_types(T)]
pub struct ExAtomicCell<T>(AtomicCell<T>);

/// `crossbeam::atomic::AtomicCell::new`: a cell that holds a number. What a cell
/// holds others can change, so nothing is said of it.
#[verifier::external_body]
fn new_cell(n: usize) -> (r: AtomicCell<usize>) {
    AtomicCell::new(n)
}

/// `crossbeam::atomic::AtomicCell::load`: what the cell holds at that moment,
/// which can be any number.
#[verifier::external_body]
fn load_cell(cell: &AtomicCell<usize>) -> (r: usize) {
    cell.load()
}

/// `crossbeam::atomic::AtomicCell::store`: puts a number in the cell, for as long
/// as nobody puts another there.
#[verifier::external_body]
fn store_cell(cell: &AtomicCell<usize>, n: usize) {
    cell.store(n);
}

/// What the system lists of a thread.
pub struct ThreadStat {
    pub priority: i32,
    pub start_address: usize,
    /// What the thread is doing, in words.
    pub status: String,
}

/// An opened thread.
pub struct WinThread {
    pub tid: Tid,
    pub wow64: bool,
    /// Handle, or zero where it could not be opened.
    pub handle: usize,
    /// Address of the thread's block, or zero while it is not known.
    pub teb: AtomicCell<usize>,
    /// What the system lists, by thread.
    pub infos: HashMap<Tid, ThreadStat>,
}

/// Which call suspends a thread.
#[derive(Clone, Copy, Debug, PartialEq, Eq, Structural)]
pub enum SuspendCall {
    Native,
    Wow64,
}

/// The block's address: the one that is known, or else the one the system gives.
/// A zero is no address.
pub open spec fn block_address(known: usize, queried: Option<usize>) -> Option<usize> {
    let teb = if known == 0 {
        match queried {
            Some(teb) => teb,
            None => 0,
        }
    } else {
        known
    };
    if teb > 0 {
        Some(teb)
    } else {
        None
    }
}

/// The block's address, given the one that is known and the one the system gives.
pub fn choose_block(known: usize, queried: Option<usize>) -> (r: Option<usize>)
    ensures
        r == block_address(known, queried),
{
    let teb: usize = if known == 0 {
        match queried {
            Some(teb) => teb,
            None => 0,
        }
    } else {
        known
    };
    if teb > 0 {
        Some(teb)
    } else {
        None
    }
}

/// The block's address, as `choose_block` gives it, and what is to be kept of it
/// for the next time: nothing where an address was known already, and else the
/// address, or zero where there is none.
pub fn block_step(known: usize, queried: Option<usize>) -> (r: (Option<usize>, Option<usize>))
    ensures
        r.0 == block_address(known, queried),
        r.1 == (if known == 0 {
            Some(
                match r.0 {
                    Some(teb) => teb,
                    None => 0,
                },
            )
        } else {
            None
        }),
{
    let r = choose_block(known, queried);
    if known == 0 {
        let kept: usize = match r {
            Some(teb) => teb,
            None => 0,
        };
        (r, Some(kept))
    } else {
        (r, None)
    }
}

impl WinThread {
    /// A thread that was opened under its number, or could not be.
    pub fn new(tid: Tid, handle: usize) -> (r: Option<WinThread>)
        ensures
            r matches Some(t) && t.tid == tid && t.handle == handle && !t.wow64 && t.infos@
                == Map::<Tid, ThreadStat>::empty(),
    {
        Some(
            WinThread { tid, wow64: false, handle, teb: new_cell(0), infos: HashMap::new() },
        )
    }

    /// The block's address where it is known already.
    pub fn known_teb(&self) -> (r: Option<usize>)
        ensures
            r matches Some(teb) ==> teb > 0,
    {
        let known: usize = load_cell(&self.teb);
        choose_block(known, None)
    }

    /// The block's address: the one that is known, or else the one the system
    /// gives, which is then known.
    pub fn teb(&self, queried: Option<usize>) -> (r: Option<usize>)
        ensures
            exists|known: usize| r == #[trigger] block_address(known, queried),
            queried matches Some(teb) && teb > 0 ==> r is Some,
    {
        let known: usize = load_cell(&self.teb);
        let (r, kept) = block_step(known, queried);
        if let Some(teb) = kept {
            store_cell(&self.teb, teb);
        }
        r
    }

    /// What the thread is doing, in words.
    pub fn status(&self) -> (r: String)
        ensures
            r@ == (if self.infos@.dom().contains(self.tid) {
                self.infos@[self.tid].status@
            } else {
                Seq::empty()
            }),
    {
        match self.infos.get(&self.tid) {
            Some(t) => t.status.clone(),
            None => String::new(),
        }
    }

    /// The thread's priority: what the system gives, or else what it lists.
    pub fn priority(&self, queried: i32) -> (r: Option<i32>)
        ensures
            r == Some(
                if queried == THREAD_PRIORITY_ERROR_RETURN && self.infos@.dom().contains(self.tid) {
                    self.infos@[self.tid].priority
                } else {
                    queried
                },
            ),
    {
        let mut p: i32 = queried;
        if p == THREAD_PRIORITY_ERROR_RETURN {
            if let Some(t) = self.infos.get(&self.tid) {
                p = t.priority;
            }
        }
        Some(p)
    }

    /// Where the thread started: what the system gives, or else what it lists.
    pub fn entry(&self, queried: Option<usize>) -> (r: usize)
        ensures
            r == (match queried {
                Some(entry) => entry,
                None => if self.infos@.dom().contains(self.tid) {
                    self.infos@[self.tid].start_address
                } else {
                    0
                },
            }),
    {
        match queried {
            Some(entry) => entry,
            None => match self.infos.get(&self.tid) {
                Some(t) => t.start_address,
                None => 0,
            },
        }
    }

    /// The call by which the thread is suspended.
    pub fn suspend(&self) -> (r: SuspendCall)
        ensures
            r == (if self.wow64 {
                SuspendCall::Wow64
            } else {
                SuspendCall::Native
            }),
    {
        if self.wow64 {
            SuspendCall::Wow64
        } else {
            SuspendCall::Native
        }
    }

    /// Where the number of the thread's last error stands, if its block is known
    /// and there is such a place in memory.
    pub fn last_error(teb: Option<usize>, offset: usize) -> (r: Option<usize>)
        ensures
            r == (match teb {
                Some(teb) => if teb + offset <= usize::MAX {
                    Some((teb + offset) as usize)
                } else {
                    None
                },
                None => None,
            }),
    {
        match teb {
            Some(teb) => teb.checked_add(offset),
            None => None,
        }
    }

    /// The register a property stands for: a name after an at sign.
    pub fn get_prop(key: &str) -> (r: UDbgResult<String>)
        ensures
            match r {
                Ok(name) => key@.len() > 0 && key@[0] == '@' && name@ == key@.skip(1),
                Err(e) => (key@.len() == 0 || key@[0] != '@') && e == UDbgError::NotSupport,
            },
    {
        let len: usize = key.unicode_len();
        if len > 0 && key.get_char(0) == '@' {
            let name = key.substring_char(1, len);
            assert(name@ =~= key@.skip(1));
            Ok(name.to_owned())
        } else {
            Err(UDbgError::NotSupport)
        }
    }

    /// The value of a register, if there is one of that name.
    pub fn get_reg(value: Option<usize>) -> (r: UDbgResult<usize>)
        ensures
            r == (match value {
                Some(n) => Ok::<usize, UDbgError>(n),
                None => Err(UDbgError::InvalidRegister),
            }),
    {
        match value {
            Some(n) => Ok(n),
            None => Err(UDbgError::InvalidRegister),
        }
    }
}

/// A thread of a target, opened under its number.
pub fn open_win_thread(tid: Tid, handle: usize, wow64: bool) -> (r: WinThread)
    ensures
        r.tid == tid,
        r.handle == handle,
        r.wow64 == wow64,
        r.infos@ == Map::<Tid, ThreadStat>::empty(),
{
    WinThread { tid, wow64, handle, teb: new_cell(0), infos: HashMap::new() }
}

/// How a thread is opened: by the handle an event brought, or under its number.
#[derive(Clone, Copy, Debug, PartialEq, Eq, Structural)]
pub enum ThreadSource {
    Event { tid: Tid, handle: usize, local_base: usize },
    Number { tid: Tid },
}

/// The block's address that is known of a thread when it is opened: the one of
/// the event that brought it, or zero.
pub fn start_block(source: ThreadSource) -> (r: usize)
    ensures
        r == (match source {
            ThreadSource::Event { local_base, .. } => local_base,
            ThreadSource::Number { .. } => 0,
        }),
{
    match source {
        ThreadSource::Event { local_base, .. } => local_base,
        ThreadSource::Number { .. } => 0,
    }
}

impl StandardAdaptor {
    /// How a thread of this target is opened.
    pub fn open_thread(&self, tid: Tid) -> (r: ThreadSource)
        ensures
            r == (if self@.threads.dom().contains(tid) {
                let t = self@.threads[tid];
                ThreadSource::Event { tid: t.tid, handle: t.handle, local_base: t.local_base }
            } else {
                ThreadSource::Number { tid }
            }),
    {
        match self.threads.get(&tid) {
            Some(t) => ThreadSource::Event {
                tid: t.tid,
                handle: t.handle,
                local_base: t.local_base,
            },
            None => ThreadSource::Number { tid },
        }
    }

    /// An opened thread, once its handle was copied: what is known of its block is
    /// what `start_block` says.
    pub fn opened_thread(&self, source: ThreadSource, handle: usize) -> (r: WinThread)
        ensures
            r.tid == (match source {
                ThreadSource::Event { tid, .. } => tid,
                ThreadSource::Number { tid } => tid,
            }),
            r.handle == handle,
            r.wow64 == self@.debug.wow64,
            r.infos@ == Map::<Tid, ThreadStat>::empty(),
    {
        let tid: Tid = match source {
            ThreadSource::Event { tid, .. } => tid,
            ThreadSource::Number { tid } => tid,
        };
        WinThread {
            tid,
            wow64: self.debug.symgr.is_wow64,
            handle,
            teb: new_cell(start_block(source)),
            infos: HashMap::new(),
        }
    }

    /// The threads the events brought, by the numbers the system gives for them.
    pub fn known_threads(&self) -> (r: Vec<Tid>)
        ensures
            exists|keys: Seq<Tid>|
                #![trigger keys.no_duplicates()]
                {
                    &&& keys.no_duplicates()
                    &&& keys.to_set() == self@.threads.dom()
                    &&& r@ == keys.map_values(|k: Tid| self@.threads[k].tid)
                },
    {
        let keys = key_list(&self.threads);
        let mut result: Vec<Tid> = Vec::new();
        let mut i: usize = 0;
        while i < keys.len()
            invariant
                i <= keys.len(),
                keys@.to_set() == self.threads@.dom(),
                result@ == keys@.take(i as int).map_values(|k: Tid| self.threads@[k].tid),
            decreases keys.len() - i,
        {
            assert(keys@.to_set().contains(keys@[i as int]));
            if let Some(t) = self.threads.get(&keys[i]) {
                result.push(t.tid);
            }
            assert(result@ =~= keys@.take(i + 1).map_values(|k: Tid| self.threads@[k].tid));
            i += 1;
        }
        assert(keys@.take(i as int) =~= keys@);
        assert(keys@.no_duplicates());
        result
    }
}

/// The numbers under which threads are known.
fn key_list(threads: &HashMap<Tid, DbgThread>) -> (r: Vec<Tid>)
    ensures
        r@.no_duplicates(),
        r@.to_set() == threads@.dom(),
{
    let mut keys: Vec<Tid> = Vec::new();
    for k in it: threads.keys()
        invariant
            it.seq().unref().to_set() == threads@.dom(),
            it.seq().no_duplicates(),
            keys@ == it.seq().unref().take(it.index()),
            it.index() == it.seq().len() ==> keys@ =~= it.seq().unref(),
    {
        assert(it.seq().unref().take(it.index() + 1) =~= keys@.push(*k));
        keys.push(*k);
    }
    keys
}

/// The threads of a process among all threads of the system, each once.
pub fn thread_ids(all: &Vec<(Pid, Tid)>, pid: Pid) -> (r: Vec<Tid>)
    ensures
        r@.no_duplicates(),
        forall|tid: Tid| #[trigger] r@.contains(tid) <==> all@.contains((pid, tid)),
{
    let mut result: Vec<Tid> = Vec::new();
    let mut i: usize = 0;
    while i < all.len()
        invariant
            i <= all.len(),
            result@.no_duplicates(),
            forall|tid: Tid| #[trigger]
                result@.contains(tid) <==> all@.take(i as int).contains((pid, tid)),
        decreases all.len() - i,
    {
        let (p, tid) = all[i];
        let ghost before = result@;
        let ghost some = all@.take(i as int);
        let ghost more = all@.take(i + 1);
        assert(more =~= some.push((p, tid)));
        assert forall|x: (Pid, Tid)| more.contains(x) <==> some.contains(x) || x == (p, tid) by {
            if some.contains(x) {
                let k = choose|k: int| 0 <= k < some.len() && some[k] == x;
                assert(more[k] == x);
            }
            assert(more[i as int] == (p, tid));
            if more.contains(x) && x != (p, tid) {
                let k = choose|k: int| 0 <= k < more.len() && more[k] == x;
                assert(some[k] == x);
            }
        }
        if p == pid && !holds(&result, tid) {
            result.push(tid);
            assert forall|t: Tid| #[trigger] result@.contains(t) <==> before.contains(t) || t
                == tid by {
                if before.contains(t) {
                    let k = choose|k: int| 0 <= k < before.len() && before[k] == t;
                    assert(result@[k] == t);
                }
                assert(result@[before.len() as int] == tid);
                if result@.contains(t) && t != tid {
                    let k = choose|k: int| 0 <= k < result@.len() && result@[k] == t;
                    assert(before[k] == t);
                }
            }
            assert forall|t: Tid| #[trigger] result@.contains(t) <==> more.contains((pid, t)) by {
                assert(before.contains(t) <==> some.contains((pid, t)));
            }
        } else {
            assert forall|t: Tid| #[trigger] result@.contains(t) <==> more.contains((pid, t)) by {
                assert(before.contains(t) <==> some.contains((pid, t)));
            }
        }
        i += 1;
    }
    assert(all@.take(i as int) =~= all@);
    result
}

/// The last entry of a list for a thread.
pub open spec fn last_listed(listed: Seq<(Tid, ThreadStat)>, tid: Tid) -> Option<int>
    decreases listed.len(),
{
    if listed.len() == 0 {
        None
    } else if listed.last().0 == tid {
        Some(listed.len() - 1)
    } else {
        last_listed(listed.drop_last(), tid)
    }
}

/// Whether two entries say the same.
pub open spec fn same_stat(a: ThreadStat, b: ThreadStat) -> bool {
    a.priority == b.priority && a.start_address == b.start_address && a.status@ == b.status@
}

/// Whether a table holds what a list says last of each of some threads.
pub open spec fn holds_stats(
    infos: Map<Tid, ThreadStat>,
    ids: Seq<Tid>,
    listed: Seq<(Tid, ThreadStat)>,
) -> bool {
    forall|tid: Tid|
        #![trigger infos.dom().contains(tid)]
        match last_listed(listed, tid) {
            Some(i) => {
                &&& infos.dom().contains(tid) <==> ids.contains(tid)
                &&& ids.contains(tid) ==> same_stat(infos[tid], listed[i].1)
            },
            None => !infos.dom().contains(tid),
        }
}

proof fn lemma_last_listed(listed: Seq<(Tid, ThreadStat)>, tid: Tid)
    ensures
        last_listed(listed, tid) matches Some(i) ==> 0 <= i < listed.len() && listed[i].0 == tid,
    decreases listed.len(),
{
    if listed.len() > 0 && listed.last().0 != tid {
        lemma_last_listed(listed.drop_last(), tid);
    }
}

/// What the system lists of some threads, by thread.
pub fn thread_infos(ids: &Vec<Tid>, listed: &Vec<(Tid, ThreadStat)>) -> (r: HashMap<
    Tid,
    ThreadStat,
>)
    ensures
        holds_stats(r@, ids@, listed@),
{
    let mut infos: HashMap<Tid, ThreadStat> = HashMap::new();
    let mut i: usize = 0;
    while i < listed.len()
        invariant
            i <= listed.len(),
            holds_stats(infos@, ids@, listed@.take(i as int)),
        decreases listed.len() - i,
    {
        let tid: Tid = listed[i].0;
        let stat = &listed[i].1;
        let ghost before = infos@;
        let ghost some = listed@.take(i as int);
        let ghost more = listed@.take(i + 1);
        assert(more.drop_last() =~= some);
        assert(more.last() == listed@[i as int]);
        if holds(ids, tid) {
            let copy = ThreadStat {
                priority: stat.priority,
                start_address: stat.start_address,
                status: stat.status.clone(),
            };
            infos.insert(tid, copy);
        }
        assert forall|t: Tid| #![trigger infos@.dom().contains(t)]
            match last_listed(more, t) {
                Some(k) => {
                    &&& infos@.dom().contains(t) <==> ids@.contains(t)
                    &&& ids@.contains(t) ==> same_stat(infos@[t], more[k].1)
                },
                None => !infos@.dom().contains(t),
            } by {
            assert(before.dom().contains(t) == before.dom().contains(t));
            lemma_last_listed(some, t);
            if t != tid {
                assert(last_listed(more, t) == last_listed(some, t));
                assert(infos@.dom().contains(t) == before.dom().contains(t));
                if let Some(k) = last_listed(some, t) {
                    assert(more[k] == some[k]);
                }
            }
        }
        i += 1;
    }
    assert(listed@.take(i as int) =~= listed@);
    infos
}

/// How a thread is opened, given the target it is a thread of.
pub open spec fn source_of(threads: Option<Map<Tid, DbgThread>>, tid: Tid) -> ThreadSource {
    match threads {
        Some(threads) => if threads.dom().contains(tid) {
            ThreadSource::Event {
                tid: threads[tid].tid,
                handle: threads[tid].handle,
                local_base: threads[tid].local_base,
            }
        } else {
            ThreadSource::Number { tid }
        },
        None => ThreadSource::Number { tid },
    }
}

/// The threads that an adaptor knows.
pub open spec fn threads_of(adaptor: Option<&StandardAdaptor>) -> Option<Map<Tid, DbgThread>> {
    match adaptor {
        Some(adaptor) => Some(adaptor@.threads),
        None => None,
    }
}

/// The numbers in a list of threads to open.
pub open spec fn numbers(list: Seq<(Tid, ThreadSource)>) -> Seq<Tid> {
    list.map_values(|t: (Tid, ThreadSource)| t.0)
}

/// How to open every thread of a process, each once.
pub fn open_all_thread(
    all: &Vec<(Pid, Tid)>,
    pid: Pid,
    adaptor: Option<&StandardAdaptor>,
) -> (r: Vec<(Tid, ThreadSource)>)
    ensures
        numbers(r@).no_duplicates(),
        forall|tid: Tid| #[trigger] numbers(r@).contains(tid) <==> all@.contains((pid, tid)),
        forall|i: int|
            0 <= i < r.len() ==> (#[trigger] r@[i]).1 == source_of(threads_of(adaptor), r@[i].0),
{
    let ids = thread_ids(all, pid);
    let mut result: Vec<(Tid, ThreadSource)> = Vec::new();
    let mut i: usize = 0;
    while i < ids.len()
        invariant
            i <= ids.len(),
            result.len() == i,
            forall|k: int|
                0 <= k < i ==> (#[trigger] result@[k]).0 == ids@[k] && result@[k].1 == source_of(
                    threads_of(adaptor),
                    ids@[k],
                ),
        decreases ids.len() - i,
    {
        let tid: Tid = ids[i];
        let source = match adaptor {
            Some(a) => a.open_thread(tid),
            None => ThreadSource::Number { tid },
        };
        result.push((tid, source));
        i += 1;
    }
    assert(numbers(result@) =~= ids@);
    result
}

} // verus!
