//! Reading and writing the registers of a thread that may be running.
use vstd::prelude::*;

use crate::adaptor::CommonAdaptor;
use crate::io::{Action, Place, Poll, Reply};
use crate::regs::{Context32, Context64};
use crate::types::Tid;

verus! {

/// What is done with the registers of a thread.
#[derive(Clone, Copy, Debug)]
pub enum Access {
    Read,
    Read32,
    Write(Context64),
    Write32(Context32),
}

/// The action whose answer the access waits for.
#[derive(Clone, Copy, Debug, PartialEq, Eq, Structural)]
pub enum AccessStage {
    Suspend,
    Touch,
    Resume,
}

/// Reading or writing the registers of one thread, suspended meanwhile.
#[derive(Clone, Copy, Debug)]
pub struct AccessOp {
    pub handle: usize,
    pub access: Access,
    /// What the host said of the registers.
    pub answer: Reply,
    pub stage: AccessStage,
}

pub type AccessPoll = Poll<AccessOp, Reply>;

/// The action that reads or writes the registers.
pub open spec fn access_action(handle: usize, access: Access) -> Action {
    let place = Place::Handle(handle);
    match access {
        Access::Read => Action::GetContext { place },
        Access::Read32 => Action::GetContext32 { place },
        Access::Write(cx) => Action::SetContext { place, cx },
        Access::Write32(cx32) => Action::SetContext32 { place, cx32 },
    }
}

/// Starts by suspending the thread.
pub open spec fn access_start(handle: usize, access: Access) -> AccessPoll {
    Poll::Pending(
        Action::Suspend { handle },
        AccessOp { handle, access, answer: Reply::Done, stage: AccessStage::Suspend },
    )
}

/// Goes on: the registers are touched, and the thread is let go whatever came of it.
pub open spec fn access_next(op: AccessOp, reply: Reply) -> AccessPoll {
    match op.stage {
        AccessStage::Suspend => Poll::Pending(
            access_action(op.handle, op.access),
            AccessOp { stage: AccessStage::Touch, ..op },
        ),
        AccessStage::Touch => Poll::Pending(
            Action::Resume { handle: op.handle },
            AccessOp { answer: reply, stage: AccessStage::Resume, ..op },
        ),
        AccessStage::Resume => Poll::Ready(op.answer),
    }
}

/// A thread that was suspended for an access is let go, and what the host said of
/// its registers is what comes back.
pub proof fn lemma_access(handle: usize, access: Access, a: Reply, b: Reply, c: Reply)
    ensures
        access_start(handle, access) matches Poll::Pending(first, op) && first == (
        Action::Suspend { handle }) && (access_next(op, a) matches Poll::Pending(second, op1)
            && second == access_action(handle, access) && (access_next(op1, b) matches Poll::Pending(
            third,
            op2,
        ) && third == (Action::Resume { handle }) && access_next(op2, c) == AccessPoll::Ready(b))),
{
}

/// Starts to read or write the registers of a thread.
pub fn access_context(handle: usize, access: Access) -> (r: AccessPoll)
    ensures
        r == access_start(handle, access),
{
    Poll::Pending(
        Action::Suspend { handle },
        AccessOp { handle, access, answer: Reply::Done, stage: AccessStage::Suspend },
    )
}

/// Goes on with that.
pub fn resume_access(op: AccessOp, reply: Reply) -> (r: AccessPoll)
    ensures
        r == access_next(op, reply),
{
    match op.stage {
        AccessStage::Suspend => {
            let place = Place::Handle(op.handle);
            let action = match op.access {
                Access::Read => Action::GetContext { place },
                Access::Read32 => Action::GetContext32 { place },
                Access::Write(cx) => Action::SetContext { place, cx },
                Access::Write32(cx32) => Action::SetContext32 { place, cx32 },
            };
            Poll::Pending(action, AccessOp { stage: AccessStage::Touch, ..op })
        },
        AccessStage::Touch => Poll::Pending(
            Action::Resume { handle: op.handle },
            AccessOp { answer: reply, stage: AccessStage::Resume, ..op },
        ),
        AccessStage::Resume => Poll::Ready(op.answer),
    }
}

/// Starts to read the registers of a thread.
pub fn get_thread_handle_context(handle: usize) -> (r: AccessPoll)
    ensures
        r == access_start(handle, Access::Read),
{
    access_context(handle, Access::Read)
}

/// Opens a thread to read its registers.
pub fn get_thread_context(tid: Tid) -> (r: Action)
    ensures
        r == (Action::OpenThread { tid }),
{
    Action::OpenThread { tid }
}

/// Starts to write the registers of a thread.
pub fn set_thread_context(handle: usize, cx: Context64) -> (r: AccessPoll)
    ensures
        r == access_start(handle, Access::Write(cx)),
{
    access_context(handle, Access::Write(cx))
}

impl CommonAdaptor {
    /// The registers an access gave, if it did.
    pub fn get_registers(answer: Reply) -> (r: Option<Context64>)
        ensures
            r == (match answer {
                Reply::Context(cx) => Some(cx),
                _ => None,
            }),
    {
        match answer {
            Reply::Context(cx) => Some(cx),
            _ => None,
        }
    }

    /// Whether the registers were written.
    pub fn set_thread_context(answer: Reply) -> (r: bool)
        ensures
            r == answer.done(),
    {
        answer.done()
    }
}

/// The base of a segment out of its descriptor: sixteen low bits, and two bytes
/// at the ends of the high word.
pub open spec fn descriptor_base(low: u16, high: u32) -> u32 {
    (low as u32) | ((high & 0xff) << 16) | (((high >> 24) & 0xff) << 24)
}

/// The base of a segment out of its descriptor.
pub fn get_selector_entry(low: u16, high: u32) -> (r: usize)
    ensures
        r == descriptor_base(low, high),
{
    get_selector_entry_wow64(low, high) as usize
}

/// The same as a number of 32 bits.
pub fn get_selector_entry_wow64(low: u16, high: u32) -> (r: u32)
    ensures
        r == descriptor_base(low, high),
{
    (low as u32) | ((high & 0xff) << 16) | (((high >> 24) & 0xff) << 24)
}

/// The parts of a base do not overlap: each byte of it is one of the descriptor.
pub proof fn lemma_descriptor_base(low: u16, high: u32)
    ensures
        descriptor_base(low, high) & 0xffff == low,
        (descriptor_base(low, high) >> 16) & 0xff == high & 0xff,
        descriptor_base(low, high) >> 24 == high >> 24,
{
    let base = descriptor_base(low, high);
    assert(base & 0xffff == low as u32 && (base >> 16) & 0xff == high & 0xff && base >> 24 == high
        >> 24) by (bit_vector)
        requires
            base == (low as u32) | ((high & 0xff) << 16) | (((high >> 24) & 0xff) << 24),
    ;
}

} // verus!
