//! What the debugger asks of the host, and what the host answers.
//!
//! Every operation that needs the target is a value: it names the next action,
//! and goes on with the answer to it.
use vstd::prelude::*;

use crate::regs::{Context32, Context64};
use crate::types::{ExceptionRecord, Pid, Tid, UDbgError, UEvent, UserReply};

verus! {

/// Where an operation stands: it waits for an answer, or it has its result.
pub enum Poll<O, T> {
    Pending(Action, O),
    Ready(T),
}

/// How a thread is reached: by the handle the debugger was given, or by number.
#[derive(Clone, Copy, Debug, PartialEq, Eq, Structural)]
pub enum Place {
    Handle(usize),
    Tid(Tid),
}

/// One thing for the host to do.
#[derive(Clone, Copy, Debug)]
pub enum Action {
    /// Read one instruction byte: `Byte`, or anything else where it is unreadable.
    ReadInsn { address: usize },
    /// Read a pointer of the target: `Word`.
    ReadPtr { address: usize },
    /// Write one byte of code: `Word` with the number of bytes written.
    WriteCode { address: usize, byte: u8 },
    /// Write a pointer of the target: `Done` where it was written.
    WritePtr { address: usize, value: usize },
    /// Where a call at the address returns to: `Word`, if it is a call.
    CheckCall { address: usize },
    /// Start walking the target's threads: `Thread` with the first of them.
    FirstThread,
    /// Go on with that walk: `Thread` with the next.
    NextThread,
    /// Open a thread: `Handle`, or `Refused` with the error.
    OpenThread { tid: Tid },
    /// Suspend a thread: `Failed` where the count came back negative.
    Suspend { handle: usize },
    /// Resume a thread.
    Resume { handle: usize },
    /// Read the debug registers: `Context`, or `Failed`.
    GetDebugRegs { handle: usize },
    /// Write the debug registers: `Failed` where it was refused.
    SetDebugRegs { handle: usize, cx: Context64 },
    /// Read the debug registers of the 32-bit side: `Context32`.
    GetDebugRegs32 { handle: usize },
    /// Write the debug registers of the 32-bit side.
    SetDebugRegs32 { handle: usize, cx32: Context32 },
    /// Read all registers: `Context`.
    GetContext { place: Place },
    /// Read all registers of the 32-bit side: `Context32`.
    GetContext32 { place: Place },
    /// Write all registers.
    SetContext { place: Place, cx: Context64 },
    /// Write all registers of the 32-bit side.
    SetContext32 { place: Place, cx32: Context32 },
    /// Tell the user: `User` with what they want done.
    Callback(UEvent),
    /// Find the module's path and note the module.
    LoadModule { name: usize, base: usize, file: usize, unicode: bool },
    /// Ask whether new threads are to be left without breakpoints: `Flag`.
    AskHwbp,
    /// Show a string of the target.
    ShowString { address: usize, count: usize, wide: bool },
    /// Wait for a debug event: `Event`.
    WaitEvent,
    /// Let the target go on from an event.
    ContinueEvent { pid: Pid, tid: Tid, status: u32 },
    /// Leave the target: `Flag` with whether the system did so.
    StopDebugging { pid: Pid },
    /// Stop the target where it is: `Failed` where the system refused.
    BreakProcess,
    /// End the target: `Failed` where the system refused.
    Terminate,
    /// Wait for the target's end for some milliseconds: `Word` with what the system said.
    WaitExit { timeout: u32 },
}

/// The host's answer to an action.
#[derive(Clone, Copy, Debug)]
pub enum Reply {
    Done,
    Failed(u32),
    Refused(UDbgError),
    Byte(u8),
    Word(usize),
    Flag(bool),
    Thread(Tid),
    Handle(usize),
    Context(Context64),
    Context32(Context32),
    User(UserReply),
    Event(DebugEvent),
}

impl Reply {
    /// The byte that was read, if one was.
    #[verifier::allow_in_spec]
    pub fn byte(self) -> (r: Option<u8>)
        returns
            match self {
                Reply::Byte(b) => Some(b),
                _ => None,
            },
    {
        match self {
            Reply::Byte(b) => Some(b),
            _ => None,
        }
    }

    /// The word that came back, if one did.
    #[verifier::allow_in_spec]
    pub fn word(self) -> (r: Option<usize>)
        returns
            match self {
                Reply::Word(n) => Some(n),
                _ => None,
            },
    {
        match self {
            Reply::Word(n) => Some(n),
            _ => None,
        }
    }

    /// Whether the action was plainly done.
    #[verifier::allow_in_spec]
    pub fn done(self) -> (r: bool)
        returns
            match self {
                Reply::Done => true,
                _ => false,
            },
    {
        match self {
            Reply::Done => true,
            _ => false,
        }
    }

    /// The answer to a question; silence is no.
    #[verifier::allow_in_spec]
    pub fn flag(self) -> (r: bool)
        returns
            match self {
                Reply::Flag(b) => b,
                _ => false,
            },
    {
        match self {
            Reply::Flag(b) => b,
            _ => false,
        }
    }

    /// The thread the walk came to, if there was one.
    #[verifier::allow_in_spec]
    pub fn thread(self) -> (r: Option<Tid>)
        returns
            match self {
                Reply::Thread(tid) => Some(tid),
                _ => None,
            },
    {
        match self {
            Reply::Thread(tid) => Some(tid),
            _ => None,
        }
    }

    /// The handle of an opened thread, or the error.
    #[verifier::allow_in_spec]
    pub fn handle(self) -> (r: Result<usize, UDbgError>)
        returns
            match self {
                Reply::Handle(h) => Ok(h),
                Reply::Refused(e) => Err(e),
                Reply::Failed(code) => Err(UDbgError::System(code)),
                _ => Err(UDbgError::System(0)),
            },
    {
        match self {
            Reply::Handle(h) => Ok(h),
            Reply::Refused(e) => Err(e),
            Reply::Failed(code) => Err(UDbgError::System(code)),
            _ => Err(UDbgError::System(0)),
        }
    }

    /// The registers, or the system's error number.
    #[verifier::allow_in_spec]
    pub fn context(self) -> (r: Result<Context64, u32>)
        returns
            match self {
                Reply::Context(cx) => Ok(cx),
                Reply::Failed(code) => Err(code),
                _ => Err(0u32),
            },
    {
        match self {
            Reply::Context(cx) => Ok(cx),
            Reply::Failed(code) => Err(code),
            _ => Err(0u32),
        }
    }

    /// The registers of the 32-bit side, if they were read.
    #[verifier::allow_in_spec]
    pub fn context32(self) -> (r: Option<Context32>)
        returns
            match self {
                Reply::Context32(cx) => Some(cx),
                _ => None,
            },
    {
        match self {
            Reply::Context32(cx) => Some(cx),
            _ => None,
        }
    }

    /// The system's error number, where the action failed.
    #[verifier::allow_in_spec]
    pub fn failed(self) -> (r: Option<u32>)
        returns
            match self {
                Reply::Failed(code) => Some(code),
                _ => None,
            },
    {
        match self {
            Reply::Failed(code) => Some(code),
            _ => None,
        }
    }

    /// What the user wants done; silence means to go on.
    #[verifier::allow_in_spec]
    pub fn user(self) -> (r: UserReply)
        returns
            match self {
                Reply::User(u) => u,
                _ => UserReply::Run(false),
            },
    {
        match self {
            Reply::User(u) => u,
            _ => UserReply::Run(false),
        }
    }

    /// The event that came, if one did.
    #[verifier::allow_in_spec]
    pub fn event(self) -> (r: Option<DebugEvent>)
        returns
            match self {
                Reply::Event(e) => Some(e),
                _ => None,
            },
    {
        match self {
            Reply::Event(e) => Some(e),
            _ => None,
        }
    }
}

/// A thread as a debug event introduces it.
#[derive(Clone, Copy, Debug, PartialEq, Eq, Structural)]
pub struct ThreadInfo {
    pub tid: Tid,
    pub handle: usize,
    pub local_base: usize,
    pub start_address: usize,
}

/// A module as a debug event introduces it.
#[derive(Clone, Copy, Debug, PartialEq, Eq, Structural)]
pub struct ImageInfo {
    /// Where the target holds a pointer to the name.
    pub name: usize,
    pub base: usize,
    pub file: usize,
    pub unicode: bool,
}

/// What happened in the target.
#[derive(Clone, Copy, Debug)]
pub enum EventKind {
    Exception { first: bool, record: ExceptionRecord },
    CreateThread(ThreadInfo),
    CreateProcess { thread: ThreadInfo, image: ImageInfo },
    ExitThread(u32),
    ExitProcess(u32),
    LoadDll(ImageInfo),
    UnloadDll { base: usize },
    OutputString { address: usize, count: usize, unicode: bool },
    Rip { code: u32, kind: u32 },
}

/// A debug event and the thread it happened in.
#[derive(Clone, Copy, Debug)]
pub struct DebugEvent {
    pub pid: Pid,
    pub tid: Tid,
    pub kind: EventKind,
}

/// What was being done when something went wrong.
#[derive(Clone, Copy, Debug, PartialEq, Eq, Structural)]
pub enum Doing {
    AddBp,
    DisableBp,
    EnableBp,
    EnableAdded,
    DisableRemoved,
}

impl Doing {
    /// The words for it.
    pub open spec fn words(self) -> &'static str {
        match self {
            Doing::AddBp => "add bp",
            Doing::DisableBp => "disable bp",
            Doing::EnableBp => "enable bp",
            Doing::EnableAdded => "enable bp falied",
            Doing::DisableRemoved => "disable bp falied",
        }
    }

    /// The words for it.
    pub fn message(self) -> (s: &'static str)
        ensures
            s@ == self.words()@,
    {
        match self {
            Doing::AddBp => "add bp",
            Doing::DisableBp => "disable bp",
            Doing::EnableBp => "enable bp",
            Doing::EnableAdded => "enable bp falied",
            Doing::DisableRemoved => "disable bp falied",
        }
    }
}

/// Something the user is shown; none of it changes what is done.
#[derive(Clone, Copy, Debug, PartialEq, Eq, Structural)]
pub enum Report {
    Failure { doing: Doing, error: UDbgError },
    Suspend { handle: usize, code: u32 },
    OpenThread { tid: Tid, error: UDbgError },
    EnableThread { tid: Tid, error: UDbgError },
    NoProcessHandle(Tid),
    NoThreadHandle(Tid),
    Rip { code: u32, kind: u32 },
    Wow64(bool),
    Detached(bool),
}

} // verus!
