//! Plain values the debugger works with: breakpoints, events, errors.
use vstd::prelude::*;

verus! {

/// Number under which a breakpoint is found: its address, or a negative number
/// for a debug-register slot or a redirected table entry.
pub type BpID = isize;

/// Number of a thread.
pub type Tid = u32;

/// Number of a process.
pub type Pid = u32;

/// Place of a breakpoint in the adaptor's store.
pub type BpHandle = usize;

/// Byte of the trap instruction.
pub const BP_INSN: u8 = 0xCC;

/// The answer given to the system for a debug event.
#[derive(Clone, Copy, Debug, PartialEq, Eq, Structural)]
pub enum HandleResult {
    Continue,
    Handled,
    NotHandled,
}

/// The answer is that execution goes on.
pub const DBG_CONTINUE: u32 = 0x00010002;

/// The exception was dealt with.
pub const DBG_EXCEPTION_HANDLED: u32 = 0x00010001;

/// The exception is left to the target.
pub const DBG_EXCEPTION_NOT_HANDLED: u32 = 0x80010001;

impl HandleResult {
    /// The number the system knows the answer by.
    pub open spec fn number(self) -> u32 {
        match self {
            HandleResult::Continue => DBG_CONTINUE,
            HandleResult::Handled => DBG_EXCEPTION_HANDLED,
            HandleResult::NotHandled => DBG_EXCEPTION_NOT_HANDLED,
        }
    }

    /// The number the system knows the answer by.
    pub fn code(self) -> (n: u32)
        ensures
            n == self.number(),
    {
        match self {
            HandleResult::Continue => DBG_CONTINUE,
            HandleResult::Handled => DBG_EXCEPTION_HANDLED,
            HandleResult::NotHandled => DBG_EXCEPTION_NOT_HANDLED,
        }
    }
}

/// Distinct answers have distinct numbers.
pub proof fn lemma_codes_differ(a: HandleResult, b: HandleResult)
    ensures
        a.number() == b.number() ==> a == b,
{
}

/// What a failed operation ran into, in words.
#[derive(Clone, Copy, Debug, PartialEq, Eq, Structural)]
pub enum Reason {
    ReadOrigin,
    NoTableIndex,
    AlreadyPaused,
    MapFailed,
    ParsePe,
    ParentOpen,
    ParentSet,
    GetPid,
    OpenProcess,
}

impl Reason {
    /// The words for it.
    pub open spec fn words(self) -> &'static str {
        match self {
            Reason::ReadOrigin => "read origin failed",
            Reason::NoTableIndex => "no more table index",
            Reason::AlreadyPaused => "already paused",
            Reason::MapFailed => "map failed",
            Reason::ParsePe => "parse pe",
            Reason::ParentOpen => "ppid open failed",
            Reason::ParentSet => "set ppid falied",
            Reason::GetPid => "get pid",
            Reason::OpenProcess => "open process",
        }
    }

    /// The words for it.
    pub fn message(self) -> (s: &'static str)
        ensures
            s@ == self.words()@,
    {
        match self {
            Reason::ReadOrigin => "read origin failed",
            Reason::NoTableIndex => "no more table index",
            Reason::AlreadyPaused => "already paused",
            Reason::MapFailed => "map failed",
            Reason::ParsePe => "parse pe",
            Reason::ParentOpen => "ppid open failed",
            Reason::ParentSet => "set ppid falied",
            Reason::GetPid => "get pid",
            Reason::OpenProcess => "open process",
        }
    }
}

/// Why an operation failed; a number is the system's own.
#[derive(Clone, Copy, Debug, PartialEq, Eq, Structural)]
pub enum UDbgError {
    InvalidAddress,
    InvalidRegister,
    BpExists,
    HWBPSlotMiss,
    MemoryError,
    NotFound,
    NotSupport,
    TargetIsBusy,
    GetContext(u32),
    SetContext(u32),
    System(u32),
    Text(Reason),
}

/// The outcome of an operation of the debugger.
pub type UDbgResult<T> = Result<T, UDbgError>;

/// What a debug-register breakpoint watches for.
#[derive(Clone, Copy, Debug, PartialEq, Eq, Structural)]
pub enum HwbpType {
    Execute,
    Write,
    Access,
}

impl HwbpType {
    /// The bits of the control register for it.
    pub open spec fn bits(self) -> u8 {
        match self {
            HwbpType::Execute => 0,
            HwbpType::Write => 1,
            HwbpType::Access => 3,
        }
    }

    /// The bits of the control register for it.
    pub fn code(self) -> (n: u8)
        ensures
            n == self.bits(),
    {
        match self {
            HwbpType::Execute => 0,
            HwbpType::Write => 1,
            HwbpType::Access => 3,
        }
    }
}

/// How many bytes a debug-register breakpoint watches.
#[derive(Clone, Copy, Debug, PartialEq, Eq, Structural)]
pub enum HwbpLen {
    L1,
    L2,
    L4,
    L8,
}

impl HwbpLen {
    /// The bits of the control register for it.
    pub open spec fn bits(self) -> u8 {
        match self {
            HwbpLen::L1 => 0,
            HwbpLen::L2 => 1,
            HwbpLen::L4 => 3,
            HwbpLen::L8 => 2,
        }
    }

    /// The bits of the control register for it.
    pub fn code(self) -> (n: u8)
        ensures
            n == self.bits(),
    {
        match self {
            HwbpLen::L1 => 0,
            HwbpLen::L2 => 1,
            HwbpLen::L4 => 3,
            HwbpLen::L8 => 2,
        }
    }
}

/// The slot of a debug-register breakpoint and the bits written for it.
#[derive(Clone, Copy, Debug, PartialEq, Eq, Structural)]
pub struct HwbpInfo {
    pub index: u8,
    pub rw: u8,
    pub len: u8,
}

/// How a breakpoint stops the target.
#[derive(Clone, Copy, Debug, PartialEq, Eq, Structural)]
pub enum InnerBpType {
    /// A trap instruction over the byte held here.
    Soft(u8),
    /// A pointer redirected to `index`; it held `origin`.
    Table { index: BpID, origin: usize },
    /// A slot of the debug registers.
    Hard(HwbpInfo),
}

/// A breakpoint of the target.
#[derive(Clone, Copy, Debug, PartialEq, Eq)]
pub struct Breakpoint {
    pub address: usize,
    pub enabled: bool,
    pub temp: bool,
    pub hit_tid: Option<Tid>,
    pub hit_count: usize,
    pub bp_type: InnerBpType,
}

/// The number of the breakpoint at an address.
pub open spec fn id_of(address: usize) -> BpID {
    address as isize
}

impl Breakpoint {
    /// The number the breakpoint is kept under.
    pub fn get_id(&self) -> (id: BpID)
        ensures
            id == id_of(self.address),
    {
        self.address as isize
    }

    /// Whether it is a trap instruction.
    pub fn is_soft(&self) -> (r: bool)
        ensures
            r == (self.bp_type is Soft),
    {
        match self.bp_type {
            InnerBpType::Soft(_) => true,
            _ => false,
        }
    }

    /// Whether it is a slot of the debug registers.
    pub fn is_hard(&self) -> (r: bool)
        ensures
            r == (self.bp_type is Hard),
    {
        match self.bp_type {
            InnerBpType::Hard(_) => true,
            _ => false,
        }
    }

    /// The slot it occupies, where it is one of the debug registers.
    pub fn hard_index(&self) -> (r: Option<usize>)
        ensures
            r == (match self.bp_type {
                InnerBpType::Hard(info) => Some(info.index as usize),
                _ => None,
            }),
    {
        match self.bp_type {
            InnerBpType::Hard(info) => Some(info.index as usize),
            _ => None,
        }
    }
}

/// What kind of breakpoint to add, and how.
#[derive(Clone, Copy, Debug, PartialEq, Eq)]
pub struct BpOpt {
    pub address: usize,
    pub rw: Option<HwbpType>,
    pub len: Option<HwbpLen>,
    pub table: bool,
    pub temp: bool,
    pub enable: bool,
    pub tid: Option<Tid>,
}

impl BpOpt {
    /// A trap instruction at an address, for every thread, enabled at once.
    pub open spec fn trap(address: usize) -> BpOpt {
        BpOpt {
            address,
            rw: None,
            len: None,
            table: false,
            temp: false,
            enable: true,
            tid: None,
        }
    }

    /// A trap instruction at an address, for every thread, enabled at once.
    pub fn int3(address: usize) -> (r: BpOpt)
        ensures
            r == Self::trap(address),
    {
        BpOpt {
            address,
            rw: None,
            len: None,
            table: false,
            temp: false,
            enable: true,
            tid: None,
        }
    }

    /// A debug-register breakpoint at an address, for every thread, enabled at once.
    pub fn hwbp(address: usize, rw: HwbpType, len: Option<HwbpLen>) -> (r: BpOpt)
        ensures
            r == (BpOpt { rw: Some(rw), len, ..Self::trap(address) }),
    {
        BpOpt { rw: Some(rw), len, ..Self::int3(address) }
    }

    /// The same, removed at its first hit.
    pub fn temp(self, temp: bool) -> (r: BpOpt)
        ensures
            r == (BpOpt { temp, ..self }),
    {
        BpOpt { temp, ..self }
    }

    /// The same, enabled at once or not.
    pub fn enable(self, enable: bool) -> (r: BpOpt)
        ensures
            r == (BpOpt { enable, ..self }),
    {
        BpOpt { enable, ..self }
    }

    /// The same, for one thread.
    pub fn thread(self, tid: Tid) -> (r: BpOpt)
        ensures
            r == (BpOpt { tid: Some(tid), ..self }),
    {
        BpOpt { tid: Some(tid), ..self }
    }

    /// The same, by redirecting the pointer at the address.
    pub fn table(self, table: bool) -> (r: BpOpt)
        ensures
            r == (BpOpt { table, ..self }),
    {
        BpOpt { table, ..self }
    }
}

/// What the user wants done after an event.
#[derive(Clone, Copy, Debug, PartialEq, Eq, Structural)]
pub enum UserReply {
    /// Go on; `true` where an exception counts as dealt with.
    Run(bool),
    StepIn,
    StepOut,
    Goto(usize),
}

/// What the user is told of.
#[derive(Clone, Copy, Debug, PartialEq, Eq, Structural)]
pub enum UEvent {
    InitBp,
    ProcessCreate,
    ProcessExit(u32),
    ThreadCreate(Tid),
    ThreadExit(u32),
    /// A module at a base address.
    ModuleLoad(usize),
    ModuleUnload(usize),
    Breakpoint(BpHandle),
    Step,
    Exception { first: bool, code: u32 },
}

/// How far the session with a target has come.
#[derive(Clone, Copy, Debug, PartialEq, Eq, Structural)]
pub enum UDbgStatus {
    /// Opened for inspection only.
    Opened,
    Running,
    Paused,
    Ended,
}

/// Instruction set a stopped thread runs.
#[derive(Clone, Copy, Debug, PartialEq, Eq, Structural)]
pub enum Arch {
    X86,
    X64,
}

/// Number of parameters an exception carries.
pub const EXCEPTION_MAXIMUM_PARAMETERS: usize = 15;

/// An exception as the system reported it.
#[derive(Clone, Copy, Debug)]
pub struct ExceptionRecord {
    pub code: u32,
    pub address: u64,
    pub params: [u64; 15],
}

} // verus!
