//! Starting a target.
use vstd::prelude::*;
use vstd::string::*;

use crate::adaptor::Process;
use crate::text::{
    append_all, has_space, holds_space, joined, second_part, after_star, trim, trimmed, views,
};
use crate::types::{Pid, Reason, UDbgError, UDbgResult};

verus! {

/// How a process is created, in flags.
pub const DEBUG_ONLY_THIS_PROCESS: u32 = 0x00000002;

pub const CREATE_NEW_CONSOLE: u32 = 0x00000010;

pub const EXTENDED_STARTUPINFO_PRESENT: u32 = 0x00080000;

/// Parts of the number of a start-up attribute.
pub const PROC_THREAD_ATTRIBUTE_NUMBER: usize = 0x0000FFFF;

pub const PROC_THREAD_ATTRIBUTE_THREAD: usize = 0x00010000;

pub const PROC_THREAD_ATTRIBUTE_INPUT: usize = 0x00020000;

pub const PROC_THREAD_ATTRIBUTE_ADDITIVE: usize = 0x00040000;

/// Number of the attribute that names a parent process.
pub const PARENT_PROCESS: usize = 0;

/// The number of a start-up attribute out of its parts.
pub open spec fn attribute_value(
    number: usize,
    thread: usize,
    input: usize,
    additive: usize,
) -> usize {
    (number & PROC_THREAD_ATTRIBUTE_NUMBER) | (if thread != 0 {
        PROC_THREAD_ATTRIBUTE_THREAD
    } else {
        0
    }) | (if input != 0 {
        PROC_THREAD_ATTRIBUTE_INPUT
    } else {
        0
    }) | (if additive != 0 {
        PROC_THREAD_ATTRIBUTE_ADDITIVE
    } else {
        0
    })
}

/// The number of a start-up attribute out of its parts.
pub fn proc_thread_attribute_value(
    number: usize,
    thread: usize,
    input: usize,
    additive: usize,
) -> (r: usize)
    ensures
        r == attribute_value(number, thread, input, additive),
{
    (number & PROC_THREAD_ATTRIBUTE_NUMBER) | (if thread != 0 {
        PROC_THREAD_ATTRIBUTE_THREAD
    } else {
        0
    }) | (if input != 0 {
        PROC_THREAD_ATTRIBUTE_INPUT
    } else {
        0
    }) | (if additive != 0 {
        PROC_THREAD_ATTRIBUTE_ADDITIVE
    } else {
        0
    })
}

/// A path as the first word of a command line: without spaces around it, and in
/// quotes where spaces are left in it.
pub open spec fn program_word(path: Seq<char>) -> Seq<char> {
    let word = trimmed(path);
    if has_space(word) {
        seq!['"'] + word + seq!['"']
    } else {
        word
    }
}

/// The command line of a program with arguments.
pub open spec fn command_line(path: Seq<char>, args: Seq<Seq<char>>) -> Seq<char> {
    if args.len() == 0 {
        program_word(path)
    } else {
        program_word(path) + seq![' '] + joined(args)
    }
}

/// How a target is to be started.
pub struct StartPlan {
    pub cmdline: String,
    /// Directory to start in; nothing for that of the debugger.
    pub cwd: Option<String>,
    pub flags: u32,
    /// The process to be taken for its parent.
    pub parent: Option<Pid>,
    /// Number of the attribute that says so.
    pub attribute: usize,
}

/// Plans the start of a target under debugging, in a console of its own, and as
/// the child of another process if one is named.
pub fn create_debug_process(
    path: &str,
    cwd: Option<&str>,
    args: &[&str],
    ppid: Option<Pid>,
) -> (r: StartPlan)
    ensures
        r.cmdline@ == command_line(path@, views(args@)),
        opt_view(r.cwd) == (match cwd {
            Some(dir) => Some(dir@),
            None => None,
        }),
        r.flags == (DEBUG_ONLY_THIS_PROCESS | CREATE_NEW_CONSOLE) | (match ppid {
            Some(_) => EXTENDED_STARTUPINFO_PRESENT,
            None => 0,
        }),
        r.parent == ppid,
        r.attribute == attribute_value(PARENT_PROCESS, 0, 1, 0),
{
    let word = trim(path);
    let program: String = if holds_space(word) {
        let mut quoted = "\"".to_owned();
        quoted.append(word);
        quoted.append("\"");
        proof {
            reveal_strlit("\"");
            assert("\""@ =~= seq!['"']);
        }
        quoted
    } else {
        word.to_owned()
    };
    assert(program@ =~= program_word(path@));
    let cmdline = append_all(program, args);
    let opt: u32 = match ppid {
        Some(_) => EXTENDED_STARTUPINFO_PRESENT,
        None => 0,
    };
    StartPlan {
        cmdline,
        cwd: match cwd {
            Some(dir) => Some(dir.to_owned()),
            None => None,
        },
        flags: (DEBUG_ONLY_THIS_PROCESS | CREATE_NEW_CONSOLE) | opt,
        parent: ppid,
        attribute: proc_thread_attribute_value(PARENT_PROCESS, 0, 1, 0),
    }
}

/// What the system said at each point of a start, as far as it was asked.
#[derive(Clone, Copy, Debug, PartialEq, Eq)]
pub struct StartSteps {
    pub parent_opened: bool,
    pub parent_set: bool,
    pub created: bool,
    /// The system's error, where the process was not created.
    pub code: u32,
    pub process: Option<Process>,
}

/// What came of a start.
pub open spec fn start_outcome(ppid: Option<Pid>, steps: StartSteps) -> UDbgResult<Process> {
    if ppid is Some && !steps.parent_opened {
        Err(UDbgError::Text(Reason::ParentOpen))
    } else if ppid is Some && !steps.parent_set {
        Err(UDbgError::Text(Reason::ParentSet))
    } else if !steps.created {
        Err(UDbgError::System(steps.code))
    } else {
        match steps.process {
            Some(p) => Ok(p),
            None => Err(UDbgError::Text(Reason::GetPid)),
        }
    }
}

/// What came of a start: the first thing that went wrong, or the process.
pub fn start_result(ppid: Option<Pid>, steps: StartSteps) -> (r: UDbgResult<Process>)
    ensures
        r == start_outcome(ppid, steps),
{
    if ppid.is_some() && !steps.parent_opened {
        return Err(UDbgError::Text(Reason::ParentOpen));
    }
    if ppid.is_some() && !steps.parent_set {
        return Err(UDbgError::Text(Reason::ParentSet));
    }
    if !steps.created {
        return Err(UDbgError::System(steps.code));
    }
    match steps.process {
        Some(p) => Ok(p),
        None => Err(UDbgError::Text(Reason::GetPid)),
    }
}

/// Where symbol files are kept: as configured, or else the second part of the
/// symbol path of the system's tools.
pub open spec fn cache_directory(
    config: Option<Seq<char>>,
    symbol_path: Option<Seq<char>>,
) -> Seq<char> {
    match config {
        Some(dir) => dir,
        None => match symbol_path {
            Some(path) => match after_star(path) {
                Some(dir) => dir,
                None => Seq::empty(),
            },
            None => Seq::empty(),
        },
    }
}

/// The view of a text that may be missing.
pub open spec fn opt_view(s: Option<String>) -> Option<Seq<char>> {
    match s {
        Some(s) => Some(s@),
        None => None,
    }
}

/// Where symbol files are kept.
pub fn symbol_cache(config: Option<String>, symbol_path: Option<String>) -> (r: String)
    ensures
        r@ == cache_directory(opt_view(config), opt_view(symbol_path)),
{
    match config {
        Some(dir) => dir,
        None => match symbol_path {
            Some(path) => match second_part(path.as_str()) {
                Some(dir) => dir,
                None => String::new(),
            },
            None => String::new(),
        },
    }
}

/// The system's own directory.
pub fn system_root(named: Option<String>) -> (r: String)
    ensures
        r@ == (match named {
            Some(root) => root@,
            None => "C:\\Windows"@,
        }),
{
    match named {
        Some(root) => root,
        None => "C:\\Windows".to_owned(),
    }
}

/// A path with a blank inside it is put in quotes.
pub proof fn lemma_quoted(path: Seq<char>, i: int)
    requires
        0 <= i < trimmed(path).len(),
        crate::text::is_space(trimmed(path)[i]),
    ensures
        program_word(path).first() == '"',
        program_word(path).last() == '"',
        program_word(path).len() == trimmed(path).len() + 2,
{
}

} // verus!
