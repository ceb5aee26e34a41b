//! A debugger for processes on Windows: breakpoints, stepping, modules, threads
//! and the event loop that ties them together.
pub mod regs;
pub mod slots;
pub mod reg_laws;
pub mod types;
pub mod io;
pub mod modules;
pub mod adaptor;
pub mod enable;
pub mod breakpoints;
pub mod bp_laws;
pub mod reply;
pub mod session;
pub mod hit;
pub mod handler;
pub mod keeps;
pub mod dispatch;
pub mod event_loop;
pub mod handler_laws;
pub mod greeting;
pub mod text;
pub mod text_laws;
pub mod memory;
pub mod memory_laws;
pub mod loader;
pub mod context;
pub mod thread;
pub mod process;
pub mod handles;
pub mod target;
pub mod honest;
pub mod hard_laws;
pub mod event_laws;
pub mod exception_laws;
pub mod claim_laws;
pub mod over_laws;
pub mod switch_laws;
pub mod module_laws;
