[package]
name = "udbg"
version = "0.1.0"
edition = "2021"
publish = false

[dependencies]
crossbeam = "=0.8.5"
goblin = "=0.5.4"
memmap = "=0.7.0"
ntapi = "=0.4.3"
serde-value = "=0.7.0"
unicase = "=2.10.0"
winapi = { version = "=0.3.9", features = ["debugapi", "errhandlingapi", "fileapi", "handleapi", "libloaderapi", "memoryapi", "minwinbase", "minwindef", "ntdef", "ntstatus", "processthreadsapi", "psapi", "synchapi", "tlhelp32", "winbase", "winerror", "winnt", "wow64apiset"] }
