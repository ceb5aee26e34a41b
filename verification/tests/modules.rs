use udbg::loader::{choose_path, Export, Loaded, ModuleFile, PeImage};
use udbg::modules::{RuntimeFunction, SymbolManager, SymbolStatus};
use udbg::types::{Reason, UDbgError};

const ROOT: &str = "C:\\Windows";

/// The start of an image: both headers, and nothing behind them.
fn image(machine: u16, optional: bool, entry: u32, size: u32) -> Vec<u8> {
    let mut b = vec![0u8; 0x400];
    b[0] = 0x4d;
    b[1] = 0x5a;
    b[0x3c] = 0x80;
    b[0x80..0x84].copy_from_slice(b"PE\0\0");
    b[0x84..0x86].copy_from_slice(&machine.to_le_bytes());
    if optional {
        b[0x94..0x96].copy_from_slice(&0xf0u16.to_le_bytes());
        b[0x98..0x9a].copy_from_slice(&0x20bu16.to_le_bytes());
        b[0xa8..0xac].copy_from_slice(&entry.to_le_bytes());
        b[0xd0..0xd4].copy_from_slice(&size.to_le_bytes());
    }
    b
}

fn from(base: usize, size: usize, path: &str) -> ModuleFile<'_> {
    ModuleFile { base, size, path, file: 9 }
}

fn function(begin: u32, end: u32) -> RuntimeFunction {
    RuntimeFunction { begin_address: begin, end_address: end, unwind_data: 7 }
}

#[test]
fn a_module_is_noted_from_its_headers() {
    let mut m = SymbolManager::new("cache".to_string());
    let bytes = image(0x8664, true, 0x1234, 0x7000);
    let r = m.check_load_module(
        from(0x400000, 0, "D:\\app\\main.exe"),
        ROOT,
        Some(&bytes),
        None,
        &None,
    );
    assert!(matches!(r, Loaded::Done));
    let d = m.list[0].data();
    assert_eq!(d.base, 0x400000);
    assert_eq!(d.size, 0x7000);
    assert_eq!(d.entry, 0x1234);
    assert_eq!(d.machine, 0x8664);
    assert_eq!(d.name, "main.exe");
    assert_eq!(d.path, "D:\\app\\main.exe");
    assert!(d.user_module);
    assert_eq!(m.list[0].file, 9);
    assert_eq!(m.list[0].symbol_status(), SymbolStatus::Unload);
    assert_eq!(m.list[0].entry_point(), Some(0x401234));
    assert!(m.list[0].runtime_function().unwrap().is_empty());
    assert_eq!(m.symbol_cache, "cache");
}

#[test]
fn the_memory_is_read_where_the_file_is_not() {
    let mut m = SymbolManager::new(String::new());
    let bytes = image(0x14c, true, 1, 0x7000);
    let r = m.check_load_module(
        from(0x10000, 0x3000, "c:\\windows\\x.dll"),
        ROOT,
        None,
        Some(&bytes),
        &None,
    );
    assert!(matches!(r, Loaded::Done));
    assert_eq!(m.list[0].data.size, 0x3000);
    assert!(!m.list[0].data.user_module);
}

#[test]
fn what_is_no_module() {
    let mut m = SymbolManager::new(String::new());
    let good = image(0x8664, true, 1, 0x1000);
    let bare = image(0x8664, false, 0, 0);
    let mut bad = good.clone();
    bad[1] = 0;
    let r = m.check_load_module(from(1, 0, "a"), ROOT, None, None, &None);
    assert!(matches!(r, Loaded::Unreadable));
    let r = m.check_load_module(from(1, 0, "a"), ROOT, Some(&bad), Some(&good), &None);
    assert!(matches!(r, Loaded::BadHeaders(_)));
    let r = m.check_load_module(from(1, 0, "a"), ROOT, Some(&good[..60]), None, &None);
    assert!(matches!(r, Loaded::BadHeaders(_)));
    let r = m.check_load_module(from(1, 0, "a"), ROOT, Some(&bare), None, &None);
    assert!(matches!(r, Loaded::NoOptionalHeader));
    assert!(m.list.is_empty());
    m.check_load_module(from(1, 0, "a"), ROOT, Some(&good), None, &None);
    let r = m.check_load_module(from(1, 0, "b"), ROOT, Some(&good), None, &None);
    assert!(matches!(r, Loaded::Known));
    assert_eq!(m.list.len(), 1);
}

#[test]
fn the_native_library_under_emulation_gets_its_own_name() {
    let name = |wow64: bool, machine: u16, path: &str| {
        let mut m = SymbolManager::new(String::new());
        m.is_wow64 = wow64;
        let bytes = image(machine, true, 1, 0x1000);
        m.check_load_module(from(1, 0, path), ROOT, Some(&bytes), None, &None);
        m.list[0].data.name.clone()
    };
    assert_eq!(name(true, 0x8664, "C:\\Windows\\ntdll.dll"), "ntdll64.dll");
    assert_eq!(name(true, 0x14c, "C:\\Windows\\ntdll.dll"), "ntdll.dll");
    assert_eq!(name(false, 0x8664, "C:\\Windows\\ntdll.dll"), "ntdll.dll");
    assert_eq!(name(true, 0x8664, "C:\\Windows\\NTDLL.dll"), "NTDLL.dll");
}

#[test]
fn symbols_of_an_image() {
    let mut m = SymbolManager::new(String::new());
    let bytes = image(0x8664, true, 1, 0x1000);
    let pe = PeImage {
        pdb_signature: Some("ab12cd".to_string()),
        pdb_filename: Some(b" main.pdb\0\0".to_vec()),
        exports: vec![
            Export { name: Some("b".to_string()), rva: 0x200, function: Some(function(0x200, 0x230)) },
            Export { name: None, rva: 0x100, function: None },
            Export { name: Some("c".to_string()), rva: 0x200, function: None },
        ],
        functions: vec![Some(function(1, 2)), None, Some(function(3, 4))],
        pdb: Some(77),
    };
    m.check_load_module(from(1, 0, "a"), ROOT, Some(&bytes), None, &Some(pe));
    let w = &m.list[0];
    assert_eq!(w.syms.pdb_sig, "AB12CD");
    assert_eq!(w.syms.pdb_name, "main.pdb");
    assert_eq!(w.symbol_status(), SymbolStatus::Loaded);
    assert_eq!(w.symbol_file(), Some(77));
    assert_eq!(w.funcs, vec![function(1, 2), function(3, 4)]);
    let exports = w.get_exports().unwrap();
    assert_eq!(exports.len(), 2);
    assert_eq!(exports[0].name, "<>");
    assert_eq!(exports[0].offset, 0x100);
    assert_eq!(exports[0].len, None);
    assert_eq!(exports[0].flags, 3);
    assert_eq!(exports[1].name, "c");
    assert_eq!(exports[1].type_id, 0);
}

#[test]
fn the_length_of_an_export_is_that_of_its_function() {
    let mut m = SymbolManager::new(String::new());
    let bytes = image(0x8664, true, 1, 0x1000);
    let pe = PeImage {
        pdb_signature: None,
        pdb_filename: Some(vec![0xff]),
        exports: vec![Export {
            name: Some("f".to_string()),
            rva: 0x1_0000_0200,
            function: Some(function(0x200, 0x230)),
        }],
        functions: vec![],
        pdb: None,
    };
    m.check_load_module(from(1, 0, "a"), ROOT, Some(&bytes), None, &Some(pe));
    let f = &m.list[0].syms.exports[&0x1_0000_0200];
    assert_eq!(f.len, Some(0x30));
    assert_eq!(f.offset, 0x200);
    assert_eq!(m.list[0].syms.pdb_name, "");
    assert_eq!(m.list[0].syms.pdb_sig, "");
}

#[test]
fn modules_are_found_and_forgotten() {
    let mut m = SymbolManager::new(String::new());
    let bytes = image(0x8664, true, 1, 0x1000);
    for base in [0x10000usize, 0x20000, 0x30000] {
        m.check_load_module(from(base, 0x1000, "a"), ROOT, Some(&bytes), None, &None);
    }
    assert_eq!(m.find_module(0x20000), Some(1));
    assert_eq!(m.find_module(0x20fff), Some(1));
    assert_eq!(m.find_module(0x21000), None);
    assert!(m.has_module(0x30000));
    assert!(!m.has_module(0x30001));
    m.remove(0x20000);
    assert_eq!(m.bases(), vec![0x10000, 0x30000]);
    m.remove(0x20000);
    assert_eq!(m.bases(), vec![0x10000, 0x30000]);
}

#[test]
fn the_list_follows_the_system_s() {
    let mut m = SymbolManager::new(String::new());
    let bytes = image(0x8664, true, 1, 0x1000);
    for base in [1usize, 2, 3] {
        m.check_load_module(from(base, 1, "a"), ROOT, Some(&bytes), None, &None);
    }
    let known = m.bases();
    let present = vec![3, 4, 1, 5];
    assert_eq!(m.missing(&present), vec![4, 5]);
    m.check_load_module(from(4, 1, "a"), ROOT, Some(&bytes), None, &None);
    m.drop_stale(&known, &present);
    assert_eq!(m.bases(), vec![1, 3, 4]);
}

#[test]
fn the_path_of_a_module() {
    let s = |t: &str| Some(t.to_string());
    assert_eq!(choose_path(s("a"), true, s("b"), s("c")), s("a"));
    assert_eq!(choose_path(s("a"), false, s("b"), s("c")), s("b"));
    assert_eq!(choose_path(s("a"), false, None, s("c")), s("c"));
    assert_eq!(choose_path(None, true, None, s("c")), s("c"));
    assert_eq!(choose_path(None, false, None, None), None);
}

#[test]
fn a_symbol_file_is_taken_in_later() {
    let mut m = SymbolManager::new(String::new());
    let bytes = image(0x8664, true, 1, 0x1000);
    m.check_load_module(from(1, 0, "a"), ROOT, Some(&bytes), None, &None);
    let w = &mut m.list[0];
    assert_eq!(
        w.load_symbol_file(false, false, false, Ok(1)),
        Err(UDbgError::Text(Reason::MapFailed))
    );
    assert_eq!(
        w.load_symbol_file(false, true, false, Ok(1)),
        Err(UDbgError::Text(Reason::ParsePe))
    );
    assert_eq!(
        w.load_symbol_file(true, false, false, Err(UDbgError::NotFound)),
        Err(UDbgError::NotFound)
    );
    assert_eq!(w.symbol_file(), None);
    assert_eq!(w.load_symbol_file(true, false, false, Ok(5)), Ok(()));
    assert_eq!(w.symbol_file(), Some(5));
    assert_eq!(Reason::MapFailed.message(), "map failed");
    assert_eq!(Reason::ParsePe.message(), "parse pe");
}

#[test]
fn headers_are_numbers_in_the_bytes() {
    for magic in [0x10bu16, 0x20b] {
        for at in [0x40usize, 0x84] {
            let mut bytes = vec![0u8; 0x200];
            bytes[0] = 0x4d;
            bytes[1] = 0x5a;
            bytes[0x3c] = at as u8;
            bytes[at..at + 4].copy_from_slice(b"PE\0\0");
            bytes[at + 4..at + 6].copy_from_slice(&0x1234u16.to_le_bytes());
            bytes[at + 20] = 0xf0;
            bytes[at + 24..at + 26].copy_from_slice(&magic.to_le_bytes());
            bytes[at + 40..at + 44].copy_from_slice(&0x1122_3344u32.to_le_bytes());
            bytes[at + 80..at + 84].copy_from_slice(&0x5566_7788u32.to_le_bytes());
            let mut m = SymbolManager::new(String::new());
            let r = m.check_load_module(from(1, 0, "a"), ROOT, Some(&bytes), None, &None);
            assert!(matches!(r, Loaded::Done));
            assert_eq!(m.list[0].data.machine, 0x1234);
            assert_eq!(m.list[0].data.entry, 0x1122_3344);
            assert_eq!(m.list[0].data.size, 0x5566_7788);
        }
    }
}
