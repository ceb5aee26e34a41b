use udbg::adaptor::Process;
use udbg::process::{
    create_debug_process, proc_thread_attribute_value, start_result, symbol_cache, system_root,
    StartSteps,
};
use udbg::text::{
    holds_space, is_under, name_of, second_part, to_decimal, trim, trim_padding, utf8_or_empty,
};
use udbg::types::{Reason, UDbgError};

#[test]
fn command_lines() {
    let line = |path: &str, args: &[&str]| create_debug_process(path, None, args, None).cmdline;
    assert_eq!(line("notepad.exe", &["!!!---"]), "notepad.exe !!!---");
    assert_eq!(line("  a.exe \t", &[]), "a.exe");
    assert_eq!(line("C:\\Program Files\\a.exe", &[]), "\"C:\\Program Files\\a.exe\"");
    assert_eq!(
        line(" C:\\my dir\\a.exe", &["-x", "a b"]),
        "\"C:\\my dir\\a.exe\" -x a b"
    );
    assert_eq!(line("", &["x"]), " x");
    assert_eq!(line("a\u{a0}b", &[]), "\"a\u{a0}b\"");
}

#[test]
fn start_flags() {
    let plain = create_debug_process("a", None, &[], None);
    assert_eq!(plain.flags, 0x12);
    assert_eq!(plain.parent, None);
    assert_eq!(plain.cwd, None);
    let child = create_debug_process("a", Some("C:\\work"), &[], Some(4));
    assert_eq!(child.cwd, Some("C:\\work".to_string()));
    assert_eq!(child.flags, 0x80012);
    assert_eq!(child.parent, Some(4));
    assert_eq!(child.attribute, 0x20000);
    assert_eq!(proc_thread_attribute_value(0x12345, 1, 0, 1), 0x52345);
    assert_eq!(proc_thread_attribute_value(0, 0, 0, 0), 0);
}

#[test]
fn what_comes_of_a_start() {
    let p = Process { pid: 3, handle: 8 };
    let good = StartSteps {
        parent_opened: true,
        parent_set: true,
        created: true,
        code: 0,
        process: Some(p),
    };
    assert_eq!(start_result(Some(1), good), Ok(p));
    let no_parent = StartSteps { parent_opened: false, ..good };
    assert_eq!(start_result(None, no_parent), Ok(p));
    assert_eq!(
        start_result(Some(1), no_parent),
        Err(UDbgError::Text(Reason::ParentOpen))
    );
    assert_eq!(
        start_result(Some(1), StartSteps { parent_set: false, ..good }),
        Err(UDbgError::Text(Reason::ParentSet))
    );
    assert_eq!(
        start_result(None, StartSteps { created: false, code: 2, ..good }),
        Err(UDbgError::System(2))
    );
    assert_eq!(
        start_result(None, StartSteps { process: None, ..good }),
        Err(UDbgError::Text(Reason::GetPid))
    );
    assert_eq!(Reason::ParentOpen.message(), "ppid open failed");
    assert_eq!(Reason::ParentSet.message(), "set ppid falied");
    assert_eq!(Reason::GetPid.message(), "get pid");
}

#[test]
fn where_symbols_are_kept() {
    let path = Some("srv*D:\\syms*https://example".to_string());
    assert_eq!(symbol_cache(Some("E:\\s".to_string()), path.clone()), "E:\\s");
    assert_eq!(symbol_cache(None, path), "D:\\syms");
    assert_eq!(symbol_cache(None, Some("D:\\syms".to_string())), "");
    assert_eq!(symbol_cache(None, None), "");
    assert_eq!(second_part("a*b"), Some("b".to_string()));
    assert_eq!(second_part("a**b"), Some(String::new()));
    assert_eq!(second_part("*x*y"), Some("x".to_string()));
    assert_eq!(second_part("abc"), None);
}

#[test]
fn the_system_s_directory() {
    assert_eq!(system_root(None), "C:\\Windows");
    assert_eq!(system_root(Some("D:\\Win".to_string())), "D:\\Win");
    assert!(is_under("C:\\Windows", "c:\\WINDOWS\\system32\\ntdll.dll"));
    assert!(is_under("C:\\Windows", "C:\\Windows"));
    assert!(!is_under("C:\\Windows", "C:\\Win"));
    assert!(!is_under("C:\\Windows", "D:\\Windows\\x.dll"));
    assert!(!is_under("C:\\W\u{e4}", "C:\\W\u{c4}\\"));
}

#[test]
fn names_and_padding() {
    assert_eq!(name_of("C:\\a\\b.dll"), "b.dll");
    assert_eq!(name_of("C:/a/b.dll"), "b.dll");
    assert_eq!(name_of("b.dll"), "b.dll");
    assert_eq!(name_of("C:\\a\\"), "");
    assert_eq!(trim("  x y  "), "x y");
    assert_eq!(trim(" \u{3000}x\n"), "x");
    assert_eq!(trim("  "), "");
    assert_eq!(trim_padding("\0 a.pdb\0\0"), "a.pdb");
    assert_eq!(utf8_or_empty(b"a.pdb\0"), "a.pdb\0");
    assert_eq!(utf8_or_empty(&[0xff, 0x41]), "");
    assert_eq!(utf8_or_empty("\u{e4}".as_bytes()), "\u{e4}");
}

#[test]
fn numbers_in_decimal() {
    assert_eq!(to_decimal(0), "0");
    assert_eq!(to_decimal(9), "9");
    assert_eq!(to_decimal(10), "10");
    assert_eq!(to_decimal(1234567890), "1234567890");
    assert_eq!(to_decimal(usize::MAX), usize::MAX.to_string());
}

#[test]
fn which_characters_are_space() {
    let mut spaces = Vec::new();
    for n in 0..0x110000u32 {
        if let Some(c) = char::from_u32(n) {
            let text = c.to_string();
            let space = holds_space(&text);
            assert_eq!(space, trim(&text).is_empty());
            assert_eq!(space, trim_padding(&format!("{}a", text)) == "a" && c != '\0');
            if space {
                spaces.push(n);
            }
        }
    }
    assert_eq!(
        spaces,
        vec![
            0x9, 0xa, 0xb, 0xc, 0xd, 0x20, 0x85, 0xa0, 0x1680, 0x2000, 0x2001, 0x2002, 0x2003,
            0x2004, 0x2005, 0x2006, 0x2007, 0x2008, 0x2009, 0x200a, 0x2028, 0x2029, 0x202f,
            0x205f, 0x3000,
        ]
    );
}
