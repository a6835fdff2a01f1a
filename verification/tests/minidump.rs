use std::sync::Arc;

use symbolication::{
    cfi_fetches, cfi_to_fetch, check_cfi, checked_symbolicate, collect_unwind_info,
    get_image_type_from_minidump, minidump_request, normalize_minidump_os_name,
    object_info_from_minidump_module, objects_from_minidump_modules, stacktrace_from_thread,
    stackwalk_minidump, symbolic_registers_to_protocol_registers, Arch, CacheContents,
    CacheErrorKind, CfiCacheFile, CodeId, CodeModule, CodeModuleId, DebugId, FilesystemSourceConfig,
    FrameStatus, FrameTrust, HexValue, ObjectFileStatus, ObjectType, ProcessSummary, RegVal, Scope,
    SourceConfig, StringMap, SymCacheFile, SymCacheLookup, SymbolicationError,
    SymbolicationResponse, WalkedFrame, WalkedThread,
};

const PLATFORM_LINUX: u32 = 0x8201;
const ARCH_AMD64: u16 = 9;
const APP_ID: &str = "123456789ABCDEF00102030405060708a";
const CFI: &[u8] = b"STACK CFI INIT 0 1000 .cfa: $rsp 16 + .ra: .cfa -8 + ^\n";

/// Builds minidumps.
struct Builder {
    bytes: Vec<u8>,
    streams: Vec<(u32, u32, u32)>,
}

impl Builder {
    fn new(timestamp: u32) -> Builder {
        let mut bytes = Vec::new();
        bytes.extend_from_slice(b"MDMP");
        bytes.extend_from_slice(&0xa793u32.to_le_bytes());
        bytes.extend_from_slice(&[0; 12]);
        bytes.extend_from_slice(&timestamp.to_le_bytes());
        bytes.extend_from_slice(&0u64.to_le_bytes());
        Builder { bytes, streams: Vec::new() }
    }

    fn put(&mut self, data: &[u8]) -> u32 {
        let at = self.bytes.len() as u32;
        self.bytes.extend_from_slice(data);
        at
    }

    fn put_string(&mut self, text: &str) -> u32 {
        let units: Vec<u16> = text.encode_utf16().collect();
        let mut data = ((units.len() * 2) as u32).to_le_bytes().to_vec();
        for unit in units {
            data.extend_from_slice(&unit.to_le_bytes());
        }
        data.extend_from_slice(&[0, 0]);
        self.put(&data)
    }

    fn stream(&mut self, kind: u32, data: &[u8]) {
        let at = self.put(data);
        self.streams.push((kind, data.len() as u32, at));
    }

    fn system(&mut self, arch: u16, platform: u32) {
        let version = self.put_string("");
        let mut data = Vec::new();
        data.extend_from_slice(&arch.to_le_bytes());
        data.extend_from_slice(&[0; 4]);
        data.extend_from_slice(&[1, 0]);
        data.extend_from_slice(&[0; 12]);
        data.extend_from_slice(&platform.to_le_bytes());
        data.extend_from_slice(&version.to_le_bytes());
        data.extend_from_slice(&[0; 4]);
        data.extend_from_slice(&[0; 24]);
        self.stream(7, &data);
    }

    fn modules(&mut self, modules: &[(&str, u64, u32, bool)]) {
        let mut data = (modules.len() as u32).to_le_bytes().to_vec();
        for (name, base, size, identified) in modules {
            let name_at = self.put_string(name);
            let (cv_size, cv_at) = if *identified {
                let mut cv = b"RSDS".to_vec();
                cv.extend_from_slice(&[0x78, 0x56, 0x34, 0x12, 0xbc, 0x9a, 0xf0, 0xde]);
                cv.extend_from_slice(&[1, 2, 3, 4, 5, 6, 7, 8]);
                cv.extend_from_slice(&10u32.to_le_bytes());
                cv.extend_from_slice(b"app.debug\0");
                (cv.len() as u32, self.put(&cv))
            } else {
                (0, 0)
            };
            data.extend_from_slice(&base.to_le_bytes());
            data.extend_from_slice(&size.to_le_bytes());
            data.extend_from_slice(&[0; 8]);
            data.extend_from_slice(&name_at.to_le_bytes());
            data.extend_from_slice(&[0; 52]);
            data.extend_from_slice(&cv_size.to_le_bytes());
            data.extend_from_slice(&cv_at.to_le_bytes());
            data.extend_from_slice(&[0; 24]);
        }
        self.stream(4, &data);
    }

    fn threads(&mut self, threads: &[(u32, u64, u64, Vec<u64>)]) {
        let mut data = (threads.len() as u32).to_le_bytes().to_vec();
        for (id, rip, rsp, words) in threads {
            let mut context = vec![0u8; 1232];
            context[48..52].copy_from_slice(&0x0010_001fu32.to_le_bytes());
            context[0x98..0xa0].copy_from_slice(&rsp.to_le_bytes());
            context[0xf8..0x100].copy_from_slice(&rip.to_le_bytes());
            let context_at = self.put(&context);
            let mut stack = Vec::new();
            for word in words {
                stack.extend_from_slice(&word.to_le_bytes());
            }
            let stack_at = self.put(&stack);
            data.extend_from_slice(&id.to_le_bytes());
            data.extend_from_slice(&[0; 20]);
            data.extend_from_slice(&rsp.to_le_bytes());
            data.extend_from_slice(&(stack.len() as u32).to_le_bytes());
            data.extend_from_slice(&stack_at.to_le_bytes());
            data.extend_from_slice(&1232u32.to_le_bytes());
            data.extend_from_slice(&context_at.to_le_bytes());
        }
        self.stream(3, &data);
    }

    fn exception(&mut self, thread: u32, code: u32) {
        let mut data = thread.to_le_bytes().to_vec();
        data.extend_from_slice(&[0; 4]);
        data.extend_from_slice(&code.to_le_bytes());
        data.extend_from_slice(&[0; 4 + 8 + 8 + 4 + 4 + 120]);
        data.extend_from_slice(&[0; 8]);
        self.stream(6, &data);
    }

    fn finish(mut self) -> Vec<u8> {
        let at = self.bytes.len() as u32;
        for (kind, size, rva) in self.streams.clone() {
            self.bytes.extend_from_slice(&kind.to_le_bytes());
            self.bytes.extend_from_slice(&size.to_le_bytes());
            self.bytes.extend_from_slice(&rva.to_le_bytes());
        }
        let count = self.streams.len() as u32;
        self.bytes[8..12].copy_from_slice(&count.to_le_bytes());
        self.bytes[12..16].copy_from_slice(&at.to_le_bytes());
        self.bytes
    }
}

/// A crashed Linux process with two threads. The second one crashed.
fn crashed_process() -> Vec<u8> {
    let mut dump = Builder::new(77);
    dump.system(ARCH_AMD64, PLATFORM_LINUX);
    dump.modules(&[
        ("/bin/app", 0x40_0000, 0x1000, true),
        ("/lib/anonymous", 0x50_0000, 0x1000, false),
    ]);
    dump.threads(&[
        (7, 0x40_0123, 0x7000, vec![1, 0x40_0456, 2, 3]),
        (9, 0x40_0200, 0x8000, vec![4, 5]),
    ]);
    dump.exception(9, 11);
    dump.finish()
}

fn sources() -> Arc<Vec<SourceConfig>> {
    Arc::new(vec![SourceConfig::Filesystem(FilesystemSourceConfig {
        id: "local".to_owned(),
        path: "./symbols/".to_owned(),
        files: vec!["pdb".to_owned(), "pe".to_owned()],
    })])
}

fn app_id() -> CodeModuleId {
    CodeModuleId::parse(APP_ID).unwrap()
}

fn module(code_file: &str, debug_identifier: &str) -> CodeModule {
    CodeModule {
        base_address: 0x1000,
        size: 0x200,
        code_file: code_file.to_owned(),
        code_identifier: "abc".to_owned(),
        debug_file: "file.debug".to_owned(),
        debug_identifier: debug_identifier.to_owned(),
    }
}

fn frame(return_address: u64) -> WalkedFrame {
    WalkedFrame { return_address, code_file: Some("/bin/app".to_owned()), trust: 6 }
}

fn summary() -> ProcessSummary {
    ProcessSummary {
        timestamp: 12,
        crashed: false,
        crash_reason: "reason".to_owned(),
        assertion: "assertion".to_owned(),
        requesting_thread: -1,
        os_name: "Mac OS X".to_owned(),
        os_version: "10.14".to_owned(),
        os_build: "18G".to_owned(),
        cpu_family: "amd64".to_owned(),
    }
}

#[test]
fn image_types_follow_the_system() {
    assert_eq!(get_image_type_from_minidump("Windows"), "pe");
    assert_eq!(get_image_type_from_minidump("Windows NT"), "pe");
    assert_eq!(get_image_type_from_minidump("iOS"), "macho");
    assert_eq!(get_image_type_from_minidump("Mac OS X"), "macho");
    assert_eq!(get_image_type_from_minidump("Linux"), "elf");
    assert_eq!(get_image_type_from_minidump("Solaris"), "elf");
    assert_eq!(get_image_type_from_minidump("Android"), "elf");
    assert_eq!(get_image_type_from_minidump("macOS"), "unknown");
    assert_eq!(get_image_type_from_minidump(""), "unknown");
}

#[test]
fn system_names_are_normalized_once() {
    assert_eq!(normalize_minidump_os_name("Windows NT"), "Windows");
    assert_eq!(normalize_minidump_os_name("Mac OS X"), "macOS");
    assert_eq!(normalize_minidump_os_name("Linux"), "Linux");
    for name in ["Windows NT", "Mac OS X", "Linux", ""] {
        let once = normalize_minidump_os_name(name);
        assert_eq!(normalize_minidump_os_name(once), once);
    }
}

#[test]
fn modules_become_objects() {
    let ty = ObjectType("elf".to_owned());
    let mut of = module("/bin/app", APP_ID);
    let info = object_info_from_minidump_module(ty.clone(), &of);
    assert_eq!(info.ty, ty);
    assert_eq!(info.code_id.as_deref(), Some("abc"));
    assert_eq!(info.code_file.as_deref(), Some("/bin/app"));
    assert_eq!(info.debug_id.as_deref(), Some(APP_ID));
    assert_eq!(info.debug_file.as_deref(), Some("file.debug"));
    assert_eq!(info.image_addr, HexValue(0x1000));
    assert_eq!(info.image_size, Some(0x200));
    of.size = 0;
    assert_eq!(object_info_from_minidump_module(ty, &of).image_size, None);
}

#[test]
fn registers_become_a_map() {
    let registers = symbolic_registers_to_protocol_registers(vec![
        ("eax".to_owned(), RegVal::U32(0xffff_ffff)),
        ("rip".to_owned(), RegVal::U64(0x1_0000_0000_0000)),
        ("eax".to_owned(), RegVal::U32(5)),
    ]);
    assert_eq!(registers.get("eax"), Some(&HexValue(5)));
    assert_eq!(registers.get("rip"), Some(&HexValue(0x1_0000_0000_0000)));
    assert_eq!(registers.get("rax"), None);
    assert_eq!(registers.entries().len(), 2);
}

#[test]
fn module_ids_are_canonical() {
    assert_eq!(app_id().as_str(), APP_ID);
    let lower = CodeModuleId::parse(&APP_ID.to_lowercase()).unwrap();
    assert_eq!(lower.as_str(), APP_ID);
    assert!(CodeModuleId::parse("").is_none());
    assert!(CodeModuleId::parse("not an id").is_none());
}

#[test]
fn unwind_information_is_collected() {
    let file = |contents| Ok(CfiCacheFile { contents });
    let other = |digit: &str| CodeModuleId::parse(&APP_ID.replace('1', digit)).unwrap();
    let info = collect_unwind_info(vec![
        (app_id(), file(CacheContents::Positive(CFI.to_vec()))),
        (other("2"), file(CacheContents::Negative)),
        (other("3"), file(CacheContents::Malformed)),
        (other("4"), file(CacheContents::Positive(b"MODULE".to_vec()))),
        (other("5"), Err(CacheErrorKind::Fetching)),
        (other("6"), Err(CacheErrorKind::Timeout)),
        (other("7"), Err(CacheErrorKind::ObjectParsing)),
        (other("8"), Err(CacheErrorKind::Other)),
        (other("9"), file(CacheContents::Positive(vec![]))),
    ]);
    let status = |digit: &str| *info.statuses.get(&APP_ID.replace('1', digit)).unwrap();
    assert_eq!(status("1"), ObjectFileStatus::Found);
    assert_eq!(status("2"), ObjectFileStatus::Missing);
    assert_eq!(status("3"), ObjectFileStatus::Malformed);
    assert_eq!(status("4"), ObjectFileStatus::Other);
    assert_eq!(status("5"), ObjectFileStatus::FetchingFailed);
    assert_eq!(status("6"), ObjectFileStatus::Timeout);
    assert_eq!(status("7"), ObjectFileStatus::Malformed);
    assert_eq!(status("8"), ObjectFileStatus::Other);
    assert_eq!(status("9"), ObjectFileStatus::Found);
    assert_eq!(info.frame_infos.entries().len(), 2);
    assert_eq!(info.frame_infos.get(APP_ID).map(|cfi| cfi.as_slice()), Some(CFI));
}

#[test]
fn later_outcomes_replace_earlier_ones() {
    let info = collect_unwind_info(vec![
        (app_id(), Ok(CfiCacheFile { contents: CacheContents::Positive(CFI.to_vec()) })),
        (app_id(), Err(CacheErrorKind::Timeout)),
    ]);
    assert_eq!(info.statuses.get(APP_ID), Some(&ObjectFileStatus::Timeout));
    assert_eq!(info.frame_infos.get(APP_ID).map(|cfi| cfi.as_slice()), Some(CFI));
}

#[test]
fn fetches_are_for_identified_modules() {
    let fetches = cfi_fetches(
        "Linux",
        vec![module("/bin/app", APP_ID), module("/none", ""), module("/bad", "xyz")],
        &sources(),
        &Scope::Scoped("mine".to_owned()),
    );
    assert_eq!(fetches.len(), 1);
    let (id, fetch) = &fetches[0];
    assert_eq!(id.as_str(), APP_ID);
    assert_eq!(fetch.object_type, ObjectType("elf".to_owned()));
    assert_eq!(fetch.scope, Scope::Scoped("mine".to_owned()));
    assert_eq!(fetch.sources, sources());
    assert_eq!(fetch.identifier.code_file.as_deref(), Some("/bin/app"));
    assert_eq!(fetch.identifier.code_id, Some(CodeId("abc".to_owned())));
    assert_eq!(
        fetch.identifier.debug_id,
        Some(DebugId("12345678-9abc-def0-0102-030405060708-a".to_owned()))
    );
}

#[test]
fn modules_carry_their_unwind_status() {
    let mut statuses = StringMap::new();
    statuses.insert(APP_ID.to_owned(), ObjectFileStatus::Missing);
    let other = APP_ID.replace('1', "2");
    let objects = objects_from_minidump_modules(
        ObjectType("pe".to_owned()),
        &statuses,
        vec![module("/app", APP_ID), module("/none", ""), module("/other", &other)],
    );
    assert_eq!(objects.len(), 2);
    assert_eq!(objects[0].unwind_status, Some(ObjectFileStatus::Missing));
    assert_eq!(objects[0].debug_status, ObjectFileStatus::Unused);
    assert_eq!(objects[0].raw.code_file.as_deref(), Some("/app"));
    assert_eq!(objects[1].unwind_status, Some(ObjectFileStatus::Unused));
    assert_eq!(objects[1].raw.ty, ObjectType("pe".to_owned()));
}

#[test]
fn return_addresses_get_back_what_was_taken_off() {
    let address = |arch| {
        stacktrace_from_thread(arch, vec![frame(0x1000)], vec![]).frames[0].instruction_addr
    };
    assert_eq!(address(Arch::Amd64), HexValue(0x1000));
    assert_eq!(address(Arch::X86), HexValue(0x1000));
    assert_eq!(address(Arch::Unknown), HexValue(0x1000));
    assert_eq!(address(Arch::Arm), HexValue(0x1002));
    assert_eq!(address(Arch::ArmV7), HexValue(0x1002));
    assert_eq!(address(Arch::Arm64), HexValue(0x1004));
}

#[test]
fn reports_become_requests() {
    let threads = vec![
        (
            WalkedThread { thread_id: 3, frames: vec![frame(0x10), frame(0x20)] },
            vec![("rip".to_owned(), RegVal::U64(0x10))],
        ),
        (WalkedThread { thread_id: 4, frames: vec![] }, vec![]),
    ];
    let (request, state) = minidump_request(
        summary(),
        Arch::Amd64,
        vec![module("/app", APP_ID)],
        threads,
        &StringMap::new(),
        Scope::Global,
        sources(),
    );
    assert_eq!(request.signal, None);
    assert_eq!(request.scope, Scope::Global);
    assert_eq!(request.sources, sources());
    assert_eq!(request.modules.len(), 1);
    assert_eq!(request.modules[0].raw.ty, ObjectType("macho".to_owned()));
    assert_eq!(request.stacktraces.len(), 2);
    assert_eq!(request.stacktraces[0].registers.get("rip"), Some(&HexValue(0x10)));
    assert_eq!(request.stacktraces[0].frames.len(), 2);
    assert_eq!(request.stacktraces[0].frames[1].instruction_addr, HexValue(0x20));
    assert_eq!(request.stacktraces[0].frames[1].package.as_deref(), Some("/bin/app"));
    assert_eq!(request.stacktraces[0].frames[1].trust, FrameTrust::Context);
    assert_eq!(request.stacktraces[1].frames.len(), 0);
    assert_eq!(state.timestamp, 12);
    assert_eq!(state.system_info.os_name, "macOS");
    assert_eq!(state.system_info.os_version, "10.14");
    assert_eq!(state.system_info.os_build, "18G");
    assert_eq!(state.system_info.cpu_arch, Arch::Amd64);
    assert_eq!(state.system_info.device_model, "");
    assert!(!state.crashed);
    assert_eq!(state.crash_reason, "reason");
    assert_eq!(state.assertion, "assertion");
    assert_eq!(state.requesting_thread_index, None);
    assert_eq!(state.thread_ids, vec![3, 4]);
}

#[test]
fn unwind_information_is_requested() {
    let fetches = cfi_to_fetch(&crashed_process(), &sources(), &Scope::Global).unwrap().unwrap();
    assert_eq!(fetches.len(), 1);
    let (id, fetch) = &fetches[0];
    assert_eq!(id.as_str(), APP_ID);
    assert_eq!(fetch.object_type, ObjectType("elf".to_owned()));
    assert_eq!(fetch.identifier.code_file.as_deref(), Some("/bin/app"));
    assert_eq!(fetch.identifier.debug_file.as_deref(), Some("app.debug"));
    assert_eq!(
        fetch.identifier.debug_id,
        Some(DebugId("12345678-9abc-def0-0102-030405060708-a".to_owned()))
    );
}

#[test]
fn stacks_are_walked() {
    let (request, state) =
        stackwalk_minidump(&crashed_process(), Scope::Global, sources(), vec![]).unwrap().unwrap();
    assert_eq!(state.timestamp, 77);
    assert!(state.crashed);
    assert_eq!(state.crash_reason, "SIGSEGV /0x00000000");
    assert_eq!(state.assertion, "");
    assert_eq!(state.requesting_thread_index, Some(1));
    assert_eq!(state.thread_ids, vec![7, 9]);
    assert_eq!(state.system_info.os_name, "Linux");
    assert_eq!(state.system_info.cpu_arch, Arch::Amd64);
    assert_eq!(request.modules.len(), 1);
    assert_eq!(request.modules[0].raw.code_file.as_deref(), Some("/bin/app"));
    assert_eq!(request.modules[0].raw.image_addr, HexValue(0x40_0000));
    assert_eq!(request.modules[0].raw.image_size, Some(0x1000));
    assert_eq!(request.modules[0].unwind_status, Some(ObjectFileStatus::Unused));
    assert_eq!(request.stacktraces.len(), 2);
    let first = &request.stacktraces[0];
    assert_eq!(first.registers.get("rip"), Some(&HexValue(0x40_0123)));
    assert_eq!(first.registers.get("rsp"), Some(&HexValue(0x7000)));
    assert_eq!(first.frames[0].instruction_addr, HexValue(0x40_0123));
    assert_eq!(first.frames[0].trust, FrameTrust::Context);
    assert_eq!(first.frames[0].package.as_deref(), Some("/bin/app"));
    assert_eq!(first.frames.len(), 2);
    assert_eq!(first.frames[1].instruction_addr, HexValue(0x40_0456));
    assert_eq!(first.frames[1].trust, FrameTrust::Scan);
    let second = &request.stacktraces[1];
    assert_eq!(second.registers.get("rip"), Some(&HexValue(0x40_0200)));
    assert_eq!(second.frames.len(), 1);
}

#[test]
fn unwind_information_is_used() {
    let outcomes =
        vec![(app_id(), Ok(CfiCacheFile { contents: CacheContents::Positive(CFI.to_vec()) }))];
    let (request, _) =
        stackwalk_minidump(&crashed_process(), Scope::Global, sources(), outcomes)
            .unwrap()
            .unwrap();
    assert_eq!(request.modules[0].unwind_status, Some(ObjectFileStatus::Found));
    let first = &request.stacktraces[0];
    assert_eq!(first.frames[1].instruction_addr, HexValue(0x40_0456));
    assert_eq!(first.frames[1].trust, FrameTrust::CFI);
}

/// Whether unwind information is used: the second frame is then found by it.
fn uses(cfi: &[u8]) -> bool {
    let contents = CacheContents::Positive(cfi.to_vec());
    let outcomes = vec![(app_id(), Ok(CfiCacheFile { contents }))];
    let (request, _) =
        stackwalk_minidump(&crashed_process(), Scope::Global, sources(), outcomes)
            .unwrap()
            .unwrap();
    assert_eq!(request.modules[0].unwind_status, Some(ObjectFileStatus::Found));
    let used = request.stacktraces[0].frames[1].trust == FrameTrust::CFI;
    assert!(check_cfi(cfi) || !used);
    used
}

#[test]
fn unwind_information_that_divides_is_left_out() {
    let rule = |rule: &str| format!("STACK CFI INIT 0 1000 .cfa: {} .ra: .cfa -8 + ^\n", rule);
    assert!(uses(rule("$rsp 16 +").as_bytes()));
    assert!(uses(rule("$rsp 8 2 * +").as_bytes()));
    assert!(!uses(rule("$rsp 32 2 / +").as_bytes()));
    for sound in ["$rsp /a b% +", "$rsp 4//", "", "/a", "a%b"] {
        assert!(check_cfi(rule(sound).as_bytes()), "{}", sound);
    }
    for unsound in ["$rsp 0 /", "$rsp 0 %", "$rsp 0\t/", "$rsp 0 =/", "0 ==%"] {
        assert!(!check_cfi(rule(unsound).as_bytes()), "{}", unsound);
        assert!(!uses(rule(unsound).as_bytes()));
    }
    assert!(!check_cfi(b"STACK WIN 4 100 10 0 0 0 0 0 0 1 $eip 4 0 /"));
    assert!(!check_cfi(b"STACK WIN 4 100 10 0 0 0 0 0 0 1 $eip 4 0 /\0"));
    assert!(check_cfi(b"STACK WIN 4 100 10 0 0 0 0 0 0 1 $eip 4 0 /x"));
}

#[test]
fn unwind_information_that_assigns_to_numbers_is_left_out() {
    let rule = |rule: &str| format!("STACK CFI INIT 0 1000 .cfa: $rsp 16 + .ra: {}\n", rule);
    for sound in [".cfa -8 + ^", "$rax 10 = .cfa 8 - ^", "a-8 10 =", "- 8 10 ="] {
        assert!(check_cfi(rule(sound).as_bytes()), "{}", sound);
    }
    assert!(uses(rule(".cfa -8 + ^").as_bytes()));
    assert!(uses(rule("$rax 10 = .cfa 8 - ^").as_bytes()));
    for unsound in ["-8 10 =", "$rax 10 =-8 1 =", "-8 10 =x", "$rax 10 = .cfa -8 + ^"] {
        assert!(!check_cfi(rule(unsound).as_bytes()), "{}", unsound);
        assert!(!uses(rule(unsound).as_bytes()));
    }
    // On lines of their own they do no harm.
    let lines = format!("{}{}", rule(".cfa -8 + ^"), "STACK WIN 4 0 1 0 0 0 0 0 0 1 $eip 4 =\n");
    assert!(uses(lines.as_bytes()));
}

#[test]
fn records_that_go_on_behind_the_end_are_left_out() {
    for sound in ["STACK CFI\n", "STACK WIN\n", "STACK CFI\0", "STACK", ""] {
        assert!(check_cfi(sound.as_bytes()), "{}", sound);
        assert!(!uses(sound.as_bytes()));
    }
    for unsound in ["STACK CFI", "STACK WIN"] {
        assert!(!check_cfi(unsound.as_bytes()), "{}", unsound);
        assert!(!uses(unsound.as_bytes()));
    }
}

#[test]
fn ranges_lie_in_each_other_only_so_deep() {
    let record =
        |start: u32, size: u32| format!("STACK WIN 4 {:x} {:x} 0 0 0 0 0 0 1 $eip 4 +\n", start, size);
    let nested = |wide: u32| {
        (0..0x1000 + wide - 1).map(|i| record(i, 0x1000 + wide - 1 - i)).collect::<String>()
    };
    let with_rule = |records: String| format!("{}{}", String::from_utf8_lossy(CFI), records);
    assert!(uses(with_rule(nested(2048)).as_bytes()));
    assert!(!check_cfi(with_rule(nested(2049)).as_bytes()));
    assert!(!uses(with_rule(nested(2049)).as_bytes()));
    // Narrow ranges may be as many as there are.
    let narrow = (0..20000).map(|i| record(16 * i, 16)).collect::<String>();
    assert!(uses(with_rule(narrow).as_bytes()));
    let counted = |size: &str| format!("STACK WIN 4 0 {} 0\n", size).repeat(2049);
    for narrow in ["0", "fff", "ABC", "12\r"] {
        assert!(check_cfi(counted(narrow).as_bytes()), "{}", narrow);
    }
    for wide in ["1000", "-1", "0x1", "0001", "1\t"] {
        assert!(!check_cfi(counted(wide).as_bytes()), "{}", wide);
    }
}

#[test]
fn bytes_that_are_no_minidump_are_refused() {
    let err = cfi_to_fetch(b"no minidump", &sources(), &Scope::Global).unwrap().unwrap_err();
    assert_eq!(err.message(), "failed to process minidump");
    let err = stackwalk_minidump(b"", Scope::Global, sources(), vec![]).unwrap().unwrap_err();
    assert!(matches!(err, SymbolicationError::Minidump(_)));
    match SymbolicationResponse::from(&err) {
        SymbolicationResponse::Failed { message } => {
            assert_eq!(message, "minidump processing failed: file could not be opened")
        }
        _ => panic!("expected a failure"),
    }
}

#[test]
fn minidump_threads_come_out_in_their_places() {
    let (request, state) =
        stackwalk_minidump(&crashed_process(), Scope::Global, sources(), vec![]).unwrap().unwrap();
    let lookup = SymCacheLookup::from_iter(request.modules.clone());
    let fetches = lookup.symcaches_to_fetch(&request);
    assert_eq!(fetches.len(), 1);
    assert!(fetches[0].is_some());
    let cache = SymCacheFile { arch: Arch::Amd64, contents: CacheContents::Negative };
    let lookup = lookup.with_symcaches(vec![Some(Ok(Arc::new(cache)))]);
    let mut response =
        checked_symbolicate(lookup, request.stacktraces, request.signal).unwrap();
    state.merge_into(&mut response);
    assert_eq!(response.stacktraces.len(), 2);
    assert_eq!(response.stacktraces[0].thread_id, Some(7));
    assert_eq!(response.stacktraces[0].is_requesting, Some(false));
    assert_eq!(response.stacktraces[0].frames.len(), 2);
    assert_eq!(response.stacktraces[0].frames[1].status, FrameStatus::Missing);
    assert_eq!(response.stacktraces[1].thread_id, Some(9));
    assert_eq!(response.stacktraces[1].is_requesting, Some(true));
    assert_eq!(response.modules[0].debug_status, ObjectFileStatus::Missing);
    assert_eq!(response.modules[0].unwind_status, Some(ObjectFileStatus::Unused));
    assert_eq!(response.crashed, Some(true));
    assert_eq!(response.timestamp, Some(77));
}
