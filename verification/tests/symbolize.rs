use std::io::Cursor;
use std::sync::Arc;

use symbolic::debuginfo::Object;
use symbolic::symcache::SymCacheWriter;

use symbolication::{
    check_lookup, checked_symbolicate, checked_symbolize_thread, examine, frame_address,
    has_inlined_behind_parents, keep_frames, line_frame, line_frames, symbolicate, symbolize_thread,
    Arch, CacheContents, CacheErrorKind, CompleteObjectInfo, CompletedSymbolicationResponse,
    FilesystemSourceConfig, FrameStatus, FrameTrust, HexValue, Language, LineRecord,
    ObjectFileStatus, ObjectType, RawFrame, RawObjectInfo, RawStacktrace, Scope, Signal,
    SourceConfig, StringMap, SymCacheFile, SymCacheLookup, SymCacheOutcome, SymbolicateStacktraces,
    SymbolicatedFrame,
};

const SYMBOLS: &str = "\
MODULE mac x86_64 502FC0A51EC13E479998684FA139DCA70 crash
FILE 0 /src/main.cpp
FILE 1 util.h
FUNC f00 80 0 _ZN3foo3barEi
f00 40 10 0
f40 40 20 1
FUNC fa0 20 0 main
fa0 10 41 0
fb0 10 42 0
";

/// A symbol cache made from a text file with symbols.
fn symcache() -> Vec<u8> {
    let object = Object::parse(SYMBOLS.as_bytes()).unwrap();
    let mut cursor = Cursor::new(Vec::new());
    SymCacheWriter::write_object(&object, &mut cursor).unwrap();
    cursor.into_inner()
}

fn found() -> SymCacheOutcome {
    let contents = CacheContents::Positive(symcache());
    Some(Ok(Arc::new(SymCacheFile { arch: Arch::Amd64, contents })))
}

fn not_found() -> SymCacheOutcome {
    Some(Ok(Arc::new(SymCacheFile { arch: Arch::Unknown, contents: CacheContents::Negative })))
}

fn malformed() -> SymCacheOutcome {
    Some(Ok(Arc::new(SymCacheFile { arch: Arch::Unknown, contents: CacheContents::Malformed })))
}

fn get_local_bucket() -> SourceConfig {
    SourceConfig::Filesystem(FilesystemSourceConfig {
        id: "local".to_owned(),
        path: "./tests/fixtures/symbols/".to_owned(),
        files: Default::default(),
    })
}

fn object(addr: u64, size: u64, code_file: Option<&str>) -> CompleteObjectInfo {
    RawObjectInfo {
        ty: ObjectType("macho".to_owned()),
        code_id: Some("502fc0a51ec13e479998684fa139dca7".to_owned().to_lowercase()),
        debug_id: Some("502fc0a5-1ec1-3e47-9998-684fa139dca7".to_owned()),
        image_addr: HexValue(addr),
        image_size: Some(size),
        code_file: code_file.map(|name| name.to_owned()),
        debug_file: Default::default(),
    }
    .into()
}

fn raw_frame(addr: u64, trust: FrameTrust) -> RawFrame {
    RawFrame { instruction_addr: HexValue(addr), package: None, trust }
}

fn stacktrace(frames: Vec<RawFrame>) -> RawStacktrace {
    RawStacktrace { frames, registers: StringMap::new() }
}

fn bucket_request(sources: Vec<SourceConfig>) -> SymbolicateStacktraces {
    SymbolicateStacktraces {
        scope: Scope::Global,
        signal: None,
        sources: Arc::new(sources),
        stacktraces: vec![RawStacktrace {
            frames: vec![RawFrame {
                instruction_addr: HexValue(0x1_0000_0fa0),
                ..Default::default()
            }],
            registers: StringMap::new(),
        }],
        modules: vec![object(0x1_0000_0000, 4096, None)],
    }
}

/// Answers a request as a store would that has the object file in the local bucket.
fn respond(request: SymbolicateStacktraces) -> CompletedSymbolicationResponse {
    let lookup = SymCacheLookup::from_iter(request.modules.clone());
    let outcomes = lookup
        .symcaches_to_fetch(&request)
        .into_iter()
        .map(|fetch| {
            let fetch = fetch?;
            if fetch.sources.contains(&get_local_bucket()) {
                found()
            } else {
                not_found()
            }
        })
        .collect();
    let lookup = lookup.with_symcaches(outcomes);
    checked_symbolicate(lookup, request.stacktraces, request.signal).unwrap()
}

fn assert_found(response: &CompletedSymbolicationResponse) {
    assert_eq!(response.modules[0].debug_status, ObjectFileStatus::Found);
    assert_eq!(response.modules[0].arch, Arch::Amd64);
    let frames = &response.stacktraces[0].frames;
    assert_eq!(frames.len(), 1);
    assert_eq!(frames[0].status, FrameStatus::Symbolicated);
    assert_eq!(frames[0].original_index, Some(0));
    assert_eq!(frames[0].raw.instruction_addr, HexValue(0x1_0000_0fa0));
    assert_eq!(frames[0].symbol.as_deref(), Some("main"));
    assert_eq!(frames[0].function.as_deref(), Some("main"));
    assert_eq!(frames[0].filename.as_deref(), Some("main.cpp"));
    assert_eq!(frames[0].abs_path.as_deref(), Some("/src/main.cpp"));
    assert_eq!(frames[0].lineno, Some(41));
    assert_eq!(frames[0].sym_addr, Some(HexValue(0x1_0000_0fa0)));
}

fn assert_missing(response: &CompletedSymbolicationResponse) {
    assert_eq!(response.modules[0].debug_status, ObjectFileStatus::Missing);
    let frames = &response.stacktraces[0].frames;
    assert_eq!(frames.len(), 1);
    assert_eq!(frames[0].status, FrameStatus::Missing);
    assert_eq!(frames[0].original_index, Some(0));
    assert_eq!(frames[0].raw.instruction_addr, HexValue(0x1_0000_0fa0));
    assert_eq!(frames[0].symbol, None);
}

#[test]
fn test_remove_bucket() {
    let mut request = bucket_request(vec![get_local_bucket()]);
    assert_found(&respond(request.clone()));
    request.sources = Arc::new(vec![]);
    assert_missing(&respond(request));
}

#[test]
fn test_add_bucket() {
    let mut request = bucket_request(vec![]);
    assert_missing(&respond(request.clone()));
    request.sources = Arc::new(vec![get_local_bucket()]);
    assert_found(&respond(request));
}

/// The lookup of one image at an address, with its symbol cache.
fn one_image(addr: u64, outcome: SymCacheOutcome) -> SymCacheLookup {
    SymCacheLookup::from_iter(vec![object(addr, 0x2000, Some("/bin/crash"))])
        .with_symcaches(vec![outcome])
}

fn symbolized(outcome: SymCacheOutcome, frames: Vec<RawFrame>) -> Vec<SymbolicatedFrame> {
    let caches = one_image(0x1_0000, outcome);
    checked_symbolize_thread(stacktrace(frames), &caches, None).unwrap().frames
}

#[test]
fn names_are_demangled() {
    let frames = symbolized(found(), vec![raw_frame(0x1_0f00, FrameTrust::Context)]);
    assert_eq!(frames[0].symbol.as_deref(), Some("_ZN3foo3barEi"));
    assert_eq!(frames[0].function.as_deref(), Some("foo::bar(int)"));
    assert_eq!(frames[0].sym_addr, Some(HexValue(0x1_0f00)));
    assert_eq!(frames[0].raw.package.as_deref(), Some("/bin/crash"));
    assert_eq!(frames[0].raw.trust, FrameTrust::Context);
}

#[test]
fn relative_paths_are_file_names() {
    let frames = symbolized(found(), vec![raw_frame(0x1_0f40, FrameTrust::Context)]);
    assert_eq!(frames[0].lineno, Some(20));
    assert_eq!(frames[0].filename.as_deref(), Some("util.h"));
    assert_eq!(frames[0].abs_path.as_deref(), Some("util.h"));
}

#[test]
fn frames_behind_the_first_are_looked_up_at_their_call() {
    // The return address is that of the next line, the call is on the line before.
    let frames = symbolized(
        found(),
        vec![raw_frame(0x1_0fb0, FrameTrust::Context), raw_frame(0x1_0fb0, FrameTrust::CFI)],
    );
    assert_eq!(frames[0].lineno, Some(42));
    assert_eq!(frames[1].lineno, Some(41));
    assert_eq!(frames[0].raw.instruction_addr, HexValue(0x1_0fb0));
    assert_eq!(frames[1].raw.instruction_addr, HexValue(0x1_0faf));
}

#[test]
fn the_first_frame_is_a_call_where_the_register_says_otherwise() {
    let mut registers = StringMap::new();
    registers.insert("rip".to_owned(), HexValue(0x1234));
    let at = |index, signal| frame_address(Arch::Amd64, 0x1_0fb0, index, signal, &registers);
    assert_eq!(at(0, None), 0x1_0fb0);
    assert_eq!(at(0, Some(Signal(11))), 0x1_0faf);
    assert_eq!(at(0, Some(Signal(6))), 0x1_0fb0);
    assert_eq!(at(1, None), 0x1_0faf);
    let none = StringMap::new();
    assert_eq!(frame_address(Arch::Amd64, 0x1_0fb0, 0, Some(Signal(11)), &none), 0x1_0fb0);
    assert_eq!(frame_address(Arch::Arm64, 0x1003, 1, None, &none), 0xffc);
    assert_eq!(frame_address(Arch::Arm, 0x1003, 1, None, &none), 0x1000);
    assert_eq!(frame_address(Arch::Unknown, 0x1003, 1, None, &none), 0x1002);
    assert_eq!(frame_address(Arch::Mips, 0x1003, 1, None, &none), 0xff8);
}

#[test]
fn addresses_without_a_symbol_miss_it() {
    let frames = symbolized(found(), vec![raw_frame(0x1_0100, FrameTrust::Context)]);
    assert_eq!(frames.len(), 1);
    assert_eq!(frames[0].status, FrameStatus::MissingSymbol);
    assert_eq!(frames[0].raw.package.as_deref(), Some("/bin/crash"));
    assert_eq!(frames[0].function, None);
}

#[test]
fn addresses_before_the_image_miss_their_symbol() {
    // The return address is the first of the image, and the call is before it.
    let frames = symbolized(
        found(),
        vec![raw_frame(0x1_0fb0, FrameTrust::Context), raw_frame(0x1_0000, FrameTrust::CFI)],
    );
    assert_eq!(frames[1].status, FrameStatus::MissingSymbol);
    assert_eq!(frames[1].raw.instruction_addr, HexValue(0x1_0000));
}

#[test]
fn uncovered_frames_belong_to_no_image() {
    let frames = symbolized(
        found(),
        vec![raw_frame(0x9_0000, FrameTrust::Context), raw_frame(0x9_0000, FrameTrust::Scan)],
    );
    assert_eq!(frames.len(), 1);
    assert_eq!(frames[0].status, FrameStatus::UnknownImage);
    assert_eq!(frames[0].raw, raw_frame(0x9_0000, FrameTrust::Context));
}

#[test]
fn scanned_frames_are_dropped_without_a_symbol() {
    let scanned = vec![
        raw_frame(0x1_0fb0, FrameTrust::Context),
        raw_frame(0x1_0100, FrameTrust::Scan),
        raw_frame(0x1_0fb1, FrameTrust::Scan),
        raw_frame(0x1_0100, FrameTrust::CFIScan),
    ];
    let frames = symbolized(found(), scanned.clone());
    let indexes: Vec<Option<usize>> = frames.iter().map(|frame| frame.original_index).collect();
    assert_eq!(indexes, vec![Some(0), Some(2), Some(3)]);
    assert_eq!(frames[1].status, FrameStatus::Symbolicated);
    assert_eq!(frames[2].status, FrameStatus::MissingSymbol);
    // Where the debug file is missing, scanned frames are kept.
    let frames = symbolized(not_found(), scanned);
    assert_eq!(frames.len(), 4);
    assert_eq!(frames[1].status, FrameStatus::Missing);
}

#[test]
fn frames_without_a_usable_cache_say_why() {
    let status = |outcome| {
        symbolized(outcome, vec![raw_frame(0x1_0fb0, FrameTrust::Context)])[0].status
    };
    assert_eq!(status(not_found()), FrameStatus::Missing);
    assert_eq!(status(malformed()), FrameStatus::Malformed);
    assert_eq!(status(None), FrameStatus::Missing);
    assert_eq!(status(Some(Err(CacheErrorKind::ObjectParsing))), FrameStatus::Malformed);
    assert_eq!(status(Some(Err(CacheErrorKind::Timeout))), FrameStatus::Missing);
    let garbage = SymCacheFile {
        arch: Arch::Amd64,
        contents: CacheContents::Positive(b"garbage".to_vec()),
    };
    assert_eq!(status(Some(Ok(Arc::new(garbage)))), FrameStatus::Missing);
}

#[test]
fn kept_frames_depend_on_trust_and_status() {
    let keep = |trust, status| keep_frames(3, raw_frame(5, trust), Err(status)).len();
    assert_eq!(keep(FrameTrust::Scan, FrameStatus::MissingSymbol), 0);
    assert_eq!(keep(FrameTrust::Scan, FrameStatus::UnknownImage), 0);
    assert_eq!(keep(FrameTrust::Scan, FrameStatus::Missing), 1);
    assert_eq!(keep(FrameTrust::Scan, FrameStatus::Malformed), 1);
    assert_eq!(keep(FrameTrust::CFIScan, FrameStatus::MissingSymbol), 1);
    let frames = keep_frames(3, raw_frame(5, FrameTrust::FP), Err(FrameStatus::Malformed));
    assert_eq!(frames[0].status, FrameStatus::Malformed);
    assert_eq!(frames[0].original_index, Some(3));
    assert_eq!(frames[0].raw, raw_frame(5, FrameTrust::FP));
}

fn line() -> LineRecord {
    LineRecord {
        compilation_dir: "/build".to_owned(),
        path: "src/lib.rs".to_owned(),
        filename: "lib.rs".to_owned(),
        language: Language::Rust.code(),
        symbol: "_ZN3foo3bar17h0123456789abcdefE".to_owned(),
        line: 7,
        function_address: 0x10,
        instruction_address: 0x12,
    }
}

#[test]
fn lines_become_frames() {
    let info = object(0x1000, 0x100, Some("/bin/crash"));
    let frames = line_frames(&info, 4, FrameTrust::FP, Some(vec![line(), line()])).unwrap();
    assert_eq!(frames.len(), 2);
    let frame = &frames[0];
    assert_eq!(frame.status, FrameStatus::Symbolicated);
    assert_eq!(frame.original_index, Some(4));
    assert_eq!(frame.raw.instruction_addr, HexValue(0x1012));
    assert_eq!(frame.raw.trust, FrameTrust::FP);
    assert_eq!(frame.sym_addr, Some(HexValue(0x1010)));
    assert_eq!(frame.lang, Some(Language::Rust));
    assert_eq!(frame.function.as_deref(), Some("foo::bar"));
    assert_eq!(frame.filename.as_deref(), Some("src/lib.rs"));
    assert_eq!(frame.abs_path.as_deref(), Some("/build/src/lib.rs"));
    assert_eq!(frame.lineno, Some(7));
    let none = line_frames(&info, 4, FrameTrust::FP, Some(vec![]));
    assert_eq!(none, Err(FrameStatus::MissingSymbol));
    assert_eq!(line_frames(&info, 4, FrameTrust::FP, None), Err(FrameStatus::Malformed));
}

#[test]
fn empty_names_are_left_out() {
    let info = object(0x1000, 0x100, None);
    let mut bare = line();
    bare.path = String::new();
    bare.filename = String::new();
    bare.language = 0;
    let frame = line_frame(&info, 0, FrameTrust::Context, bare, String::new(), "f".to_owned());
    assert_eq!(frame.filename, None);
    assert_eq!(frame.abs_path, None);
    assert_eq!(frame.lang, None);
    assert_eq!(frame.function.as_deref(), Some("f"));
    assert_eq!(frame.raw.package, None);
}

#[test]
fn only_referenced_images_are_fetched() {
    let mut request = bucket_request(vec![get_local_bucket()]);
    request.modules.push(object(0x9_0000_0000, 4096, Some("/unused")));
    let lookup = SymCacheLookup::from_iter(request.modules.clone());
    let fetches = lookup.symcaches_to_fetch(&request);
    assert_eq!(fetches.len(), 2);
    let fetch = fetches[0].as_ref().unwrap();
    assert_eq!(fetch.object_type, ObjectType("macho".to_owned()));
    assert_eq!(fetch.scope, Scope::Global);
    assert_eq!(fetch.sources, request.sources);
    assert_eq!(
        fetch.identifier.debug_id.as_ref().map(|id| id.0.as_str()),
        Some("502fc0a5-1ec1-3e47-9998-684fa139dca7")
    );
    assert!(fetches[1].is_none());
    let modules = lookup.with_symcaches(vec![found(), None]).into_modules();
    assert_eq!(modules[0].debug_status, ObjectFileStatus::Found);
    assert_eq!(modules[1].debug_status, ObjectFileStatus::Unused);
    assert_eq!(modules[1].raw.code_file.as_deref(), Some("/unused"));
}

#[test]
fn fetching_says_what_became_of_an_image() {
    let outcome = |outcome| {
        let mut info = object(0x1000, 0x100, None);
        info.arch = Arch::X86;
        let (info, cache) = examine((info, None), outcome);
        (info.debug_status, info.arch, cache.is_some())
    };
    assert_eq!(outcome(found()), (ObjectFileStatus::Found, Arch::Amd64, true));
    assert_eq!(outcome(not_found()), (ObjectFileStatus::Missing, Arch::Unknown, true));
    assert_eq!(outcome(malformed()), (ObjectFileStatus::Malformed, Arch::Unknown, false));
    assert_eq!(outcome(None), (ObjectFileStatus::Unused, Arch::X86, false));
    let failed = |kind| outcome(Some(Err(kind)));
    assert_eq!(
        failed(CacheErrorKind::Fetching),
        (ObjectFileStatus::FetchingFailed, Arch::Unknown, false)
    );
    assert_eq!(failed(CacheErrorKind::Timeout).0, ObjectFileStatus::Timeout);
    assert_eq!(failed(CacheErrorKind::ObjectParsing).0, ObjectFileStatus::Malformed);
    assert_eq!(failed(CacheErrorKind::Other).0, ObjectFileStatus::Other);
    let garbage = SymCacheFile {
        arch: Arch::Amd64,
        contents: CacheContents::Positive(b"garbage".to_vec()),
    };
    assert_eq!(outcome(Some(Ok(Arc::new(garbage)))).0, ObjectFileStatus::Other);
}

#[test]
fn symbol_caches_are_parsed() {
    let file = |contents| SymCacheFile { arch: Arch::Unknown, contents };
    assert_eq!(file(CacheContents::Positive(symcache())).parse(), Ok(Some(Arch::Amd64)));
    assert_eq!(file(CacheContents::Negative).parse(), Ok(None));
    assert_eq!(file(CacheContents::Malformed).parse(), Err(CacheErrorKind::ObjectParsing));
    let garbage = file(CacheContents::Positive(b"garbage".to_vec()));
    assert_eq!(garbage.parse(), Err(CacheErrorKind::Other));
}

#[test]
fn symbol_caches_are_walked_only_backwards() {
    let data = symcache();
    assert!(has_inlined_behind_parents(&data));
    assert!(has_inlined_behind_parents(b""));
    // Let the first function be inlined into one before it, where there is none.
    let word = |at: usize| {
        u32::from_le_bytes([data[at], data[at + 1], data[at + 2], data[at + 3]]) as usize
    };
    let header = if word(4) == 1 { 52 } else { 68 };
    let base = if word(4) == 1 { 52 } else { 0 };
    let first = base + word(header - 8);
    let mut broken = data.clone();
    broken[first + 19] = 1;
    broken[first + 20] = 0;
    assert!(!has_inlined_behind_parents(&broken));
    assert!(!check_lookup(&broken, 0xf10));
    assert!(check_lookup(&broken, 0xfb0));
    let contents = CacheContents::Positive(broken);
    let caches = one_image(0x1_0000, Some(Ok(Arc::new(SymCacheFile {
        arch: Arch::Amd64,
        contents,
    }))));
    // The search from the second function does not come by the first.
    let thread = stacktrace(vec![raw_frame(0x1_0fb0, FrameTrust::Context)]);
    let frames = checked_symbolize_thread(thread, &caches, None).unwrap().frames;
    assert_eq!(frames[0].function.as_deref(), Some("main"));
    let thread = stacktrace(vec![raw_frame(0x1_0f10, FrameTrust::Context)]);
    assert!(checked_symbolize_thread(thread.clone(), &caches, None).is_none());
    assert!(checked_symbolicate(caches, vec![thread], None).is_none());
}

/// A symbol cache with functions that start at given addresses and have given parents.
fn cache_of(functions: &[(u64, u16)]) -> Vec<u8> {
    let mut data = b"SYMC".to_vec();
    data.extend_from_slice(&5u32.to_le_bytes());
    data.resize(40, 0);
    data.extend_from_slice(&201u32.to_le_bytes());
    data.resize(60, 0);
    data.extend_from_slice(&68u32.to_le_bytes());
    data.extend_from_slice(&(functions.len() as u32).to_le_bytes());
    for (start, parent) in functions {
        let at = data.len();
        data.extend_from_slice(&start.to_le_bytes()[..6]);
        data.resize(at + 19, 0);
        data.extend_from_slice(&parent.to_le_bytes());
        data.resize(at + 25, 0);
    }
    data
}

#[test]
fn searches_end_where_the_functions_on_their_way_are_sound() {
    let ends = |functions: &[(u64, u16)], addr| check_lookup(&cache_of(functions), addr);
    let none = 0xffff;
    assert!(ends(&[], 5));
    assert!(ends(&[(16, 1)], 15));
    assert!(!ends(&[(16, 1)], 16));
    assert!(!ends(&[(16, 0)], 16));
    assert!(ends(&[(16, 1), (32, none)], 32));
    assert!(!ends(&[(16, 1), (32, 1)], 32));
    assert!(!ends(&[(16, none), (32, 2)], 32));
    // The search goes back to the function that the last one was inlined into, and by those between.
    assert!(ends(&[(16, none), (16, 1), (16, 1)], 16));
    assert!(!ends(&[(0, 9), (16, none), (16, 2), (16, 1)], 16));
    assert!(ends(&[(0, 9), (16, none), (16, 1), (16, 1)], 16));
    // It may start from any function where they are not in order.
    assert!(!ends(&[(32, 1), (16, none)], 16));
    assert!(ends(&[(32, none), (16, 1)], 16));
    assert!(ends(&[(0x1_0000_0000, 1), (0x2_0000_0000, none)], 0x2_0000_0000));
}

#[test]
fn headers_of_symbol_caches_are_checked() {
    let parse = |data: &[u8]| {
        let contents = CacheContents::Positive(data.to_vec());
        SymCacheFile { arch: Arch::Unknown, contents }.parse()
    };
    let cache = cache_of(&[]);
    assert_eq!(parse(&cache), Ok(Some(Arch::Amd64)));
    assert_eq!(parse(&cache[..67]), Err(CacheErrorKind::Other));
    let with_arch = |code: u32| {
        let mut cache = cache.clone();
        cache[40..44].copy_from_slice(&code.to_le_bytes());
        parse(&cache).unwrap().unwrap()
    };
    for (code, arch) in [
        (1, Arch::X86),
        (2, Arch::Amd64),
        (3, Arch::Amd64h),
        (4, Arch::Arm),
        (13, Arch::ArmV7em),
        (14, Arch::Arm64),
        (16, Arch::Arm64e),
        (17, Arch::Ppc),
        (18, Arch::Ppc64),
        (19, Arch::Unknown),
        (999, Arch::Arm64_32Unknown),
    ] {
        assert_eq!(with_arch(code), arch);
    }
    let with_version = |version: u8| {
        let mut cache = cache.clone();
        cache[4] = version;
        parse(&cache)
    };
    assert_eq!(with_version(0), Err(CacheErrorKind::Other));
    assert_eq!(with_version(2), Ok(Some(Arch::Amd64)));
    assert_eq!(with_version(6), Err(CacheErrorKind::Other));
    let mut first = cache[..52].to_vec();
    first[4] = 1;
    first[24..28].copy_from_slice(&101u32.to_le_bytes());
    assert_eq!(parse(&first), Ok(Some(Arch::X86)));
    assert_eq!(parse(b"SYMS\x05\0\0\0"), Err(CacheErrorKind::Other));
}

#[test]
fn symbols_that_cannot_be_demangled_are_kept() {
    let symbols = SYMBOLS.replace("_ZN3foo3barEi", "?$TSS1234567890");
    let object = Object::parse(symbols.as_bytes()).unwrap();
    let mut cursor = Cursor::new(Vec::new());
    SymCacheWriter::write_object(&object, &mut cursor).unwrap();
    let contents = CacheContents::Positive(cursor.into_inner());
    let caches =
        one_image(0x1_0000, Some(Ok(Arc::new(SymCacheFile { arch: Arch::Amd64, contents }))));
    let thread = stacktrace(vec![raw_frame(0x1_0f10, FrameTrust::Context)]);
    let complete = checked_symbolize_thread(thread, &caches, None).unwrap();
    assert_eq!(complete.frames[0].status, FrameStatus::Symbolicated);
    assert_eq!(complete.frames[0].symbol.as_deref(), Some("?$TSS1234567890"));
    assert_eq!(complete.frames[0].function.as_deref(), Some("?$TSS1234567890"));
}

#[test]
fn addresses_that_do_not_fit_give_no_result() {
    let caches = one_image(0, found());
    let frames = vec![raw_frame(0xfa0, FrameTrust::Context), raw_frame(0, FrameTrust::FP)];
    assert!(checked_symbolize_thread(stacktrace(frames), &caches, None).is_none());
}

#[test]
fn threads_keep_their_registers_and_order() {
    let mut registers = StringMap::new();
    registers.insert("rip".to_owned(), HexValue(0x1_0fb0));
    let thread = RawStacktrace {
        registers,
        frames: vec![
            raw_frame(0x1_0fb0, FrameTrust::Context),
            raw_frame(0x9_0000, FrameTrust::FP),
            raw_frame(0x1_0f10, FrameTrust::FP),
        ],
    };
    let caches = one_image(0x1_0000, found());
    let complete = symbolize_thread(thread.clone(), &caches, None);
    assert_eq!(complete.registers.get("rip"), Some(&HexValue(0x1_0fb0)));
    assert_eq!(complete.thread_id, None);
    assert_eq!(complete.is_requesting, None);
    let indexes: Vec<usize> =
        complete.frames.iter().map(|frame| frame.original_index.unwrap()).collect();
    assert_eq!(indexes, vec![0, 1, 2]);
    let response = symbolicate(caches, vec![thread.clone(), thread], Some(Signal(11)));
    assert_eq!(response.signal, Some(Signal(11)));
    assert_eq!(response.stacktraces.len(), 2);
    assert_eq!(response.modules.len(), 1);
    assert_eq!(response.timestamp, None);
    assert_eq!(response.crashed, None);
    assert!(response.system_info.is_none());
}

#[test]
fn the_first_frames_come_out_alike() {
    let frames = vec![
        raw_frame(0x1_0fb0, FrameTrust::Context),
        raw_frame(0x9_0000, FrameTrust::Scan),
        raw_frame(0x1_0f10, FrameTrust::FP),
        raw_frame(0x9_0000, FrameTrust::FP),
        raw_frame(0x1_0fb0, FrameTrust::Scan),
    ];
    let whole = symbolized(found(), frames.clone());
    assert_eq!(whole.len(), 4);
    for k in 0..=frames.len() {
        let first = symbolized(found(), frames[..k].to_vec());
        assert_eq!(first, whole[..first.len()]);
        let kept = whole.iter().filter(|frame| frame.original_index < Some(k)).count();
        assert_eq!(first.len(), kept);
    }
}

#[test]
fn signal_and_registers_are_those_of_the_first_frame() {
    let frames = vec![
        raw_frame(0x1_0f11, FrameTrust::Context),
        raw_frame(0x1_0f11, FrameTrust::FP),
        raw_frame(0x1_0fb0, FrameTrust::FP),
    ];
    let with = |signal: Option<u32>, address: u64| {
        let mut registers = StringMap::new();
        registers.insert("rip".to_owned(), HexValue(address));
        let thread = RawStacktrace { registers, frames: frames.clone() };
        let caches = one_image(0x1_0000, found());
        checked_symbolize_thread(thread, &caches, signal.map(Signal)).unwrap().frames
    };
    let first = with(None, 0x1_0f11);
    for signal in [None, Some(4), Some(11)] {
        for address in [0, 0x1_0f11, 0x1_0fb0] {
            let other = with(signal, address);
            assert_eq!(first[1..], other[1..]);
        }
    }
    let address = |frames: Vec<SymbolicatedFrame>| frames[0].raw.instruction_addr.0;
    assert_eq!(address(with(None, 0x1_0f11)), 0x1_0f11);
    assert_ne!(address(with(Some(11), 0)), address(with(None, 0x1_0f11)));
}

#[test]
fn architectures_have_codes_and_names() {
    assert_eq!(Arch::from_name("x86_64"), Arch::Amd64);
    assert_eq!(Arch::from_name("arm64"), Arch::Arm64);
    assert_eq!(Arch::from_name("no such"), Arch::Unknown);
    for arch in [Arch::X86, Arch::Amd64, Arch::ArmV7, Arch::Arm64e, Arch::Mips64] {
        assert_eq!(Arch::from_code(arch.code()), arch);
    }
    assert_eq!(Language::from_code(Language::Cpp.code()), Language::Cpp);
    assert_eq!(FrameTrust::from_code(1), FrameTrust::Scan);
    assert_eq!(FrameTrust::from_code(99), FrameTrust::Unknown);
}
