use std::sync::Arc;

use symbolication::{
    cfi_to_fetch, check_lists, check_readable, stackwalk_minidump, Scope, SymbolicationError,
};

const LINUX: u32 = 0x8201;
const ANDROID: u32 = 0x8203;
const WINDOWS: u32 = 2;

/// A thread: its identifier, and the size and the bytes of its context.
type Thread = (u32, u32, Vec<u8>);

/// A module: its name, its address and its size.
type Module = (&'static str, u64, u32);

/// Builds minidumps.
struct Dump {
    swapped: bool,
    bytes: Vec<u8>,
    streams: Vec<(u32, u32, u32)>,
}

impl Dump {
    fn new(swapped: bool) -> Dump {
        let mut dump = Dump { swapped, bytes: Vec::new(), streams: Vec::new() };
        dump.bytes = dump.words(&[0x504d_444d, 0xa793, 0, 0, 0, 0, 0, 0]);
        dump
    }

    fn word(&self, number: u32) -> [u8; 4] {
        if self.swapped {
            number.to_be_bytes()
        } else {
            number.to_le_bytes()
        }
    }

    fn words(&self, numbers: &[u32]) -> Vec<u8> {
        numbers.iter().flat_map(|number| self.word(*number)).collect()
    }

    fn put(&mut self, data: &[u8]) -> u32 {
        let at = self.bytes.len() as u32;
        self.bytes.extend_from_slice(data);
        at
    }

    fn put_text(&mut self, text: &str) -> u32 {
        let units: Vec<u16> = text.encode_utf16().collect();
        let mut data = self.word(2 * units.len() as u32).to_vec();
        for unit in units {
            let unit = if self.swapped { unit.to_be_bytes() } else { unit.to_le_bytes() };
            data.extend_from_slice(&unit);
        }
        self.put(&data)
    }

    fn stream(&mut self, kind: u32, data: &[u8]) {
        let at = self.put(data);
        self.streams.push((kind, data.len() as u32, at));
    }

    fn system(&mut self, arch: u16, platform: u32) {
        let version = self.put_text("");
        let mut data = if self.swapped { arch.to_be_bytes() } else { arch.to_le_bytes() }.to_vec();
        data.extend_from_slice(&[0, 0, 0, 0, 1, 0]);
        data.extend_from_slice(&self.words(&[0, 0, 0, platform, version, 0]));
        data.extend_from_slice(&[0; 24]);
        self.stream(7, &data);
    }

    fn modules(&mut self, modules: &[Module]) {
        let mut data = self.word(modules.len() as u32).to_vec();
        let mut names: Vec<(&str, u32)> = Vec::new();
        for (name, base, size) in modules {
            let at = match names.iter().find(|known| known.0 == *name) {
                Some(known) => known.1,
                None => self.put_text(name),
            };
            names.push((name, at));
            let (low, high) = (*base as u32, (*base >> 32) as u32);
            let (a, b) = if self.swapped { (high, low) } else { (low, high) };
            data.extend_from_slice(&self.words(&[a, b, *size, 0, 0, at]));
            data.extend_from_slice(&[0; 84]);
        }
        self.stream(4, &data);
    }

    fn threads(&mut self, threads: &[Thread]) {
        let mut data = self.word(threads.len() as u32).to_vec();
        for (id, size, context) in threads {
            let at = self.put(context);
            data.extend_from_slice(&self.words(&[*id, 0, 0, 0, 0, 0, 0, 0, 0, 0, *size, at]));
        }
        self.stream(3, &data);
    }

    fn finish(mut self) -> Vec<u8> {
        let at = self.bytes.len() as u32;
        for (kind, size, start) in self.streams.clone() {
            let entry = self.words(&[kind, size, start]);
            self.bytes.extend_from_slice(&entry);
        }
        let count = self.words(&[self.streams.len() as u32, at]);
        self.bytes[8..16].copy_from_slice(&count);
        self.bytes
    }
}

fn amd64_context() -> Vec<u8> {
    let mut context = vec![0; 1232];
    context[48..52].copy_from_slice(&0x10_001fu32.to_le_bytes());
    context
}

fn amd64_thread(id: u32) -> Thread {
    (id, 1232, amd64_context())
}

fn dump_of(platform: u32, modules: &[Module], threads: &[Thread]) -> Vec<u8> {
    let mut dump = Dump::new(false);
    dump.system(9, platform);
    dump.modules(modules);
    dump.threads(threads);
    dump.finish()
}

/// The number of threads of a minidump, where it can be walked.
fn walk(dump: &[u8]) -> Option<usize> {
    let fetches = cfi_to_fetch(dump, &Arc::new(vec![]), &Scope::Global);
    let walked = stackwalk_minidump(dump, Scope::Global, Arc::new(vec![]), vec![]);
    assert_eq!(fetches.is_some(), walked.is_some());
    assert_eq!(check_readable(dump) && check_lists(dump), walked.is_some());
    let (request, _) = walked?.unwrap();
    assert!(request.stacktraces.iter().all(|thread| !thread.frames.is_empty()));
    Some(request.stacktraces.len())
}

#[test]
fn minidumps_need_modules_and_threads() {
    let app: Module = ("/bin/app", 0x1000, 0x1000);
    assert_eq!(walk(&dump_of(LINUX, &[app], &[amd64_thread(1)])), Some(1));
    assert_eq!(walk(&dump_of(LINUX, &[], &[amd64_thread(1), amd64_thread(2)])), Some(2));
    assert_eq!(walk(&dump_of(LINUX, &[app], &[])), None);
    let mut without_modules = Dump::new(false);
    without_modules.system(9, LINUX);
    without_modules.threads(&[amd64_thread(1)]);
    assert_eq!(walk(&without_modules.finish()), None);
    let mut without_threads = Dump::new(false);
    without_threads.system(9, LINUX);
    without_threads.modules(&[app]);
    assert_eq!(walk(&without_threads.finish()), None);
    assert_eq!(walk(&Dump::new(false).finish()), None);
}

#[test]
fn threads_need_contexts() {
    let of = |threads: &[Thread]| walk(&dump_of(LINUX, &[], threads));
    assert_eq!(of(&[amd64_thread(1), (2, 0, vec![])]), None);
    assert_eq!(of(&[(1, 716, amd64_context())]), None);
    let mut of_another_cpu = vec![0; 912];
    of_another_cpu[..4].copy_from_slice(&0x40_0000u32.to_le_bytes());
    assert_eq!(of(&[(1, 912, of_another_cpu)]), None);
    assert_eq!(of(&[(1, 1232, vec![0; 1232])]), Some(1));
    assert_eq!(of(&[amd64_thread(1), amd64_thread(1)]), None);
}

#[test]
fn contexts_of_all_cpus_are_known() {
    // The CPU as the system and as contexts name it, and the size of a context.
    let cpus: [(u16, u32, usize); 10] = [
        (0, 0x1_0000, 716),
        (1, 0x4_0000, 600),
        (3, 0x2000_0000, 1004),
        (5, 0x4000_0000, 368),
        (9, 0x10_0000, 1232),
        (12, 0x40_0000, 912),
        (0x8001, 0x1000_0000, 584),
        (0x8002, 0x100_0000, 1160),
        (0x8003, 0x8000_0000, 796),
        (0x8004, 0x8_0000, 600),
    ];
    for swapped in [false, true] {
        for (arch, flags, size) in cpus {
            let wide = size == 1160 || size == 796;
            let at = if size == 1232 { 48 } else if wide && swapped { 4 } else { 0 };
            for named in [true, false] {
                let mut dump = Dump::new(swapped);
                let mut context = vec![0; size];
                if named {
                    context[at..at + 4].copy_from_slice(&dump.word(flags));
                }
                dump.system(arch, LINUX);
                dump.modules(&[("/bin/app", 0x1000, 0x1000)]);
                dump.threads(&[(1, size as u32, context)]);
                let expected = if named || size != 1160 { Some(1) } else { None };
                assert_eq!(walk(&dump.finish()), expected, "{} {} {}", arch, swapped, named);
            }
        }
    }
}

#[test]
fn the_writing_thread_is_not_walked() {
    let of = |threads: &[Thread], validity: u32| {
        let mut dump = Dump::new(false);
        dump.system(9, LINUX);
        dump.modules(&[]);
        dump.threads(threads);
        let info = dump.words(&[validity, 2, 0]);
        dump.stream(0x4767_0001, &info);
        walk(&dump.finish())
    };
    assert_eq!(of(&[amd64_thread(1), (2, 0, vec![])], 1), Some(1));
    assert_eq!(of(&[amd64_thread(1), (2, 0, vec![])], 0), None);
    assert_eq!(of(&[amd64_thread(2)], 1), None);
    assert_eq!(of(&[amd64_thread(2)], 2), Some(1));
}

#[test]
fn modules_are_readable_and_apart() {
    let of = |platform, modules: &[Module]| {
        walk(&dump_of(platform, modules, &[amd64_thread(1)])).is_some()
    };
    let app: Module = ("/bin/app", 0x1000, 0x1000);
    assert!(of(LINUX, &[app, ("/lib/a", 0x2000, 1), ("/lib/b", 0x500, 0xb00)]));
    assert!(of(LINUX, &[app, app]));
    assert!(!of(LINUX, &[app, ("/lib/a", 0x1fff, 1)]));
    assert!(of(ANDROID, &[app, ("/lib/a", 0x1ffe, 1)]));
    assert!(!of(ANDROID, &[app, ("/lib/a", 0x1fff, 1)]));
    assert!(!of(LINUX, &[("/bin/app", 0x1000, 0)]));
    assert!(!of(LINUX, &[("/bin/app", u64::MAX, 1)]));
    assert!(of(LINUX, &[("/bin/app", u64::MAX - 1, 1)]));
    assert!(of(LINUX, &[("/bin/\u{1f400}", 0x1000, 1)]));
}

/// A module with all that tells it from others: its name, its address, its size, its time stamp and
/// its debug record.
type FullModule = (&'static str, u64, u32, u32, &'static [u8]);

/// Whether a minidump with modules can be walked. Each module has a name and a record of its own.
fn walk_modules(platform: u32, modules: &[FullModule]) -> bool {
    let mut dump = Dump::new(false);
    dump.system(9, platform);
    let mut data = dump.word(modules.len() as u32).to_vec();
    for (name, base, size, time, record) in modules {
        let at = dump.put_text(name);
        let place = dump.put(record);
        let words =
            [*base as u32, (*base >> 32) as u32, *size, 0, *time, at].map(|word| word.to_le_bytes());
        data.extend(words.concat());
        data.extend_from_slice(&[0; 52]);
        data.extend_from_slice(&dump.words(&[record.len() as u32, place]));
        data.extend_from_slice(&[0; 24]);
    }
    dump.stream(4, &data);
    dump.threads(&[amd64_thread(1)]);
    walk(&dump.finish()).is_some()
}

#[test]
fn the_same_module_may_be_listed_twice() {
    let record = b"LEpB12345678";
    let app: FullModule = ("/bin/app", 0x1000, 0x1000, 1, record);
    for platform in [LINUX, ANDROID, WINDOWS] {
        assert!(walk_modules(platform, &[app]));
        assert!(walk_modules(platform, &[app, app, app]));
        assert!(walk_modules(platform, &[app, ("/lib/a", 0x3000, 1, 1, b""), app]));
        assert!(!walk_modules(platform, &[app, ("/bin/apq", 0x1000, 0x1000, 1, record)]));
        assert!(!walk_modules(platform, &[app, ("/bin/app", 0x1001, 0xfff, 1, record)]));
        assert!(!walk_modules(platform, &[app, ("/bin/app", 0x1000, 0x1000, 1, b"LEpB12345679")]));
        let later: FullModule = ("/bin/app", 0x1000, 0x1000, 2, record);
        assert_eq!(walk_modules(platform, &[app, later]), platform != WINDOWS);
    }
    assert!(!walk_modules(LINUX, &[app, ("/bin/app", 0x1000, 0xfff, 1, record)]));
    assert!(walk_modules(ANDROID, &[app, ("/bin/app", 0x1000, 0xfff, 1, record)]));
}

#[test]
fn android_shares_memory() {
    let app: FullModule = ("/bin/app", 0x1000, 0x1000, 0, b"");
    let shared: FullModule = ("/dev/ashmem/x", 0x1800, 0x800, 0, b"");
    let likewise: FullModule = ("/dev/ashmen/x", 0x1800, 0x800, 0, b"");
    assert!(walk_modules(ANDROID, &[app, shared]));
    assert!(!walk_modules(ANDROID, &[shared, app]));
    assert!(!walk_modules(ANDROID, &[app, likewise]));
    assert!(!walk_modules(LINUX, &[app, shared]));
    // A module is known again only where no other one took its addresses.
    let over: FullModule = ("/lib/a", 0x800, 0x900, 0, b"");
    assert!(!walk_modules(ANDROID, &[app, over, app]));
    assert!(walk_modules(ANDROID, &[app, ("/lib/a", 0x800, 0x800, 0, b""), app]));
}

#[test]
fn contexts_have_the_registers_of_the_system() {
    let x86 = |flags: u32| {
        let mut context = vec![0; 716];
        context[..4].copy_from_slice(&flags.to_le_bytes());
        context
    };
    let of = |arch: u16, thread: Thread, exception: Option<(u32, Vec<u8>)>| {
        let mut dump = Dump::new(false);
        dump.system(arch, LINUX);
        dump.modules(&[]);
        dump.threads(&[thread]);
        if let Some((size, context)) = exception {
            let at = dump.put(&context);
            let mut data = dump.words(&[1, 0]);
            data.extend_from_slice(&[0; 152]);
            data.extend_from_slice(&dump.words(&[size, at]));
            dump.stream(6, &data);
        }
        walk(&dump.finish())
    };
    assert_eq!(of(0, (1, 716, x86(0x1_0000)), None), Some(1));
    assert_eq!(of(10, (1, 716, x86(0x1_0000)), None), Some(1));
    assert_eq!(of(9, (1, 716, x86(0x1_0000)), None), None);
    assert_eq!(of(9, amd64_thread(1), Some((1232, amd64_context()))), Some(1));
    assert_eq!(of(9, amd64_thread(1), Some((716, x86(0x1_0000)))), None);
    // What the stack walker does not take does no harm.
    assert_eq!(of(9, amd64_thread(1), Some((716, x86(0x4000_0000)))), Some(1));
    assert_eq!(of(9, amd64_thread(1), Some((4, vec![0; 4]))), Some(1));
    assert_eq!(of(9, amd64_thread(1), Some((1160, vec![0; 1160]))), None);
}

/// A minidump of two threads, each with a stack pointer, and of one piece of memory with an address,
/// a size and a start before or behind the end.
fn dump_with_memory(pointers: [u64; 2], address: u64, size: u32, from_end: i64) -> Vec<u8> {
    let mut dump = Dump::new(false);
    dump.system(9, LINUX);
    dump.modules(&[]);
    let threads: Vec<Thread> = (0..2)
        .map(|i| {
            let mut context = amd64_context();
            context[152..160].copy_from_slice(&pointers[i].to_le_bytes());
            (i as u32 + 1, 1232, context)
        })
        .collect();
    dump.threads(&threads);
    let words = dump.words(&[1, address as u32, (address >> 32) as u32, size, 0]);
    dump.stream(5, &words);
    let mut bytes = dump.finish();
    let start = (bytes.len() as i64 + from_end) as u32;
    let at = bytes.windows(20).position(|part| part == &words[..]).unwrap() + 16;
    bytes[at..at + 4].copy_from_slice(&start.to_le_bytes());
    bytes
}

#[test]
fn memory_is_read_for_stacks() {
    let of = |pointers, from_end| {
        let dump = dump_with_memory(pointers, 0x7000, 0x100, from_end);
        (check_readable(&dump), walk(&dump))
    };
    // Memory in which no stack lies is not read.
    assert_eq!(of([0, 0x7100], 100), (true, Some(2)));
    assert_eq!(of([0x6fff, 0], -10), (true, Some(2)));
    // What is read last may end behind the end, but not start there.
    assert_eq!(of([0, 0x7000], -10), (true, Some(2)));
    assert_eq!(of([0, 0x7000], 0), (true, Some(2)));
    assert_eq!(of([0, 0x7000], 1), (false, None));
    // Nothing more would be read behind what is cut off.
    assert_eq!(of([0x70ff, 0], -10), (true, None));
    assert_eq!(of([0x70ff, 0], 1), (false, None));
    assert_eq!(of([0x70ff, 0x7000], -0x100), (true, Some(2)));
}

#[test]
fn stacks_are_read_in_order() {
    let of = |stacks: [(u32, i64); 2], writing: u32| {
        let mut dump = Dump::new(false);
        dump.system(9, LINUX);
        dump.modules(&[]);
        dump.threads(&[amd64_thread(1), amd64_thread(2)]);
        let (_, _, threads) = dump.streams[2];
        let info = dump.words(&[1, writing, 0]);
        dump.stream(0x4767_0001, &info);
        let mut bytes = dump.finish();
        let total = bytes.len() as i64;
        for (i, (size, from_end)) in stacks.iter().enumerate() {
            let at = threads as usize + 4 + 48 * i;
            bytes[at + 24..at + 32].copy_from_slice(&0x7000u64.to_le_bytes());
            bytes[at + 32..at + 36].copy_from_slice(&size.to_le_bytes());
            bytes[at + 36..at + 40].copy_from_slice(&((total + from_end) as u32).to_le_bytes());
        }
        (check_readable(&bytes), walk(&bytes))
    };
    assert_eq!(of([(16, -16), (16, -16)], 9), (true, Some(2)));
    assert_eq!(of([(16, -16), (16, -15)], 9), (true, Some(2)));
    assert_eq!(of([(16, -16), (16, 1)], 9), (false, None));
    assert_eq!(of([(16, -15), (16, -16)], 9), (true, None));
    assert_eq!(of([(16, -15), (16, -16)], 2), (true, Some(1)));
    assert_eq!(of([(16, 1), (16, -16)], 1), (true, Some(1)));
    assert_eq!(of([(0, 1), (0, 1)], 9), (true, Some(2)));
}

#[test]
fn nothing_is_read_behind_the_end() {
    let header = |count: u32, directory: u32| {
        let mut bytes = Dump::new(false).bytes;
        bytes[8..12].copy_from_slice(&count.to_le_bytes());
        bytes[12..16].copy_from_slice(&directory.to_le_bytes());
        bytes
    };
    let result = |dump: &[u8]| cfi_to_fetch(dump, &Arc::new(vec![]), &Scope::Global);
    assert!(!check_readable(&header(1, 33)));
    assert!(result(&header(1, 33)).is_none());
    for cut in [header(1, 32), header(1, 30), header(129, 33)] {
        assert!(check_readable(&cut));
        assert!(matches!(result(&cut), Some(Err(SymbolicationError::Minidump(_)))));
    }
    assert!(check_readable(&header(0, 33)));
    assert!(result(&header(0, 33)).is_none());

    let app: Module = ("/bin/app", 0x1000, 0x1000);
    let whole = dump_of(LINUX, &[app], &[amd64_thread(1)]);
    let directory = u32::from_le_bytes([whole[12], whole[13], whole[14], whole[15]]) as usize;
    for stream in 0..3 {
        let mut moved = whole.clone();
        let at = directory + 12 * stream + 8;
        moved[at..at + 4].copy_from_slice(&(whole.len() as u32 + 1).to_le_bytes());
        assert!(!check_readable(&moved));
        assert_eq!(walk(&moved), None);
        moved[at..at + 4].copy_from_slice(&(whole.len() as u32 - 1).to_le_bytes());
        assert!(check_readable(&moved));
        assert!(!check_lists(&moved));
        assert_eq!(walk(&moved), None);
    }
}

#[test]
fn unloaded_modules_lie_in_the_minidump() {
    let of = |words: &[u32]| {
        let mut dump = Dump::new(false);
        dump.system(9, LINUX);
        dump.modules(&[]);
        dump.threads(&[amd64_thread(1)]);
        let data = dump.words(words);
        dump.stream(14, &data);
        walk(&dump.finish())
    };
    assert_eq!(of(&[12, 24, 0]), Some(1));
    assert_eq!(of(&[12, 24, 1, 0x1000, 0, 1, 0, 0, 0]), Some(1));
    assert_eq!(of(&[12, 24, 1, 0x1000, 0, 1, 0, 0, 0xffff]), None);
    assert_eq!(of(&[8, 24, 0]), None);
    assert_eq!(of(&[12, 24]), None);
}
