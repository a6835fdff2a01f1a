//! The layout of minidumps: where the stack walker reads in them, and whether it finds modules and
//! threads there.

use vstd::prelude::*;

use crate::symcache::{u16_at, u32_at};

verus! {

/// Whether the numbers of a minidump have their highest byte first.
pub open spec fn is_swapped(dump: Seq<u8>) -> bool {
    u32_at(dump, 0) != 0x504d_444d
}

/// A number of two bytes.
pub open spec fn short(dump: Seq<u8>, at: int) -> int {
    if is_swapped(dump) {
        0x100 * dump[at] + dump[at + 1]
    } else {
        u16_at(dump, at)
    }
}

/// A number of four bytes.
pub open spec fn word(dump: Seq<u8>, at: int) -> int {
    if is_swapped(dump) {
        0x100_0000 * dump[at] + 0x1_0000 * dump[at + 1] + 0x100 * dump[at + 2] + dump[at + 3]
    } else {
        u32_at(dump, at)
    }
}

/// A number of eight bytes.
pub open spec fn long(dump: Seq<u8>, at: int) -> int {
    if is_swapped(dump) {
        0x1_0000_0000 * word(dump, at) + word(dump, at + 4)
    } else {
        word(dump, at) + 0x1_0000_0000 * word(dump, at + 4)
    }
}

/// Whether bytes start with the header of a minidump. Of others the stack walker reads no more.
pub open spec fn has_header(dump: Seq<u8>) -> bool {
    &&& dump.len() >= 32
    &&& word(dump, 0) == 0x504d_444d
    &&& word(dump, 4) % 0x1_0000 == 0xa793
}

/// How many streams a minidump has.
pub open spec fn stream_count(dump: Seq<u8>) -> int {
    word(dump, 8)
}

/// Where the directory describes a stream: its kind, its size and where it starts.
pub open spec fn stream_at(dump: Seq<u8>, index: int) -> int {
    word(dump, 12) + 12 * index
}

/// Whether the directory of the streams lies in the minidump.
pub open spec fn has_directory(dump: Seq<u8>) -> bool {
    stream_at(dump, stream_count(dump)) <= dump.len()
}

/// The last of the first `count` streams that is of a kind: its size and where it starts.
pub open spec fn stream_of(dump: Seq<u8>, kind: int, count: int) -> Option<(int, int)>
    decreases count,
{
    if count <= 0 {
        None
    } else {
        let at = stream_at(dump, count - 1);
        if word(dump, at) == kind {
            Some((word(dump, at + 4), word(dump, at + 8)))
        } else {
            stream_of(dump, kind, count - 1)
        }
    }
}

/// Where the minidump describes the system.
pub open spec fn system_of(dump: Seq<u8>) -> Option<int> {
    match stream_of(dump, 7, stream_count(dump)) {
        Some((size, start)) => if size == 56 {
            Some(start)
        } else {
            None
        },
        None => None,
    }
}

/// Where the minidump describes the exception.
pub open spec fn exception_of(dump: Seq<u8>) -> Option<int> {
    match stream_of(dump, 6, stream_count(dump)) {
        Some((size, start)) => if size == 168 && start + 168 <= dump.len() {
            Some(start)
        } else {
            None
        },
        None => None,
    }
}

/// The thread that wrote the minidump. It is not walked.
pub open spec fn writing_thread(dump: Seq<u8>) -> Option<int> {
    match stream_of(dump, 0x4767_0001, stream_count(dump)) {
        Some((size, start)) => if size == 12 && start + 12 <= dump.len() && word(dump, start) % 2
            == 1 {
            Some(word(dump, start + 4))
        } else {
            None
        },
        None => None,
    }
}

/// Whether a part of a minidump starts in it or at its end and, where `whole`, ends there too.
pub open spec fn lies_in(dump: Seq<u8>, start: int, size: int, whole: bool) -> bool {
    start <= dump.len() && (whole ==> start + size <= dump.len())
}

/// Whether a part that has a size and a start at `at` lies in the minidump. Where its size is zero
/// it is not read.
pub open spec fn part_lies_in(dump: Seq<u8>, at: int, whole: bool) -> bool {
    word(dump, at) > 0 ==> lies_in(dump, word(dump, at + 4), word(dump, at), whole)
}

/// Whether the CPU context that has a size and a start at `at` lies in the minidump. Its first four
/// bytes are read whatever its size.
pub open spec fn context_lies_in(dump: Seq<u8>, at: int, whole: bool) -> bool {
    &&& lies_in(dump, word(dump, at + 4), word(dump, at), whole)
    &&& lies_in(dump, word(dump, at + 4), 4, whole)
}

/// Whether a text lies in the minidump. Its size stands before it. Where that is odd, or the text
/// has more than 1024 units, it is not read.
pub open spec fn text_lies_in(dump: Seq<u8>, start: int, whole: bool) -> bool {
    &&& lies_in(dump, start, 4, whole)
    &&& start + 4 <= dump.len() && word(dump, start) % 2 == 0 && word(dump, start) <= 2048
        ==> lies_in(dump, start + 4, word(dump, start), whole)
}

/// Where the first entry of a list is, and how many there are. A list starts with the number of its
/// entries, and four more bytes may stand before the first of them. None where the bytes are not
/// those of such a list, or it has more than `limit` entries.
pub open spec fn list_of(dump: Seq<u8>, start: int, size: int, entry: int, limit: int) -> Option<
    (int, int),
> {
    let count = word(dump, start);
    if size < 4 || start + size > dump.len() || count > limit {
        None
    } else if size == 4 + entry * count {
        Some((start + 4, count))
    } else if size == 8 + entry * count {
        Some((start + 8, count))
    } else {
        None
    }
}

/// Where the first thread is, and how many threads there are.
pub open spec fn threads_of(dump: Seq<u8>) -> Option<(int, int)> {
    match stream_of(dump, 3, stream_count(dump)) {
        Some((size, start)) => list_of(dump, start, size, 48, 4096),
        None => None,
    }
}

/// The identifier of a thread.
pub open spec fn thread_id(dump: Seq<u8>, first: int, index: int) -> int {
    word(dump, first + 48 * index)
}

/// Whether a thread is walked.
pub open spec fn is_walked(dump: Seq<u8>, first: int, index: int) -> bool {
    writing_thread(dump) != Some(thread_id(dump, first, index))
}

/// Whether a thread behind the one at `index` is walked.
pub open spec fn is_followed(dump: Seq<u8>, first: int, count: int, index: int) -> bool {
    exists|k: int| index < k < count && #[trigger] is_walked(dump, first, k)
}

/// Whether the CPU context and the stack of a thread lie in the minidump, where the thread is
/// walked. The stack of the last thread is read last, and may end behind the end. A stack without a
/// place is not read.
pub open spec fn thread_lies_in(
    dump: Seq<u8>,
    first: int,
    count: int,
    index: int,
    whole: bool,
) -> bool {
    let at = first + 48 * index;
    is_walked(dump, first, index) ==> {
        &&& context_lies_in(dump, at + 40, whole)
        &&& word(dump, at + 36) > 0 ==> part_lies_in(
            dump,
            at + 32,
            whole && is_followed(dump, first, count, index),
        )
    }
}

/// Whether the name and the debug records of a module lie in the minidump.
pub open spec fn module_lies_in(dump: Seq<u8>, first: int, index: int, whole: bool) -> bool {
    let at = first + 108 * index;
    &&& text_lies_in(dump, word(dump, at + 20), whole)
    &&& part_lies_in(dump, at + 76, whole)
    &&& part_lies_in(dump, at + 84, whole)
}

/// Where a CPU context that has a size and a start at `at` says that the stack is. The size tells
/// the CPU. None where the context does not end in the minidump.
pub open spec fn stack_pointer(dump: Seq<u8>, at: int) -> Option<int> {
    let size = word(dump, at);
    let start = word(dump, at + 4);
    if start + size > dump.len() {
        None
    } else if size == 368 {
        Some(word(dump, start + 56))
    } else if size == 584 {
        Some(long(dump, start + 120))
    } else if size == 600 {
        Some(long(dump, start + 240))
    } else if size == 716 {
        Some(word(dump, start + 196))
    } else if size == 796 || size == 912 {
        Some(long(dump, start + 256))
    } else if size == 1004 {
        Some(word(dump, start + 16))
    } else if size == 1160 {
        Some(long(dump, start + 32))
    } else if size == 1232 {
        Some(long(dump, start + 152))
    } else {
        None
    }
}

/// Whether a piece of memory holds an address.
pub open spec fn region_covers(dump: Seq<u8>, region: int, address: int) -> bool {
    long(dump, region) <= address < long(dump, region) + word(dump, region + 8)
}

/// Whether a piece of memory may be read to walk a thread: its stack starts there, or its context or
/// that of its exception says that the stack is there.
pub open spec fn region_serves(dump: Seq<u8>, region: int, first: int, index: int) -> bool {
    let at = first + 48 * index;
    ||| region_covers(dump, region, long(dump, at + 24))
    ||| stack_pointer(dump, at + 40) matches Some(pointer) && region_covers(dump, region, pointer)
    ||| exception_of(dump) matches Some(start) && word(dump, start) == thread_id(dump, first, index)
        && (stack_pointer(dump, start + 160) matches Some(pointer) && region_covers(
        dump,
        region,
        pointer,
    ))
}

/// Whether a piece of memory lies in the minidump, where it may be read to walk a thread. What is
/// read for the last thread is read last, and may end behind the end.
pub open spec fn region_fits_thread(
    dump: Seq<u8>,
    region: int,
    first: int,
    count: int,
    index: int,
    whole: bool,
) -> bool {
    is_walked(dump, first, index) && region_serves(dump, region, first, index) ==> part_lies_in(
        dump,
        region + 8,
        whole && is_followed(dump, first, count, index),
    )
}

/// Whether a piece of memory lies in the minidump, where it may be read to walk one of the first
/// `checked` threads.
pub open spec fn region_fits_threads(
    dump: Seq<u8>,
    region: int,
    first: int,
    count: int,
    checked: int,
    whole: bool,
) -> bool {
    forall|k: int|
        0 <= k < checked ==> #[trigger] region_fits_thread(dump, region, first, count, k, whole)
}

/// Whether a piece of memory lies in the minidump, where it may be read.
pub open spec fn region_lies_in(dump: Seq<u8>, first: int, index: int, whole: bool) -> bool {
    match threads_of(dump) {
        Some((thread, count)) => region_fits_threads(
            dump,
            first + 16 * index,
            thread,
            count,
            count,
            whole,
        ),
        None => true,
    }
}

/// Whether the first `checked` threads of a list lie in the minidump.
pub open spec fn all_threads_lie_in(
    dump: Seq<u8>,
    first: int,
    count: int,
    checked: int,
    whole: bool,
) -> bool {
    forall|k: int| 0 <= k < checked ==> #[trigger] thread_lies_in(dump, first, count, k, whole)
}

/// Whether all threads of a list lie in the minidump.
pub open spec fn threads_lie_in(dump: Seq<u8>, start: int, size: int, whole: bool) -> bool {
    &&& lies_in(dump, start, size, whole)
    &&& match list_of(dump, start, size, 48, 4096) {
        Some((first, count)) => all_threads_lie_in(dump, first, count, count, whole),
        None => true,
    }
}

/// Whether the first modules of a list lie in the minidump.
pub open spec fn all_modules_lie_in(dump: Seq<u8>, first: int, count: int, whole: bool) -> bool {
    forall|k: int| 0 <= k < count ==> #[trigger] module_lies_in(dump, first, k, whole)
}

/// Whether all modules of a list lie in the minidump.
pub open spec fn modules_lie_in(dump: Seq<u8>, start: int, size: int, whole: bool) -> bool {
    &&& lies_in(dump, start, size, whole)
    &&& match list_of(dump, start, size, 108, 2048) {
        Some((first, count)) => all_modules_lie_in(dump, first, count, whole),
        None => true,
    }
}

/// Whether the first pieces of memory of a list lie in the minidump.
pub open spec fn all_regions_lie_in(dump: Seq<u8>, first: int, count: int, whole: bool) -> bool {
    forall|k: int| 0 <= k < count ==> #[trigger] region_lies_in(dump, first, k, whole)
}

/// Whether all pieces of memory of a list lie in the minidump.
pub open spec fn regions_lie_in(dump: Seq<u8>, start: int, size: int, whole: bool) -> bool {
    &&& lies_in(dump, start, size, whole)
    &&& match list_of(dump, start, size, 16, 4096) {
        Some((first, count)) => all_regions_lie_in(dump, first, count, whole),
        None => true,
    }
}

/// Whether the name of an unloaded module lies in the minidump.
pub open spec fn unloaded_lies_in(
    dump: Seq<u8>,
    first: int,
    entry: int,
    index: int,
    whole: bool,
) -> bool {
    text_lies_in(dump, word(dump, first + entry * index + 20), whole)
}

/// Whether the list of unloaded modules lies in the minidump. It starts with the size of its head,
/// the size of an entry and the number of entries, and is read only where these make up its size.
pub open spec fn unloaded_list_lies_in(dump: Seq<u8>, start: int, size: int, whole: bool) -> bool {
    let head = word(dump, start);
    let entry = word(dump, start + 4);
    let count = word(dump, start + 8);
    &&& 12 <= size
    &&& start + size <= dump.len()
    &&& 12 <= head
    &&& head + entry * count <= 0xffff_ffff
    &&& head + entry * count == size && 24 <= entry && count <= 2048 ==> forall|k: int|
        0 <= k < count ==> #[trigger] unloaded_lies_in(dump, start + head, entry, k, whole)
}

/// Whether a stream lies in the minidump, and all that it leads to. Streams that the stack walker
/// does not read may lie anywhere.
pub open spec fn stream_lies_in(dump: Seq<u8>, index: int, whole: bool) -> bool {
    let at = stream_at(dump, index);
    let kind = word(dump, at);
    let size = word(dump, at + 4);
    let start = word(dump, at + 8);
    if kind == 3 {
        // The threads.
        threads_lie_in(dump, start, size, whole)
    } else if kind == 4 {
        // The modules.
        modules_lie_in(dump, start, size, whole)
    } else if kind == 5 {
        // The memory.
        regions_lie_in(dump, start, size, whole)
    } else if kind == 6 {
        // The exception.
        &&& lies_in(dump, start, size, whole)
        &&& size == 168 && start + 168 <= dump.len() ==> context_lies_in(dump, start + 160, whole)
    } else if kind == 7 {
        // The system.
        &&& lies_in(dump, start, size, whole)
        &&& size == 56 && start + 56 <= dump.len() ==> text_lies_in(
            dump,
            word(dump, start + 24),
            whole,
        )
    } else if kind == 14 {
        unloaded_list_lies_in(dump, start, size, whole)
    } else if kind == 15 || kind == 0x4767_0001 || kind == 0x4767_0002 {
        // The process, the threads that made the minidump, and the assertion that failed.
        lies_in(dump, start, size, whole)
    } else {
        true
    }
}

/// Whether the stack walker can be given a minidump: nothing that it reads starts behind the end.
pub open spec fn can_be_read(dump: Seq<u8>) -> bool {
    has_header(dump) && 0 < stream_count(dump) <= 128 ==> {
        &&& word(dump, 12) <= dump.len()
        &&& has_directory(dump) ==> forall|i: int|
            0 <= i < stream_count(dump) ==> #[trigger] stream_lies_in(dump, i, false)
    }
}

/// Whether all that the stack walker reads of a minidump lies in it. Once it has read over the end
/// it reads nothing any more.
pub open spec fn is_whole(dump: Seq<u8>) -> bool {
    &&& has_header(dump)
    &&& stream_count(dump) <= 128
    &&& has_directory(dump)
    &&& forall|i: int| 0 <= i < stream_count(dump) ==> #[trigger] stream_lies_in(dump, i, true)
}

/// How CPU contexts name the CPU that the system names: an x86, MIPS, PPC, ARM, AMD64, ARM64, SPARC,
/// PPC64, ARM64 in the older form, or MIPS64. Zero for a CPU that cannot be walked.
pub open spec fn cpu_of_arch(arch: int) -> int {
    if arch == 0 {
        0x1_0000
    } else if arch == 1 {
        0x4_0000
    } else if arch == 3 {
        0x2000_0000
    } else if arch == 5 {
        0x4000_0000
    } else if arch == 9 {
        0x10_0000
    } else if arch == 12 {
        0x40_0000
    } else if arch == 0x8001 {
        0x1000_0000
    } else if arch == 0x8002 {
        0x100_0000
    } else if arch == 0x8003 {
        0x8000_0000
    } else if arch == 0x8004 {
        0x8_0000
    } else {
        0
    }
}

/// The size of the contexts of a CPU. Zero for a CPU that cannot be walked.
pub open spec fn context_size(cpu: int) -> int {
    if cpu == 0x1_0000 {
        716
    } else if cpu == 0x4_0000 || cpu == 0x8_0000 {
        600
    } else if cpu == 0x10_0000 {
        1232
    } else if cpu == 0x40_0000 {
        912
    } else if cpu == 0x100_0000 {
        1160
    } else if cpu == 0x1000_0000 {
        584
    } else if cpu == 0x2000_0000 {
        1004
    } else if cpu == 0x4000_0000 {
        368
    } else if cpu == 0x8000_0000 {
        796
    } else {
        0
    }
}

/// The flags of a CPU context. Those of two CPUs have eight bytes, and these are the lower four.
pub open spec fn context_flags(dump: Seq<u8>, start: int, size: int) -> int {
    if size == 1232 {
        word(dump, start + 48)
    } else if (size == 1160 || size == 796) && is_swapped(dump) {
        word(dump, start + 4)
    } else {
        word(dump, start)
    }
}

/// The CPU that a context is for. Where its flags name none it is, for most sizes, the one that the
/// system names.
pub open spec fn context_cpu(dump: Seq<u8>, start: int, size: int) -> int {
    let flags = context_flags(dump, start, size);
    if flags / 0x100 != 0 {
        0x100 * (flags / 0x100)
    } else if size != 1232 && size != 1160 && size != 796 && flags / 0x40 % 2 == 1 {
        0x4000_0000
    } else if size == 1160 {
        0
    } else {
        match system_of(dump) {
            Some(system) => cpu_of_arch(short(dump, system)),
            None => 0,
        }
    }
}

/// Whether the stack walker takes contexts of a CPU where the system names `arch`.
pub open spec fn is_cpu_of(cpu: int, arch: int) -> bool {
    if cpu == 0x1_0000 {
        arch == 0 || arch == 9 || arch == 10
    } else {
        cpu == cpu_of_arch(arch)
    }
}

/// Whether the stack walker takes the context that has a size and a start at `at`: it has the size
/// of its CPU's contexts, and its CPU is one that the system can have.
pub open spec fn takes_context(dump: Seq<u8>, at: int) -> bool {
    let size = word(dump, at);
    let cpu = context_cpu(dump, word(dump, at + 4), size);
    &&& context_size(cpu) != 0
    &&& size == context_size(cpu)
    &&& system_of(dump) matches Some(system) ==> is_cpu_of(cpu, short(dump, system))
}

/// Whether the context that has a size and a start at `at` leads to a frame with the registers of
/// the CPU that the system names. The stack walker takes x86 contexts from an AMD64 system too, but
/// their frames do not have its registers.
pub open spec fn has_context(dump: Seq<u8>, at: int) -> bool {
    let size = word(dump, at);
    let start = word(dump, at + 4);
    &&& takes_context(dump, at)
    &&& system_of(dump) matches Some(system) ==> size != 716 || short(dump, system) != 9
    &&& size == 1160 ==> word(
        dump,
        if is_swapped(dump) {
            start
        } else {
            start + 4
        },
    ) == 0
}

/// Whether a unit of a text is the first of two.
pub open spec fn is_high(unit: int) -> bool {
    0xd800 <= unit <= 0xdbff
}

/// Whether a unit of a text is the second of two.
pub open spec fn is_low(unit: int) -> bool {
    0xdc00 <= unit <= 0xdcff
}

/// Whether the unit at `index` of a text stands where it may: neither the first nor the second of
/// two stands alone. Where the numbers have their highest byte first there is none of these.
pub open spec fn unit_is_sound(dump: Seq<u8>, start: int, count: int, index: int) -> bool {
    let unit = short(dump, start + 2 * index);
    if is_swapped(dump) {
        !is_high(unit) && !is_low(unit)
    } else {
        &&& is_high(unit) ==> index + 1 < count && is_low(short(dump, start + 2 * (index + 1)))
        &&& is_low(unit) ==> 0 < index && is_high(short(dump, start + 2 * (index - 1)))
    }
}

/// Whether a text can be read: it has at most 1024 units, and all of them are sound.
pub open spec fn text_is_sound(dump: Seq<u8>, start: int) -> bool {
    &&& word(dump, start) % 2 == 0
    &&& word(dump, start) <= 2048
    &&& forall|k: int|
        0 <= k < word(dump, start) / 2 ==> #[trigger] unit_is_sound(
            dump,
            start + 4,
            word(dump, start) / 2,
            k,
        )
}

/// The address of a module.
pub open spec fn module_base(dump: Seq<u8>, first: int, index: int) -> int {
    long(dump, first + 108 * index)
}

/// The address behind a module.
pub open spec fn module_end(dump: Seq<u8>, first: int, index: int) -> int {
    long(dump, first + 108 * index) + word(dump, first + 108 * index + 8)
}

/// Whether a module can be read: it has a size, its addresses fit, and it has a name.
pub open spec fn module_is_sound(dump: Seq<u8>, first: int, index: int) -> bool {
    &&& module_base(dump, first, index) < module_end(dump, first, index)
    &&& module_end(dump, first, index) <= 0xffff_ffff_ffff_ffff
    &&& text_is_sound(dump, word(dump, first + 108 * index + 20))
}

/// Whether the system is Android, on which modules may overlap.
pub open spec fn is_android(dump: Seq<u8>) -> bool {
    system_of(dump) matches Some(system) && word(dump, system + 20) == 0x8203
}

/// Whether the system is Windows, on which the identifier of a module is made of its time stamp.
pub open spec fn is_windows(dump: Seq<u8>) -> bool {
    system_of(dump) matches Some(system) && 1 <= word(dump, system + 20) <= 2
}

/// Whether the same bytes stand at two places.
pub open spec fn same_bytes(dump: Seq<u8>, a: int, b: int, size: int) -> bool {
    forall|k: int| 0 <= k < size ==> dump[a + k] == #[trigger] dump[b + k]
}

/// Whether two parts, each with a size and a start, hold the same bytes.
pub open spec fn same_parts(dump: Seq<u8>, a: int, b: int) -> bool {
    &&& word(dump, a) == word(dump, b)
    &&& word(dump, a) > 0 ==> same_bytes(dump, word(dump, a + 4), word(dump, b + 4), word(dump, a))
}

/// Whether two texts, each with its size before it, are the same.
pub open spec fn same_texts(dump: Seq<u8>, a: int, b: int) -> bool {
    word(dump, a) == word(dump, b) && same_bytes(dump, a + 4, b + 4, word(dump, a))
}

/// Whether two modules are the same: they agree in address, size, name and debug records, and, where
/// their identifiers are made of it, in their time stamps.
pub open spec fn same_modules(dump: Seq<u8>, first: int, i: int, j: int) -> bool {
    let a = first + 108 * i;
    let b = first + 108 * j;
    &&& module_base(dump, first, i) == module_base(dump, first, j)
    &&& module_end(dump, first, i) == module_end(dump, first, j)
    &&& is_windows(dump) ==> word(dump, a + 16) == word(dump, b + 16)
    &&& same_texts(dump, word(dump, a + 20), word(dump, b + 20))
    &&& same_parts(dump, a + 76, b + 76)
    &&& same_parts(dump, a + 84, b + 84)
}

/// Whether no address belongs to both of two modules.
pub open spec fn modules_disjoint(dump: Seq<u8>, first: int, i: int, j: int) -> bool {
    module_end(dump, first, i) <= module_base(dump, first, j) || module_end(dump, first, j)
        <= module_base(dump, first, i)
}

/// Whether all addresses of a module belong to it alone, or to modules that are the same, among the
/// first modules.
pub open spec fn module_is_alone(dump: Seq<u8>, first: int, count: int, index: int) -> bool {
    forall|k: int|
        0 <= k < count && k != index ==> #[trigger] modules_disjoint(dump, first, k, index)
            || same_modules(dump, first, k, index)
}

/// Whether the name of a module is that of memory that Android shares: it starts with
/// `/dev/ashmem/`.
pub open spec fn is_shared_memory(dump: Seq<u8>, first: int, index: int) -> bool {
    let name = word(dump, first + 108 * index + 20);
    &&& word(dump, name) >= 24
    &&& short(dump, name + 4) == 0x2f
    &&& short(dump, name + 6) == 0x64
    &&& short(dump, name + 8) == 0x65
    &&& short(dump, name + 10) == 0x76
    &&& short(dump, name + 12) == 0x2f
    &&& short(dump, name + 14) == 0x61
    &&& short(dump, name + 16) == 0x73
    &&& short(dump, name + 18) == 0x68
    &&& short(dump, name + 20) == 0x6d
    &&& short(dump, name + 22) == 0x65
    &&& short(dump, name + 24) == 0x6d
    &&& short(dump, name + 26) == 0x2f
}

/// Whether a list can hold a module behind another one. They do not overlap, or they are the same.
/// On Android it is enough that they do not end together, or that the later one is shared memory,
/// and they are known to be the same only where no other module overlaps them.
pub open spec fn modules_apart(dump: Seq<u8>, first: int, i: int, j: int) -> bool {
    if is_android(dump) {
        ||| module_end(dump, first, i) != module_end(dump, first, j)
        ||| is_shared_memory(dump, first, j)
        ||| same_modules(dump, first, i, j) && module_is_alone(dump, first, j, i)
    } else {
        modules_disjoint(dump, first, i, j) || same_modules(dump, first, i, j)
    }
}

/// Whether the first modules of a list can be read.
pub open spec fn modules_are_sound(dump: Seq<u8>, first: int, count: int) -> bool {
    forall|i: int| 0 <= i < count ==> #[trigger] module_is_sound(dump, first, i)
}

/// Whether a module can be in a list with each of the first modules.
pub open spec fn module_is_apart(dump: Seq<u8>, first: int, count: int, index: int) -> bool {
    forall|i: int| 0 <= i < count ==> #[trigger] modules_apart(dump, first, i, index)
}

/// Whether each of the first modules can be in a list with those before it.
pub open spec fn modules_are_apart(dump: Seq<u8>, first: int, count: int) -> bool {
    forall|j: int| 0 <= j < count ==> #[trigger] module_is_apart(dump, first, j, j)
}

/// Whether the list of modules can be read.
pub open spec fn has_modules(dump: Seq<u8>) -> bool {
    match stream_of(dump, 4, stream_count(dump)) {
        Some((size, start)) => match list_of(dump, start, size, 108, 2048) {
            Some((first, count)) => modules_are_sound(dump, first, count) && modules_are_apart(
                dump,
                first,
                count,
            ),
            None => false,
        },
        None => false,
    }
}

/// Whether a thread has another identifier than each of the first threads.
pub open spec fn thread_is_new(dump: Seq<u8>, first: int, count: int, index: int) -> bool {
    forall|i: int|
        0 <= i < count ==> #[trigger] thread_id(dump, first, i) != thread_id(dump, first, index)
}

/// Whether each of the first threads has another identifier than those before it.
pub open spec fn threads_are_new(dump: Seq<u8>, first: int, count: int) -> bool {
    forall|j: int| 0 <= j < count ==> #[trigger] thread_is_new(dump, first, j, j)
}

/// Whether one of the first threads is walked.
pub open spec fn any_is_walked(dump: Seq<u8>, first: int, count: int) -> bool {
    exists|i: int| 0 <= i < count && #[trigger] is_walked(dump, first, i)
}

/// Whether each of the first threads has a context, unless it is not walked.
pub open spec fn threads_have_contexts(dump: Seq<u8>, first: int, count: int) -> bool {
    forall|i: int|
        0 <= i < count && #[trigger] is_walked(dump, first, i) ==> has_context(
            dump,
            first + 48 * i + 40,
        )
}

/// Whether the list of threads can be read, a thread is walked, and each one that is has a context.
pub open spec fn has_threads(dump: Seq<u8>) -> bool {
    match threads_of(dump) {
        Some((first, count)) => threads_are_new(dump, first, count) && any_is_walked(
            dump,
            first,
            count,
        ) && threads_have_contexts(dump, first, count),
        None => false,
    }
}

/// Whether the context of the exception, where there is one, leads to a frame with the registers of
/// the CPU that the system names, or is not taken. One of a PPC64 is taken even where its flags name
/// no CPU, and then leads to no frame.
pub open spec fn exception_is_sound(dump: Seq<u8>) -> bool {
    exception_of(dump) matches Some(start) ==> (word(dump, start + 160) == 1160 || takes_context(
        dump,
        start + 160,
    ) ==> has_context(dump, start + 160))
}

/// Whether the stack walker finds modules and threads in a minidump, and a frame in each thread.
pub open spec fn has_lists(dump: Seq<u8>) -> bool {
    is_whole(dump) && has_modules(dump) && has_threads(dump) && exception_is_sound(dump)
}

fn read_swapped(dump: &[u8]) -> (r: bool)
    requires
        dump@.len() >= 4,
    ensures
        r == is_swapped(dump@),
{
    !(dump[0] == 0x4d && dump[1] == 0x44 && dump[2] == 0x4d && dump[3] == 0x50)
}

fn read_short(dump: &[u8], swapped: bool, at: u64) -> (r: u64)
    requires
        swapped == is_swapped(dump@),
        at + 2 <= dump@.len(),
    ensures
        r == short(dump@, at as int),
        r <= 0xffff,
{
    let a: u64 = dump[at as usize] as u64;
    let b: u64 = dump[at as usize + 1] as u64;
    if swapped {
        0x100 * a + b
    } else {
        a + 0x100 * b
    }
}

fn read_word(dump: &[u8], swapped: bool, at: u64) -> (r: u64)
    requires
        swapped == is_swapped(dump@),
        at + 4 <= dump@.len(),
    ensures
        r == word(dump@, at as int),
        r <= 0xffff_ffff,
{
    let a: u64 = dump[at as usize] as u64;
    let b: u64 = dump[at as usize + 1] as u64;
    let c: u64 = dump[at as usize + 2] as u64;
    let d: u64 = dump[at as usize + 3] as u64;
    if swapped {
        0x100_0000 * a + 0x1_0000 * b + 0x100 * c + d
    } else {
        a + 0x100 * b + 0x1_0000 * c + 0x100_0000 * d
    }
}

fn read_long(dump: &[u8], swapped: bool, at: u64) -> (r: u64)
    requires
        swapped == is_swapped(dump@),
        at + 8 <= dump@.len(),
    ensures
        r == long(dump@, at as int),
{
    let total: u64 = dump.len() as u64;
    assert(at + 8 <= total);
    let a: u64 = read_word(dump, swapped, at);
    let b: u64 = read_word(dump, swapped, at + 4);
    if swapped {
        0x1_0000_0000 * a + b
    } else {
        a + 0x1_0000_0000 * b
    }
}

/// Whether the directory of the streams can be read.
spec fn has_streams(dump: Seq<u8>) -> bool {
    dump.len() >= 32 && stream_count(dump) <= 128 && has_directory(dump)
}

fn check_header(dump: &[u8]) -> (r: bool)
    ensures
        r == has_header(dump@),
{
    if dump.len() < 32 {
        return false;
    }
    let swapped: bool = read_swapped(dump);
    read_word(dump, swapped, 0) == 0x504d_444d && read_word(dump, swapped, 4) % 0x1_0000 == 0xa793
}

fn check_place(dump: &[u8], start: u64, size: u64, whole: bool) -> (r: bool)
    requires
        start <= 0x1_ffff_ffff,
        size <= 0xffff_ffff,
    ensures
        r == lies_in(dump@, start as int, size as int, whole),
{
    let total: u64 = dump.len() as u64;
    start <= total && (!whole || start + size <= total)
}

fn check_part(dump: &[u8], swapped: bool, at: u64, whole: bool) -> (r: bool)
    requires
        swapped == is_swapped(dump@),
        at + 8 <= dump@.len(),
    ensures
        r == part_lies_in(dump@, at as int, whole),
{
    let total: u64 = dump.len() as u64;
    assert(at + 8 <= total);
    let size: u64 = read_word(dump, swapped, at);
    let start: u64 = read_word(dump, swapped, at + 4);
    size == 0 || check_place(dump, start, size, whole)
}

fn check_context_place(dump: &[u8], swapped: bool, at: u64, whole: bool) -> (r: bool)
    requires
        swapped == is_swapped(dump@),
        at + 8 <= dump@.len(),
    ensures
        r == context_lies_in(dump@, at as int, whole),
{
    let total: u64 = dump.len() as u64;
    assert(at + 8 <= total);
    let size: u64 = read_word(dump, swapped, at);
    let start: u64 = read_word(dump, swapped, at + 4);
    check_place(dump, start, size, whole) && check_place(dump, start, 4, whole)
}

fn check_text_place(dump: &[u8], swapped: bool, start: u64, whole: bool) -> (r: bool)
    requires
        swapped == is_swapped(dump@),
        start <= 0xffff_ffff,
    ensures
        r == text_lies_in(dump@, start as int, whole),
{
    let total: u64 = dump.len() as u64;
    if !check_place(dump, start, 4, whole) {
        return false;
    }
    if start + 4 > total {
        return true;
    }
    let size: u64 = read_word(dump, swapped, start);
    size % 2 != 0 || size > 2048 || check_place(dump, start + 4, size, whole)
}

fn read_list(dump: &[u8], swapped: bool, start: u64, size: u64, entry: u64, limit: u64) -> (r:
    Option<(u64, u64)>)
    requires
        swapped == is_swapped(dump@),
        start <= 0xffff_ffff,
        size <= 0xffff_ffff,
        entry <= 108,
        limit <= 4096,
    ensures
        match r {
            Some((first, count)) => list_of(
                dump@,
                start as int,
                size as int,
                entry as int,
                limit as int,
            ) == Some((first as int, count as int)),
            None => list_of(
                dump@,
                start as int,
                size as int,
                entry as int,
                limit as int,
            ) is None,
        },
{
    let total: u64 = dump.len() as u64;
    if size < 4 || start + size > total {
        return None;
    }
    let count: u64 = read_word(dump, swapped, start);
    if count > limit {
        return None;
    }
    assert(entry * count <= 108 * 4096) by (nonlinear_arith)
        requires
            entry <= 108,
            count <= 4096,
    ;
    if size == 4 + entry * count {
        Some((start + 4, count))
    } else if size == 8 + entry * count {
        Some((start + 8, count))
    } else {
        None
    }
}

fn find_stream(dump: &[u8], swapped: bool, kind: u64) -> (r: Option<(u64, u64)>)
    requires
        swapped == is_swapped(dump@),
        has_streams(dump@),
    ensures
        match r {
            Some((size, start)) => {
                &&& stream_of(dump@, kind as int, stream_count(dump@)) == Some(
                    (size as int, start as int),
                )
                &&& size <= 0xffff_ffff
                &&& start <= 0xffff_ffff
            },
            None => stream_of(dump@, kind as int, stream_count(dump@)) is None,
        },
{
    let directory: u64 = read_word(dump, swapped, 12);
    let mut i: u64 = read_word(dump, swapped, 8);
    while i > 0
        invariant
            swapped == is_swapped(dump@),
            has_streams(dump@),
            directory == word(dump@, 12),
            directory <= 0xffff_ffff,
            i <= stream_count(dump@),
            stream_of(dump@, kind as int, i as int) == stream_of(
                dump@,
                kind as int,
                stream_count(dump@),
            ),
        decreases i,
    {
        let at: u64 = directory + 12 * (i - 1);
        if read_word(dump, swapped, at) == kind {
            return Some((read_word(dump, swapped, at + 4), read_word(dump, swapped, at + 8)));
        }
        i -= 1;
    }
    None
}

fn find_exception(dump: &[u8], swapped: bool) -> (r: Option<u64>)
    requires
        swapped == is_swapped(dump@),
        has_streams(dump@),
    ensures
        match r {
            Some(start) => {
                &&& exception_of(dump@) == Some(start as int)
                &&& start + 168 <= dump@.len()
                &&& start <= 0xffff_ffff
            },
            None => exception_of(dump@) is None,
        },
{
    let total: u64 = dump.len() as u64;
    match find_stream(dump, swapped, 6) {
        Some((size, start)) => if size == 168 && start + 168 <= total {
            Some(start)
        } else {
            None
        },
        None => None,
    }
}

fn find_writing_thread(dump: &[u8], swapped: bool) -> (r: Option<u64>)
    requires
        swapped == is_swapped(dump@),
        has_streams(dump@),
    ensures
        match r {
            Some(id) => writing_thread(dump@) == Some(id as int),
            None => writing_thread(dump@) is None,
        },
{
    let total: u64 = dump.len() as u64;
    match find_stream(dump, swapped, 0x4767_0001) {
        Some((size, start)) => if size == 12 && start + 12 <= total && read_word(
            dump,
            swapped,
            start,
        ) % 2 == 1 {
            Some(read_word(dump, swapped, start + 4))
        } else {
            None
        },
        None => None,
    }
}

fn check_walked(dump: &[u8], swapped: bool, writing: Option<u64>, first: u64, index: u64) -> (r: bool)
    requires
        swapped == is_swapped(dump@),
        match writing {
            Some(id) => writing_thread(dump@) == Some(id as int),
            None => writing_thread(dump@) is None,
        },
        first <= 0x1_0000_0007,
        index < 4096,
        first + 48 * (index + 1) <= dump@.len(),
    ensures
        r == is_walked(dump@, first as int, index as int),
{
    match writing {
        Some(id) => id != read_word(dump, swapped, first + 48 * index),
        None => true,
    }
}

/// How many threads there are up to the last one that is walked.
fn count_walked(dump: &[u8], swapped: bool, writing: Option<u64>, first: u64, count: u64) -> (r: u64)
    requires
        swapped == is_swapped(dump@),
        match writing {
            Some(id) => writing_thread(dump@) == Some(id as int),
            None => writing_thread(dump@) is None,
        },
        first <= 0x1_0000_0007,
        count <= 4096,
        first + 48 * count <= dump@.len(),
    ensures
        r <= count,
        forall|k: int|
            0 <= k ==> (k + 1 < r) == #[trigger] is_followed(dump@, first as int, count as int, k),
{
    let mut end: u64 = count;
    while end > 0
        invariant
            swapped == is_swapped(dump@),
            match writing {
                Some(id) => writing_thread(dump@) == Some(id as int),
                None => writing_thread(dump@) is None,
            },
            first <= 0x1_0000_0007,
            count <= 4096,
            first + 48 * count <= dump@.len(),
            end <= count,
            forall|k: int| end <= k < count ==> !#[trigger] is_walked(dump@, first as int, k),
        decreases end,
    {
        if check_walked(dump, swapped, writing, first, end - 1) {
            assert(is_walked(dump@, first as int, end - 1));
            return end;
        }
        end -= 1;
    }
    0
}

fn check_threads_place(dump: &[u8], swapped: bool, start: u64, size: u64, whole: bool) -> (r: bool)
    requires
        swapped == is_swapped(dump@),
        has_streams(dump@),
        start <= 0xffff_ffff,
        size <= 0xffff_ffff,
    ensures
        r == threads_lie_in(dump@, start as int, size as int, whole),
{
    if !check_place(dump, start, size, whole) {
        return false;
    }
    if let Some((first, count)) = read_list(dump, swapped, start, size, 48, 4096) {
        let writing: Option<u64> = find_writing_thread(dump, swapped);
        let last: u64 = count_walked(dump, swapped, writing, first, count);
        let mut k: u64 = 0;
        while k < count
            invariant
                swapped == is_swapped(dump@),
                match writing {
                    Some(id) => writing_thread(dump@) == Some(id as int),
                    None => writing_thread(dump@) is None,
                },
                first + 48 * count <= dump@.len(),
                first <= 0x1_0000_0007,
                k <= count <= 4096,
                list_of(dump@, start as int, size as int, 48, 4096) == Some(
                    (first as int, count as int),
                ),
                last <= count,
                forall|j: int|
                    0 <= j ==> (j + 1 < last) == #[trigger] is_followed(
                        dump@,
                        first as int,
                        count as int,
                        j,
                    ),
                all_threads_lie_in(dump@, first as int, count as int, k as int, whole),
            decreases count - k,
        {
            let at: u64 = first + 48 * k;
            let followed: bool = k + 1 < last;
            assert(followed == is_followed(dump@, first as int, count as int, k as int));
            let ok: bool = !check_walked(dump, swapped, writing, first, k) || (check_context_place(
                dump,
                swapped,
                at + 40,
                whole,
            ) && (read_word(dump, swapped, at + 36) == 0 || check_part(
                dump,
                swapped,
                at + 32,
                whole && followed,
            )));
            assert(ok == thread_lies_in(dump@, first as int, count as int, k as int, whole));
            if !ok {
                assert(!all_threads_lie_in(
                    dump@,
                    first as int,
                    count as int,
                    count as int,
                    whole,
                ));
                return false;
            }
            k += 1;
        }
    }
    true
}

fn check_modules_place(dump: &[u8], swapped: bool, start: u64, size: u64, whole: bool) -> (r: bool)
    requires
        swapped == is_swapped(dump@),
        start <= 0xffff_ffff,
        size <= 0xffff_ffff,
    ensures
        r == modules_lie_in(dump@, start as int, size as int, whole),
{
    if !check_place(dump, start, size, whole) {
        return false;
    }
    if let Some((first, count)) = read_list(dump, swapped, start, size, 108, 2048) {
        let mut k: u64 = 0;
        while k < count
            invariant
                swapped == is_swapped(dump@),
                first + 108 * count <= dump@.len(),
                first <= 0x1_0000_0007,
                k <= count <= 2048,
                list_of(dump@, start as int, size as int, 108, 2048) == Some(
                    (first as int, count as int),
                ),
                all_modules_lie_in(dump@, first as int, k as int, whole),
            decreases count - k,
        {
            let at: u64 = first + 108 * k;
            let name: u64 = read_word(dump, swapped, at + 20);
            let ok: bool = check_text_place(dump, swapped, name, whole) && check_part(
                dump,
                swapped,
                at + 76,
                whole,
            ) && check_part(dump, swapped, at + 84, whole);
            assert(ok == module_lies_in(dump@, first as int, k as int, whole));
            if !ok {
                assert(!all_modules_lie_in(dump@, first as int, count as int, whole));
                return false;
            }
            k += 1;
        }
    }
    true
}

fn read_stack_pointer(dump: &[u8], swapped: bool, at: u64) -> (r: Option<u64>)
    requires
        swapped == is_swapped(dump@),
        at + 8 <= dump@.len(),
    ensures
        match r {
            Some(pointer) => stack_pointer(dump@, at as int) == Some(pointer as int),
            None => stack_pointer(dump@, at as int) is None,
        },
{
    let total: u64 = dump.len() as u64;
    assert(at + 8 <= total);
    let size: u64 = read_word(dump, swapped, at);
    let start: u64 = read_word(dump, swapped, at + 4);
    if start + size > total {
        return None;
    }
    match size {
        368 => Some(read_word(dump, swapped, start + 56)),
        584 => Some(read_long(dump, swapped, start + 120)),
        600 => Some(read_long(dump, swapped, start + 240)),
        716 => Some(read_word(dump, swapped, start + 196)),
        796 => Some(read_long(dump, swapped, start + 256)),
        912 => Some(read_long(dump, swapped, start + 256)),
        1004 => Some(read_word(dump, swapped, start + 16)),
        1160 => Some(read_long(dump, swapped, start + 32)),
        1232 => Some(read_long(dump, swapped, start + 152)),
        _ => None,
    }
}

fn check_cover(dump: &[u8], swapped: bool, region: u64, address: u64) -> (r: bool)
    requires
        swapped == is_swapped(dump@),
        region + 16 <= dump@.len(),
    ensures
        r == region_covers(dump@, region as int, address as int),
{
    let total: u64 = dump.len() as u64;
    assert(region + 16 <= total);
    let base: u64 = read_long(dump, swapped, region);
    let size: u64 = read_word(dump, swapped, region + 8);
    base <= address && address - base < size
}

fn check_service(
    dump: &[u8],
    swapped: bool,
    exception: Option<u64>,
    region: u64,
    first: u64,
    index: u64,
) -> (r: bool)
    requires
        swapped == is_swapped(dump@),
        match exception {
            Some(start) => exception_of(dump@) == Some(start as int) && start + 168 <= dump@.len(),
            None => exception_of(dump@) is None,
        },
        region + 16 <= dump@.len(),
        first <= 0x1_0000_0007,
        index < 4096,
        first + 48 * (index + 1) <= dump@.len(),
    ensures
        r == region_serves(dump@, region as int, first as int, index as int),
{
    let total: u64 = dump.len() as u64;
    let at: u64 = first + 48 * index;
    if check_cover(dump, swapped, region, read_long(dump, swapped, at + 24)) {
        return true;
    }
    if let Some(pointer) = read_stack_pointer(dump, swapped, at + 40) {
        if check_cover(dump, swapped, region, pointer) {
            return true;
        }
    }
    if let Some(start) = exception {
        assert(start + 168 <= total);
        if read_word(dump, swapped, start) == read_word(dump, swapped, at) {
            if let Some(pointer) = read_stack_pointer(dump, swapped, start + 160) {
                return check_cover(dump, swapped, region, pointer);
            }
        }
    }
    false
}

fn check_region_place(dump: &[u8], swapped: bool, region: u64, whole: bool) -> (r: bool)
    requires
        swapped == is_swapped(dump@),
        has_streams(dump@),
        region + 16 <= dump@.len(),
    ensures
        match threads_of(dump@) {
            Some((first, count)) => r == region_fits_threads(
                dump@,
                region as int,
                first,
                count,
                count,
                whole,
            ),
            None => r,
        },
{
    let total: u64 = dump.len() as u64;
    assert(region + 16 <= total);
    let (size, start) = match find_stream(dump, swapped, 3) {
        Some(stream) => stream,
        None => return true,
    };
    let (first, count) = match read_list(dump, swapped, start, size, 48, 4096) {
        Some(list) => list,
        None => return true,
    };
    let exception: Option<u64> = find_exception(dump, swapped);
    let writing: Option<u64> = find_writing_thread(dump, swapped);
    let last: u64 = count_walked(dump, swapped, writing, first, count);
    let mut k: u64 = 0;
    while k < count
        invariant
            swapped == is_swapped(dump@),
            region + 16 <= dump@.len() == total,
            match exception {
                Some(start) => exception_of(dump@) == Some(start as int) && start + 168
                    <= dump@.len(),
                None => exception_of(dump@) is None,
            },
            match writing {
                Some(id) => writing_thread(dump@) == Some(id as int),
                None => writing_thread(dump@) is None,
            },
            threads_of(dump@) == Some((first as int, count as int)),
            first + 48 * count <= dump@.len(),
            first <= 0x1_0000_0007,
            k <= count <= 4096,
            last <= count,
            forall|j: int|
                0 <= j ==> (j + 1 < last) == #[trigger] is_followed(
                    dump@,
                    first as int,
                    count as int,
                    j,
                ),
            region_fits_threads(
                dump@,
                region as int,
                first as int,
                count as int,
                k as int,
                whole,
            ),
        decreases count - k,
    {
        let followed: bool = k + 1 < last;
        assert(followed == is_followed(dump@, first as int, count as int, k as int));
        let ok: bool = !check_walked(dump, swapped, writing, first, k) || !check_service(
            dump,
            swapped,
            exception,
            region,
            first,
            k,
        ) || check_part(dump, swapped, region + 8, whole && followed);
        assert(ok == region_fits_thread(
            dump@,
            region as int,
            first as int,
            count as int,
            k as int,
            whole,
        ));
        if !ok {
            return false;
        }
        k += 1;
    }
    true
}

fn check_memory_place(dump: &[u8], swapped: bool, start: u64, size: u64, whole: bool) -> (r: bool)
    requires
        swapped == is_swapped(dump@),
        has_streams(dump@),
        start <= 0xffff_ffff,
        size <= 0xffff_ffff,
    ensures
        r == regions_lie_in(dump@, start as int, size as int, whole),
{
    if !check_place(dump, start, size, whole) {
        return false;
    }
    if let Some((first, count)) = read_list(dump, swapped, start, size, 16, 4096) {
        let mut k: u64 = 0;
        while k < count
            invariant
                swapped == is_swapped(dump@),
                has_streams(dump@),
                first + 16 * count <= dump@.len(),
                first <= 0x1_0000_0007,
                k <= count <= 4096,
                list_of(dump@, start as int, size as int, 16, 4096) == Some(
                    (first as int, count as int),
                ),
                all_regions_lie_in(dump@, first as int, k as int, whole),
            decreases count - k,
        {
            let ok: bool = check_region_place(dump, swapped, first + 16 * k, whole);
            assert(ok == region_lies_in(dump@, first as int, k as int, whole));
            if !ok {
                assert(!all_regions_lie_in(dump@, first as int, count as int, whole));
                return false;
            }
            k += 1;
        }
    }
    true
}

fn check_unloaded_place(dump: &[u8], swapped: bool, start: u64, size: u64, whole: bool) -> (r: bool)
    requires
        swapped == is_swapped(dump@),
        start <= 0xffff_ffff,
        size <= 0xffff_ffff,
    ensures
        r == unloaded_list_lies_in(dump@, start as int, size as int, whole),
{
    let total: u64 = dump.len() as u64;
    if size < 12 || start + size > total {
        return false;
    }
    let head: u64 = read_word(dump, swapped, start);
    let entry: u64 = read_word(dump, swapped, start + 4);
    let count: u64 = read_word(dump, swapped, start + 8);
    assert(entry * count <= 0xffff_ffff * 0xffff_ffff) by (nonlinear_arith)
        requires
            0 <= entry <= 0xffff_ffff,
            0 <= count <= 0xffff_ffff,
    ;
    let entries: u64 = entry * count;
    if head < 12 || head + entries > 0xffff_ffff {
        return false;
    }
    if head + entries != size || entry < 24 || count > 2048 {
        return true;
    }
    let first: u64 = start + head;
    let mut k: u64 = 0;
    while k < count
        invariant
            swapped == is_swapped(dump@),
            first == start + head,
            first <= 0x1_ffff_ffff,
            first + entry * count <= dump@.len(),
            head == word(dump@, start as int),
            entry == word(dump@, start + 4),
            count == word(dump@, start + 8),
            head + entry * count == size,
            24 <= entry <= 0xffff_ffff,
            k <= count <= 2048,
            forall|j: int|
                0 <= j < k ==> #[trigger] unloaded_lies_in(
                    dump@,
                    first as int,
                    entry as int,
                    j,
                    whole,
                ),
        decreases count - k,
    {
        assert(entry * k + entry <= entry * count && entry * k <= 0xffff_ffff * 2048)
            by (nonlinear_arith)
            requires
                0 <= entry <= 0xffff_ffff,
                0 <= k < count <= 2048,
        ;
        let name: u64 = read_word(dump, swapped, first + entry * k + 20);
        let ok: bool = check_text_place(dump, swapped, name, whole);
        assert(ok == unloaded_lies_in(dump@, first as int, entry as int, k as int, whole));
        if !ok {
            return false;
        }
        k += 1;
    }
    true
}

fn check_stream_place(dump: &[u8], swapped: bool, index: u64, whole: bool) -> (r: bool)
    requires
        dump@.len() >= 32,
        swapped == is_swapped(dump@),
        has_directory(dump@),
        index < stream_count(dump@) <= 128,
    ensures
        r == stream_lies_in(dump@, index as int, whole),
{
    let at: u64 = read_word(dump, swapped, 12) + 12 * index;
    let total: u64 = dump.len() as u64;
    let kind: u64 = read_word(dump, swapped, at);
    let size: u64 = read_word(dump, swapped, at + 4);
    let start: u64 = read_word(dump, swapped, at + 8);
    if kind == 3 {
        check_threads_place(dump, swapped, start, size, whole)
    } else if kind == 4 {
        check_modules_place(dump, swapped, start, size, whole)
    } else if kind == 5 {
        check_memory_place(dump, swapped, start, size, whole)
    } else if kind == 6 {
        check_place(dump, start, size, whole) && (size != 168 || start + 168 > total
            || check_context_place(dump, swapped, start + 160, whole))
    } else if kind == 7 {
        check_place(dump, start, size, whole) && (size != 56 || start + 56 > total
            || check_text_place(dump, swapped, read_word(dump, swapped, start + 24), whole))
    } else if kind == 14 {
        check_unloaded_place(dump, swapped, start, size, whole)
    } else if kind == 15 || kind == 0x4767_0001 || kind == 0x4767_0002 {
        check_place(dump, start, size, whole)
    } else {
        true
    }
}

fn check_streams_place(dump: &[u8], swapped: bool, whole: bool) -> (r: bool)
    requires
        dump@.len() >= 32,
        swapped == is_swapped(dump@),
        has_directory(dump@),
        stream_count(dump@) <= 128,
    ensures
        r == forall|i: int|
            0 <= i < stream_count(dump@) ==> #[trigger] stream_lies_in(dump@, i, whole),
{
    let count: u64 = read_word(dump, swapped, 8);
    let mut i: u64 = 0;
    while i < count
        invariant
            dump@.len() >= 32,
            swapped == is_swapped(dump@),
            count == stream_count(dump@),
            has_directory(dump@),
            i <= count <= 128,
            forall|j: int| 0 <= j < i ==> #[trigger] stream_lies_in(dump@, j, whole),
        decreases count - i,
    {
        if !check_stream_place(dump, swapped, i, whole) {
            assert(!stream_lies_in(dump@, i as int, whole));
            return false;
        }
        i += 1;
    }
    true
}

/// Whether the stack walker can be given a minidump: nothing that it reads starts behind the end.
pub fn check_readable(dump: &[u8]) -> (r: bool)
    ensures
        r == can_be_read(dump@),
{
    if !check_header(dump) {
        return true;
    }
    let total: u64 = dump.len() as u64;
    let swapped: bool = read_swapped(dump);
    let count: u64 = read_word(dump, swapped, 8);
    let directory: u64 = read_word(dump, swapped, 12);
    if count == 0 || count > 128 {
        return true;
    }
    if directory > total {
        return false;
    }
    directory + 12 * count > total || check_streams_place(dump, swapped, false)
}

fn check_whole(dump: &[u8]) -> (r: bool)
    ensures
        r == is_whole(dump@),
{
    if !check_header(dump) {
        return false;
    }
    let total: u64 = dump.len() as u64;
    let swapped: bool = read_swapped(dump);
    let count: u64 = read_word(dump, swapped, 8);
    let directory: u64 = read_word(dump, swapped, 12);
    count <= 128 && directory + 12 * count <= total && check_streams_place(dump, swapped, true)
}

/// A stream that is found in a whole minidump lies in it.
proof fn lemma_stream_of(dump: Seq<u8>, kind: int, count: int)
    requires
        is_whole(dump),
        0 <= count <= stream_count(dump),
        stream_of(dump, kind, count) is Some,
    ensures
        ({
            let (size, start) = stream_of(dump, kind, count)->0;
            &&& kind == 3 ==> threads_lie_in(dump, start, size, true)
            &&& kind == 4 ==> modules_lie_in(dump, start, size, true)
            &&& kind == 6 ==> lies_in(dump, start, size, true) && (size == 168 ==> context_lies_in(
                dump,
                start + 160,
                true,
            ))
            &&& kind == 7 ==> lies_in(dump, start, size, true)
        }),
    decreases count,
{
    assert(stream_lies_in(dump, count - 1, true));
    if word(dump, stream_at(dump, count - 1)) != kind {
        lemma_stream_of(dump, kind, count - 1);
    }
}

fn find_system(dump: &[u8], swapped: bool) -> (r: Option<u64>)
    requires
        swapped == is_swapped(dump@),
        is_whole(dump@),
    ensures
        match r {
            Some(start) => {
                &&& system_of(dump@) == Some(start as int)
                &&& start + 56 <= dump@.len()
                &&& start <= 0xffff_ffff
            },
            None => system_of(dump@) is None,
        },
{
    match find_stream(dump, swapped, 7) {
        Some((size, start)) => {
            proof {
                lemma_stream_of(dump@, 7, stream_count(dump@));
            }
            if size == 56 {
                Some(start)
            } else {
                None
            }
        },
        None => None,
    }
}

fn arch_cpu(arch: u64) -> (r: u64)
    ensures
        r == cpu_of_arch(arch as int),
{
    match arch {
        0 => 0x1_0000,
        1 => 0x4_0000,
        3 => 0x2000_0000,
        5 => 0x4000_0000,
        9 => 0x10_0000,
        12 => 0x40_0000,
        0x8001 => 0x1000_0000,
        0x8002 => 0x100_0000,
        0x8003 => 0x8000_0000,
        0x8004 => 0x8_0000,
        _ => 0,
    }
}

fn cpu_context_size(cpu: u64) -> (r: u64)
    ensures
        r == context_size(cpu as int),
{
    match cpu {
        0x1_0000 => 716,
        0x4_0000 => 600,
        0x8_0000 => 600,
        0x10_0000 => 1232,
        0x40_0000 => 912,
        0x100_0000 => 1160,
        0x1000_0000 => 584,
        0x2000_0000 => 1004,
        0x4000_0000 => 368,
        0x8000_0000 => 796,
        _ => 0,
    }
}

/// Whether the stack walker takes the context that has a size and a start at `at`, and whether it
/// leads to a frame with the registers of the CPU that the system names.
fn check_context(dump: &[u8], swapped: bool, at: u64) -> (r: (bool, bool))
    requires
        swapped == is_swapped(dump@),
        is_whole(dump@),
        at + 8 <= dump@.len(),
        context_lies_in(dump@, at as int, true),
    ensures
        r.0 == takes_context(dump@, at as int),
        r.1 == has_context(dump@, at as int),
{
    let total: u64 = dump.len() as u64;
    assert(at + 8 <= total);
    let size: u64 = read_word(dump, swapped, at);
    let start: u64 = read_word(dump, swapped, at + 4);
    let wide: bool = size == 1160 || size == 796;
    let flags: u64 = if size == 1232 {
        read_word(dump, swapped, start + 48)
    } else if wide && swapped {
        read_word(dump, swapped, start + 4)
    } else {
        read_word(dump, swapped, start)
    };
    let system: Option<u64> = find_system(dump, swapped);
    let cpu: u64 = if flags / 0x100 != 0 {
        0x100 * (flags / 0x100)
    } else if size != 1232 && !wide && flags / 0x40 % 2 == 1 {
        0x4000_0000
    } else if size == 1160 {
        0
    } else {
        match system {
            Some(system) => arch_cpu(read_short(dump, swapped, system)),
            None => 0,
        }
    };
    assert(cpu == context_cpu(dump@, start as int, size as int));
    let expected: u64 = cpu_context_size(cpu);
    if expected == 0 || size != expected {
        return (false, false);
    }
    let mut fits: bool = true;
    if let Some(system) = system {
        let arch: u64 = read_short(dump, swapped, system);
        let known: bool = if cpu == 0x1_0000 {
            arch == 0 || arch == 9 || arch == 10
        } else {
            cpu == arch_cpu(arch)
        };
        if !known {
            return (false, false);
        }
        fits = size != 716 || arch != 9;
    }
    let high: u64 = if swapped {
        start
    } else {
        start + 4
    };
    (true, fits && (size != 1160 || read_word(dump, swapped, high) == 0))
}

fn check_text(dump: &[u8], swapped: bool, start: u64) -> (r: bool)
    requires
        swapped == is_swapped(dump@),
        start <= 0xffff_ffff,
        text_lies_in(dump@, start as int, true),
    ensures
        r == text_is_sound(dump@, start as int),
{
    let size: u64 = read_word(dump, swapped, start);
    if size % 2 != 0 || size > 2048 {
        return false;
    }
    let count: u64 = size / 2;
    let base: u64 = start + 4;
    let mut k: u64 = 0;
    while k < count
        invariant
            swapped == is_swapped(dump@),
            size == word(dump@, start as int),
            size <= 2048,
            count == size / 2,
            base == start + 4,
            start <= 0xffff_ffff,
            base + 2 * count <= dump@.len(),
            k <= count,
            forall|j: int|
                0 <= j < k ==> #[trigger] unit_is_sound(dump@, base as int, count as int, j),
        decreases count - k,
    {
        let unit: u64 = read_short(dump, swapped, base + 2 * k);
        let high: bool = 0xd800 <= unit && unit <= 0xdbff;
        let low: bool = 0xdc00 <= unit && unit <= 0xdcff;
        let ok: bool = if swapped {
            !high && !low
        } else if high {
            k + 1 < count && {
                let next: u64 = read_short(dump, swapped, base + 2 * (k + 1));
                0xdc00 <= next && next <= 0xdcff
            }
        } else if low {
            0 < k && {
                let last: u64 = read_short(dump, swapped, base + 2 * (k - 1));
                0xd800 <= last && last <= 0xdbff
            }
        } else {
            true
        };
        assert(ok == unit_is_sound(dump@, base as int, count as int, k as int));
        if !ok {
            return false;
        }
        k += 1;
    }
    true
}

fn check_module(dump: &[u8], swapped: bool, first: u64, index: u64) -> (r: bool)
    requires
        swapped == is_swapped(dump@),
        first <= 0x1_0000_0007,
        index < 2048,
        first + 108 * (index + 1) <= dump@.len(),
        module_lies_in(dump@, first as int, index as int, true),
    ensures
        r == module_is_sound(dump@, first as int, index as int),
{
    let at: u64 = first + 108 * index;
    let base: u64 = read_long(dump, swapped, at);
    let size: u64 = read_word(dump, swapped, at + 8);
    let name: u64 = read_word(dump, swapped, at + 20);
    size > 0 && base.checked_add(size).is_some() && check_text(dump, swapped, name)
}

fn check_same_bytes(dump: &[u8], a: u64, b: u64, size: u64) -> (r: bool)
    requires
        a + size <= dump@.len(),
        b + size <= dump@.len(),
    ensures
        r == same_bytes(dump@, a as int, b as int, size as int),
{
    let total: u64 = dump.len() as u64;
    assert(a + size <= total && b + size <= total);
    let mut k: u64 = 0;
    while k < size
        invariant
            a + size <= dump@.len() == total,
            b + size <= dump@.len(),
            k <= size,
            same_bytes(dump@, a as int, b as int, k as int),
        decreases size - k,
    {
        if dump[(a + k) as usize] != dump[(b + k) as usize] {
            assert(dump@[a + k as int] != dump@[b + k as int]);
            return false;
        }
        k += 1;
    }
    true
}

fn check_same_parts(dump: &[u8], swapped: bool, a: u64, b: u64) -> (r: bool)
    requires
        swapped == is_swapped(dump@),
        a + 8 <= dump@.len(),
        b + 8 <= dump@.len(),
        part_lies_in(dump@, a as int, true),
        part_lies_in(dump@, b as int, true),
    ensures
        r == same_parts(dump@, a as int, b as int),
{
    let total: u64 = dump.len() as u64;
    assert(a + 8 <= total && b + 8 <= total);
    let size: u64 = read_word(dump, swapped, a);
    let start_a: u64 = read_word(dump, swapped, a + 4);
    let start_b: u64 = read_word(dump, swapped, b + 4);
    size == read_word(dump, swapped, b) && (size == 0 || check_same_bytes(
        dump,
        start_a,
        start_b,
        size,
    ))
}

fn check_same_texts(dump: &[u8], swapped: bool, a: u64, b: u64) -> (r: bool)
    requires
        swapped == is_swapped(dump@),
        a <= 0xffff_ffff,
        b <= 0xffff_ffff,
        text_lies_in(dump@, a as int, true),
        text_lies_in(dump@, b as int, true),
        text_is_sound(dump@, a as int),
        text_is_sound(dump@, b as int),
    ensures
        r == same_texts(dump@, a as int, b as int),
{
    let size: u64 = read_word(dump, swapped, a);
    size == read_word(dump, swapped, b) && check_same_bytes(dump, a + 4, b + 4, size)
}

/// Whether a module lies in the minidump and can be read.
spec fn module_is_found(dump: Seq<u8>, first: int, index: int) -> bool {
    &&& 0 <= first <= 0x1_0000_0007
    &&& 0 <= index < 2048
    &&& first + 108 * (index + 1) <= dump.len()
    &&& module_lies_in(dump, first, index, true)
    &&& module_is_sound(dump, first, index)
}

fn check_same_modules(dump: &[u8], swapped: bool, windows: bool, first: u64, i: u64, j: u64) -> (r:
    bool)
    requires
        swapped == is_swapped(dump@),
        windows == is_windows(dump@),
        module_is_found(dump@, first as int, i as int),
        module_is_found(dump@, first as int, j as int),
    ensures
        r == same_modules(dump@, first as int, i as int, j as int),
{
    let a: u64 = first + 108 * i;
    let b: u64 = first + 108 * j;
    read_long(dump, swapped, a) == read_long(dump, swapped, b) && read_word(dump, swapped, a + 8)
        == read_word(dump, swapped, b + 8) && (!windows || read_word(dump, swapped, a + 16)
        == read_word(dump, swapped, b + 16)) && check_same_texts(
        dump,
        swapped,
        read_word(dump, swapped, a + 20),
        read_word(dump, swapped, b + 20),
    ) && check_same_parts(dump, swapped, a + 76, b + 76) && check_same_parts(
        dump,
        swapped,
        a + 84,
        b + 84,
    )
}

fn read_end(dump: &[u8], swapped: bool, first: u64, index: u64) -> (r: u64)
    requires
        swapped == is_swapped(dump@),
        module_is_found(dump@, first as int, index as int),
    ensures
        r == module_end(dump@, first as int, index as int),
{
    let at: u64 = first + 108 * index;
    read_long(dump, swapped, at) + read_word(dump, swapped, at + 8)
}

fn check_disjoint(dump: &[u8], swapped: bool, first: u64, i: u64, j: u64) -> (r: bool)
    requires
        swapped == is_swapped(dump@),
        module_is_found(dump@, first as int, i as int),
        module_is_found(dump@, first as int, j as int),
    ensures
        r == modules_disjoint(dump@, first as int, i as int, j as int),
{
    read_end(dump, swapped, first, i) <= read_long(dump, swapped, first + 108 * j) || read_end(
        dump,
        swapped,
        first,
        j,
    ) <= read_long(dump, swapped, first + 108 * i)
}

fn check_shared_memory(dump: &[u8], swapped: bool, first: u64, index: u64) -> (r: bool)
    requires
        swapped == is_swapped(dump@),
        module_is_found(dump@, first as int, index as int),
    ensures
        r == is_shared_memory(dump@, first as int, index as int),
{
    let name: u64 = read_word(dump, swapped, first + 108 * index + 20);
    read_word(dump, swapped, name) >= 24 && read_short(dump, swapped, name + 4) == 0x2f
        && read_short(dump, swapped, name + 6) == 0x64 && read_short(dump, swapped, name + 8)
        == 0x65 && read_short(dump, swapped, name + 10) == 0x76 && read_short(
        dump,
        swapped,
        name + 12,
    ) == 0x2f && read_short(dump, swapped, name + 14) == 0x61 && read_short(
        dump,
        swapped,
        name + 16,
    ) == 0x73 && read_short(dump, swapped, name + 18) == 0x68 && read_short(
        dump,
        swapped,
        name + 20,
    ) == 0x6d && read_short(dump, swapped, name + 22) == 0x65 && read_short(
        dump,
        swapped,
        name + 24,
    ) == 0x6d && read_short(dump, swapped, name + 26) == 0x2f
}

fn check_alone(dump: &[u8], swapped: bool, windows: bool, first: u64, count: u64, index: u64) -> (r:
    bool)
    requires
        swapped == is_swapped(dump@),
        windows == is_windows(dump@),
        index < count < 2048,
        forall|k: int| 0 <= k < count ==> #[trigger] module_is_found(dump@, first as int, k),
    ensures
        r == module_is_alone(dump@, first as int, count as int, index as int),
{
    assert(module_is_found(dump@, first as int, index as int));
    let mut k: u64 = 0;
    while k < count
        invariant
            swapped == is_swapped(dump@),
            windows == is_windows(dump@),
            index < count < 2048,
            forall|k: int| 0 <= k < count ==> #[trigger] module_is_found(dump@, first as int, k),
            k <= count,
            module_is_alone(dump@, first as int, k as int, index as int),
        decreases count - k,
    {
        assert(module_is_found(dump@, first as int, k as int));
        assert(module_is_found(dump@, first as int, index as int));
        if k != index && !check_disjoint(dump, swapped, first, k, index) && !check_same_modules(
            dump,
            swapped,
            windows,
            first,
            k,
            index,
        ) {
            assert(!modules_disjoint(dump@, first as int, k as int, index as int));
            return false;
        }
        k += 1;
    }
    true
}

fn check_apart(
    dump: &[u8],
    swapped: bool,
    android: bool,
    windows: bool,
    first: u64,
    i: u64,
    j: u64,
) -> (r: bool)
    requires
        swapped == is_swapped(dump@),
        android == is_android(dump@),
        windows == is_windows(dump@),
        i < j < 2048,
        forall|k: int| 0 <= k <= j ==> #[trigger] module_is_found(dump@, first as int, k),
    ensures
        r == modules_apart(dump@, first as int, i as int, j as int),
{
    assert(module_is_found(dump@, first as int, i as int));
    assert(module_is_found(dump@, first as int, j as int));
    if android {
        read_end(dump, swapped, first, i) != read_end(dump, swapped, first, j)
            || check_shared_memory(dump, swapped, first, j) || (check_same_modules(
            dump,
            swapped,
            windows,
            first,
            i,
            j,
        ) && check_alone(dump, swapped, windows, first, j, i))
    } else {
        check_disjoint(dump, swapped, first, i, j) || check_same_modules(
            dump,
            swapped,
            windows,
            first,
            i,
            j,
        )
    }
}

fn check_modules(dump: &[u8], swapped: bool) -> (r: bool)
    requires
        swapped == is_swapped(dump@),
        is_whole(dump@),
    ensures
        r == has_modules(dump@),
{
    let (size, start) = match find_stream(dump, swapped, 4) {
        Some(stream) => stream,
        None => return false,
    };
    proof {
        lemma_stream_of(dump@, 4, stream_count(dump@));
    }
    let (first, count) = match read_list(dump, swapped, start, size, 108, 2048) {
        Some(list) => list,
        None => return false,
    };
    let platform: u64 = match find_system(dump, swapped) {
        Some(system) => read_word(dump, swapped, system + 20),
        None => 0,
    };
    let android: bool = platform == 0x8203;
    let windows: bool = platform == 1 || platform == 2;
    let mut j: u64 = 0;
    while j < count
        invariant
            swapped == is_swapped(dump@),
            android == is_android(dump@),
            windows == is_windows(dump@),
            first <= 0x1_0000_0007,
            first + 108 * count <= dump@.len(),
            stream_of(dump@, 4, stream_count(dump@)) == Some((size as int, start as int)),
            list_of(dump@, start as int, size as int, 108, 2048) == Some(
                (first as int, count as int),
            ),
            all_modules_lie_in(dump@, first as int, count as int, true),
            j <= count <= 2048,
            modules_are_sound(dump@, first as int, j as int),
            modules_are_apart(dump@, first as int, j as int),
        decreases count - j,
    {
        assert(module_lies_in(dump@, first as int, j as int, true));
        if !check_module(dump, swapped, first, j) {
            assert(!modules_are_sound(dump@, first as int, count as int));
            return false;
        }
        assert forall|k: int| 0 <= k <= j implies #[trigger] module_is_found(
            dump@,
            first as int,
            k,
        ) by {
            assert(module_lies_in(dump@, first as int, k, true));
            assert(k < j ==> module_is_sound(dump@, first as int, k));
        }
        let mut i: u64 = 0;
        while i < j
            invariant
                swapped == is_swapped(dump@),
                android == is_android(dump@),
                windows == is_windows(dump@),
                first <= 0x1_0000_0007,
                first + 108 * count <= dump@.len(),
                stream_of(dump@, 4, stream_count(dump@)) == Some((size as int, start as int)),
                list_of(dump@, start as int, size as int, 108, 2048) == Some(
                    (first as int, count as int),
                ),
                i <= j < count <= 2048,
                forall|k: int| 0 <= k <= j ==> #[trigger] module_is_found(dump@, first as int, k),
                module_is_apart(dump@, first as int, i as int, j as int),
            decreases j - i,
        {
            if !check_apart(dump, swapped, android, windows, first, i, j) {
                assert(!module_is_apart(dump@, first as int, j as int, j as int));
                assert(!modules_are_apart(dump@, first as int, count as int));
                return false;
            }
            i += 1;
        }
        j += 1;
    }
    true
}

fn check_threads(dump: &[u8], swapped: bool) -> (r: bool)
    requires
        swapped == is_swapped(dump@),
        is_whole(dump@),
    ensures
        r == has_threads(dump@),
{
    let (size, start) = match find_stream(dump, swapped, 3) {
        Some(stream) => stream,
        None => return false,
    };
    proof {
        lemma_stream_of(dump@, 3, stream_count(dump@));
    }
    let (first, count) = match read_list(dump, swapped, start, size, 48, 4096) {
        Some(list) => list,
        None => return false,
    };
    let writing: Option<u64> = find_writing_thread(dump, swapped);
    let mut any: bool = false;
    let mut j: u64 = 0;
    while j < count
        invariant
            swapped == is_swapped(dump@),
            is_whole(dump@),
            first <= 0x1_0000_0007,
            first + 48 * count <= dump@.len(),
            stream_of(dump@, 3, stream_count(dump@)) == Some((size as int, start as int)),
            list_of(dump@, start as int, size as int, 48, 4096) == Some(
                (first as int, count as int),
            ),
            all_threads_lie_in(dump@, first as int, count as int, count as int, true),
            match writing {
                Some(id) => writing_thread(dump@) == Some(id as int),
                None => writing_thread(dump@) is None,
            },
            j <= count <= 4096,
            threads_are_new(dump@, first as int, j as int),
            any == any_is_walked(dump@, first as int, j as int),
            threads_have_contexts(dump@, first as int, j as int),
        decreases count - j,
    {
        assert(thread_lies_in(dump@, first as int, count as int, j as int, true));
        let at: u64 = first + 48 * j;
        let id: u64 = read_word(dump, swapped, at);
        let mut i: u64 = 0;
        while i < j
            invariant
                swapped == is_swapped(dump@),
                first <= 0x1_0000_0007,
                first + 48 * count <= dump@.len(),
                stream_of(dump@, 3, stream_count(dump@)) == Some((size as int, start as int)),
                list_of(dump@, start as int, size as int, 48, 4096) == Some(
                    (first as int, count as int),
                ),
                i <= j < count <= 4096,
                id == thread_id(dump@, first as int, j as int),
                thread_is_new(dump@, first as int, i as int, j as int),
            decreases j - i,
        {
            if read_word(dump, swapped, first + 48 * i) == id {
                assert(thread_id(dump@, first as int, i as int) == id);
                assert(!thread_is_new(dump@, first as int, j as int, j as int));
                assert(!threads_are_new(dump@, first as int, count as int));
                return false;
            }
            i += 1;
        }
        if check_walked(dump, swapped, writing, first, j) {
            if !check_context(dump, swapped, at + 40).1 {
                assert(!threads_have_contexts(dump@, first as int, count as int));
                return false;
            }
            any = true;
        }
        j += 1;
    }
    any
}

fn check_exception(dump: &[u8], swapped: bool) -> (r: bool)
    requires
        swapped == is_swapped(dump@),
        is_whole(dump@),
    ensures
        r == exception_is_sound(dump@),
{
    match find_exception(dump, swapped) {
        Some(start) => {
            proof {
                lemma_stream_of(dump@, 6, stream_count(dump@));
            }
            let (taken, found) = check_context(dump, swapped, start + 160);
            found || (!taken && read_word(dump, swapped, start + 160) != 1160)
        },
        None => true,
    }
}

/// Whether the stack walker finds modules and threads in a minidump, and a frame in each thread.
pub fn check_lists(dump: &[u8]) -> (r: bool)
    ensures
        r == has_lists(dump@),
{
    if !check_whole(dump) {
        return false;
    }
    let swapped: bool = read_swapped(dump);
    check_modules(dump, swapped) && check_threads(dump, swapped) && check_exception(dump, swapped)
}

/// What is no minidump can be handed to the stack walker, which says so.
pub proof fn law_no_minidump_can_be_read(dump: Seq<u8>)
    requires
        dump.len() < 32 || !((dump[0] == 0x4d && dump[1] == 0x44 && dump[2] == 0x4d && dump[3]
            == 0x50) || (dump[0] == 0x50 && dump[1] == 0x4d && dump[2] == 0x44 && dump[3] == 0x4d)),
    ensures
        can_be_read(dump),
{
}

} // verus!
