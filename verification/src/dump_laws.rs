//! Which minidumps are walked.

use vstd::prelude::*;

use crate::layout::{
    all_modules_lie_in, all_regions_lie_in, all_threads_lie_in, can_be_read, context_cpu,
    context_flags, context_size, exception_is_sound, exception_of, has_context, has_lists,
    has_modules, has_threads, is_cpu_of, is_swapped, is_whole, list_of, long, module_is_apart,
    module_is_sound, module_lies_in, modules_apart, region_lies_in, short, stream_at, stream_count,
    stream_lies_in, stream_of, system_of, takes_context, text_is_sound, thread_id, thread_is_new,
    thread_lies_in, threads_of, unit_is_sound, word, writing_thread,
};

verus! {

/// The numbers of a minidump have their lowest byte first, or all of them their highest: its first
/// bytes tell which.
pub proof fn law_numbers(dump: Seq<u8>, at: int)
    requires
        dump.len() >= 4,
    ensures
        ({
            let (a, b, c, d) = (
                dump[at] as int,
                dump[at + 1] as int,
                dump[at + 2] as int,
                dump[at + 3] as int,
            );
            &&& dump[0] == 0x4d && dump[1] == 0x44 && dump[2] == 0x4d && dump[3] == 0x50 ==> word(
                dump,
                at,
            ) == a + 0x100 * b + 0x1_0000 * c + 0x100_0000 * d && short(dump, at) == a + 0x100 * b
            &&& dump[0] == 0x50 && dump[1] == 0x4d && dump[2] == 0x44 && dump[3] == 0x4d ==> word(
                dump,
                at,
            ) == d + 0x100 * c + 0x1_0000 * b + 0x100_0000 * a && short(dump, at) == b + 0x100 * a
        }),
{
}

/// A list is read where its entries make up its size, with the number of them before, or also four
/// more bytes.
pub proof fn law_lists(dump: Seq<u8>, start: int, size: int, entry: int, limit: int)
    requires
        0 < entry,
        4 <= size,
        start + size <= dump.len(),
        0 <= word(dump, start) <= limit,
        size == 4 + entry * word(dump, start) || size == 8 + entry * word(dump, start),
    ensures
        list_of(dump, start, size, entry, limit) == Some(
            (size - entry * word(dump, start) + start, word(dump, start)),
        ),
{
}

/// A text is read where it has at most 1024 units, none of which is a half of a character.
pub proof fn law_plain_text(dump: Seq<u8>, start: int, count: int)
    requires
        0 <= count <= 1024,
        word(dump, start) == 2 * count,
        forall|k: int| 0 <= k < count ==> #[trigger] short(dump, start + 4 + 2 * k) < 0xd800,
    ensures
        text_is_sound(dump, start),
{
    assert(word(dump, start) / 2 == count);
    assert forall|k: int| 0 <= k < count implies #[trigger] unit_is_sound(
        dump,
        start + 4,
        count,
        k,
    ) by {
        assert(short(dump, start + 4 + 2 * k) < 0xd800);
    }
}

/// A module is read where it has a size, lies below the highest address and has a name.
pub proof fn law_module(dump: Seq<u8>, first: int, index: int)
    requires
        word(dump, first + 108 * index + 8) > 0,
        long(dump, first + 108 * index) + word(dump, first + 108 * index + 8) <= u64::MAX,
        text_is_sound(dump, word(dump, first + 108 * index + 20)),
    ensures
        module_is_sound(dump, first, index),
{
}

/// The modules of a minidump are read where each one is and no two of them overlap.
pub proof fn law_modules(dump: Seq<u8>, size: int, start: int, first: int, count: int)
    requires
        stream_of(dump, 4, stream_count(dump)) == Some((size, start)),
        list_of(dump, start, size, 108, 2048) == Some((first, count)),
        forall|i: int| 0 <= i < count ==> #[trigger] module_is_sound(dump, first, i),
        forall|i: int, j: int|
            #![trigger module_is_sound(dump, first, i), module_is_sound(dump, first, j)]
            0 <= i < j < count ==> long(dump, first + 108 * i) + word(dump, first + 108 * i + 8)
                <= long(dump, first + 108 * j) || long(dump, first + 108 * j) + word(
                dump,
                first + 108 * j + 8,
            ) <= long(dump, first + 108 * i),
    ensures
        has_modules(dump),
{
    assert forall|j: int| 0 <= j < count implies #[trigger] module_is_apart(dump, first, j, j) by {
        assert forall|i: int| 0 <= i < j implies #[trigger] modules_apart(dump, first, i, j) by {
            assert(module_is_sound(dump, first, i));
            assert(module_is_sound(dump, first, j));
        }
    }
}

/// Each CPU that can be walked has contexts of its own size, whose flags name it.
#[verifier::rlimit(40)]
pub proof fn law_contexts(dump: Seq<u8>, at: int, system: int, arch: int, cpu: int, size: int)
    requires
        !is_swapped(dump),
        system_of(dump) == Some(system),
        short(dump, system) == arch,
        word(dump, at) == size,
        ({
            ||| arch == 0 && cpu == 0x1_0000 && size == 716
            ||| arch == 1 && cpu == 0x4_0000 && size == 600
            ||| arch == 3 && cpu == 0x2000_0000 && size == 1004
            ||| arch == 5 && cpu == 0x4000_0000 && size == 368
            ||| arch == 9 && cpu == 0x10_0000 && size == 1232
            ||| arch == 12 && cpu == 0x40_0000 && size == 912
            ||| arch == 0x8001 && cpu == 0x1000_0000 && size == 584
            ||| arch == 0x8002 && cpu == 0x100_0000 && size == 1160
            ||| arch == 0x8003 && cpu == 0x8000_0000 && size == 796
            ||| arch == 0x8004 && cpu == 0x8_0000 && size == 600
        }),
        word(
            dump,
            word(dump, at + 4) + (if size == 1232 {
                48int
            } else {
                0
            }),
        ) / 0x100 == cpu / 0x100,
        size == 1160 ==> word(dump, word(dump, at + 4) + 4) == 0,
    ensures
        has_context(dump, at),
{
    let start = word(dump, at + 4);
    let flags = context_flags(dump, start, size);
    assert(flags / 0x100 == cpu / 0x100);
    lemma_cpus(arch, cpu, size);
    lemma_named_cpu(dump, start, size, cpu, flags);
    assert(takes_context(dump, at));
}

/// Each CPU that can be walked has its size of contexts, and is named by the system.
proof fn lemma_cpus(arch: int, cpu: int, size: int)
    requires
        ({
            ||| arch == 0 && cpu == 0x1_0000 && size == 716
            ||| arch == 1 && cpu == 0x4_0000 && size == 600
            ||| arch == 3 && cpu == 0x2000_0000 && size == 1004
            ||| arch == 5 && cpu == 0x4000_0000 && size == 368
            ||| arch == 9 && cpu == 0x10_0000 && size == 1232
            ||| arch == 12 && cpu == 0x40_0000 && size == 912
            ||| arch == 0x8001 && cpu == 0x1000_0000 && size == 584
            ||| arch == 0x8002 && cpu == 0x100_0000 && size == 1160
            ||| arch == 0x8003 && cpu == 0x8000_0000 && size == 796
            ||| arch == 0x8004 && cpu == 0x8_0000 && size == 600
        }),
    ensures
        cpu / 0x100 != 0,
        0x100 * (cpu / 0x100) == cpu,
        context_size(cpu) == size,
        size != 0,
        is_cpu_of(cpu, arch),
        size != 716 || arch != 9,
{
}

/// Flags that name a CPU tell it.
proof fn lemma_named_cpu(dump: Seq<u8>, start: int, size: int, cpu: int, flags: int)
    requires
        flags == context_flags(dump, start, size),
        flags / 0x100 == cpu / 0x100,
        cpu / 0x100 != 0,
        0x100 * (cpu / 0x100) == cpu,
    ensures
        context_cpu(dump, start, size) == cpu,
{
}

/// The threads of a minidump are walked where there is one, each has an identifier of its own and a
/// context, and none of them wrote the minidump.
pub proof fn law_threads(dump: Seq<u8>, first: int, count: int)
    requires
        threads_of(dump) == Some((first, count)),
        0 < count,
        writing_thread(dump) is None,
        forall|i: int, j: int|
            #![trigger thread_id(dump, first, i), thread_id(dump, first, j)]
            0 <= i < j < count ==> word(dump, first + 48 * i) != word(dump, first + 48 * j),
        forall|i: int| 0 <= i < count ==> #[trigger] has_context(dump, first + 48 * i + 40),
    ensures
        has_threads(dump),
{
    assert forall|j: int| 0 <= j < count implies #[trigger] thread_is_new(dump, first, j, j) by {
        assert forall|i: int| 0 <= i < j implies #[trigger] thread_id(dump, first, i) != thread_id(
            dump,
            first,
            j,
        ) by {}
    }
    assert(crate::layout::is_walked(dump, first, 0));
    assert forall|i: int|
        0 <= i < count && #[trigger] crate::layout::is_walked(dump, first, i) implies has_context(
        dump,
        first + 48 * i + 40,
    ) by {}
}

/// A minidump whose parts lie in it, whose modules and threads are read and which describes no
/// exception is walked.
pub proof fn law_walked_minidump(dump: Seq<u8>)
    requires
        is_whole(dump),
        has_modules(dump),
        has_threads(dump),
        exception_of(dump) is None,
    ensures
        exception_is_sound(dump),
        has_lists(dump),
{
}

/// Streams of which the stack walker knows nothing may lie anywhere, and those that hold nothing but
/// numbers need only lie in the minidump.
pub proof fn law_other_streams(dump: Seq<u8>, index: int, whole: bool)
    ensures
        ({
            let kind = word(dump, stream_at(dump, index));
            let size = word(dump, stream_at(dump, index) + 4);
            let start = word(dump, stream_at(dump, index) + 8);
            &&& !(3 <= kind <= 7) && kind != 14 && kind != 15 && kind != 0x4767_0001 && kind
                != 0x4767_0002 ==> stream_lies_in(dump, index, whole)
            &&& (kind == 15 || kind == 0x4767_0001 || kind == 0x4767_0002) && start + size
                <= dump.len() && size >= 0 ==> stream_lies_in(dump, index, whole)
        }),
{
}

/// A minidump is read where it starts as one, its directory lies in it, and so does each stream, or
/// at least the start of each.
pub proof fn law_whole_minidump(dump: Seq<u8>)
    requires
        dump.len() >= 32,
        dump[0] == 0x4d && dump[1] == 0x44 && dump[2] == 0x4d && dump[3] == 0x50,
        dump[4] == 0x93 && dump[5] == 0xa7,
        0 < word(dump, 8) <= 128,
        word(dump, 12) + 12 * word(dump, 8) <= dump.len(),
    ensures
        (forall|i: int| 0 <= i < word(dump, 8) ==> #[trigger] stream_lies_in(dump, i, true))
            ==> is_whole(dump),
        (forall|i: int| 0 <= i < word(dump, 8) ==> #[trigger] stream_lies_in(dump, i, false))
            ==> can_be_read(dump),
{
}

/// A list of modules lies in the minidump where it does itself, and with it the name and the debug
/// records of each module.
pub proof fn law_module_stream(dump: Seq<u8>, index: int, size: int, start: int, whole: bool)
    requires
        dump.len() >= 32,
        word(dump, stream_at(dump, index)) == 4,
        word(dump, stream_at(dump, index) + 4) == size,
        word(dump, stream_at(dump, index) + 8) == start,
        start + size <= dump.len(),
        list_of(dump, start, size, 108, 2048) matches Some((first, count)) ==> forall|k: int|
            #![trigger module_lies_in(dump, first, k, whole)]
            0 <= k < count ==> ({
                let at = first + 108 * k;
                let name = word(dump, at + 20);
                &&& name + 4 + word(dump, name) <= dump.len()
                &&& word(dump, at + 80) + word(dump, at + 76) <= dump.len()
                &&& word(dump, at + 88) + word(dump, at + 84) <= dump.len()
            }),
    ensures
        stream_lies_in(dump, index, whole),
{
    lemma_not_negative(dump, stream_at(dump, index) + 4);
    if let Some((first, count)) = list_of(dump, start, size, 108, 2048) {
        assert forall|k: int| 0 <= k < count implies #[trigger] module_lies_in(
            dump,
            first,
            k,
            whole,
        ) by {
            let at = first + 108 * k;
            lemma_not_negative(dump, at + 76);
            lemma_not_negative(dump, at + 84);
            lemma_not_negative(dump, word(dump, at + 20));
        }
        assert(all_modules_lie_in(dump, first, count, whole));
    }
}

/// A list of threads lies in the minidump where it does itself, and with it the stack and the context
/// of each thread.
pub proof fn law_thread_stream(dump: Seq<u8>, index: int, size: int, start: int, whole: bool)
    requires
        dump.len() >= 32,
        word(dump, stream_at(dump, index)) == 3,
        word(dump, stream_at(dump, index) + 4) == size,
        word(dump, stream_at(dump, index) + 8) == start,
        start + size <= dump.len(),
        list_of(dump, start, size, 48, 4096) matches Some((first, count)) ==> forall|k: int|
            #![trigger thread_lies_in(dump, first, count, k, whole)]
            0 <= k < count ==> ({
                let at = first + 48 * k;
                &&& word(dump, at + 36) + word(dump, at + 32) <= dump.len()
                &&& word(dump, at + 44) + word(dump, at + 40) <= dump.len()
                &&& word(dump, at + 44) + 4 <= dump.len()
            }),
    ensures
        stream_lies_in(dump, index, whole),
{
    lemma_not_negative(dump, stream_at(dump, index) + 4);
    if let Some((first, count)) = list_of(dump, start, size, 48, 4096) {
        assert forall|k: int| 0 <= k < count implies #[trigger] thread_lies_in(
            dump,
            first,
            count,
            k,
            whole,
        ) by {
            let at = first + 48 * k;
            lemma_not_negative(dump, at + 32);
            lemma_not_negative(dump, at + 40);
        }
        assert(all_threads_lie_in(dump, first, count, count, whole));
    }
}

/// A list of memory lies in the minidump where it does itself, and with it each piece of memory.
pub proof fn law_memory_stream(dump: Seq<u8>, index: int, size: int, start: int, whole: bool)
    requires
        dump.len() >= 32,
        word(dump, stream_at(dump, index)) == 5,
        word(dump, stream_at(dump, index) + 4) == size,
        word(dump, stream_at(dump, index) + 8) == start,
        start + size <= dump.len(),
        list_of(dump, start, size, 16, 4096) matches Some((first, count)) ==> forall|k: int|
            #![trigger region_lies_in(dump, first, k, whole)]
            0 <= k < count ==> word(dump, first + 16 * k + 12) + word(dump, first + 16 * k + 8)
                <= dump.len(),
    ensures
        stream_lies_in(dump, index, whole),
{
    lemma_not_negative(dump, stream_at(dump, index) + 4);
    if let Some((first, count)) = list_of(dump, start, size, 16, 4096) {
        assert forall|k: int| 0 <= k < count implies #[trigger] region_lies_in(
            dump,
            first,
            k,
            whole,
        ) by {
            lemma_not_negative(dump, first + 16 * k + 8);
        }
        assert(all_regions_lie_in(dump, first, count, whole));
    }
}

/// What describes the system lies in the minidump where it does itself, and with it the text that it
/// names. The same holds of the exception and its context.
pub proof fn law_single_streams(dump: Seq<u8>, index: int, size: int, start: int, whole: bool)
    requires
        dump.len() >= 32,
        word(dump, stream_at(dump, index) + 4) == size,
        word(dump, stream_at(dump, index) + 8) == start,
        start + size <= dump.len(),
    ensures
        word(dump, stream_at(dump, index)) == 7 && size == 56 && word(dump, start + 24) + 4 + word(
            dump,
            word(dump, start + 24),
        ) <= dump.len() ==> stream_lies_in(dump, index, whole),
        word(dump, stream_at(dump, index)) == 6 && size == 168 && word(dump, start + 164) + word(
            dump,
            start + 160,
        ) <= dump.len() && word(dump, start + 164) + 4 <= dump.len() ==> stream_lies_in(
            dump,
            index,
            whole,
        ),
{
    lemma_not_negative(dump, stream_at(dump, index) + 4);
    lemma_not_negative(dump, start + 160);
    lemma_not_negative(dump, word(dump, start + 24));
}

/// No number is below zero.
proof fn lemma_not_negative(dump: Seq<u8>, at: int)
    ensures
        word(dump, at) >= 0,
{
}

} // verus!
