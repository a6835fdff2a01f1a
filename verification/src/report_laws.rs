//! What holds of the requests that minidumps and Apple crash reports are turned into.

use vstd::prelude::*;

use crate::apple::{
    apple_object, apple_stacktrace, code_type_arch, merged_report, property, request_of_report,
    state_of_report, AppleModel,
};
use crate::arch::{arch_of_name, Arch, CpuFamily, FrameTrust};
use crate::crash_report::{BinaryImageModel, ReportHeadModel, ReportThreadModel};
use crate::merge::lemma_first_arch;
use crate::minidump::{
    all_returns_fit, cfi_fetches_of, cfi_of, frame_infos, image_type, is_identified,
    minidump_object, normalized_os_name, protocol_registers, request_of_minidump, returns_fit,
    state_of_minidump, unwind_status, walkable_cfi, walked_modules, walked_stacktrace,
    CfiOutcomeModel, ThreadWithRegistersModel,
};
use crate::object_id::{canonical_debug_id, hex_digits_of, hex_text, hyphenated};
use crate::processor::{
    canonical_module_id, dump_registers, dump_summary, dump_threads, is_cfi_cache, is_usable,
    CodeModuleModel, RegVal, SummaryModel,
};
use crate::stackwalk::{dump_arch, walked_threads};
use crate::string_map::inserted;
use crate::symcache::{CacheErrorKind, ContentsModel};
use crate::text::law_word_before_space;
use crate::types::{CompletedModel, ObjectFileStatus, ScopeModel, SourceModel};
use crate::unwind::is_sound_cfi;

verus! {

/// The type of object files is known for the systems that have one: Windows, Apple's, and those that
/// use ELF.
pub proof fn law_image_type(os_name: Seq<char>)
    ensures
        image_type(os_name) == "pe"@ <==> os_name == "Windows"@ || os_name == "Windows NT"@,
        image_type(os_name) == "macho"@ <==> os_name == "iOS"@ || os_name == "Mac OS X"@,
        image_type(os_name) == "elf"@ <==> os_name == "Linux"@ || os_name == "Solaris"@ || os_name
            == "Android"@,
        image_type(os_name) == "pe"@ || image_type(os_name) == "macho"@ || image_type(os_name)
            == "elf"@ || image_type(os_name) == "unknown"@,
{
    reveal_strlit("pe");
    reveal_strlit("macho");
    reveal_strlit("elf");
    reveal_strlit("unknown");
    assert("pe"@.len() == 2 && "macho"@.len() == 5 && "elf"@.len() == 3 && "unknown"@.len() == 7);
    reveal_strlit("Windows");
    reveal_strlit("Windows NT");
    reveal_strlit("iOS");
    reveal_strlit("Mac OS X");
    reveal_strlit("Linux");
    reveal_strlit("Solaris");
    reveal_strlit("Android");
    assert("Windows"@[0] == 'W' && "Solaris"@[0] == 'S' && "Android"@[0] == 'A');
    assert("Windows NT"@.len() == 10 && "iOS"@.len() == 3 && "Mac OS X"@.len() == 8);
    assert("Linux"@.len() == 5);
}

/// Two systems have other names than minidumps give them. All other names stay as they are.
pub proof fn law_os_names(os_name: Seq<char>)
    ensures
        os_name == "Windows NT"@ ==> normalized_os_name(os_name) == "Windows"@,
        os_name == "Mac OS X"@ ==> normalized_os_name(os_name) == "macOS"@,
        os_name != "Windows NT"@ && os_name != "Mac OS X"@ ==> normalized_os_name(os_name)
            == os_name,
{
    reveal_strlit("Windows NT");
    reveal_strlit("Mac OS X");
    assert("Windows NT"@.len() != "Mac OS X"@.len());
}

/// A module is described by what the minidump says of it. A size of zero is none.
pub proof fn law_module_object(ty: Seq<char>, module: CodeModuleModel)
    ensures
        ({
            let object = minidump_object(ty, module);
            &&& object.ty == ty
            &&& object.code_id == Some(module.code_identifier)
            &&& object.code_file == Some(module.code_file)
            &&& object.debug_id == Some(module.debug_identifier)
            &&& object.debug_file == Some(module.debug_file)
            &&& object.image_addr == module.base_address
            &&& module.size != 0 ==> object.image_size == Some(module.size)
            &&& module.size == 0 ==> object.image_size is None
        }),
{
}

/// There is a value for exactly the registers that are named.
pub proof fn law_register_names(registers: Seq<(Seq<char>, RegVal)>, name: Seq<char>)
    ensures
        protocol_registers(registers).contains_key(name) <==> exists|i: int|
            0 <= i < registers.len() && (#[trigger] registers[i]).0 == name,
    decreases registers.len(),
{
    if registers.len() > 0 {
        let rest = registers.drop_last();
        law_register_names(rest, name);
        if registers.last().0 == name {
            assert(registers[registers.len() - 1].0 == name);
        }
        if protocol_registers(rest).contains_key(name) {
            let i = choose|i: int| 0 <= i < rest.len() && (#[trigger] rest[i]).0 == name;
            assert(registers[i].0 == name);
        }
        if exists|i: int| 0 <= i < registers.len() && (#[trigger] registers[i]).0 == name {
            let i = choose|i: int| 0 <= i < registers.len() && (#[trigger] registers[i]).0 == name;
            if i < rest.len() {
                assert(rest[i].0 == name);
            }
        }
    }
}

/// No register changes its value, whether it has four bytes or eight: the value under its name is the
/// number that it holds, or the one behind it under the same name.
pub proof fn law_register_values(registers: Seq<(Seq<char>, RegVal)>, i: int)
    requires
        0 <= i < registers.len(),
        forall|j: int| i < j < registers.len() ==> (#[trigger] registers[j]).0 != registers[i].0,
    ensures
        protocol_registers(registers).contains_key(registers[i].0),
        registers[i].1 matches RegVal::U32(value) ==> protocol_registers(registers)[registers[i].0]
            as int == value as int,
        registers[i].1 matches RegVal::U64(value) ==> protocol_registers(registers)[registers[i].0]
            as int == value as int,
    decreases registers.len(),
{
    let rest = registers.drop_last();
    if i + 1 < registers.len() {
        assert(registers[registers.len() - 1].0 != registers[i].0);
        assert forall|j: int| i < j < rest.len() implies (#[trigger] rest[j]).0 != rest[i].0 by {
            assert(registers[j].0 != registers[i].0);
        }
        law_register_values(rest, i);
    }
}

/// What becomes of unwind information: it is used where it was found and is whole, and the reason why
/// it is not is told apart.
pub proof fn law_unwind_outcome(data: Seq<u8>, kind: CacheErrorKind)
    ensures
        is_cfi_cache(data) ==> cfi_of(Ok(ContentsModel::Positive(data))) == Ok::<
            Option<Seq<u8>>,
            CacheErrorKind,
        >(Some(data)),
        is_cfi_cache(data) ==> unwind_status(Ok(ContentsModel::Positive(data)))
            == ObjectFileStatus::Found,
        is_cfi_cache(data) && is_sound_cfi(data) ==> walkable_cfi(
            Ok(ContentsModel::Positive(data)),
        ) == Some(data),
        !is_cfi_cache(data) ==> unwind_status(Ok(ContentsModel::Positive(data)))
            == ObjectFileStatus::Other && walkable_cfi(Ok(ContentsModel::Positive(data))) is None,
        unwind_status(Ok(ContentsModel::Negative)) == ObjectFileStatus::Missing,
        unwind_status(Ok(ContentsModel::Malformed)) == ObjectFileStatus::Malformed,
        walkable_cfi(Ok(ContentsModel::Negative)) is None,
        walkable_cfi(Ok(ContentsModel::Malformed)) is None,
        walkable_cfi(Err(kind)) is None,
        unwind_status(Err(CacheErrorKind::Fetching)) == ObjectFileStatus::FetchingFailed,
        unwind_status(Err(CacheErrorKind::Timeout)) == ObjectFileStatus::Timeout,
        unwind_status(Err(CacheErrorKind::ObjectParsing)) == ObjectFileStatus::Malformed,
        unwind_status(Err(CacheErrorKind::Other)) == ObjectFileStatus::Other,
        data.len() == 0 ==> is_cfi_cache(data),
        data.len() >= 5 && data[0] == 0x53 && data[1] == 0x54 && data[2] == 0x41 && data[3] == 0x43
            && data[4] == 0x4b ==> is_cfi_cache(data),
        is_cfi_cache(data) && data.len() > 0 ==> data.len() >= 5 && data[0] == 0x53 && data[1]
            == 0x54 && data[2] == 0x41 && data[3] == 0x43 && data[4] == 0x4b,
{
    let word = seq![0x53u8, 0x54, 0x41, 0x43, 0x4b];
    if data.len() >= 5 {
        let start = data.take(5);
        if data[0] == 0x53 && data[1] == 0x54 && data[2] == 0x41 && data[3] == 0x43 && data[4]
            == 0x4b {
            assert(start =~= word);
        }
        if start == word {
            assert(start[0] == 0x53 && start[1] == 0x54 && start[2] == 0x41 && start[3] == 0x43
                && start[4] == 0x4b);
        }
    }
}

/// Unwind information is requested module by module, in their order, for each module that has an
/// identifier. It is searched by what the minidump says of the module, where the request says.
pub proof fn law_next_cfi_fetch(
    os_name: Seq<char>,
    modules: Seq<CodeModuleModel>,
    module: CodeModuleModel,
    sources: Seq<SourceModel>,
    scope: ScopeModel,
)
    ensures
        cfi_fetches_of(os_name, Seq::empty(), sources, scope).len() == 0,
        ({
            let before = cfi_fetches_of(os_name, modules, sources, scope);
            let after = cfi_fetches_of(os_name, modules.push(module), sources, scope);
            match canonical_module_id(module.debug_identifier) {
                Some(id) => {
                    let fetch = after.last().1;
                    &&& after.len() == before.len() + 1
                    &&& before.is_prefix_of(after)
                    &&& after.last().0 == id
                    &&& fetch.object_type == image_type(os_name)
                    &&& fetch.identifier.code_id == Some(hex_digits_of(module.code_identifier))
                    &&& fetch.identifier.code_file == Some(module.code_file)
                    &&& fetch.identifier.debug_id == canonical_debug_id(module.debug_identifier)
                    &&& fetch.identifier.debug_file == Some(module.debug_file)
                    &&& fetch.sources == sources
                    &&& fetch.scope == scope
                },
                None => after == before,
            }
        }),
{
    let identified = |module: CodeModuleModel| is_identified(module);
    let before = cfi_fetches_of(os_name, modules, sources, scope);
    let after = cfi_fetches_of(os_name, modules.push(module), sources, scope);
    let none = Seq::<CodeModuleModel>::empty();
    reveal(Seq::filter);
    assert(none.filter(identified) =~= none);
    assert(modules.push(module).drop_last() =~= modules);
    assert(modules.push(module).last() == module);
    if canonical_module_id(module.debug_identifier) is Some {
        assert(modules.push(module).filter(identified) == modules.filter(identified).push(module));
        assert(after.take(before.len() as int) =~= before);
    } else {
        assert(modules.push(module).filter(identified) == modules.filter(identified));
        assert(after =~= before);
    }
}

/// The modules of a request are those of the minidump that have an identifier, in their order. Each
/// carries what became of its unwind information, and that it was not needed where none was
/// searched. Nothing else was found out about it.
pub proof fn law_next_module(
    ty: Seq<char>,
    statuses: Map<Seq<char>, ObjectFileStatus>,
    modules: Seq<CodeModuleModel>,
    module: CodeModuleModel,
)
    ensures
        walked_modules(ty, statuses, Seq::empty()).len() == 0,
        ({
            let before = walked_modules(ty, statuses, modules);
            let after = walked_modules(ty, statuses, modules.push(module));
            match canonical_module_id(module.debug_identifier) {
                Some(id) => {
                    let object = after.last();
                    &&& after.len() == before.len() + 1
                    &&& before.is_prefix_of(after)
                    &&& statuses.contains_key(id) ==> object.unwind_status == Some(statuses[id])
                    &&& !statuses.contains_key(id) ==> object.unwind_status == Some(
                        ObjectFileStatus::Unused,
                    )
                    &&& object.debug_status == ObjectFileStatus::Unused
                    &&& object.arch == Arch::Unknown
                    &&& object.raw.ty == ty
                    &&& object.raw.code_id == Some(module.code_identifier)
                    &&& object.raw.code_file == Some(module.code_file)
                    &&& object.raw.debug_id == Some(module.debug_identifier)
                    &&& object.raw.debug_file == Some(module.debug_file)
                    &&& object.raw.image_addr == module.base_address
                    &&& module.size != 0 ==> object.raw.image_size == Some(module.size)
                    &&& module.size == 0 ==> object.raw.image_size is None
                },
                None => after == before,
            }
        }),
{
    let identified = |module: CodeModuleModel| is_identified(module);
    let before = walked_modules(ty, statuses, modules);
    let after = walked_modules(ty, statuses, modules.push(module));
    let none = Seq::<CodeModuleModel>::empty();
    reveal(Seq::filter);
    assert(none.filter(identified) =~= none);
    assert(modules.push(module).drop_last() =~= modules);
    assert(modules.push(module).last() == module);
    if canonical_module_id(module.debug_identifier) is Some {
        assert(modules.push(module).filter(identified) == modules.filter(identified).push(module));
        assert(after.take(before.len() as int) =~= before);
    } else {
        assert(modules.push(module).filter(identified) == modules.filter(identified));
        assert(after =~= before);
    }
}

/// Each frame of a thread is that which was walked, in its place: what the stack walker took off its
/// address is added again, and its file and its trust are kept. The registers are those of the
/// thread.
pub proof fn law_walked_frames(arch: Arch, thread: ThreadWithRegistersModel, f: int)
    requires
        0 <= f < thread.0.frames.len(),
        thread.0.frames[f].return_address + 4 <= u64::MAX,
    ensures
        ({
            let stacktrace = walked_stacktrace(arch, thread);
            let frame = stacktrace.frames[f];
            &&& stacktrace.registers == protocol_registers(thread.1)
            &&& stacktrace.frames.len() == thread.0.frames.len()
            &&& frame.instruction_addr == thread.0.frames[f].return_address + (
            if arch.family() == CpuFamily::Arm32 {
                2int
            } else if arch.family() == CpuFamily::Arm64 {
                4
            } else {
                0
            })
            &&& frame.package == thread.0.frames[f].code_file
            &&& frame.trust == FrameTrust::spec_from_code(thread.0.frames[f].trust)
        }),
{
}

/// A minidump becomes a request for what it holds: all of its threads, in their order, and its
/// modules, with the scope and the sources that were given, and without a signal.
pub proof fn law_minidump_request(
    summary: SummaryModel,
    arch: Arch,
    modules: Seq<CodeModuleModel>,
    threads: Seq<ThreadWithRegistersModel>,
    statuses: Map<Seq<char>, ObjectFileStatus>,
    scope: ScopeModel,
    sources: Seq<SourceModel>,
)
    ensures
        ({
            let request = request_of_minidump(
                summary,
                arch,
                modules,
                threads,
                statuses,
                scope,
                sources,
            );
            &&& request.scope == scope
            &&& request.sources == sources
            &&& request.signal is None
            &&& request.modules == walked_modules(image_type(summary.os_name), statuses, modules)
            &&& request.stacktraces.len() == threads.len()
            &&& forall|i: int|
                #![trigger request.stacktraces[i]]
                0 <= i < threads.len() ==> request.stacktraces[i] == walked_stacktrace(
                    arch,
                    threads[i],
                )
        }),
{
}

/// What a minidump says of the process is kept: only the name of the system may change. The thread
/// that asked for it is known where its index is not below zero.
pub proof fn law_minidump_state(
    summary: SummaryModel,
    arch: Arch,
    threads: Seq<ThreadWithRegistersModel>,
)
    ensures
        ({
            let state = state_of_minidump(summary, arch, threads);
            &&& state.timestamp == summary.timestamp
            &&& state.crashed == summary.crashed
            &&& state.crash_reason == summary.crash_reason
            &&& state.assertion == summary.assertion
            &&& state.system_info.os_name == normalized_os_name(summary.os_name)
            &&& state.system_info.os_version == summary.os_version
            &&& state.system_info.os_build == summary.os_build
            &&& state.system_info.cpu_arch == arch
            &&& state.system_info.device_model.len() == 0
            &&& state.requesting_thread_index is Some <==> summary.requesting_thread >= 0
            &&& state.requesting_thread_index matches Some(index) ==> index
                == summary.requesting_thread
            &&& state.thread_ids.len() == threads.len()
            &&& forall|i: int|
                0 <= i < threads.len() ==> #[trigger] state.thread_ids[i] == threads[i].0.thread_id
        }),
{
}

/// The threads of a minidump are all walked, in their order, each with the registers of its first
/// frame, as they are on the CPU that the minidump names. A thread without frames has none.
pub proof fn law_walked_threads(dump: Seq<u8>, infos: Map<Seq<char>, Seq<u8>>, i: int)
    requires
        0 <= i < dump_threads(dump, infos).len(),
    ensures
        walked_threads(dump, infos).len() == dump_threads(dump, infos).len(),
        walked_threads(dump, infos)[i].0 == dump_threads(dump, infos)[i],
        dump_arch(dump, infos) == arch_of_name(dump_summary(dump, infos).cpu_family),
        dump_threads(dump, infos)[i].frames.len() > 0 ==> walked_threads(dump, infos)[i].1
            == dump_registers(
            dump,
            infos,
            i,
            0,
            arch_of_name(dump_summary(dump, infos).cpu_family).spec_code(),
        ),
        dump_threads(dump, infos)[i].frames.len() == 0 ==> walked_threads(dump, infos)[i].1.len()
            == 0,
{
}

/// The architecture of a crash report is the one that the first word of its code type names.
pub proof fn law_code_type(word: Seq<char>, rest: Seq<char>)
    requires
        forall|i: int| 0 <= i < word.len() ==> #[trigger] word[i] != ' ',
    ensures
        code_type_arch(Some(word + seq![' '] + rest)) == arch_of_name(word),
        code_type_arch(Some(word)) == arch_of_name(word),
        code_type_arch(None) == Arch::Unknown,
{
    law_word_before_space(word, rest);
}

/// An image is described by what the crash report says of it. Its identifiers are those of its UUID,
/// and a size of zero is none. Nothing else was found out about it.
pub proof fn law_image_object(image: BinaryImageModel)
    ensures
        ({
            let object = apple_object(image);
            &&& object.raw.ty == "macho"@
            &&& object.raw.code_id == Some(hex_text(image.uuid))
            &&& object.raw.code_file == Some(image.path)
            &&& object.raw.debug_id == Some(hyphenated(hex_text(image.uuid)))
            &&& object.raw.debug_file == Some(image.path)
            &&& object.raw.image_addr == image.addr
            &&& image.size != 0 ==> object.raw.image_size == Some(image.size)
            &&& image.size == 0 ==> object.raw.image_size is None
            &&& object.debug_status == ObjectFileStatus::Unused
            &&& object.unwind_status is None
            &&& object.arch == Arch::Unknown
        }),
{
}

/// A thread of a crash report keeps its frames, in their order, and its registers. Nothing is known of
/// how far its frames can be trusted.
pub proof fn law_report_frames(thread: ReportThreadModel)
    ensures
        ({
            let stacktrace = apple_stacktrace(thread);
            &&& stacktrace.frames.len() == thread.frames.len()
            &&& forall|f: int|
                #![trigger stacktrace.frames[f]]
                0 <= f < thread.frames.len() ==> {
                    &&& stacktrace.frames[f].instruction_addr == thread.frames[f].instruction_addr
                    &&& stacktrace.frames[f].package == thread.frames[f].module
                    &&& stacktrace.frames[f].trust == FrameTrust::Unknown
                }
            &&& thread.registers is None ==> stacktrace.registers =~= Map::empty()
            &&& thread.registers matches Some(registers) ==> stacktrace.registers == inserted(
                registers,
            )
        }),
{
}

/// A crash report becomes a request for what it holds: all of its threads and images, in their order,
/// with the scope and the sources that were given, and without a signal.
pub proof fn law_report_request(
    threads: Seq<ReportThreadModel>,
    images: Seq<BinaryImageModel>,
    scope: ScopeModel,
    sources: Seq<SourceModel>,
)
    ensures
        ({
            let request = request_of_report(threads, images, scope, sources);
            &&& request.scope == scope
            &&& request.sources == sources
            &&& request.signal is None
            &&& request.modules.len() == images.len()
            &&& forall|i: int|
                0 <= i < images.len() ==> #[trigger] request.modules[i] == apple_object(images[i])
            &&& request.stacktraces.len() == threads.len()
            &&& forall|i: int|
                0 <= i < threads.len() ==> #[trigger] request.stacktraces[i] == apple_stacktrace(
                    threads[i],
                )
        }),
{
}

/// What a crash report says of the process is kept. The name of the system and the device stand among
/// its properties, and are empty where they do not.
pub proof fn law_report_state(
    head: ReportHeadModel,
    arch: Arch,
    threads: Seq<ReportThreadModel>,
)
    ensures
        ({
            let state = state_of_report(head, arch, threads);
            let properties = inserted(head.metadata);
            &&& head.timestamp is None <==> state.timestamp is None
            &&& head.timestamp matches Some(seconds) ==> (seconds >= 0 ==> (
            state.timestamp matches Some(timestamp) && timestamp == seconds))
            &&& head.timestamp matches Some(seconds) ==> (seconds < 0 ==> (
            state.timestamp matches Some(timestamp) && timestamp == seconds
                + 0x1_0000_0000_0000_0000))
            &&& properties.contains_key("OS Version"@) ==> state.system_info.os_name
                == properties["OS Version"@]
            &&& !properties.contains_key("OS Version"@) ==> state.system_info.os_name.len() == 0
            &&& properties.contains_key("Hardware Model"@) ==> state.system_info.device_model
                == properties["Hardware Model"@]
            &&& !properties.contains_key("Hardware Model"@)
                ==> state.system_info.device_model.len() == 0
            &&& state.system_info.os_version.len() == 0
            &&& state.system_info.os_build.len() == 0
            &&& state.system_info.cpu_arch == arch
            &&& state.app_info == head.application_specific_information
            &&& state.thread_ids.len() == threads.len()
            &&& forall|i: int|
                0 <= i < threads.len() ==> #[trigger] state.thread_ids[i] == threads[i].id
        }),
{
    if let Some(seconds) = head.timestamp {
        assert(seconds < 0 ==> (seconds as u64) as int == seconds + 0x1_0000_0000_0000_0000)
            by (bit_vector);
    }
}

/// The thread that is taken for the crashed one did crash, and none behind it did.
pub proof fn law_report_crashed_thread(
    head: ReportHeadModel,
    arch: Arch,
    threads: Seq<ReportThreadModel>,
)
    requires
        threads.len() <= usize::MAX,
    ensures
        match state_of_report(head, arch, threads).crashed_thread_index {
            Some(index) => {
                &&& index < threads.len()
                &&& threads[index as int].crashed
                &&& forall|i: int| index < i < threads.len() ==> !(#[trigger] threads[i]).crashed
            },
            None => forall|i: int| 0 <= i < threads.len() ==> !(#[trigger] threads[i]).crashed,
        },
{
    crate::apple::law_last_crashed(threads);
}

/// What a crash report says of the system comes out as it is. Only where the architecture is not
/// known it is that of an image, of the first one that has any.
pub proof fn law_report_system(state: AppleModel, response: CompletedModel)
    ensures
        merged_report(state, response).system_info matches Some(system) && {
            &&& system.os_name == state.system_info.os_name
            &&& system.os_version == state.system_info.os_version
            &&& system.os_build == state.system_info.os_build
            &&& system.device_model == state.system_info.device_model
            &&& state.system_info.cpu_arch != Arch::Unknown ==> system.cpu_arch
                == state.system_info.cpu_arch
            &&& state.system_info.cpu_arch == Arch::Unknown ==> {
                &&& system.cpu_arch == Arch::Unknown <==> forall|i: int|
                    0 <= i < response.modules.len() ==> (#[trigger] response.modules[i]).arch
                        == Arch::Unknown
                &&& forall|i: int|
                    #![trigger response.modules[i]]
                    0 <= i < response.modules.len() && response.modules[i].arch != Arch::Unknown
                        && (forall|j: int|
                        0 <= j < i ==> (#[trigger] response.modules[j]).arch == Arch::Unknown)
                        ==> system.cpu_arch == response.modules[i].arch
            }
        },
{
    lemma_first_arch(response.modules);
}

/// Each of the first stack traces gets the identifier of its thread from the crash report, and is
/// marked where it is that of the crashed thread.
pub proof fn law_report_thread_ids(state: AppleModel, response: CompletedModel, i: int)
    requires
        0 <= i < response.stacktraces.len(),
    ensures
        ({
            let thread = merged_report(state, response).stacktraces[i];
            &&& i < state.thread_ids.len() ==> thread.thread_id == Some(state.thread_ids[i])
            &&& i < state.thread_ids.len() ==> (thread.is_requesting is Some
                <==> state.crashed_thread_index is Some)
            &&& i < state.thread_ids.len() ==> (thread.is_requesting == Some(true) <==> (
            state.crashed_thread_index matches Some(index) && index == i))
            &&& i >= state.thread_ids.len() ==> thread == response.stacktraces[i]
            &&& thread.frames == response.stacktraces[i].frames
            &&& thread.registers == response.stacktraces[i].registers
        }),
{
}

/// A property that is given is found, and where it is given again the last one counts.
pub proof fn law_property(metadata: Seq<(Seq<char>, Seq<char>)>, i: int, name: Seq<char>)
    ensures
        0 <= i < metadata.len() && metadata[i].0 == name && (forall|j: int|
            i < j < metadata.len() ==> (#[trigger] metadata[j]).0 != name) ==> property(
            metadata,
            name,
        ) == metadata[i].1,
        (forall|j: int| 0 <= j < metadata.len() ==> (#[trigger] metadata[j]).0 != name) ==> property(
            metadata,
            name,
        ).len() == 0,
{
    crate::string_map::law_inserted(metadata, i, name);
}

/// The unwind information of a module is that of the last outcome for the module that holds some which
/// the stack walker can be given.
pub proof fn law_last_frame_info(outcomes: Seq<CfiOutcomeModel>, i: int, data: Seq<u8>)
    requires
        0 <= i < outcomes.len(),
        walkable_cfi(outcomes[i].1) == Some(data),
        forall|j: int|
            i < j < outcomes.len() ==> (#[trigger] outcomes[j]).0 != outcomes[i].0 || walkable_cfi(
                outcomes[j].1,
            ) is None,
    ensures
        frame_infos(outcomes).contains_key(outcomes[i].0),
        frame_infos(outcomes)[outcomes[i].0] == data,
    decreases outcomes.len(),
{
    let rest = outcomes.drop_last();
    let n = outcomes.len() - 1;
    if i < n {
        assert(outcomes[n].0 != outcomes[i].0 || walkable_cfi(outcomes[n].1) is None);
        assert forall|j: int| i < j < rest.len() implies (#[trigger] rest[j]).0 != rest[i].0
            || walkable_cfi(rest[j].1) is None by {
            assert(outcomes[j].0 != outcomes[i].0 || walkable_cfi(outcomes[j].1) is None);
        }
        law_last_frame_info(rest, i, data);
    }
}

/// There is no result on account of a return address only where one does not fit: on ARM two more
/// are added to it, on 64-bit ARM four, and nothing on any other CPU.
pub proof fn law_returns_fit(arch: Arch, threads: Seq<ThreadWithRegistersModel>)
    ensures
        all_returns_fit(arch, threads) <==> forall|t: int, f: int|
            #![trigger threads[t].0.frames[f]]
            0 <= t < threads.len() && 0 <= f < threads[t].0.frames.len()
                ==> threads[t].0.frames[f].return_address + (if arch.family() == CpuFamily::Arm32 {
                2int
            } else if arch.family() == CpuFamily::Arm64 {
                4
            } else {
                0
            }) <= u64::MAX,
{
    if all_returns_fit(arch, threads) {
        assert forall|t: int, f: int|
            #![trigger threads[t].0.frames[f]]
            0 <= t < threads.len() && 0 <= f < threads[t].0.frames.len() implies threads[t].0.frames[f].return_address
            + (if arch.family() == CpuFamily::Arm32 {
            2int
        } else if arch.family() == CpuFamily::Arm64 {
            4
        } else {
            0
        }) <= u64::MAX by {
            assert(returns_fit(arch, threads[t].0.frames));
        }
    }
    if forall|t: int, f: int|
        #![trigger threads[t].0.frames[f]]
        0 <= t < threads.len() && 0 <= f < threads[t].0.frames.len()
            ==> threads[t].0.frames[f].return_address + (if arch.family() == CpuFamily::Arm32 {
            2int
        } else if arch.family() == CpuFamily::Arm64 {
            4
        } else {
            0
        }) <= u64::MAX {
        assert forall|t: int| 0 <= t < threads.len() implies returns_fit(
            arch,
            (#[trigger] threads[t]).0.frames,
        ) by {
            assert forall|f: int| 0 <= f < threads[t].0.frames.len() implies (
            #[trigger] threads[t].0.frames[f]).return_address + crate::minidump::return_offset(
                arch.family(),
            ) <= u64::MAX by {}
        }
    }
}

/// A minidump is of use where all of it was read, or all but its threads.
pub proof fn law_usable_results(result: u32)
    ensures
        is_usable(result) <==> result == 0 || result == 3,
{
}

} // verus!
