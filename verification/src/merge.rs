//! What a crash report says of the process, added to the result of its symbolication.

use vstd::prelude::*;

use crate::arch::Arch;
use crate::lookup::ImageModel;
use crate::minidump::{
    request_of_minidump, state_of_minidump, walked_stacktrace, MinidumpModel, MinidumpState,
    ThreadWithRegistersModel,
};
use crate::processor::{CodeModuleModel, SummaryModel};
use crate::response::SymbolicationError;
use crate::symbolize::{symbolicated, symbolized_thread};
use crate::types::{
    CompleteObjectInfo, CompleteStacktrace, CompletedModel, CompletedSymbolicationResponse,
    ObjectFileStatus, ObjectModel, ScopeModel, SourceModel, StacktraceModel, SystemInfo,
    SystemModel,
};

verus! {

/// The architecture of the first module whose architecture is known.
pub open spec fn first_known_arch(modules: Seq<ObjectModel>) -> Arch
    decreases modules.len(),
{
    if modules.len() == 0 {
        Arch::Unknown
    } else if modules[0].arch != Arch::Unknown {
        modules[0].arch
    } else {
        first_known_arch(modules.drop_first())
    }
}

/// The system, with the architecture of the modules where its own is not known.
pub open spec fn with_inferred_arch(
    system: SystemModel,
    modules: Seq<ObjectModel>,
) -> SystemModel {
    if system.cpu_arch == Arch::Unknown {
        SystemModel { cpu_arch: first_known_arch(modules), ..system }
    } else {
        system
    }
}

/// The stack traces with the identifiers of their threads, as far as there are any, and with
/// whether each is that of the requesting thread, where that is known.
pub open spec fn identified_threads(
    stacktraces: Seq<StacktraceModel>,
    thread_ids: Seq<u64>,
    requesting: Option<usize>,
) -> Seq<StacktraceModel> {
    Seq::new(
        stacktraces.len(),
        |i: int|
            if i < thread_ids.len() {
                StacktraceModel {
                    thread_id: Some(thread_ids[i]),
                    is_requesting: match requesting {
                        Some(index) => Some(index == i),
                        None => None,
                    },
                    ..stacktraces[i]
                }
            } else {
                stacktraces[i]
            },
    )
}

/// The architecture of the system is not known only where that of no module is. Otherwise it is that
/// of the first module whose architecture is known.
pub proof fn law_first_known_arch(modules: Seq<ObjectModel>)
    ensures
        first_known_arch(modules) == Arch::Unknown <==> forall|i: int|
            0 <= i < modules.len() ==> (#[trigger] modules[i]).arch == Arch::Unknown,
        first_known_arch(modules) != Arch::Unknown ==> exists|i: int|
            0 <= i < modules.len() && (#[trigger] modules[i]).arch == first_known_arch(modules)
                && forall|j: int| 0 <= j < i ==> (#[trigger] modules[j]).arch == Arch::Unknown,
    decreases modules.len(),
{
    if modules.len() > 0 {
        let rest = modules.drop_first();
        law_first_known_arch(rest);
        if modules[0].arch != Arch::Unknown {
            assert(modules[0].arch == first_known_arch(modules));
        } else {
            if first_known_arch(modules) == Arch::Unknown {
                assert forall|i: int| 0 <= i < modules.len() implies (#[trigger] modules[i]).arch
                    == Arch::Unknown by {
                    if i > 0 {
                        assert(modules[i] == rest[i - 1]);
                    }
                }
            } else {
                let k = choose|k: int|
                    0 <= k < rest.len() && (#[trigger] rest[k]).arch == first_known_arch(rest)
                        && forall|j: int| 0 <= j < k ==> (#[trigger] rest[j]).arch == Arch::Unknown;
                assert(modules[k + 1] == rest[k]);
                assert forall|j: int| 0 <= j < k + 1 implies (#[trigger] modules[j]).arch
                    == Arch::Unknown by {
                    if j > 0 {
                        assert(modules[j] == rest[j - 1]);
                    }
                }
            }
        }
    }
}

/// Where the requesting thread is known and has an identifier, it is the only one that is marked.
/// Frames and registers stay as they are.
pub proof fn law_one_requesting_thread(
    stacktraces: Seq<StacktraceModel>,
    thread_ids: Seq<u64>,
    requesting: usize,
)
    requires
        requesting < thread_ids.len() == stacktraces.len(),
    ensures
        ({
            let merged = identified_threads(stacktraces, thread_ids, Some(requesting));
            &&& merged.len() == stacktraces.len()
            &&& forall|i: int|
                #![trigger merged[i]]
                0 <= i < merged.len() ==> {
                    &&& merged[i].is_requesting == Some(i == requesting)
                    &&& merged[i].frames == stacktraces[i].frames
                    &&& merged[i].registers == stacktraces[i].registers
                }
        }),
{
}

/// The system, with the architecture of the modules where its own is not known.
pub fn infer_arch(system_info: SystemInfo, modules: &Vec<CompleteObjectInfo>) -> (r: SystemInfo)
    ensures
        r.deep_view() == with_inferred_arch(system_info.deep_view(), modules.deep_view()),
        r.os_name@ == system_info.os_name@,
        r.os_version@ == system_info.os_version@,
        r.os_build@ == system_info.os_build@,
        r.device_model@ == system_info.device_model@,
        system_info.cpu_arch != Arch::Unknown ==> r.cpu_arch == system_info.cpu_arch,
{
    let mut system_info = system_info;
    if system_info.cpu_arch == Arch::Unknown {
        let ghost model = modules.deep_view();
        let mut i: usize = 0;
        assert(model.skip(0) =~= model);
        while i < modules.len() && modules[i].arch == Arch::Unknown
            invariant
                model == modules.deep_view(),
                0 <= i <= modules.len(),
                first_known_arch(model.skip(i as int)) == first_known_arch(model),
            decreases modules.len() - i,
        {
            assert(model.skip(i as int)[0] == modules@[i as int].deep_view());
            assert(model.skip(i as int).drop_first() =~= model.skip(i + 1));
            i += 1;
        }
        if i < modules.len() {
            assert(model.skip(i as int)[0] == modules@[i as int].deep_view());
            system_info.cpu_arch = modules[i].arch;
        }
    }
    system_info
}

/// Adds the identifiers of their threads to stack traces, as far as there are any, and whether each
/// is that of the requesting thread, where that is known.
pub fn identify_threads(
    stacktraces: &mut Vec<CompleteStacktrace>,
    thread_ids: &Vec<u64>,
    requesting: Option<usize>,
)
    ensures
        final(stacktraces).deep_view() == identified_threads(
            old(stacktraces).deep_view(),
            thread_ids@,
            requesting,
        ),
{
    let ghost model = stacktraces.deep_view();
    let ghost merged = identified_threads(model, thread_ids@, requesting);
    let mut i: usize = 0;
    while i < stacktraces.len() && i < thread_ids.len()
        invariant
            stacktraces.len() == model.len(),
            0 <= i <= stacktraces.len(),
            merged == identified_threads(model, thread_ids@, requesting),
            forall|j: int|
                #![trigger stacktraces@[j]]
                0 <= j < stacktraces.len() ==> stacktraces@[j].deep_view() == (if j < i {
                    merged[j]
                } else {
                    model[j]
                }),
            i <= thread_ids.len(),
        decreases stacktraces.len() - i,
    {
        assert(stacktraces@[i as int].deep_view() == model[i as int]);
        stacktraces[i].is_requesting = match requesting {
            Some(index) => Some(index == i),
            None => None,
        };
        stacktraces[i].thread_id = Some(thread_ids[i]);
        i += 1;
    }
    assert(stacktraces.deep_view() =~= merged);
}

/// The result of symbolication, with what a minidump says of the process.
pub open spec fn merged_minidump(state: MinidumpModel, response: CompletedModel) -> CompletedModel {
    CompletedModel {
        timestamp: Some(state.timestamp),
        signal: response.signal,
        system_info: Some(with_inferred_arch(state.system_info, response.modules)),
        crashed: Some(state.crashed),
        crash_reason: Some(state.crash_reason),
        assertion: Some(state.assertion),
        stacktraces: identified_threads(
            response.stacktraces,
            state.thread_ids.map_values(|id: u32| id as u64),
            state.requesting_thread_index,
        ),
        modules: response.modules,
    }
}

/// Each thread of a minidump comes out of symbolication in its place, with its identifier and its
/// frames symbolicated.
pub proof fn law_minidump_threads(
    summary: SummaryModel,
    arch: Arch,
    modules: Seq<CodeModuleModel>,
    threads: Seq<ThreadWithRegistersModel>,
    statuses: Map<Seq<char>, ObjectFileStatus>,
    scope: ScopeModel,
    sources: Seq<SourceModel>,
    images: Seq<ImageModel>,
)
    ensures
        ({
            let request = request_of_minidump(
                summary,
                arch,
                modules,
                threads,
                statuses,
                scope,
                sources,
            );
            let response = merged_minidump(
                state_of_minidump(summary, arch, threads),
                symbolicated(images, request.stacktraces, request.signal),
            );
            &&& response.stacktraces.len() == threads.len()
            &&& forall|i: int|
                #![trigger response.stacktraces[i]]
                0 <= i < threads.len() ==> {
                    &&& response.stacktraces[i].thread_id == Some(threads[i].0.thread_id as u64)
                    &&& response.stacktraces[i].frames == symbolized_thread(
                        walked_stacktrace(arch, threads[i]),
                        images,
                        None,
                    ).frames
                    &&& response.stacktraces[i].is_requesting == (if summary.requesting_thread
                        >= 0 {
                        Some(summary.requesting_thread == i)
                    } else {
                        None
                    })
                }
        }),
{
}

impl MinidumpState {
    /// Adds what the minidump says of the process to the result of symbolication.
    pub fn merge_into(self, response: &mut CompletedSymbolicationResponse)
        ensures
            final(response).deep_view() == merged_minidump(
                self.deep_view(),
                old(response).deep_view(),
            ),
    {
        let mut thread_ids: Vec<u64> = Vec::new();
        let mut i: usize = 0;
        while i < self.thread_ids.len()
            invariant
                0 <= i <= self.thread_ids.len(),
                thread_ids.len() == i,
                forall|j: int|
                    0 <= j < i ==> #[trigger] thread_ids@[j] == self.thread_ids@[j] as u64,
            decreases self.thread_ids.len() - i,
        {
            thread_ids.push(self.thread_ids[i] as u64);
            i += 1;
        }
        assert(thread_ids@ =~= self.thread_ids@.map_values(|id: u32| id as u64));
        response.timestamp = Some(self.timestamp);
        response.system_info = Some(infer_arch(self.system_info, &response.modules));
        response.crashed = Some(self.crashed);
        response.crash_reason = Some(self.crash_reason);
        response.assertion = Some(self.assertion);
        identify_threads(
            &mut response.stacktraces,
            &thread_ids,
            self.requesting_thread_index,
        );
    }
}

/// A minidump takes nothing away from the result of symbolication: modules and signal stay as they
/// are, and so do the stack traces but for the identifiers of their threads and the mark of the
/// requesting one. What it says of the process is added.
pub proof fn law_minidump_keeps_symbolication(state: MinidumpModel, response: CompletedModel)
    ensures
        ({
            let merged = merged_minidump(state, response);
            &&& merged.modules == response.modules
            &&& merged.signal == response.signal
            &&& merged.stacktraces.len() == response.stacktraces.len()
            &&& forall|i: int|
                #![trigger merged.stacktraces[i]]
                0 <= i < merged.stacktraces.len() ==> merged.stacktraces[i] == (StacktraceModel {
                    thread_id: merged.stacktraces[i].thread_id,
                    is_requesting: merged.stacktraces[i].is_requesting,
                    ..response.stacktraces[i]
                })
            &&& merged.timestamp == Some(state.timestamp)
            &&& merged.crashed == Some(state.crashed)
            &&& merged.crash_reason == Some(state.crash_reason)
            &&& merged.assertion == Some(state.assertion)
            &&& merged.system_info is Some
        }),
{
}

/// What processing a minidump gives, given what came of walking its stacks and, where that worked,
/// of symbolication. The error of either is handed on. Otherwise what the minidump says of the
/// process is added to the result of symbolication.
pub fn finish_minidump(
    walked: Result<
        (MinidumpState, Result<CompletedSymbolicationResponse, SymbolicationError>),
        SymbolicationError,
    >,
) -> (r: Result<CompletedSymbolicationResponse, SymbolicationError>)
    ensures
        match walked {
            Ok((state, Ok(response))) => r matches Ok(merged) && merged.deep_view()
                == merged_minidump(state.deep_view(), response.deep_view()),
            Ok((_, Err(err))) => r == Err::<CompletedSymbolicationResponse, _>(err),
            Err(err) => r == Err::<CompletedSymbolicationResponse, _>(err),
        },
{
    match walked {
        Ok((state, Ok(response))) => {
            let mut response = response;
            state.merge_into(&mut response);
            Ok(response)
        },
        Ok((_, Err(err))) => Err(err),
        Err(err) => Err(err),
    }
}

/// The first stack traces get the identifiers in their order, and each is marked as requesting or
/// not where the requesting one is known. The others stay as they are, and so do all frames and
/// registers.
pub proof fn law_identified_threads(
    stacktraces: Seq<StacktraceModel>,
    thread_ids: Seq<u64>,
    requesting: Option<usize>,
    i: int,
)
    requires
        0 <= i < stacktraces.len(),
    ensures
        ({
            let threads = identified_threads(stacktraces, thread_ids, requesting);
            &&& threads.len() == stacktraces.len()
            &&& threads[i].frames == stacktraces[i].frames
            &&& threads[i].registers == stacktraces[i].registers
            &&& i < thread_ids.len() ==> threads[i].thread_id == Some(thread_ids[i])
            &&& i < thread_ids.len() ==> (threads[i].is_requesting is Some <==> requesting is Some)
            &&& i < thread_ids.len() ==> (threads[i].is_requesting == Some(true) <==> (
            requesting matches Some(index) && index == i))
            &&& i >= thread_ids.len() ==> threads[i] == stacktraces[i]
        }),
{
}

/// What a minidump says of the system comes out as it is. Only where the architecture is not known it
/// is that of a module, of the first one that has any.
pub proof fn law_minidump_system(state: MinidumpModel, response: CompletedModel)
    ensures
        merged_minidump(state, response).system_info matches Some(system) && {
            &&& system.os_name == state.system_info.os_name
            &&& system.os_version == state.system_info.os_version
            &&& system.os_build == state.system_info.os_build
            &&& system.device_model == state.system_info.device_model
            &&& state.system_info.cpu_arch != Arch::Unknown ==> system.cpu_arch
                == state.system_info.cpu_arch
            &&& state.system_info.cpu_arch == Arch::Unknown ==> {
                &&& system.cpu_arch == Arch::Unknown <==> forall|i: int|
                    0 <= i < response.modules.len() ==> (#[trigger] response.modules[i]).arch
                        == Arch::Unknown
                &&& forall|i: int|
                    #![trigger response.modules[i]]
                    0 <= i < response.modules.len() && response.modules[i].arch != Arch::Unknown
                        && (forall|j: int|
                        0 <= j < i ==> (#[trigger] response.modules[j]).arch == Arch::Unknown)
                        ==> system.cpu_arch == response.modules[i].arch
            }
        },
{
    lemma_first_arch(response.modules);
}

/// Each of the first stack traces gets the number of its thread from the minidump, and is marked
/// where it is that of the thread that asked for the minidump.
pub proof fn law_minidump_thread_ids(state: MinidumpModel, response: CompletedModel, i: int)
    requires
        0 <= i < response.stacktraces.len(),
        i < state.thread_ids.len(),
    ensures
        ({
            let thread = merged_minidump(state, response).stacktraces[i];
            &&& thread.thread_id matches Some(id) && id == state.thread_ids[i]
            &&& thread.is_requesting is Some <==> state.requesting_thread_index is Some
            &&& thread.is_requesting == Some(true) <==> (
            state.requesting_thread_index matches Some(index) && index == i)
        }),
{
}

/// The architecture that is inferred is that of the first module that has any.
pub(crate) proof fn lemma_first_arch(modules: Seq<ObjectModel>)
    ensures
        first_known_arch(modules) == Arch::Unknown <==> forall|i: int|
            0 <= i < modules.len() ==> (#[trigger] modules[i]).arch == Arch::Unknown,
        forall|i: int|
            #![trigger modules[i]]
            0 <= i < modules.len() && modules[i].arch != Arch::Unknown && (forall|j: int|
                0 <= j < i ==> (#[trigger] modules[j]).arch == Arch::Unknown)
                ==> first_known_arch(modules) == modules[i].arch,
{
    law_first_known_arch(modules);
    assert forall|i: int|
        #![trigger modules[i]]
        0 <= i < modules.len() && modules[i].arch != Arch::Unknown && (forall|j: int|
            0 <= j < i ==> (#[trigger] modules[j]).arch == Arch::Unknown) implies first_known_arch(
        modules,
    ) == modules[i].arch by {
        let k = choose|k: int|
            0 <= k < modules.len() && (#[trigger] modules[k]).arch == first_known_arch(modules)
                && forall|j: int| 0 <= j < k ==> (#[trigger] modules[j]).arch == Arch::Unknown;
        assert(!(k < i));
        assert(!(i < k));
    }
}

} // verus!
