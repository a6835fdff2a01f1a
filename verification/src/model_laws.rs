//! The models of the types lose nothing: each says what the fields of the value hold.

use vstd::prelude::*;

use crate::apple::AppleCrashReportState;
use crate::crash_report::{BinaryImage, ReportFrame, ReportHead, ReportThread};
use crate::fetch::FetchCache;
use crate::minidump::MinidumpState;
use crate::object_id::ObjectId;
use crate::processor::{CodeModule, ProcessSummary, RegVal, WalkedFrame, WalkedThread};
use crate::response::{ResponseModel, SymbolicationResponse};
use crate::string_map::StringMap;
use crate::symcache::{CacheContents, ContentsModel, LineRecord, SymCacheFile};
use crate::types::{
    CompleteObjectInfo, CompleteStacktrace, CompletedSymbolicationResponse, FilesystemSourceConfig,
    HexValue, RawFrame, RawObjectInfo, RawStacktrace, Scope, ScopeModel, SourceConfig,
    SymbolicateStacktraces, SymbolicatedFrame, SystemInfo,
};

verus! {

/// The model of registers has the value of each under its name.
pub proof fn law_model_of_registers(registers: StringMap<HexValue>, name: Seq<char>)
    ensures
        registers.deep_view().contains_key(name) == registers@.contains_key(name),
        registers@.contains_key(name) ==> registers.deep_view()[name] == registers@[name].0,
{
}

/// The model of a frame has its address, its file and its trust.
pub proof fn law_model_of_raw_frame(frame: RawFrame)
    ensures
        frame.deep_view().instruction_addr == frame.instruction_addr.0,
        frame.deep_view().package == frame.package.deep_view(),
        frame.deep_view().trust == frame.trust,
{
}

/// The model of a stack trace has its registers, and its frames in their order.
pub proof fn law_model_of_raw_stacktrace(stacktrace: RawStacktrace, i: int)
    requires
        0 <= i < stacktrace.frames.len(),
    ensures
        stacktrace.deep_view().registers == stacktrace.registers.deep_view(),
        stacktrace.deep_view().frames.len() == stacktrace.frames.len(),
        stacktrace.deep_view().frames[i] == stacktrace.frames@[i].deep_view(),
{
}

/// The model of a symbolicated frame has all that was found.
pub proof fn law_model_of_frame(frame: SymbolicatedFrame)
    ensures
        frame.deep_view().status == frame.status,
        frame.deep_view().original_index == frame.original_index,
        frame.deep_view().raw == frame.raw.deep_view(),
        frame.deep_view().lang == frame.lang,
        frame.deep_view().symbol == frame.symbol.deep_view(),
        frame.deep_view().function == frame.function.deep_view(),
        frame.deep_view().filename == frame.filename.deep_view(),
        frame.deep_view().abs_path == frame.abs_path.deep_view(),
        frame.deep_view().lineno == frame.lineno,
        frame.sym_addr is None ==> frame.deep_view().sym_addr is None,
        frame.sym_addr matches Some(addr) ==> frame.deep_view().sym_addr == Some(addr.0),
{
}

/// The model of a symbolicated stack trace has its thread, its registers, and its frames in their
/// order.
pub proof fn law_model_of_stacktrace(stacktrace: CompleteStacktrace, i: int)
    requires
        0 <= i < stacktrace.frames.len(),
    ensures
        stacktrace.deep_view().thread_id == stacktrace.thread_id,
        stacktrace.deep_view().is_requesting == stacktrace.is_requesting,
        stacktrace.deep_view().registers == stacktrace.registers.deep_view(),
        stacktrace.deep_view().frames.len() == stacktrace.frames.len(),
        stacktrace.deep_view().frames[i] == stacktrace.frames@[i].deep_view(),
{
}

/// The model of a module of a request has all that the request says of it.
pub proof fn law_model_of_raw_object(object: RawObjectInfo)
    ensures
        object.deep_view().ty == object.ty.0@,
        object.deep_view().code_id == object.code_id.deep_view(),
        object.deep_view().code_file == object.code_file.deep_view(),
        object.deep_view().debug_id == object.debug_id.deep_view(),
        object.deep_view().debug_file == object.debug_file.deep_view(),
        object.deep_view().image_addr == object.image_addr.0,
        object.deep_view().image_size == object.image_size,
{
}

/// The model of a module has what was found out about it.
pub proof fn law_model_of_object(object: CompleteObjectInfo)
    ensures
        object.deep_view().debug_status == object.debug_status,
        object.deep_view().unwind_status == object.unwind_status,
        object.deep_view().arch == object.arch,
        object.deep_view().raw == object.raw.deep_view(),
{
}

/// The model of a system has all that is known of it.
pub proof fn law_model_of_system(system: SystemInfo)
    ensures
        system.deep_view().os_name == system.os_name@,
        system.deep_view().os_version == system.os_version@,
        system.deep_view().os_build == system.os_build@,
        system.deep_view().cpu_arch == system.cpu_arch,
        system.deep_view().device_model == system.device_model@,
{
}

/// The model of a result has all that it says of the process.
pub proof fn law_model_of_completed(response: CompletedSymbolicationResponse)
    ensures
        response.deep_view().timestamp == response.timestamp,
        response.signal is None ==> response.deep_view().signal is None,
        response.signal matches Some(signal) ==> response.deep_view().signal == Some(signal.0),
        response.system_info is None ==> response.deep_view().system_info is None,
        response.system_info matches Some(system) ==> response.deep_view().system_info == Some(
            system.deep_view(),
        ),
        response.deep_view().crashed == response.crashed,
        response.deep_view().crash_reason == response.crash_reason.deep_view(),
        response.deep_view().assertion == response.assertion.deep_view(),
        response.deep_view().stacktraces.len() == response.stacktraces.len(),
        forall|i: int|
            0 <= i < response.stacktraces.len() ==> #[trigger] response.deep_view().stacktraces[i]
                == response.stacktraces@[i].deep_view(),
        response.deep_view().modules.len() == response.modules.len(),
        forall|i: int|
            0 <= i < response.modules.len() ==> #[trigger] response.deep_view().modules[i]
                == response.modules@[i].deep_view(),
{
}

/// The model of a request has all that it asks for.
pub proof fn law_model_of_request(request: SymbolicateStacktraces)
    ensures
        request.deep_view().scope == request.scope.deep_view(),
        request.signal is None ==> request.deep_view().signal is None,
        request.signal matches Some(signal) ==> request.deep_view().signal == Some(signal.0),
        request.deep_view().sources == request.sources.deep_view(),
        request.deep_view().stacktraces.len() == request.stacktraces.len(),
        forall|i: int|
            0 <= i < request.stacktraces.len() ==> #[trigger] request.deep_view().stacktraces[i]
                == request.stacktraces@[i].deep_view(),
        request.deep_view().modules.len() == request.modules.len(),
        forall|i: int|
            0 <= i < request.modules.len() ==> #[trigger] request.deep_view().modules[i]
                == request.modules@[i].deep_view(),
{
}

/// The models of scopes and sources tell them apart.
pub proof fn law_model_of_scope(scope: Scope, source: FilesystemSourceConfig)
    ensures
        scope is Global <==> scope.deep_view() is Global,
        scope matches Scope::Scoped(name) ==> scope.deep_view() == ScopeModel::Scoped(name@),
        SourceConfig::Filesystem(source).deep_view().id == source.id@,
        SourceConfig::Filesystem(source).deep_view().path == source.path@,
        SourceConfig::Filesystem(source).deep_view().files == source.files.deep_view(),
{
}

/// The model of a line has all that the symbol cache says of it.
pub proof fn law_model_of_line(line: LineRecord)
    ensures
        line.deep_view().compilation_dir == line.compilation_dir@,
        line.deep_view().path == line.path@,
        line.deep_view().filename == line.filename@,
        line.deep_view().language == line.language,
        line.deep_view().symbol == line.symbol@,
        line.deep_view().line == line.line,
        line.deep_view().function_address == line.function_address,
        line.deep_view().instruction_address == line.instruction_address,
{
}

/// The model of a symbol cache has its architecture and its contents.
pub proof fn law_model_of_symcache(file: SymCacheFile)
    ensures
        file.deep_view().arch == file.arch,
        file.contents is Negative <==> file.deep_view().contents is Negative,
        file.contents is Malformed <==> file.deep_view().contents is Malformed,
        file.contents matches CacheContents::Positive(data) ==> file.deep_view().contents
            == ContentsModel::Positive(data@),
{
}

/// The model of what is fetched has what it is searched by and where.
pub proof fn law_model_of_fetch(fetch: FetchCache, id: ObjectId)
    ensures
        fetch.deep_view().object_type == fetch.object_type.0@,
        fetch.deep_view().identifier == fetch.identifier.deep_view(),
        fetch.deep_view().sources == fetch.sources.deep_view(),
        fetch.deep_view().scope == fetch.scope.deep_view(),
        id.code_id is None ==> id.deep_view().code_id is None,
        id.code_id matches Some(text) ==> id.deep_view().code_id == Some(text.0@),
        id.deep_view().code_file == id.code_file.deep_view(),
        id.debug_id is None ==> id.deep_view().debug_id is None,
        id.debug_id matches Some(text) ==> id.deep_view().debug_id == Some(text.0@),
        id.deep_view().debug_file == id.debug_file.deep_view(),
{
}

/// The models of what the stack walker finds have all of it.
pub proof fn law_model_of_walk(
    module: CodeModule,
    frame: WalkedFrame,
    thread: WalkedThread,
    value: RegVal,
)
    ensures
        module.deep_view().base_address == module.base_address,
        module.deep_view().size == module.size,
        module.deep_view().code_file == module.code_file@,
        module.deep_view().code_identifier == module.code_identifier@,
        module.deep_view().debug_file == module.debug_file@,
        module.deep_view().debug_identifier == module.debug_identifier@,
        frame.deep_view().return_address == frame.return_address,
        frame.deep_view().code_file == frame.code_file.deep_view(),
        frame.deep_view().trust == frame.trust,
        thread.deep_view().thread_id == thread.thread_id,
        thread.deep_view().frames == thread.frames.deep_view(),
        value.deep_view() == value,
{
}

/// The models of what a minidump says of the process have all of it.
pub proof fn law_model_of_process(summary: ProcessSummary, state: MinidumpState)
    ensures
        summary.deep_view().timestamp == summary.timestamp,
        summary.deep_view().crashed == summary.crashed,
        summary.deep_view().crash_reason == summary.crash_reason@,
        summary.deep_view().assertion == summary.assertion@,
        summary.deep_view().requesting_thread == summary.requesting_thread,
        summary.deep_view().os_name == summary.os_name@,
        summary.deep_view().os_version == summary.os_version@,
        summary.deep_view().os_build == summary.os_build@,
        summary.deep_view().cpu_family == summary.cpu_family@,
        state.deep_view().timestamp == state.timestamp,
        state.deep_view().system_info == state.system_info.deep_view(),
        state.deep_view().crashed == state.crashed,
        state.deep_view().crash_reason == state.crash_reason@,
        state.deep_view().assertion == state.assertion@,
        state.deep_view().requesting_thread_index == state.requesting_thread_index,
        state.deep_view().thread_ids == state.thread_ids@,
{
}

/// The models of what a crash report says have all of it.
pub proof fn law_model_of_report(
    head: ReportHead,
    frame: ReportFrame,
    thread: ReportThread,
    image: BinaryImage,
    state: AppleCrashReportState,
)
    ensures
        head.deep_view().timestamp == head.timestamp,
        head.deep_view().code_type == head.code_type.deep_view(),
        head.deep_view().application_specific_information
            == head.application_specific_information.deep_view(),
        head.deep_view().metadata == head.metadata.deep_view(),
        frame.deep_view().module == frame.module.deep_view(),
        frame.deep_view().instruction_addr == frame.instruction_addr,
        thread.deep_view().id == thread.id,
        thread.deep_view().crashed == thread.crashed,
        thread.deep_view().frames == thread.frames.deep_view(),
        thread.deep_view().registers == thread.registers.deep_view(),
        image.deep_view().addr == image.addr,
        image.deep_view().size == image.size,
        image.deep_view().uuid == image.uuid@,
        image.deep_view().path == image.path@,
        state.deep_view().timestamp == state.timestamp,
        state.deep_view().system_info == state.system_info.deep_view(),
        state.deep_view().app_info == state.app_info.deep_view(),
        state.deep_view().thread_ids == state.thread_ids@,
        state.deep_view().crashed_thread_index == state.crashed_thread_index,
{
}

/// The model of an answer has what is answered.
pub proof fn law_model_of_response(response: SymbolicationResponse)
    ensures
        response matches SymbolicationResponse::Pending { request_id, retry_after }
            ==> response.deep_view() == (ResponseModel::Pending {
            request_id: request_id.0@,
            retry_after,
        }),
        response matches SymbolicationResponse::Completed(result) ==> response.deep_view()
            == ResponseModel::Completed(result.deep_view()),
        response matches SymbolicationResponse::Failed { message } ==> response.deep_view() == (
        ResponseModel::Failed { message: message@ }),
        response is Timeout <==> response.deep_view() is Timeout,
        response is InternalError <==> response.deep_view() is InternalError,
{
}

} // verus!
