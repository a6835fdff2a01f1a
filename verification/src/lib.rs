//! Symbolication of native stack traces, minidumps and Apple crash reports.

pub mod apple;
pub mod arch;
pub mod crash_report;
pub mod demangle;
pub mod dump_laws;
pub mod fetch;
pub mod frame_laws;
pub mod image_laws;
pub mod layout;
pub mod lookup;
pub mod merge;
pub mod minidump;
pub mod model_laws;
pub mod name_laws;
pub mod object_id;
pub mod processor;
pub mod report_laws;
pub mod requests;
pub mod response;
pub mod stackwalk;
pub mod string_map;
pub mod swift;
pub mod symbolize;
pub mod symcache;
mod text;
pub mod thread_laws;
pub mod types;
pub mod unwind;

pub use apple::{
    finish_apple_crash_report, map_apple_binary_image, parse_apple_crash_report, report_request,
    AppleCrashReportState,
};
pub use arch::{Arch, CpuFamily, FrameTrust, Language};
pub use crash_report::{BinaryImage, ReportFrame, ReportHead, ReportThread};
pub use demangle::{check_name, read_name, DemangleFormat};
pub use fetch::{examine, fetch_for_object, FetchCache, SymCacheOutcome};
pub use layout::{check_lists, check_readable};
pub use lookup::{Image, SymCacheLookup};
pub use merge::{finish_minidump, identify_threads, infer_arch};
pub use minidump::{
    cfi_fetches, collect_unwind_info, get_image_type_from_minidump, minidump_request,
    normalize_minidump_os_name, object_info_from_minidump_module, objects_from_minidump_modules,
    stacktrace_from_thread, symbolic_registers_to_protocol_registers, CfiCacheFile, CfiOutcome,
    MinidumpState, ThreadWithRegisters, UnwindInfo,
};
pub use object_id::{object_id_from_object_info, CodeId, DebugId, ObjectId};
pub use processor::{CodeModule, CodeModuleId, ProcessSummary, RegVal, WalkedFrame, WalkedThread};
pub use requests::{ChannelEvent, GetSymbolicationStatus, Requests, RETRY_AFTER};
pub use response::{SymbolicationError, SymbolicationResponse};
pub use stackwalk::{cfi_to_fetch, stackwalk_minidump};
pub use string_map::StringMap;
pub use symbolize::{
    checked_symbolicate, checked_symbolize_thread, frame_address, keep_frames, line_frame,
    line_frames, symbolicate, symbolize_thread, DEMANGLE_WITH_ARGUMENTS,
};
pub use symcache::{
    check_lookup, has_inlined_behind_parents, CacheContents, CacheErrorKind, LineRecord,
    SymCacheFile,
};
pub use types::{
    CompleteObjectInfo, CompleteStacktrace, CompletedSymbolicationResponse, FilesystemSourceConfig,
    FrameStatus, HexValue, ObjectFileStatus, ObjectType, RawFrame, RawObjectInfo, RawStacktrace,
    RequestId, Scope, Signal, SourceConfig, SymbolicateStacktraces, SymbolicatedFrame, SystemInfo,
};
pub use unwind::check_cfi;
