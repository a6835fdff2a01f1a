//! The data that requests and responses are made of, each type with its mathematical model.

use std::sync::Arc;

use vstd::prelude::*;

use crate::arch::{Arch, FrameTrust, Language};
use crate::string_map::StringMap;

verus! {

/// A 64-bit address or register value.
#[derive(Clone, Copy, Debug, PartialEq, Eq, Structural)]
pub struct HexValue(pub u64);

impl DeepView for HexValue {
    type V = u64;

    open spec fn deep_view(&self) -> u64 {
        self.0
    }
}

/// A POSIX signal number.
#[derive(Clone, Copy, Debug, PartialEq, Eq, Structural)]
pub struct Signal(pub u32);

impl DeepView for Signal {
    type V = u32;

    open spec fn deep_view(&self) -> u32 {
        self.0
    }
}

/// The type of an object file, such as `pe`, `macho` or `elf`.
#[derive(Clone, Debug, PartialEq)]
pub struct ObjectType(pub String);

impl DeepView for ObjectType {
    type V = Seq<char>;

    open spec fn deep_view(&self) -> Seq<char> {
        self.0@
    }
}

/// The identifier of a request.
#[derive(Clone, Debug, PartialEq)]
pub struct RequestId(pub String);

impl DeepView for RequestId {
    type V = Seq<char>;

    open spec fn deep_view(&self) -> Seq<char> {
        self.0@
    }
}

/// The scope of a request, which determines access to cached files.
#[derive(Clone, Debug, PartialEq)]
pub enum Scope {
    /// Files that all requests may use.
    Global,
    /// Files that only requests of the same scope may use.
    Scoped(String),
}

/// The model of a [`Scope`].
pub enum ScopeModel {
    Global,
    Scoped(Seq<char>),
}

impl DeepView for Scope {
    type V = ScopeModel;

    open spec fn deep_view(&self) -> ScopeModel {
        match self {
            Scope::Global => ScopeModel::Global,
            Scope::Scoped(name) => ScopeModel::Scoped(name@),
        }
    }
}

/// Where debug files are loaded from.
#[derive(Clone, Debug, PartialEq)]
pub enum SourceConfig {
    /// A directory.
    Filesystem(FilesystemSourceConfig),
}

impl DeepView for SourceConfig {
    type V = SourceModel;

    open spec fn deep_view(&self) -> SourceModel {
        match self {
            SourceConfig::Filesystem(source) => source.deep_view(),
        }
    }
}

/// What became of the search for an object file.
#[derive(Clone, Copy, Debug, PartialEq, Eq, Structural)]
pub enum ObjectFileStatus {
    /// The file was found and could be read.
    Found,
    /// The file was not needed.
    Unused,
    /// The file was not found.
    Missing,
    /// The file was found and could not be read.
    Malformed,
    /// The file could not be fetched.
    FetchingFailed,
    /// Fetching the file took too long.
    Timeout,
    /// Any other error.
    Other,
}

impl DeepView for ObjectFileStatus {
    type V = ObjectFileStatus;

    open spec fn deep_view(&self) -> ObjectFileStatus {
        *self
    }
}

/// What became of a frame.
#[derive(Clone, Copy, Debug, PartialEq, Eq, Structural)]
pub enum FrameStatus {
    /// The frame was symbolicated.
    Symbolicated,
    /// The debug file has no symbol at the address of the frame.
    MissingSymbol,
    /// No image covers the address of the frame.
    UnknownImage,
    /// The debug file was not found.
    Missing,
    /// The debug file could not be read.
    Malformed,
}

impl DeepView for FrameStatus {
    type V = FrameStatus;

    open spec fn deep_view(&self) -> FrameStatus {
        *self
    }
}

/// A module loaded into the process, as the request gives it.
#[derive(Clone, Debug, PartialEq)]
pub struct RawObjectInfo {
    /// The type of the object file.
    pub ty: ObjectType,
    /// The identifier of the code file.
    pub code_id: Option<String>,
    /// The name of the code file.
    pub code_file: Option<String>,
    /// The identifier of the debug file.
    pub debug_id: Option<String>,
    /// The name of the debug file.
    pub debug_file: Option<String>,
    /// The address at which the module is loaded.
    pub image_addr: HexValue,
    /// The size of the module. Absent or zero where it is not known.
    pub image_size: Option<u64>,
}

/// The model of a [`RawObjectInfo`].
pub struct RawObjectModel {
    pub ty: Seq<char>,
    pub code_id: Option<Seq<char>>,
    pub code_file: Option<Seq<char>>,
    pub debug_id: Option<Seq<char>>,
    pub debug_file: Option<Seq<char>>,
    pub image_addr: u64,
    pub image_size: Option<u64>,
}

impl DeepView for RawObjectInfo {
    type V = RawObjectModel;

    open spec fn deep_view(&self) -> RawObjectModel {
        RawObjectModel {
            ty: self.ty.deep_view(),
            code_id: self.code_id.deep_view(),
            code_file: self.code_file.deep_view(),
            debug_id: self.debug_id.deep_view(),
            debug_file: self.debug_file.deep_view(),
            image_addr: self.image_addr.deep_view(),
            image_size: self.image_size.deep_view(),
        }
    }
}

/// A module loaded into the process, with what was found out about it.
#[derive(Clone, Debug, PartialEq)]
pub struct CompleteObjectInfo {
    /// What became of the debug file.
    pub debug_status: ObjectFileStatus,
    /// What became of the file with unwind information, where stack walking was done.
    pub unwind_status: Option<ObjectFileStatus>,
    /// The architecture, as the debug file gives it.
    pub arch: Arch,
    /// The module as the request gives it.
    pub raw: RawObjectInfo,
}

/// The model of a [`CompleteObjectInfo`].
pub struct ObjectModel {
    pub debug_status: ObjectFileStatus,
    pub unwind_status: Option<ObjectFileStatus>,
    pub arch: Arch,
    pub raw: RawObjectModel,
}

impl DeepView for CompleteObjectInfo {
    type V = ObjectModel;

    open spec fn deep_view(&self) -> ObjectModel {
        ObjectModel {
            debug_status: self.debug_status.deep_view(),
            unwind_status: self.unwind_status.deep_view(),
            arch: self.arch.deep_view(),
            raw: self.raw.deep_view(),
        }
    }
}

/// A frame of a stack trace before symbolication.
#[derive(Clone, Debug, PartialEq)]
pub struct RawFrame {
    /// The address of the instruction.
    pub instruction_addr: HexValue,
    /// The file that the instruction belongs to.
    pub package: Option<String>,
    /// How far the frame can be trusted.
    pub trust: FrameTrust,
}

/// The model of a [`RawFrame`].
pub struct RawFrameModel {
    pub instruction_addr: u64,
    pub package: Option<Seq<char>>,
    pub trust: FrameTrust,
}

impl DeepView for RawFrame {
    type V = RawFrameModel;

    open spec fn deep_view(&self) -> RawFrameModel {
        RawFrameModel {
            instruction_addr: self.instruction_addr.deep_view(),
            package: self.package.deep_view(),
            trust: self.trust.deep_view(),
        }
    }
}

/// A stack trace before symbolication.
#[derive(Clone, Debug)]
pub struct RawStacktrace {
    /// The registers of the first frame.
    pub registers: StringMap<HexValue>,
    /// The frames, the innermost first.
    pub frames: Vec<RawFrame>,
}

/// The model of a [`RawStacktrace`].
pub struct RawStacktraceModel {
    pub registers: Map<Seq<char>, u64>,
    pub frames: Seq<RawFrameModel>,
}

impl DeepView for RawStacktrace {
    type V = RawStacktraceModel;

    open spec fn deep_view(&self) -> RawStacktraceModel {
        RawStacktraceModel {
            registers: self.registers.deep_view(),
            frames: self.frames.deep_view(),
        }
    }
}

/// A frame of a stack trace after symbolication.
#[derive(Clone, Debug, PartialEq)]
pub struct SymbolicatedFrame {
    /// What became of the frame.
    pub status: FrameStatus,
    /// The index of the frame in the stack trace before symbolication.
    pub original_index: Option<usize>,
    /// The frame before symbolication.
    pub raw: RawFrame,
    /// The language of the function.
    pub lang: Option<Language>,
    /// The mangled name of the function.
    pub symbol: Option<String>,
    /// The address of the function.
    pub sym_addr: Option<HexValue>,
    /// The demangled name of the function.
    pub function: Option<String>,
    /// The name of the source file.
    pub filename: Option<String>,
    /// The path of the source file.
    pub abs_path: Option<String>,
    /// The line in the source file.
    pub lineno: Option<u32>,
}

/// The model of a [`SymbolicatedFrame`].
pub struct FrameModel {
    pub status: FrameStatus,
    pub original_index: Option<usize>,
    pub raw: RawFrameModel,
    pub lang: Option<Language>,
    pub symbol: Option<Seq<char>>,
    pub sym_addr: Option<u64>,
    pub function: Option<Seq<char>>,
    pub filename: Option<Seq<char>>,
    pub abs_path: Option<Seq<char>>,
    pub lineno: Option<u32>,
}

impl DeepView for SymbolicatedFrame {
    type V = FrameModel;

    open spec fn deep_view(&self) -> FrameModel {
        FrameModel {
            status: self.status.deep_view(),
            original_index: self.original_index.deep_view(),
            raw: self.raw.deep_view(),
            lang: self.lang.deep_view(),
            symbol: self.symbol.deep_view(),
            sym_addr: self.sym_addr.deep_view(),
            function: self.function.deep_view(),
            filename: self.filename.deep_view(),
            abs_path: self.abs_path.deep_view(),
            lineno: self.lineno.deep_view(),
        }
    }
}

/// A stack trace after symbolication.
#[derive(Clone, Debug)]
pub struct CompleteStacktrace {
    /// The identifier of the thread.
    pub thread_id: Option<u64>,
    /// Whether this thread crashed or asked for the dump.
    pub is_requesting: Option<bool>,
    /// The registers of the first frame.
    pub registers: StringMap<HexValue>,
    /// The frames, the innermost first.
    pub frames: Vec<SymbolicatedFrame>,
}

/// The model of a [`CompleteStacktrace`].
pub struct StacktraceModel {
    pub thread_id: Option<u64>,
    pub is_requesting: Option<bool>,
    pub registers: Map<Seq<char>, u64>,
    pub frames: Seq<FrameModel>,
}

impl DeepView for CompleteStacktrace {
    type V = StacktraceModel;

    open spec fn deep_view(&self) -> StacktraceModel {
        StacktraceModel {
            thread_id: self.thread_id.deep_view(),
            is_requesting: self.is_requesting.deep_view(),
            registers: self.registers.deep_view(),
            frames: self.frames.deep_view(),
        }
    }
}

/// The system that a process ran on.
#[derive(Clone, Debug, PartialEq)]
pub struct SystemInfo {
    /// The name of the operating system.
    pub os_name: String,
    /// The version of the operating system.
    pub os_version: String,
    /// The build of the operating system.
    pub os_build: String,
    /// The architecture of the CPU.
    pub cpu_arch: Arch,
    /// The model of the device.
    pub device_model: String,
}

/// The model of a [`SystemInfo`].
pub struct SystemModel {
    pub os_name: Seq<char>,
    pub os_version: Seq<char>,
    pub os_build: Seq<char>,
    pub cpu_arch: Arch,
    pub device_model: Seq<char>,
}

impl DeepView for SystemInfo {
    type V = SystemModel;

    open spec fn deep_view(&self) -> SystemModel {
        SystemModel {
            os_name: self.os_name.deep_view(),
            os_version: self.os_version.deep_view(),
            os_build: self.os_build.deep_view(),
            cpu_arch: self.cpu_arch.deep_view(),
            device_model: self.device_model.deep_view(),
        }
    }
}

/// The result of a symbolication.
#[derive(Clone, Debug)]
pub struct CompletedSymbolicationResponse {
    /// When the process crashed, in seconds since 1970.
    pub timestamp: Option<u64>,
    /// The signal that was raised.
    pub signal: Option<Signal>,
    /// The system that the process ran on.
    pub system_info: Option<SystemInfo>,
    /// Whether the process crashed.
    pub crashed: Option<bool>,
    /// Why the process crashed.
    pub crash_reason: Option<String>,
    /// The assertion that failed.
    pub assertion: Option<String>,
    /// The threads.
    pub stacktraces: Vec<CompleteStacktrace>,
    /// The modules, in the order of their addresses.
    pub modules: Vec<CompleteObjectInfo>,
}

/// The model of a [`CompletedSymbolicationResponse`].
pub struct CompletedModel {
    pub timestamp: Option<u64>,
    pub signal: Option<u32>,
    pub system_info: Option<SystemModel>,
    pub crashed: Option<bool>,
    pub crash_reason: Option<Seq<char>>,
    pub assertion: Option<Seq<char>>,
    pub stacktraces: Seq<StacktraceModel>,
    pub modules: Seq<ObjectModel>,
}

impl DeepView for CompletedSymbolicationResponse {
    type V = CompletedModel;

    open spec fn deep_view(&self) -> CompletedModel {
        CompletedModel {
            timestamp: self.timestamp.deep_view(),
            signal: self.signal.deep_view(),
            system_info: self.system_info.deep_view(),
            crashed: self.crashed.deep_view(),
            crash_reason: self.crash_reason.deep_view(),
            assertion: self.assertion.deep_view(),
            stacktraces: self.stacktraces.deep_view(),
            modules: self.modules.deep_view(),
        }
    }
}

/// A directory with debug files.
#[derive(Clone, Debug, PartialEq)]
pub struct FilesystemSourceConfig {
    /// The identifier of the source.
    pub id: String,
    /// The path of the directory.
    pub path: String,
    /// Which files of the directory to use, as those that fetch them read it.
    pub files: Vec<String>,
}

/// The model of a [`FilesystemSourceConfig`].
pub struct SourceModel {
    pub id: Seq<char>,
    pub path: Seq<char>,
    pub files: Seq<Seq<char>>,
}

impl DeepView for FilesystemSourceConfig {
    type V = SourceModel;

    open spec fn deep_view(&self) -> SourceModel {
        SourceModel {
            id: self.id.deep_view(),
            path: self.path.deep_view(),
            files: self.files.deep_view(),
        }
    }
}

/// A request for symbolication of multiple stack traces.
#[derive(Clone, Debug)]
pub struct SymbolicateStacktraces {
    /// The scope of this request which determines access to cached files.
    pub scope: Scope,
    /// The signal thrown on certain operating systems.
    ///
    ///  Signal handlers sometimes mess with the runtime stack. This is used to determine whether
    /// the top frame should be fixed or not.
    pub signal: Option<Signal>,
    /// A list of external sources to load debug files.
    pub sources: Arc<Vec<SourceConfig>>,
    /// A list of threads containing stack traces.
    pub stacktraces: Vec<RawStacktrace>,
    /// A list of images that were loaded into the process.
    ///
    /// This list must cover the instruction addresses of the frames in `stacktraces`. If a frame is
    /// not covered by any image, the frame cannot be symbolicated as it is not clear which debug file
    /// to load.
    pub modules: Vec<CompleteObjectInfo>,
}

/// The model of a [`SymbolicateStacktraces`].
pub struct RequestModel {
    pub scope: ScopeModel,
    pub signal: Option<u32>,
    pub sources: Seq<SourceModel>,
    pub stacktraces: Seq<RawStacktraceModel>,
    pub modules: Seq<ObjectModel>,
}

impl DeepView for SymbolicateStacktraces {
    type V = RequestModel;

    open spec fn deep_view(&self) -> RequestModel {
        RequestModel {
            scope: self.scope.deep_view(),
            signal: self.signal.deep_view(),
            sources: self.sources.deep_view(),
            stacktraces: self.stacktraces.deep_view(),
            modules: self.modules.deep_view(),
        }
    }
}

/// A copy of an optional text.
pub(crate) fn clone_text(text: &Option<String>) -> (r: Option<String>)
    ensures
        r == *text,
{
    match text {
        Some(text) => Some(text.clone()),
        None => None,
    }
}

impl ObjectType {
    /// A copy of the type.
    pub(crate) fn copy(&self) -> (r: ObjectType)
        ensures
            r == *self,
    {
        ObjectType(self.0.clone())
    }
}

impl Scope {
    /// A copy of the scope.
    pub(crate) fn copy(&self) -> (r: Scope)
        ensures
            r == *self,
    {
        match self {
            Scope::Global => Scope::Global,
            Scope::Scoped(name) => Scope::Scoped(name.clone()),
        }
    }
}

/// The object with nothing found out about it yet.
pub open spec fn unexamined(raw: RawObjectModel) -> ObjectModel {
    ObjectModel {
        debug_status: ObjectFileStatus::Unused,
        unwind_status: None,
        arch: Arch::Unknown,
        raw,
    }
}

impl From<RawObjectInfo> for CompleteObjectInfo {
    fn from(raw: RawObjectInfo) -> (r: CompleteObjectInfo)
        ensures
            r.deep_view() == unexamined(raw.deep_view()),
    {
        CompleteObjectInfo {
            debug_status: ObjectFileStatus::Unused,
            unwind_status: None,
            arch: Arch::Unknown,
            raw,
        }
    }
}

impl vstd::std_specs::convert::FromSpecImpl<RawObjectInfo> for CompleteObjectInfo {
    open spec fn obeys_from_spec() -> bool {
        true
    }

    open spec fn from_spec(raw: RawObjectInfo) -> CompleteObjectInfo {
        CompleteObjectInfo {
            debug_status: ObjectFileStatus::Unused,
            unwind_status: None,
            arch: Arch::Unknown,
            raw,
        }
    }
}

impl Default for RawFrame {
    fn default() -> (r: RawFrame)
        ensures
            r == (RawFrame {
                instruction_addr: HexValue(0),
                package: None,
                trust: FrameTrust::Unknown,
            }),
    {
        RawFrame { instruction_addr: HexValue(0), package: None, trust: FrameTrust::Unknown }
    }
}

impl Default for SystemInfo {
    fn default() -> (r: SystemInfo)
        ensures
            r.deep_view() == (SystemModel {
                os_name: Seq::empty(),
                os_version: Seq::empty(),
                os_build: Seq::empty(),
                cpu_arch: Arch::Unknown,
                device_model: Seq::empty(),
            }),
    {
        SystemInfo {
            os_name: String::new(),
            os_version: String::new(),
            os_build: String::new(),
            cpu_arch: Arch::Unknown,
            device_model: String::new(),
        }
    }
}

} // verus!
