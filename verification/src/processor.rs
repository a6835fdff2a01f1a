//! Minidumps: what the stack walker finds in them.

use vstd::prelude::*;

use crate::arch::arch_of_name;
use crate::layout::{can_be_read, has_lists};
use crate::string_map::{distinct, entry_map};
use crate::unwind::is_sound_cfi;

verus! {

/// A module loaded into the process.
#[derive(Clone, Debug, PartialEq)]
pub struct CodeModule {
    /// The address at which the module is loaded.
    pub base_address: u64,
    /// The size of the module, zero where it is not known.
    pub size: u64,
    /// The path of the code file.
    pub code_file: String,
    /// The identifier of the code file. Empty where there is none.
    pub code_identifier: String,
    /// The path of the debug file.
    pub debug_file: String,
    /// The identifier of the debug file. Empty where there is none.
    pub debug_identifier: String,
}

/// The model of a [`CodeModule`].
pub struct CodeModuleModel {
    pub base_address: u64,
    pub size: u64,
    pub code_file: Seq<char>,
    pub code_identifier: Seq<char>,
    pub debug_file: Seq<char>,
    pub debug_identifier: Seq<char>,
}

impl DeepView for CodeModule {
    type V = CodeModuleModel;

    open spec fn deep_view(&self) -> CodeModuleModel {
        CodeModuleModel {
            base_address: self.base_address,
            size: self.size,
            code_file: self.code_file@,
            code_identifier: self.code_identifier@,
            debug_file: self.debug_file@,
            debug_identifier: self.debug_identifier@,
        }
    }
}

/// The value of a register.
#[derive(Clone, Copy, Debug, PartialEq, Eq, Structural)]
pub enum RegVal {
    /// The value of a 32-bit register.
    U32(u32),
    /// The value of a 64-bit register.
    U64(u64),
}

impl DeepView for RegVal {
    type V = RegVal;

    open spec fn deep_view(&self) -> RegVal {
        *self
    }
}

/// A frame that the stack walker found.
#[derive(Clone, Debug, PartialEq)]
pub struct WalkedFrame {
    /// The return address, as the stack walker left it.
    pub return_address: u64,
    /// The path of the code file of the module that the frame belongs to.
    pub code_file: Option<String>,
    /// The code of how far the frame can be trusted.
    pub trust: u32,
}

/// The model of a [`WalkedFrame`].
pub struct WalkedFrameModel {
    pub return_address: u64,
    pub code_file: Option<Seq<char>>,
    pub trust: u32,
}

impl DeepView for WalkedFrame {
    type V = WalkedFrameModel;

    open spec fn deep_view(&self) -> WalkedFrameModel {
        WalkedFrameModel {
            return_address: self.return_address,
            code_file: self.code_file.deep_view(),
            trust: self.trust,
        }
    }
}

/// A thread that the stack walker walked.
#[derive(Clone, Debug, PartialEq)]
pub struct WalkedThread {
    /// The identifier of the thread.
    pub thread_id: u32,
    /// The frames, the innermost first.
    pub frames: Vec<WalkedFrame>,
}

/// The model of a [`WalkedThread`].
pub struct WalkedThreadModel {
    pub thread_id: u32,
    pub frames: Seq<WalkedFrameModel>,
}

impl DeepView for WalkedThread {
    type V = WalkedThreadModel;

    open spec fn deep_view(&self) -> WalkedThreadModel {
        WalkedThreadModel { thread_id: self.thread_id, frames: self.frames.deep_view() }
    }
}

/// What a minidump says of the process and of its system.
#[derive(Clone, Debug, PartialEq)]
pub struct ProcessSummary {
    /// When the minidump was made.
    pub timestamp: u64,
    /// Whether the process crashed.
    pub crashed: bool,
    /// Why the process crashed.
    pub crash_reason: String,
    /// The assertion that failed.
    pub assertion: String,
    /// The index of the thread that crashed or asked for the minidump. Below zero where it is not
    /// known.
    pub requesting_thread: i32,
    /// The name of the operating system.
    pub os_name: String,
    /// The version of the operating system.
    pub os_version: String,
    /// The build of the operating system.
    pub os_build: String,
    /// The name of the CPU family.
    pub cpu_family: String,
}

/// The model of a [`ProcessSummary`].
pub struct SummaryModel {
    pub timestamp: u64,
    pub crashed: bool,
    pub crash_reason: Seq<char>,
    pub assertion: Seq<char>,
    pub requesting_thread: i32,
    pub os_name: Seq<char>,
    pub os_version: Seq<char>,
    pub os_build: Seq<char>,
    pub cpu_family: Seq<char>,
}

impl DeepView for ProcessSummary {
    type V = SummaryModel;

    open spec fn deep_view(&self) -> SummaryModel {
        SummaryModel {
            timestamp: self.timestamp,
            crashed: self.crashed,
            crash_reason: self.crash_reason@,
            assertion: self.assertion@,
            requesting_thread: self.requesting_thread,
            os_name: self.os_name@,
            os_version: self.os_version@,
            os_build: self.os_build@,
            cpu_family: self.cpu_family@,
        }
    }
}

/// What the stack walker made of a minidump.
#[verifier::external_type_specification]
#[verifier::external_body]
pub struct ExProcessState<'a>(symbolic::minidump::processor::ProcessState<'a>);

/// Why the stack walker could make nothing of a minidump.
#[verifier::external_type_specification]
#[verifier::external_body]
pub struct ExProcessMinidumpError(symbolic::minidump::processor::ProcessMinidumpError);

/// The bytes of the minidump that a process state was made from.
pub uninterp spec fn state_dump(state: symbolic::minidump::processor::ProcessState) -> Seq<u8>;

/// The unwind information that a process state was made with, by the identifiers of the modules.
pub uninterp spec fn state_frame_infos(
    state: symbolic::minidump::processor::ProcessState,
) -> Map<Seq<char>, Seq<u8>>;

/// The code of what `symbolic::minidump::processor::ProcessState` makes of a minidump and unwind
/// information.
pub uninterp spec fn minidump_result(dump: Seq<u8>, frame_infos: Map<Seq<char>, Seq<u8>>) -> u32;

/// Whether the stack walker could make something of a minidump, given the code of what it made of
/// it: all was read, or all but the threads.
pub open spec fn is_usable(result: u32) -> bool {
    result == 0 || result == 3
}

/// What an error says, given the code of what the stack walker made of a minidump.
pub open spec fn failure_text(result: u32) -> Seq<char> {
    if result == 1 {
        "minidump processing failed: file could not be opened"@
    } else if result == 2 {
        "minidump processing failed: minidump header missing"@
    } else if result == 4 {
        "minidump processing failed: could not get thread data"@
    } else if result == 5 {
        "minidump processing failed: could not get a thread by id"@
    } else if result == 6 {
        "minidump processing failed: multiple requesting threads"@
    } else {
        "minidump processing failed: processing was interrupted (not fatal)"@
    }
}

/// Whether bytes are a file with unwind information: they start with a record, or there are none.
pub open spec fn is_cfi_cache(data: Seq<u8>) -> bool {
    data.len() == 0 || (data.len() >= 5 && data.take(5) == seq![0x53u8, 0x54, 0x41, 0x43, 0x4b])
}

/// Calls `symbolic::minidump::cfi::CfiCache::from_bytes`. Claims that it accepts bytes that start
/// with `STACK`, and no bytes at all, and nothing else.
#[verifier::external_body]
pub(crate) fn parse_cfi_cache(data: &[u8]) -> (r: bool)
    ensures
        r == is_cfi_cache(data@),
{
    let view = symbolic::common::ByteView::from_slice(data);
    symbolic::minidump::cfi::CfiCache::from_bytes(view).is_ok()
}

/// The canonical form of the identifier of a module, as
/// `symbolic::minidump::processor::CodeModuleId` parses and prints it. None where the text is no
/// such identifier.
pub uninterp spec fn canonical_module_id(text: Seq<char>) -> Option<Seq<char>>;

/// Calls `<symbolic::minidump::processor::CodeModuleId as FromStr>::from_str` and prints the
/// identifier. Claims that the canonical form depends on the text alone, and that the canonical
/// form of the canonical form is itself.
#[verifier::external_body]
pub(crate) fn parse_module_id(text: &str) -> (r: Option<String>)
    ensures
        r.deep_view() == canonical_module_id(text@),
        r matches Some(id) ==> canonical_module_id(id@) == Some(id@),
{
    text.parse::<symbolic::minidump::processor::CodeModuleId>().ok().map(|id| id.to_string())
}

/// Calls `symbolic::minidump::processor::ProcessState::from_minidump`. Claims that what it makes of
/// a minidump depends on the bytes and on the unwind information alone, that it fails unless it
/// could read all, or all but the threads, and what the error says. The crate reads the bytes
/// through a stream that can be moved behind their end, and must not read there. It divides as the
/// rules of the unwind information say, also by zero, writes through a null pointer where a rule
/// assigns to a negative number, reads on behind the last record where that has only its kind, and
/// calls itself for each range that lies in another. How much of the stack such calls take is the
/// compiler's affair, and nothing is said of it.
#[verifier::external_body]
pub(crate) fn process_minidump<'a>(dump: &'a [u8], frame_infos: &[(String, Vec<u8>)]) -> (r: Result<
    symbolic::minidump::processor::ProcessState<'a>,
    symbolic::minidump::processor::ProcessMinidumpError,
>)
    requires
        can_be_read(dump@),
        distinct(frame_infos@),
        forall|i: int|
            0 <= i < frame_infos@.len() ==> canonical_module_id(
                (#[trigger] frame_infos@[i]).0@,
            ) == Some(frame_infos@[i].0@) && is_cfi_cache(frame_infos@[i].1@) && is_sound_cfi(
                frame_infos@[i].1@,
            ),
    ensures
        match r {
            Ok(state) => {
                &&& is_usable(minidump_result(dump@, infos_map(frame_infos@)))
                &&& state_dump(state) == dump@
                &&& state_frame_infos(state) == infos_map(frame_infos@)
            },
            Err(error) => {
                &&& !is_usable(minidump_result(dump@, infos_map(frame_infos@)))
                &&& forall|text: String| #[trigger]
                    vstd::string::to_string_from_display_ensures(&error, text) ==> text@
                        == failure_text(minidump_result(dump@, infos_map(frame_infos@)))
            },
        },
{
    let cache = |cfi| symbolic::minidump::cfi::CfiCache::from_bytes(cfi).ok();
    let cache = |cfi| cache(symbolic::common::ByteView::from_slice(cfi));
    let entry = |id: &String, cfi| Some((id.parse().ok()?, cache(cfi)?));
    let entries = frame_infos.iter().map(|info| entry(&info.0, info.1.as_slice()));
    let frame_infos = entries.collect::<Option<_>>();
    let view = symbolic::common::ByteView::from_slice(dump);
    symbolic::minidump::processor::ProcessState::from_minidump(&view, frame_infos.as_ref())
}

/// Unwind information by the identifiers of the modules.
pub open spec fn infos_map(frame_infos: Seq<(String, Vec<u8>)>) -> Map<Seq<char>, Seq<u8>> {
    entry_map(frame_infos).map_values(|cfi: Vec<u8>| cfi@)
}

/// What `symbolic::minidump::processor::ProcessState` says of the process and of its system.
pub uninterp spec fn dump_summary(
    dump: Seq<u8>,
    frame_infos: Map<Seq<char>, Seq<u8>>,
) -> SummaryModel;

/// Calls the methods of `symbolic::minidump::processor::ProcessState` that describe the process, and
/// those of its `SystemInfo`. Claims that what they return depends on the minidump and the unwind
/// information alone.
#[verifier::external_body]
pub(crate) fn process_summary(state: &symbolic::minidump::processor::ProcessState) -> (r:
    ProcessSummary)
    ensures
        r.deep_view() == dump_summary(state_dump(*state), state_frame_infos(*state)),
{
    let system = state.system_info();
    ProcessSummary {
        timestamp: state.timestamp(),
        crashed: state.crashed(),
        crash_reason: state.crash_reason(),
        assertion: state.assertion(),
        requesting_thread: state.requesting_thread(),
        os_name: system.os_name(),
        os_version: system.os_version(),
        os_build: system.os_build(),
        cpu_family: system.cpu_family(),
    }
}

/// The modules that `symbolic::minidump::processor::ProcessState` lists.
pub uninterp spec fn dump_modules(
    dump: Seq<u8>,
    frame_infos: Map<Seq<char>, Seq<u8>>,
) -> Seq<CodeModuleModel>;

/// Calls `symbolic::minidump::processor::ProcessState::modules`, and describes each module. Claims
/// that the modules depend on the minidump and the unwind information alone.
/// Where there is no list of modules the crate makes a slice from a null pointer.
#[verifier::external_body]
pub(crate) fn process_modules(state: &symbolic::minidump::processor::ProcessState) -> (r: Vec<
    CodeModule,
>)
    requires
        has_lists(state_dump(*state)),
    ensures
        r.deep_view() == dump_modules(state_dump(*state), state_frame_infos(*state)),
{
    let module = |module: &symbolic::minidump::processor::CodeModule| CodeModule {
        base_address: module.base_address(),
        size: module.size(),
        code_file: module.code_file(),
        code_identifier: module.code_identifier(),
        debug_file: module.debug_file(),
        debug_identifier: module.debug_identifier(),
    };
    state.modules().into_iter().map(module).collect()
}

/// The modules that frames belong to, as `symbolic::minidump::processor::ProcessState` lists them.
pub uninterp spec fn dump_referenced_modules(
    dump: Seq<u8>,
    frame_infos: Map<Seq<char>, Seq<u8>>,
) -> Seq<CodeModuleModel>;

/// Calls `symbolic::minidump::processor::ProcessState::referenced_modules`, and describes each
/// module. Claims that the modules depend on the minidump and the unwind information alone, and that
/// no two of them have the same identifier.
/// Where there are no threads, or a thread has no frames, the crate makes a slice from a null
/// pointer.
#[verifier::external_body]
pub(crate) fn process_referenced_modules(
    state: &symbolic::minidump::processor::ProcessState,
) -> (r: Vec<CodeModule>)
    requires
        has_lists(state_dump(*state)),
    ensures
        r.deep_view() == dump_referenced_modules(state_dump(*state), state_frame_infos(*state)),
        forall|i: int, j: int|
            0 <= i < j < r.len() ==> canonical_module_id((#[trigger] r@[i]).debug_identifier@)
                != canonical_module_id((#[trigger] r@[j]).debug_identifier@),
{
    let module = |module: &symbolic::minidump::processor::CodeModule| CodeModule {
        base_address: module.base_address(),
        size: module.size(),
        code_file: module.code_file(),
        code_identifier: module.code_identifier(),
        debug_file: module.debug_file(),
        debug_identifier: module.debug_identifier(),
    };
    state.referenced_modules().into_iter().map(module).collect()
}

/// The threads that `symbolic::minidump::processor::ProcessState` lists.
pub uninterp spec fn dump_threads(
    dump: Seq<u8>,
    frame_infos: Map<Seq<char>, Seq<u8>>,
) -> Seq<WalkedThreadModel>;

/// Calls `symbolic::minidump::processor::ProcessState::threads`, and describes each thread with its
/// frames. The return addresses are those for an unknown architecture, to which nothing is added.
/// Claims that the threads depend on the minidump and the unwind information alone.
/// Where there are no threads, or a thread has no frames, the crate makes a slice from a null
/// pointer.
#[verifier::external_body]
pub(crate) fn process_threads(state: &symbolic::minidump::processor::ProcessState) -> (r: Vec<
    WalkedThread,
>)
    requires
        has_lists(state_dump(*state)),
    ensures
        r.deep_view() == dump_threads(state_dump(*state), state_frame_infos(*state)),
{
    let frame = |frame: &&symbolic::minidump::processor::StackFrame| WalkedFrame {
        return_address: frame.return_address(symbolic::common::Arch::Unknown),
        code_file: frame.module().map(|module| module.code_file()),
        trust: frame.trust() as u32,
    };
    let thread = |thread: &&symbolic::minidump::processor::CallStack| WalkedThread {
        thread_id: thread.thread_id(),
        frames: thread.frames().iter().map(frame).collect(),
    };
    state.threads().iter().map(thread).collect()
}

/// The registers of a frame, as `symbolic::minidump::processor::StackFrame` gives them.
pub uninterp spec fn dump_registers(
    dump: Seq<u8>,
    frame_infos: Map<Seq<char>, Seq<u8>>,
    thread: int,
    frame: int,
    arch: u32,
) -> Seq<(Seq<char>, RegVal)>;

/// Calls `symbolic::minidump::processor::StackFrame::registers` on a frame of a thread, for the
/// architecture that the minidump names. Claims that the registers depend on the minidump, the
/// unwind information, the frame and the architecture alone. The crate takes a frame to be one of
/// that architecture.
#[verifier::external_body]
pub(crate) fn process_registers(
    state: &symbolic::minidump::processor::ProcessState,
    thread: usize,
    frame: usize,
    arch: u32,
) -> (r: Vec<(String, RegVal)>)
    requires
        has_lists(state_dump(*state)),
        thread < dump_threads(state_dump(*state), state_frame_infos(*state)).len(),
        frame < dump_threads(
            state_dump(*state),
            state_frame_infos(*state),
        )[thread as int].frames.len(),
        arch == arch_of_name(
            dump_summary(state_dump(*state), state_frame_infos(*state)).cpu_family,
        ).spec_code(),
    ensures
        r.deep_view() == dump_registers(
            state_dump(*state),
            state_frame_infos(*state),
            thread as int,
            frame as int,
            arch,
        ),
{
    let arch = symbolic::common::Arch::from_u32(arch);
    let value = |value: symbolic::minidump::processor::RegVal| match value {
        symbolic::minidump::processor::RegVal::U32(value) => RegVal::U32(value),
        symbolic::minidump::processor::RegVal::U64(value) => RegVal::U64(value),
    };
    let registers = state.threads()[thread].frames()[frame].registers(arch);
    registers.into_iter().map(|(name, found)| (name.to_owned(), value(found))).collect()
}

/// The identifier of a module, in its canonical form.
#[derive(Debug)]
pub struct CodeModuleId {
    text: String,
}

impl DeepView for CodeModuleId {
    type V = Seq<char>;

    closed spec fn deep_view(&self) -> Seq<char> {
        self.text@
    }
}

impl CodeModuleId {
    #[verifier::type_invariant]
    spec fn is_canonical(self) -> bool {
        canonical_module_id(self.text@) == Some(self.text@)
    }

    /// Parses the identifier of a module.
    pub fn parse(text: &str) -> (r: Option<CodeModuleId>)
        ensures
            r.deep_view() == canonical_module_id(text@),
    {
        match parse_module_id(text) {
            Some(text) => Some(CodeModuleId { text }),
            None => None,
        }
    }

    /// The identifier as text.
    pub fn as_str(&self) -> (r: &str)
        ensures
            r@ == self.deep_view(),
            canonical_module_id(r@) == Some(r@),
    {
        proof {
            use_type_invariant(self);
        }
        self.text.as_str()
    }
}

} // verus!
