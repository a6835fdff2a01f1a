//! Apple crash reports: the requests that they are turned into.

use std::sync::Arc;

use vstd::prelude::*;

use crate::arch::{arch_of_name, Arch, FrameTrust};
use crate::crash_report::{
    parse_report, read_head, read_images, read_threads, report_failure, report_head, report_images,
    report_threads, BinaryImage, BinaryImageModel, ReportFrame, ReportFrameModel, ReportHead,
    ReportHeadModel, ReportThread, ReportThreadModel,
};
use crate::lookup::ImageModel;
use crate::merge::{identified_threads, identify_threads, infer_arch, with_inferred_arch};
use crate::minidump::known_size;
use crate::object_id::{code_id_from_binary, debug_id_from_uuid, hex_text, hyphenated};
use crate::response::SymbolicationError;
use crate::string_map::{inserted, StringMap};
use crate::symbolize::{symbolicated, symbolized_thread};
use crate::text::{first_word, word_before_space};
use crate::types::{
    unexamined, CompleteObjectInfo, CompletedModel, CompletedSymbolicationResponse, HexValue,
    ObjectModel, ObjectType, RawFrame, RawFrameModel, RawObjectInfo, RawObjectModel, RawStacktrace,
    RawStacktraceModel, RequestModel, Scope, ScopeModel, SourceConfig, SourceModel, StacktraceModel,
    SymbolicateStacktraces, SystemInfo, SystemModel,
};

verus! {

/// The object that an image of a crash report is.
pub open spec fn apple_object(image: BinaryImageModel) -> ObjectModel {
    unexamined(
        RawObjectModel {
            ty: "macho"@,
            code_id: Some(hex_text(image.uuid)),
            code_file: Some(image.path),
            debug_id: Some(hyphenated(hex_text(image.uuid))),
            debug_file: Some(image.path),
            image_addr: image.addr,
            image_size: known_size(image.size),
        },
    )
}

/// The object that an image of a crash report is.
pub fn map_apple_binary_image(image: BinaryImage) -> (r: CompleteObjectInfo)
    ensures
        r.deep_view() == apple_object(image.deep_view()),
{
    let code_id: String = code_id_from_binary(image.uuid.as_slice());
    let debug_id: String = debug_id_from_uuid(image.uuid);
    let raw_info = RawObjectInfo {
        ty: ObjectType("macho".to_owned()),
        code_id: Some(code_id),
        code_file: Some(image.path.clone()),
        debug_id: Some(debug_id),
        debug_file: Some(image.path),
        image_addr: HexValue(image.addr),
        image_size: if image.size == 0 {
            None
        } else {
            Some(image.size)
        },
    };
    CompleteObjectInfo::from(raw_info)
}

/// The architecture that a crash report names in the first word of its code type.
pub open spec fn code_type_arch(code_type: Option<Seq<char>>) -> Arch {
    match code_type {
        Some(text) => arch_of_name(first_word(text)),
        None => Arch::Unknown,
    }
}

/// The frame of a stack trace that a frame of a crash report is.
pub open spec fn apple_frame(frame: ReportFrameModel) -> RawFrameModel {
    RawFrameModel {
        instruction_addr: frame.instruction_addr,
        package: frame.module,
        trust: FrameTrust::Unknown,
    }
}

/// The stack trace that a thread of a crash report is.
pub open spec fn apple_stacktrace(thread: ReportThreadModel) -> RawStacktraceModel {
    RawStacktraceModel {
        registers: match thread.registers {
            Some(registers) => inserted(registers),
            None => Map::empty(),
        },
        frames: thread.frames.map_values(|frame: ReportFrameModel| apple_frame(frame)),
    }
}

/// The index of the last thread that crashed.
pub open spec fn last_crashed(threads: Seq<ReportThreadModel>) -> Option<usize>
    decreases threads.len(),
{
    if threads.len() == 0 {
        None
    } else if threads.last().crashed {
        Some((threads.len() - 1) as usize)
    } else {
        last_crashed(threads.drop_last())
    }
}

/// The thread taken for the crashed one did crash, and none behind it did. There is none only where
/// no thread crashed.
pub proof fn law_last_crashed(threads: Seq<ReportThreadModel>)
    requires
        threads.len() <= usize::MAX,
    ensures
        match last_crashed(threads) {
            Some(index) => {
                &&& index < threads.len()
                &&& threads[index as int].crashed
                &&& forall|i: int| index < i < threads.len() ==> !(#[trigger] threads[i]).crashed
            },
            None => forall|i: int| 0 <= i < threads.len() ==> !(#[trigger] threads[i]).crashed,
        },
    decreases threads.len(),
{
    if threads.len() > 0 && !threads.last().crashed {
        let rest = threads.drop_last();
        law_last_crashed(rest);
        match last_crashed(rest) {
            Some(index) => {
                assert forall|i: int| index < i < threads.len() implies !(
                #[trigger] threads[i]).crashed by {
                    if i < rest.len() {
                        assert(rest[i] == threads[i]);
                    }
                }
            },
            None => {
                assert forall|i: int| 0 <= i < threads.len() implies !(
                #[trigger] threads[i]).crashed by {
                    if i < rest.len() {
                        assert(rest[i] == threads[i]);
                    }
                }
            },
        }
    }
}

/// A property of a crash report, empty where it has none of that name.
pub open spec fn property(metadata: Seq<(Seq<char>, Seq<char>)>, name: Seq<char>) -> Seq<char> {
    if inserted(metadata).contains_key(name) {
        inserted(metadata)[name]
    } else {
        Seq::empty()
    }
}

/// What a crash report says of the process beside its images and stacks.
#[derive(Debug)]
pub struct AppleCrashReportState {
    /// When the process crashed, in seconds since 1970.
    pub timestamp: Option<u64>,
    /// The system that the process ran on.
    pub system_info: SystemInfo,
    /// What the application said of the crash.
    pub app_info: Option<String>,
    /// The identifiers of the threads.
    pub thread_ids: Vec<u64>,
    /// The index of the thread that crashed.
    pub crashed_thread_index: Option<usize>,
}

/// The model of an [`AppleCrashReportState`].
pub struct AppleModel {
    pub timestamp: Option<u64>,
    pub system_info: SystemModel,
    pub app_info: Option<Seq<char>>,
    pub thread_ids: Seq<u64>,
    pub crashed_thread_index: Option<usize>,
}

impl DeepView for AppleCrashReportState {
    type V = AppleModel;

    open spec fn deep_view(&self) -> AppleModel {
        AppleModel {
            timestamp: self.timestamp,
            system_info: self.system_info.deep_view(),
            app_info: self.app_info.deep_view(),
            thread_ids: self.thread_ids@,
            crashed_thread_index: self.crashed_thread_index,
        }
    }
}

/// What a crash report says of the process beside its images and stacks.
pub open spec fn state_of_report(
    head: ReportHeadModel,
    arch: Arch,
    threads: Seq<ReportThreadModel>,
) -> AppleModel {
    AppleModel {
        timestamp: match head.timestamp {
            Some(seconds) => Some(seconds as u64),
            None => None,
        },
        system_info: SystemModel {
            os_name: property(head.metadata, "OS Version"@),
            os_version: Seq::empty(),
            os_build: Seq::empty(),
            cpu_arch: arch,
            device_model: property(head.metadata, "Hardware Model"@),
        },
        app_info: head.application_specific_information,
        thread_ids: threads.map_values(|thread: ReportThreadModel| thread.id),
        crashed_thread_index: last_crashed(threads),
    }
}

/// The request that a crash report is turned into.
pub open spec fn request_of_report(
    threads: Seq<ReportThreadModel>,
    images: Seq<BinaryImageModel>,
    scope: ScopeModel,
    sources: Seq<SourceModel>,
) -> RequestModel {
    RequestModel {
        scope,
        signal: None,
        sources,
        stacktraces: threads.map_values(|thread: ReportThreadModel| apple_stacktrace(thread)),
        modules: images.map_values(|image: BinaryImageModel| apple_object(image)),
    }
}

/// The registers as a map from their names to their values.
fn report_registers(registers: Vec<(String, u64)>) -> (r: StringMap<HexValue>)
    ensures
        r.deep_view() == inserted(registers.deep_view()),
{
    let ghost model = registers.deep_view();
    let mut values: StringMap<HexValue> = StringMap::new();
    assert(values.deep_view() =~= inserted(model.take(0)));
    for entry in it: registers
        invariant
            model.len() == it.seq().len(),
            forall|i: int| 0 <= i < model.len() ==> #[trigger] model[i] == it.seq()[i].deep_view(),
            values.deep_view() == inserted(model.take(it.index())),
    {
        let (name, value) = entry;
        let ghost key = name@;
        let ghost before = values.deep_view();
        proof {
            let n = it.index();
            assert(model.take(n + 1).drop_last() =~= model.take(n));
            assert(model.take(n + 1).last() == model[n]);
        }
        values.insert(name, HexValue(value));
        assert(values.deep_view() =~= before.insert(key, value));
    }
    assert(model.take(model.len() as int) =~= model);
    values
}

/// The stack trace that a thread of a crash report is.
fn report_stacktrace(
    frames: Vec<ReportFrame>,
    registers: Option<Vec<(String, u64)>>,
) -> (r: RawStacktrace)
    ensures
        r.deep_view() == (RawStacktraceModel {
            registers: match registers.deep_view() {
                Some(registers) => inserted(registers),
                None => Map::empty(),
            },
            frames: frames.deep_view().map_values(|frame: ReportFrameModel| apple_frame(frame)),
        }),
{
    let ghost model = frames.deep_view();
    let registers: StringMap<HexValue> = match registers {
        Some(registers) => report_registers(registers),
        None => {
            let none: StringMap<HexValue> = StringMap::new();
            assert(none.deep_view() =~= Map::empty());
            none
        },
    };
    let mut raw: Vec<RawFrame> = Vec::new();
    for frame in it: frames
        invariant
            model.len() == it.seq().len(),
            forall|i: int| 0 <= i < model.len() ==> #[trigger] model[i] == it.seq()[i].deep_view(),
            raw.len() == it.index(),
            forall|i: int|
                0 <= i < raw.len() ==> (#[trigger] raw@[i]).deep_view() == apple_frame(model[i]),
    {
        assert(model[raw.len() as int] == frame.deep_view());
        let mut raw_frame = RawFrame::default();
        raw_frame.instruction_addr = HexValue(frame.instruction_addr);
        raw_frame.package = frame.module;
        raw.push(raw_frame);
    }
    assert(raw.deep_view() =~= model.map_values(|frame: ReportFrameModel| apple_frame(frame)));
    RawStacktrace { registers, frames: raw }
}

/// The properties of a crash report as a map.
fn property_map(metadata: Vec<(String, String)>) -> (r: StringMap<String>)
    ensures
        r.deep_view() == inserted(metadata.deep_view()),
{
    let ghost model = metadata.deep_view();
    let mut properties: StringMap<String> = StringMap::new();
    assert(properties.deep_view() =~= inserted(model.take(0)));
    for entry in it: metadata
        invariant
            model.len() == it.seq().len(),
            forall|i: int| 0 <= i < model.len() ==> #[trigger] model[i] == it.seq()[i].deep_view(),
            properties.deep_view() == inserted(model.take(it.index())),
    {
        let (name, value) = entry;
        let ghost key = name@;
        let ghost text = value@;
        let ghost before = properties.deep_view();
        proof {
            let n = it.index();
            assert(model.take(n + 1).drop_last() =~= model.take(n));
            assert(model.take(n + 1).last() == model[n]);
        }
        properties.insert(name, value);
        assert(properties.deep_view() =~= before.insert(key, text));
    }
    assert(model.take(model.len() as int) =~= model);
    properties
}

/// Turns a crash report into a request.
pub fn report_request(
    head: ReportHead,
    arch: Arch,
    threads: Vec<ReportThread>,
    images: Vec<BinaryImage>,
    scope: Scope,
    sources: Vec<SourceConfig>,
) -> (r: (SymbolicateStacktraces, AppleCrashReportState))
    ensures
        r.0.deep_view() == request_of_report(
            threads.deep_view(),
            images.deep_view(),
            scope.deep_view(),
            sources.deep_view(),
        ),
        r.1.deep_view() == state_of_report(head.deep_view(), arch, threads.deep_view()),
{
    let ghost all_images = images.deep_view();
    let mut modules: Vec<CompleteObjectInfo> = Vec::new();
    for image in it: images
        invariant
            all_images.len() == it.seq().len(),
            forall|i: int|
                0 <= i < all_images.len() ==> #[trigger] all_images[i] == it.seq()[i].deep_view(),
            modules.len() == it.index(),
            forall|i: int|
                0 <= i < modules.len() ==> (#[trigger] modules@[i]).deep_view() == apple_object(
                    all_images[i],
                ),
    {
        assert(all_images[modules.len() as int] == image.deep_view());
        modules.push(map_apple_binary_image(image));
    }
    assert(modules.deep_view() =~= all_images.map_values(
        |image: BinaryImageModel| apple_object(image),
    ));
    let ghost model = threads.deep_view();
    let total: usize = threads.len();
    let mut stacktraces: Vec<RawStacktrace> = Vec::new();
    let mut crashed_thread_index: Option<usize> = None;
    let mut thread_ids: Vec<u64> = Vec::new();
    let mut index: usize = 0;
    for thread in it: threads
        invariant
            model.len() == it.seq().len() == total,
            forall|i: int| 0 <= i < model.len() ==> #[trigger] model[i] == it.seq()[i].deep_view(),
            index == it.index(),
            stacktraces.len() == index,
            thread_ids.len() == index,
            crashed_thread_index == last_crashed(model.take(index as int)),
            forall|i: int|
                0 <= i < stacktraces.len() ==> (#[trigger] stacktraces@[i]).deep_view()
                    == apple_stacktrace(model[i]),
            forall|i: int|
                0 <= i < thread_ids.len() ==> #[trigger] thread_ids@[i] == model[i].id,
    {
        proof {
            assert(model[index as int] == thread.deep_view());
            assert(model.take(index + 1).drop_last() =~= model.take(index as int));
            assert(model.take(index + 1).last() == model[index as int]);
        }
        if thread.crashed {
            crashed_thread_index = Some(index);
        }
        thread_ids.push(thread.id);
        stacktraces.push(report_stacktrace(thread.frames, thread.registers));
        index += 1;
    }
    assert(model.take(model.len() as int) =~= model);
    assert(stacktraces.deep_view() =~= model.map_values(
        |thread: ReportThreadModel| apple_stacktrace(thread),
    ));
    assert(thread_ids@ =~= model.map_values(|thread: ReportThreadModel| thread.id));
    let mut properties = property_map(head.metadata);
    let ghost known = properties.deep_view();
    proof {
        reveal_strlit("OS Version");
        reveal_strlit("Hardware Model");
        assert("OS Version"@.len() != "Hardware Model"@.len());
    }
    let os_name: String = match properties.remove("OS Version") {
        Some(text) => text,
        None => String::new(),
    };
    let device_model: String = match properties.remove("Hardware Model") {
        Some(text) => text,
        None => String::new(),
    };
    let mut system_info = SystemInfo::default();
    system_info.os_name = os_name;
    system_info.device_model = device_model;
    system_info.cpu_arch = arch;
    let state = AppleCrashReportState {
        timestamp: match head.timestamp {
            Some(seconds) => Some(seconds as u64),
            None => None,
        },
        system_info,
        app_info: head.application_specific_information,
        thread_ids,
        crashed_thread_index,
    };
    let request = SymbolicateStacktraces {
        scope,
        signal: None,
        sources: Arc::new(sources),
        stacktraces,
        modules,
    };
    (request, state)
}

/// Parses a crash report, and turns it into a request.
pub fn parse_apple_crash_report(data: &[u8], scope: Scope, sources: Vec<SourceConfig>) -> (r: Result<
    (SymbolicateStacktraces, AppleCrashReportState),
    SymbolicationError,
>)
    ensures
        match r {
            Ok((request, state)) => {
                &&& report_failure(data@) is None
                &&& request.deep_view().scope == scope.deep_view()
                &&& request.deep_view().sources == sources.deep_view()
                &&& request.deep_view().signal is None
                &&& request.deep_view().stacktraces.len() == report_threads(data@).len()
                &&& request.deep_view().modules.len() == report_images(data@).len()
                &&& state.deep_view().thread_ids.len() == report_threads(data@).len()
                &&& request.deep_view() == request_of_report(
                    report_threads(data@),
                    report_images(data@),
                    scope.deep_view(),
                    sources.deep_view(),
                )
                &&& state.deep_view() == state_of_report(
                    report_head(data@),
                    code_type_arch(report_head(data@).code_type),
                    report_threads(data@),
                )
            },
            Err(err) => {
                &&& report_failure(data@) is Some
                &&& err matches SymbolicationError::AppleCrashReport(err) && forall|text: String|
                 #[trigger]
                    vstd::string::to_string_from_display_ensures(&err, text) ==> Some(text@)
                        == report_failure(data@)
            },
        },
{
    let report = match parse_report(data) {
        Ok(report) => report,
        Err(err) => return Err(SymbolicationError::from(err)),
    };
    let head = read_head(&report);
    let arch: Arch = match &head.code_type {
        Some(text) => Arch::from_name(word_before_space(text.as_str())),
        None => Arch::Unknown,
    };
    let threads = read_threads(&report);
    let images = read_images(&report);
    Ok(report_request(head, arch, threads, images, scope, sources))
}

/// The result of symbolication, with what a crash report says of the process.
pub open spec fn merged_report(state: AppleModel, response: CompletedModel) -> CompletedModel {
    CompletedModel {
        timestamp: state.timestamp,
        signal: response.signal,
        system_info: Some(with_inferred_arch(state.system_info, response.modules)),
        crashed: Some(true),
        crash_reason: state.app_info,
        assertion: response.assertion,
        stacktraces: identified_threads(
            response.stacktraces,
            state.thread_ids,
            state.crashed_thread_index,
        ),
        modules: response.modules,
    }
}

/// Each thread of a crash report comes out of symbolication in its place, with its identifier and
/// its frames symbolicated. Only the last one that crashed is marked, where any did.
pub proof fn law_report_threads(
    head: ReportHeadModel,
    arch: Arch,
    threads: Seq<ReportThreadModel>,
    binary_images: Seq<BinaryImageModel>,
    scope: ScopeModel,
    sources: Seq<SourceModel>,
    images: Seq<ImageModel>,
)
    ensures
        ({
            let request = request_of_report(threads, binary_images, scope, sources);
            let response = merged_report(
                state_of_report(head, arch, threads),
                symbolicated(images, request.stacktraces, request.signal),
            );
            &&& response.stacktraces.len() == threads.len()
            &&& forall|i: int|
                #![trigger response.stacktraces[i]]
                0 <= i < threads.len() ==> {
                    &&& response.stacktraces[i].thread_id == Some(threads[i].id)
                    &&& response.stacktraces[i].frames == symbolized_thread(
                        apple_stacktrace(threads[i]),
                        images,
                        None,
                    ).frames
                    &&& response.stacktraces[i].is_requesting == (match last_crashed(threads) {
                        Some(index) => Some(index == i),
                        None => None,
                    })
                }
        }),
{
}

impl AppleCrashReportState {
    /// Adds what the crash report says of the process to the result of symbolication.
    pub fn merge_into(self, response: &mut CompletedSymbolicationResponse)
        ensures
            final(response).deep_view() == merged_report(
                self.deep_view(),
                old(response).deep_view(),
            ),
    {
        response.timestamp = self.timestamp;
        response.system_info = Some(infer_arch(self.system_info, &response.modules));
        response.crash_reason = self.app_info;
        response.crashed = Some(true);
        identify_threads(
            &mut response.stacktraces,
            &self.thread_ids,
            self.crashed_thread_index,
        );
    }
}

/// A crash report takes nothing away from the result of symbolication: modules, signal and
/// assertion stay as they are, and so do the stack traces but for the identifiers of their threads
/// and the mark of the crashed one.
pub proof fn law_report_keeps_symbolication(state: AppleModel, response: CompletedModel)
    ensures
        ({
            let merged = merged_report(state, response);
            &&& merged.modules == response.modules
            &&& merged.signal == response.signal
            &&& merged.assertion == response.assertion
            &&& merged.stacktraces.len() == response.stacktraces.len()
            &&& forall|i: int|
                #![trigger merged.stacktraces[i]]
                0 <= i < merged.stacktraces.len() ==> merged.stacktraces[i] == (StacktraceModel {
                    thread_id: merged.stacktraces[i].thread_id,
                    is_requesting: merged.stacktraces[i].is_requesting,
                    ..response.stacktraces[i]
                })
            &&& merged.timestamp == state.timestamp
            &&& merged.crash_reason == state.app_info
            &&& merged.crashed == Some(true)
            &&& merged.system_info is Some
        }),
{
}

/// What processing a crash report gives, given what came of parsing it and, where that worked, of
/// symbolication. The error of either is handed on. Otherwise what the crash report says of the
/// process is added to the result of symbolication.
pub fn finish_apple_crash_report(
    parsed: Result<
        (AppleCrashReportState, Result<CompletedSymbolicationResponse, SymbolicationError>),
        SymbolicationError,
    >,
) -> (r: Result<CompletedSymbolicationResponse, SymbolicationError>)
    ensures
        match parsed {
            Ok((state, Ok(response))) => r matches Ok(merged) && merged.deep_view()
                == merged_report(state.deep_view(), response.deep_view()),
            Ok((_, Err(err))) => r == Err::<CompletedSymbolicationResponse, _>(err),
            Err(err) => r == Err::<CompletedSymbolicationResponse, _>(err),
        },
{
    match parsed {
        Ok((state, Ok(response))) => {
            let mut response = response;
            state.merge_into(&mut response);
            Ok(response)
        },
        Ok((_, Err(err))) => Err(err),
        Err(err) => Err(err),
    }
}

} // verus!
