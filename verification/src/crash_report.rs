//! Apple crash reports: what the parser finds in them.

use apple_crash_report_parser::{AppleCrashReport, ParseError};
use vstd::prelude::*;

verus! {

/// What a crash report says of the process beside its threads and images.
#[derive(Clone, Debug, PartialEq)]
pub struct ReportHead {
    /// When the process crashed, in seconds since 1970.
    pub timestamp: Option<i64>,
    /// The architecture, with more behind its first word.
    pub code_type: Option<String>,
    /// What the application said of the crash.
    pub application_specific_information: Option<String>,
    /// Other properties.
    pub metadata: Vec<(String, String)>,
}

/// The model of a [`ReportHead`].
pub struct ReportHeadModel {
    pub timestamp: Option<i64>,
    pub code_type: Option<Seq<char>>,
    pub application_specific_information: Option<Seq<char>>,
    pub metadata: Seq<(Seq<char>, Seq<char>)>,
}

impl DeepView for ReportHead {
    type V = ReportHeadModel;

    open spec fn deep_view(&self) -> ReportHeadModel {
        ReportHeadModel {
            timestamp: self.timestamp,
            code_type: self.code_type.deep_view(),
            application_specific_information: self.application_specific_information.deep_view(),
            metadata: self.metadata.deep_view(),
        }
    }
}

/// A frame of a crash report.
#[derive(Clone, Debug, PartialEq)]
pub struct ReportFrame {
    /// The file that the instruction belongs to.
    pub module: Option<String>,
    /// The address of the instruction.
    pub instruction_addr: u64,
}

/// The model of a [`ReportFrame`].
pub struct ReportFrameModel {
    pub module: Option<Seq<char>>,
    pub instruction_addr: u64,
}

impl DeepView for ReportFrame {
    type V = ReportFrameModel;

    open spec fn deep_view(&self) -> ReportFrameModel {
        ReportFrameModel {
            module: self.module.deep_view(),
            instruction_addr: self.instruction_addr,
        }
    }
}

/// A thread of a crash report.
#[derive(Clone, Debug, PartialEq)]
pub struct ReportThread {
    /// The identifier of the thread.
    pub id: u64,
    /// Whether the thread crashed.
    pub crashed: bool,
    /// The frames, the innermost first.
    pub frames: Vec<ReportFrame>,
    /// The registers, where they are known.
    pub registers: Option<Vec<(String, u64)>>,
}

/// The model of a [`ReportThread`].
pub struct ReportThreadModel {
    pub id: u64,
    pub crashed: bool,
    pub frames: Seq<ReportFrameModel>,
    pub registers: Option<Seq<(Seq<char>, u64)>>,
}

impl DeepView for ReportThread {
    type V = ReportThreadModel;

    open spec fn deep_view(&self) -> ReportThreadModel {
        ReportThreadModel {
            id: self.id,
            crashed: self.crashed,
            frames: self.frames.deep_view(),
            registers: self.registers.deep_view(),
        }
    }
}

/// An image of a crash report.
#[derive(Clone, Debug, PartialEq)]
pub struct BinaryImage {
    /// The address at which the image is loaded.
    pub addr: u64,
    /// The size of the image, zero where it is not known.
    pub size: u64,
    /// The identifier of the image.
    pub uuid: [u8; 16],
    /// The path of the image.
    pub path: String,
}

/// The model of a [`BinaryImage`].
pub struct BinaryImageModel {
    pub addr: u64,
    pub size: u64,
    pub uuid: Seq<u8>,
    pub path: Seq<char>,
}

impl DeepView for BinaryImage {
    type V = BinaryImageModel;

    open spec fn deep_view(&self) -> BinaryImageModel {
        BinaryImageModel {
            addr: self.addr,
            size: self.size,
            uuid: self.uuid@,
            path: self.path@,
        }
    }
}

/// A parsed crash report.
#[verifier::external_type_specification]
#[verifier::external_body]
pub struct ExAppleCrashReport(apple_crash_report_parser::AppleCrashReport);

/// The bytes that a crash report was parsed from.
pub uninterp spec fn report_source(report: AppleCrashReport) -> Seq<u8>;

/// What the error says with which `apple_crash_report_parser` refuses bytes. None where the bytes
/// are a crash report.
pub uninterp spec fn report_failure(data: Seq<u8>) -> Option<Seq<char>>;

/// Calls `apple_crash_report_parser::AppleCrashReport::from_reader` on bytes. Claims that whether the
/// bytes are a crash report, and what the error says where they are not, depends on the bytes alone.
#[verifier::external_body]
pub(crate) fn parse_report(data: &[u8]) -> (r: Result<AppleCrashReport, ParseError>)
    ensures
        match r {
            Ok(report) => report_failure(data@) is None && report_source(report) == data@,
            Err(err) => report_failure(data@) is Some && forall|text: String| #[trigger]
                vstd::string::to_string_from_display_ensures(&err, text) ==> Some(text@)
                    == report_failure(data@),
        },
{
    AppleCrashReport::from_reader(data)
}

/// What `apple_crash_report_parser` reads of the process beside its threads and images.
pub uninterp spec fn report_head(data: Seq<u8>) -> ReportHeadModel;

/// Reads the fields of `apple_crash_report_parser::AppleCrashReport` that describe the process.
/// Claims that they depend on the bytes of the report alone.
#[verifier::external_body]
pub(crate) fn read_head(report: &AppleCrashReport) -> (r: ReportHead)
    ensures
        r.deep_view() == report_head(report_source(*report)),
{
    let metadata = report.metadata.clone().into_iter();
    ReportHead {
        timestamp: report.timestamp.map(|timestamp| timestamp.timestamp()),
        code_type: report.code_type.clone(),
        application_specific_information: report.application_specific_information.clone(),
        metadata: metadata.collect(),
    }
}

/// The threads that `apple_crash_report_parser` reads.
pub uninterp spec fn report_threads(data: Seq<u8>) -> Seq<ReportThreadModel>;

/// Reads the field `threads` of `apple_crash_report_parser::AppleCrashReport`, and describes each
/// thread with its frames and registers. Claims that the threads depend on the bytes of the report
/// alone.
#[verifier::external_body]
pub(crate) fn read_threads(report: &AppleCrashReport) -> (r: Vec<ReportThread>)
    ensures
        r.deep_view() == report_threads(report_source(*report)),
{
    let frame = |frame: &apple_crash_report_parser::Frame| ReportFrame {
        module: frame.module.clone(),
        instruction_addr: frame.instruction_addr.0,
    };
    let thread = |thread: &apple_crash_report_parser::Thread| ReportThread {
        id: thread.id,
        crashed: thread.crashed,
        frames: thread.frames.iter().map(frame).collect(),
        registers: thread.registers.as_ref().map(|registers| {
            registers.iter().map(|(name, addr)| (name.clone(), addr.0)).collect()
        }),
    };
    report.threads.iter().map(thread).collect()
}

/// The images that `apple_crash_report_parser` reads.
pub uninterp spec fn report_images(data: Seq<u8>) -> Seq<BinaryImageModel>;

/// Reads the field `binary_images` of `apple_crash_report_parser::AppleCrashReport`, and describes
/// each image. Claims that the images depend on the bytes of the report alone.
#[verifier::external_body]
pub(crate) fn read_images(report: &AppleCrashReport) -> (r: Vec<BinaryImage>)
    ensures
        r.deep_view() == report_images(report_source(*report)),
{
    let image = |image: &apple_crash_report_parser::BinaryImage| BinaryImage {
        addr: image.addr.0,
        size: image.size,
        uuid: *image.uuid.as_bytes(),
        path: image.path.clone(),
    };
    report.binary_images.iter().map(image).collect()
}

} // verus!
