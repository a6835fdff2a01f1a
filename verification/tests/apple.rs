use std::sync::Arc;

use symbolication::{
    checked_symbolicate, map_apple_binary_image, parse_apple_crash_report, report_request, Arch,
    BinaryImage, FilesystemSourceConfig, FrameStatus, FrameTrust, HexValue, ObjectFileStatus,
    ObjectType, ReportFrame, ReportHead, ReportThread, Scope, SourceConfig, SymCacheLookup,
    SymbolicationError, SymbolicationResponse,
};

const REPORT: &str = "\
Incident Identifier: 5C32DF84-31A0-43E7-87D0-239F7F594940
CrashReporter Key:   c0dec0dec0dec0dec0dec0dec0dec0dec0de0001
Hardware Model:      MacBookPro14,3
Process:             YetAnotherMac [49028]
Identifier:          com.YourCompany.YetAnotherMac
Code Type:           X86-64 (Native)
Date/Time:           2019-01-09 17:44:22 +0000
OS Version:          Mac OS X 10.14.0 (18A391)
Report Version:      104

Application Specific Information:
Attempted to dereference null pointer.

Thread 0 Crashed:
0   YetAnotherMac                   0x000000010864e4cd 0x10864d000 + 5325
1   AppKit                          0x00007fff42d81ac5 0x7fff42cd7000 + 699077
2   ???                             0x0000000000001234 0x1000 + 564

Thread 1:
0   libsystem_kernel.dylib          0x00007fff6bf9dc2a 0x7fff6bf87000 + 93226

Thread 0 crashed with X86-64 Thread State:
   rip: 0x000000010864e4cd    rbp: 0x00007ffee75b1630    rsp: 0x00007ffee75b1620

Binary Images:
       0x10864d000 -        0x10864ffff YetAnotherMac x86_64  (0) <2d903291397d3d14bff0c7ca1b6e1b3f> /Users/haza/YetAnotherMac
    0x7fff42cd7000 -     0x7fff42cd7000 AppKit x86_64  (1.0) <51efe6a1-7f41-36d9-a9b5-9a28d7a6d0e1> /System/AppKit
";

fn sources() -> Vec<SourceConfig> {
    vec![SourceConfig::Filesystem(FilesystemSourceConfig {
        id: "local".to_owned(),
        path: "./symbols/".to_owned(),
        files: vec!["pdb".to_owned(), "pe".to_owned()],
    })]
}

fn head() -> ReportHead {
    ReportHead {
        timestamp: Some(-1),
        code_type: None,
        application_specific_information: None,
        metadata: vec![],
    }
}

fn thread(id: u64, crashed: bool) -> ReportThread {
    ReportThread { id, crashed, frames: vec![], registers: None }
}

#[test]
fn images_become_objects() {
    let mut image = BinaryImage {
        addr: 0x1000,
        size: 0x20,
        uuid: [0x2d, 0x90, 0x32, 0x91, 0x39, 0x7d, 0x3d, 0x14, 0xbf, 0xf0, 0, 1, 2, 3, 4, 255],
        path: "/bin/app".to_owned(),
    };
    let info = map_apple_binary_image(image.clone());
    assert_eq!(info.raw.ty, ObjectType("macho".to_owned()));
    assert_eq!(info.raw.code_id.as_deref(), Some("2d903291397d3d14bff00001020304ff"));
    assert_eq!(info.raw.debug_id.as_deref(), Some("2d903291-397d-3d14-bff0-0001020304ff"));
    assert_eq!(info.raw.code_file.as_deref(), Some("/bin/app"));
    assert_eq!(info.raw.debug_file.as_deref(), Some("/bin/app"));
    assert_eq!(info.raw.image_addr, HexValue(0x1000));
    assert_eq!(info.raw.image_size, Some(0x20));
    assert_eq!(info.debug_status, ObjectFileStatus::Unused);
    assert_eq!(info.arch, Arch::Unknown);
    image.size = 0;
    assert_eq!(map_apple_binary_image(image).raw.image_size, None);
}

#[test]
fn crash_reports_become_requests() {
    let (request, state) =
        parse_apple_crash_report(REPORT.as_bytes(), Scope::Global, sources()).unwrap();
    assert_eq!(request.scope, Scope::Global);
    assert_eq!(request.signal, None);
    assert_eq!(request.sources, Arc::new(sources()));
    assert_eq!(request.modules.len(), 2);
    assert_eq!(request.modules[0].raw.image_addr, HexValue(0x1_0864_d000));
    assert_eq!(request.modules[0].raw.image_size, Some(0x2fff));
    assert_eq!(
        request.modules[0].raw.code_id.as_deref(),
        Some("2d903291397d3d14bff0c7ca1b6e1b3f")
    );
    assert_eq!(
        request.modules[1].raw.debug_id.as_deref(),
        Some("51efe6a1-7f41-36d9-a9b5-9a28d7a6d0e1")
    );
    assert_eq!(request.modules[1].raw.image_size, None);
    assert_eq!(request.stacktraces.len(), 2);
    let crashed = &request.stacktraces[0];
    assert_eq!(crashed.frames.len(), 3);
    assert_eq!(crashed.frames[0].instruction_addr, HexValue(0x1_0864_e4cd));
    assert_eq!(crashed.frames[0].package.as_deref(), Some("YetAnotherMac"));
    assert_eq!(crashed.frames[0].trust, FrameTrust::Unknown);
    assert_eq!(crashed.frames[2].package, None);
    assert_eq!(crashed.registers.get("rip"), Some(&HexValue(0x1_0864_e4cd)));
    assert_eq!(crashed.registers.entries().len(), 3);
    assert_eq!(request.stacktraces[1].registers.entries().len(), 0);
    assert_eq!(state.timestamp, Some(1_547_055_862));
    assert_eq!(state.system_info.os_name, "Mac OS X 10.14.0 (18A391)");
    assert_eq!(state.system_info.device_model, "MacBookPro14,3");
    assert_eq!(state.system_info.os_version, "");
    assert_eq!(state.app_info.as_deref(), Some("Attempted to dereference null pointer."));
    assert_eq!(state.thread_ids, vec![0, 1]);
    assert_eq!(state.crashed_thread_index, Some(0));
}

#[test]
fn the_first_word_of_the_code_type_is_the_architecture() {
    let arch = |code_type: &str| {
        let report = format!("Code Type:   {}\n", code_type);
        let (_, state) =
            parse_apple_crash_report(report.as_bytes(), Scope::Global, vec![]).unwrap();
        state.system_info.cpu_arch
    };
    assert_eq!(arch("arm64 (Native)"), Arch::Arm64);
    assert_eq!(arch("arm64"), Arch::Arm64);
    assert_eq!(arch("x86_64 more words"), Arch::Amd64);
    assert_eq!(arch("something else"), Arch::Unknown);
    let (_, state) = parse_apple_crash_report(b"", Scope::Global, vec![]).unwrap();
    assert_eq!(state.system_info.cpu_arch, Arch::Unknown);
    assert_eq!(state.timestamp, None);
    assert_eq!(state.system_info.os_name, "");
}

#[test]
fn the_last_crashed_thread_counts() {
    let index = |crashed: &[bool]| {
        let threads =
            crashed.iter().enumerate().map(|(i, crashed)| thread(i as u64, *crashed)).collect();
        let (_, state) =
            report_request(head(), Arch::Arm64, threads, vec![], Scope::Global, vec![]);
        state.crashed_thread_index
    };
    assert_eq!(index(&[]), None);
    assert_eq!(index(&[false, false]), None);
    assert_eq!(index(&[false, true, false]), Some(1));
    assert_eq!(index(&[true, false, true, false]), Some(2));
}

#[test]
fn report_properties_are_kept() {
    let mut head = head();
    head.metadata = vec![
        ("OS Version".to_owned(), "12".to_owned()),
        ("Hardware Model".to_owned(), "phone".to_owned()),
        ("Other".to_owned(), "thing".to_owned()),
    ];
    head.application_specific_information = Some("info".to_owned());
    let mut first = thread(40, true);
    first.frames = vec![ReportFrame { module: Some("m".to_owned()), instruction_addr: 9 }];
    first.registers = Some(vec![("pc".to_owned(), 9), ("pc".to_owned(), 10)]);
    let (request, state) =
        report_request(head, Arch::Arm64, vec![first], vec![], Scope::Global, sources());
    assert_eq!(state.timestamp, Some(u64::MAX));
    assert_eq!(state.system_info.os_name, "12");
    assert_eq!(state.system_info.device_model, "phone");
    assert_eq!(state.system_info.cpu_arch, Arch::Arm64);
    assert_eq!(state.app_info.as_deref(), Some("info"));
    assert_eq!(state.thread_ids, vec![40]);
    assert_eq!(request.stacktraces[0].frames[0].instruction_addr, HexValue(9));
    assert_eq!(request.stacktraces[0].frames[0].package.as_deref(), Some("m"));
    assert_eq!(request.stacktraces[0].registers.get("pc"), Some(&HexValue(10)));
}

#[test]
fn bytes_that_are_no_crash_report_are_refused() {
    let err =
        parse_apple_crash_report(b"Report Version: x\n", Scope::Global, vec![]).unwrap_err();
    assert_eq!(err.message(), "failed to parse apple crash report");
    assert!(matches!(err, SymbolicationError::AppleCrashReport(_)));
    match SymbolicationResponse::from(&err) {
        SymbolicationResponse::Failed { message } => assert_eq!(message, "invalid report version"),
        _ => panic!("expected a failure"),
    }
    let err = parse_apple_crash_report(b"\xff\xfe", Scope::Global, vec![]).unwrap_err();
    match SymbolicationResponse::from(&err) {
        SymbolicationResponse::Failed { message } => assert_eq!(message, "io error during parsing"),
        _ => panic!("expected a failure"),
    }
}

#[test]
fn report_threads_come_out_in_their_places() {
    let (request, state) =
        parse_apple_crash_report(REPORT.as_bytes(), Scope::Global, sources()).unwrap();
    let lookup = SymCacheLookup::from_iter(request.modules.clone());
    assert_eq!(lookup.symcaches_to_fetch(&request).len(), 2);
    let lookup = lookup.with_symcaches(vec![None, None]);
    let mut response =
        checked_symbolicate(lookup, request.stacktraces, request.signal).unwrap();
    state.merge_into(&mut response);
    assert_eq!(response.stacktraces.len(), 2);
    assert_eq!(response.stacktraces[0].thread_id, Some(0));
    assert_eq!(response.stacktraces[0].is_requesting, Some(true));
    assert_eq!(response.stacktraces[0].frames.len(), 3);
    assert_eq!(response.stacktraces[0].frames[2].status, FrameStatus::UnknownImage);
    assert_eq!(response.stacktraces[1].thread_id, Some(1));
    assert_eq!(response.stacktraces[1].is_requesting, Some(false));
    assert_eq!(
        response.crash_reason.as_deref(),
        Some("Attempted to dereference null pointer.")
    );
}
