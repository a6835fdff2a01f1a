use symbolication::{
    finish_apple_crash_report, finish_minidump, identify_threads, infer_arch, AppleCrashReportState,
    Arch, ChannelEvent, CompleteObjectInfo, CompleteStacktrace, CompletedSymbolicationResponse,
    GetSymbolicationStatus, HexValue, MinidumpState, ObjectType, RawObjectInfo, RequestId, Requests,
    StringMap, SymbolicationError, SymbolicationResponse, SystemInfo,
};

fn id(text: &str) -> RequestId {
    RequestId(text.to_owned())
}

fn poll(text: &str, timeout: Option<u64>) -> GetSymbolicationStatus {
    GetSymbolicationStatus { request_id: id(text), timeout }
}

fn table() -> Requests<u32> {
    let mut requests = Requests::new();
    requests.insert(id("a"), 1);
    requests.insert(id("b"), 2);
    requests
}

fn finished() -> ChannelEvent {
    ChannelEvent::Finished(SymbolicationResponse::Timeout)
}

#[test]
fn unknown_requests_have_no_channel() {
    let requests = table();
    assert_eq!(requests.get(&id("a")), Some(&1));
    assert_eq!(requests.get(&id("c")), None);
}

#[test]
fn taken_identifiers_are_not_accepted() {
    let requests = table();
    assert_eq!(requests.accept_id(id("a")), None);
    assert_eq!(requests.accept_id(id("c")), Some(id("c")));
}

#[test]
fn identifiers_are_random() {
    let mut requests = Requests::new();
    for i in 0..20u32 {
        let drawn = requests.draw_id().unwrap();
        let text = drawn.0.clone();
        assert_eq!(text.len(), 36);
        for (at, c) in text.chars().enumerate() {
            match at {
                8 | 13 | 18 | 23 => assert_eq!(c, '-'),
                14 => assert_eq!(c, '4'),
                19 => assert!("89ab".contains(c)),
                _ => assert!("0123456789abcdef".contains(c)),
            }
        }
        assert_eq!(requests.get(&drawn), None);
        requests.insert(drawn.clone(), i);
        assert_eq!(requests.get(&drawn), Some(&i));
        assert_eq!(requests.accept_id(drawn), None);
    }
}

#[test]
fn registered_requests_are_found() {
    let mut requests = table();
    for channel in 10..30 {
        let registered = requests.register(channel).unwrap();
        assert_eq!(registered.0.len(), 36);
        assert_eq!(requests.get(&registered), Some(&channel));
        assert_eq!(requests.accept_id(registered), None);
    }
    assert_eq!(requests.get(&id("a")), Some(&1));
    assert_eq!(requests.get(&id("b")), Some(&2));
}

#[test]
fn pending_requests_can_be_polled_again() {
    let mut requests = table();
    match requests.answer(poll("a", Some(5)), ChannelEvent::TimedOut).unwrap() {
        SymbolicationResponse::Pending { request_id, retry_after } => {
            assert_eq!(request_id, id("a"));
            assert_eq!(retry_after, 30);
        }
        _ => panic!("expected a pending response"),
    }
    assert_eq!(requests.get(&id("a")), Some(&1));
}

#[test]
fn responses_are_delivered_once() {
    for timeout in [None, Some(5)] {
        let mut requests = table();
        let answer = requests.answer(poll("a", timeout), finished()).unwrap();
        assert!(matches!(answer, SymbolicationResponse::Timeout));
        assert_eq!(requests.get(&id("a")), None);
        assert_eq!(requests.get(&id("b")), Some(&2));
    }
}

#[test]
fn canceled_requests_are_errors() {
    let mut requests = table();
    let err = requests.answer(poll("a", Some(5)), ChannelEvent::Canceled).unwrap_err();
    assert!(matches!(err, SymbolicationError::CanceledChannel));
    assert_eq!(requests.get(&id("a")), Some(&1));
    let err = requests.answer(poll("a", None), ChannelEvent::Canceled).unwrap_err();
    assert_eq!(err.message(), "response channel unexpectedly canceled");
    assert_eq!(requests.get(&id("a")), None);
}

fn response() -> CompletedSymbolicationResponse {
    CompletedSymbolicationResponse {
        timestamp: None,
        signal: None,
        system_info: None,
        crashed: None,
        crash_reason: None,
        assertion: Some("kept".to_owned()),
        stacktraces: vec![stacktrace(), stacktrace(), stacktrace()],
        modules: vec![module(Arch::Unknown), module(Arch::Arm64), module(Arch::X86)],
    }
}

fn stacktrace() -> CompleteStacktrace {
    CompleteStacktrace {
        thread_id: None,
        is_requesting: None,
        registers: StringMap::new(),
        frames: vec![],
    }
}

fn module(arch: Arch) -> CompleteObjectInfo {
    let mut info: CompleteObjectInfo = RawObjectInfo {
        ty: ObjectType("elf".to_owned()),
        code_id: None,
        code_file: None,
        debug_id: None,
        debug_file: None,
        image_addr: HexValue(0),
        image_size: None,
    }
    .into();
    info.arch = arch;
    info
}

#[test]
fn errors_are_answered() {
    let answer = |err: SymbolicationError| SymbolicationResponse::from(&err);
    assert!(matches!(answer(SymbolicationError::Timeout), SymbolicationResponse::Timeout));
    assert!(matches!(
        answer(SymbolicationError::CanceledChannel),
        SymbolicationResponse::InternalError
    ));
    let io = || std::io::Error::new(std::io::ErrorKind::Other, "disk on fire");
    assert_eq!(SymbolicationError::from(io()).message(), "internal IO failed: disk on fire");
    assert!(matches!(
        answer(SymbolicationError::from(io())),
        SymbolicationResponse::InternalError
    ));
    assert_eq!(SymbolicationError::Timeout.message(), "symbolication took too long");
    match SymbolicationResponse::from_result(Ok(response())) {
        SymbolicationResponse::Completed(done) => assert_eq!(done.modules.len(), 3),
        _ => panic!("expected a completed response"),
    }
    assert!(matches!(
        SymbolicationResponse::from_result(Err(SymbolicationError::Timeout)),
        SymbolicationResponse::Timeout
    ));
}

#[test]
fn unknown_architectures_are_inferred() {
    let mut system = SystemInfo::default();
    let modules = vec![module(Arch::Unknown), module(Arch::Arm64), module(Arch::X86)];
    assert_eq!(infer_arch(system.clone(), &modules).cpu_arch, Arch::Arm64);
    assert_eq!(infer_arch(system.clone(), &vec![]).cpu_arch, Arch::Unknown);
    system.cpu_arch = Arch::Amd64;
    assert_eq!(infer_arch(system, &modules).cpu_arch, Arch::Amd64);
}

#[test]
fn one_thread_is_the_requesting_one() {
    let mut stacktraces = vec![stacktrace(), stacktrace(), stacktrace()];
    identify_threads(&mut stacktraces, &vec![10, 20], Some(1));
    assert_eq!(stacktraces[0].thread_id, Some(10));
    assert_eq!(stacktraces[0].is_requesting, Some(false));
    assert_eq!(stacktraces[1].thread_id, Some(20));
    assert_eq!(stacktraces[1].is_requesting, Some(true));
    assert_eq!(stacktraces[2].thread_id, None);
    assert_eq!(stacktraces[2].is_requesting, None);
    identify_threads(&mut stacktraces, &vec![1, 2, 3, 4], None);
    assert_eq!(stacktraces[2].thread_id, Some(3));
    assert_eq!(stacktraces[1].is_requesting, None);
}

fn minidump_state() -> MinidumpState {
    MinidumpState {
        timestamp: 5,
        system_info: SystemInfo::default(),
        crashed: false,
        crash_reason: "reason".to_owned(),
        assertion: "failed".to_owned(),
        requesting_thread_index: Some(2),
        thread_ids: vec![7, 8, 9],
    }
}

fn report_state() -> AppleCrashReportState {
    AppleCrashReportState {
        timestamp: None,
        system_info: SystemInfo::default(),
        app_info: Some("info".to_owned()),
        thread_ids: vec![u64::MAX],
        crashed_thread_index: None,
    }
}

#[test]
fn errors_of_either_step_are_handed_on() {
    assert!(matches!(
        finish_minidump(Err(SymbolicationError::Timeout)),
        Err(SymbolicationError::Timeout)
    ));
    assert!(matches!(
        finish_minidump(Ok((minidump_state(), Err(SymbolicationError::CanceledChannel)))),
        Err(SymbolicationError::CanceledChannel)
    ));
    let done = finish_minidump(Ok((minidump_state(), Ok(response())))).unwrap();
    assert_eq!(done.timestamp, Some(5));
    assert_eq!(done.stacktraces[1].thread_id, Some(8));
    assert_eq!(done.modules.len(), 3);
    assert!(matches!(
        finish_apple_crash_report(Err(SymbolicationError::Timeout)),
        Err(SymbolicationError::Timeout)
    ));
    assert!(matches!(
        finish_apple_crash_report(Ok((report_state(), Err(SymbolicationError::CanceledChannel)))),
        Err(SymbolicationError::CanceledChannel)
    ));
    let done = finish_apple_crash_report(Ok((report_state(), Ok(response())))).unwrap();
    assert_eq!(done.crashed, Some(true));
    assert_eq!(done.stacktraces[0].thread_id, Some(u64::MAX));
}

#[test]
fn minidumps_are_merged() {
    let mut merged = response();
    minidump_state().merge_into(&mut merged);
    assert_eq!(merged.timestamp, Some(5));
    assert_eq!(merged.system_info.unwrap().cpu_arch, Arch::Arm64);
    assert_eq!(merged.crashed, Some(false));
    assert_eq!(merged.crash_reason.as_deref(), Some("reason"));
    assert_eq!(merged.assertion.as_deref(), Some("failed"));
    assert_eq!(merged.stacktraces[0].thread_id, Some(7));
    assert_eq!(merged.stacktraces[2].is_requesting, Some(true));
    assert_eq!(merged.modules.len(), 3);
}

#[test]
fn crash_reports_are_merged() {
    let mut merged = response();
    report_state().merge_into(&mut merged);
    assert_eq!(merged.timestamp, None);
    assert_eq!(merged.system_info.unwrap().cpu_arch, Arch::Arm64);
    assert_eq!(merged.crashed, Some(true));
    assert_eq!(merged.crash_reason.as_deref(), Some("info"));
    assert_eq!(merged.assertion.as_deref(), Some("kept"));
    assert_eq!(merged.stacktraces[0].thread_id, Some(u64::MAX));
    assert_eq!(merged.stacktraces[0].is_requesting, None);
    assert_eq!(merged.stacktraces[1].thread_id, None);
}
