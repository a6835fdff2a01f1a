use symbolication::{
    object_id_from_object_info, CodeId, DebugId, HexValue, ObjectType, RawObjectInfo,
};

fn object(code_id: Option<&str>, debug_id: Option<&str>) -> RawObjectInfo {
    RawObjectInfo {
        ty: ObjectType("elf".to_owned()),
        code_id: code_id.map(|id| id.to_owned()),
        code_file: Some("libfoo.so".to_owned()),
        debug_id: debug_id.map(|id| id.to_owned()),
        debug_file: Some("libfoo.debug".to_owned()),
        image_addr: HexValue(0),
        image_size: None,
    }
}

#[test]
fn files_are_taken_over() {
    let id = object_id_from_object_info(&object(None, None));
    assert_eq!(id.code_id, None);
    assert_eq!(id.debug_id, None);
    assert_eq!(id.code_file.as_deref(), Some("libfoo.so"));
    assert_eq!(id.debug_file.as_deref(), Some("libfoo.debug"));
}

#[test]
fn code_ids_are_lower_case_digits() {
    let code_id = |text| object_id_from_object_info(&object(Some(text), None)).code_id;
    assert_eq!(code_id("ABC-def 09"), Some(CodeId("abcdef09".to_owned())));
    assert_eq!(code_id(""), Some(CodeId(String::new())));
    assert_eq!(code_id("xyz"), Some(CodeId(String::new())));
}

#[test]
fn debug_ids_are_canonical() {
    let debug_id = |text| object_id_from_object_info(&object(None, Some(text))).debug_id;
    assert_eq!(
        debug_id("DFB8E43AF2423D73A453AEB6A777EF75"),
        Some(DebugId("dfb8e43a-f242-3d73-a453-aeb6a777ef75".to_owned()))
    );
    assert_eq!(
        debug_id("dfb8e43a-f242-3d73-a453-aeb6a777ef75-a"),
        Some(DebugId("dfb8e43a-f242-3d73-a453-aeb6a777ef75-a".to_owned()))
    );
    assert_eq!(debug_id("no debug id"), None);
    assert_eq!(debug_id(""), None);
}
