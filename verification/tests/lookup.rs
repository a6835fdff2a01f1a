use symbolication::{
    Arch, CompleteObjectInfo, HexValue, ObjectFileStatus, ObjectType, RawObjectInfo, SymCacheLookup,
};

fn image(name: &str, addr: u64, size: Option<u64>) -> CompleteObjectInfo {
    RawObjectInfo {
        ty: ObjectType("elf".to_owned()),
        code_id: None,
        debug_id: None,
        code_file: Some(name.to_owned()),
        debug_file: None,
        image_addr: HexValue(addr),
        image_size: size,
    }
    .into()
}

fn name_at(lookup: &SymCacheLookup, addr: u64) -> Option<String> {
    let (_, info, _) = lookup.lookup_symcache(addr)?;
    info.raw.code_file.clone()
}

fn names(lookup: SymCacheLookup) -> Vec<(String, u64, Option<u64>)> {
    lookup
        .into_modules()
        .into_iter()
        .map(|info| (info.raw.code_file.unwrap(), info.raw.image_addr.0, info.raw.image_size))
        .collect()
}

#[test]
fn test_symcache_lookup_open_end_addr() {
    // The Rust SDK and some other clients sometimes send zero-sized images when no end addr could
    // be determined. Symbolicator should still resolve such images.
    let info: CompleteObjectInfo = RawObjectInfo {
        ty: ObjectType(Default::default()),
        code_id: None,
        debug_id: None,
        code_file: None,
        debug_file: None,
        image_addr: HexValue(42),
        image_size: Some(0),
    }
    .into();

    let lookup = SymCacheLookup::from_iter(vec![info.clone()]);

    let (a, b, c) = lookup.lookup_symcache(43).unwrap();
    assert_eq!(a, 0);
    assert_eq!(b, &info);
    assert!(c.is_none());
}

#[test]
fn images_are_sorted_by_address() {
    let lookup = SymCacheLookup::from_iter(vec![
        image("c", 300, Some(10)),
        image("a", 100, Some(10)),
        image("b", 200, Some(10)),
    ]);
    assert_eq!(lookup.len(), 3);
    assert_eq!(
        names(lookup),
        vec![
            ("a".to_owned(), 100, Some(10)),
            ("b".to_owned(), 200, Some(10)),
            ("c".to_owned(), 300, Some(10)),
        ]
    );
}

#[test]
fn images_at_the_same_address_stay_in_order() {
    let lookup = SymCacheLookup::from_iter(vec![
        image("z", 100, Some(1)),
        image("low", 50, Some(1)),
        image("a", 100, Some(2)),
        image("m", 100, Some(3)),
    ]);
    let order: Vec<String> = names(lookup).into_iter().map(|entry| entry.0).collect();
    assert_eq!(order, vec!["low", "z", "a", "m"]);
}

#[test]
fn images_of_unknown_size_reach_up_to_the_next() {
    let lookup = SymCacheLookup::from_iter(vec![
        image("c", 300, None),
        image("a", 100, None),
        image("b", 150, Some(0)),
        image("known", 140, Some(5)),
    ]);
    assert_eq!(
        names(lookup),
        vec![
            ("a".to_owned(), 100, Some(40)),
            ("known".to_owned(), 140, Some(5)),
            ("b".to_owned(), 150, Some(150)),
            ("c".to_owned(), 300, None),
        ]
    );
}

#[test]
fn an_image_with_a_twin_at_its_address_keeps_no_size() {
    let lookup = SymCacheLookup::from_iter(vec![image("a", 100, None), image("b", 100, None)]);
    assert_eq!(
        names(lookup),
        vec![("a".to_owned(), 100, Some(0)), ("b".to_owned(), 100, None)]
    );
}

#[test]
fn sorting_twice_changes_nothing() {
    let mut lookup = SymCacheLookup::from_iter(vec![
        image("b", 200, None),
        image("a", 100, None),
        image("c", 200, Some(7)),
    ]);
    let before = lookup.get(0).0.clone();
    let middle = lookup.get(1).0.clone();
    lookup.sort();
    assert_eq!(lookup.get(0).0, &before);
    assert_eq!(lookup.get(1).0, &middle);
    assert_eq!(before.raw.image_size, Some(100));
    assert_eq!(middle.raw.image_size, Some(0));
}

#[test]
fn addresses_are_looked_up() {
    let lookup = SymCacheLookup::from_iter(vec![
        image("a", 100, Some(50)),
        image("b", 200, Some(50)),
    ]);
    assert_eq!(name_at(&lookup, 99), None);
    assert_eq!(name_at(&lookup, 100).unwrap(), "a");
    assert_eq!(name_at(&lookup, 149).unwrap(), "a");
    // The end of an image still counts as its own.
    assert_eq!(name_at(&lookup, 150).unwrap(), "a");
    assert_eq!(name_at(&lookup, 151), None);
    assert_eq!(name_at(&lookup, 250).unwrap(), "b");
    assert_eq!(name_at(&lookup, 251), None);
}

#[test]
fn the_first_of_overlapping_images_is_found() {
    let lookup = SymCacheLookup::from_iter(vec![
        image("outer", 100, Some(1000)),
        image("inner", 200, Some(10)),
    ]);
    assert_eq!(name_at(&lookup, 205).unwrap(), "outer");
}

#[test]
fn an_image_beyond_the_last_address_is_open_ended() {
    let lookup = SymCacheLookup::from_iter(vec![image("top", u64::MAX - 10, Some(100))]);
    assert_eq!(name_at(&lookup, u64::MAX).unwrap(), "top");
    assert_eq!(name_at(&lookup, u64::MAX - 11), None);
}

#[test]
fn no_images_hold_no_address() {
    let lookup = SymCacheLookup::from_iter(vec![]);
    assert_eq!(lookup.len(), 0);
    assert!(lookup.lookup_symcache(0).is_none());
}

#[test]
fn nothing_is_known_of_a_new_object() {
    let info = image("a", 1, Some(2));
    assert_eq!(info.debug_status, ObjectFileStatus::Unused);
    assert_eq!(info.unwind_status, None);
    assert_eq!(info.arch, Arch::Unknown);
}

#[test]
fn an_image_of_unknown_size_holds_addresses_up_to_the_next() {
    let lookup = SymCacheLookup::from_iter(vec![
        image("last", 900, Some(10)),
        image("unknown", 100, None),
        image("low", 10, Some(5)),
    ]);
    assert_eq!(name_at(&lookup, 50), None);
    assert_eq!(name_at(&lookup, 100).unwrap(), "unknown");
    assert_eq!(name_at(&lookup, 899).unwrap(), "unknown");
    assert_eq!(name_at(&lookup, 905).unwrap(), "last");
}
